use tagmv::text::{append_decimal, append_decimal_two_wide, chars_of, same_text, slice_of, string_of};

#[test]
fn chars_and_strings_round_trip() {
    for s in ["", "a", "Nørbak", "a b\tc", "日本語", "🎵 tune"] {
        let v = chars_of(s);
        assert_eq!(v, s.chars().collect::<Vec<char>>());
        assert_eq!(string_of(&v), s);
    }
}

#[test]
fn decimal_digits() {
    let dec = |n: u64| {
        let mut v = vec!['#'];
        append_decimal(&mut v, n as u128);
        v.into_iter().collect::<String>()
    };
    assert_eq!(dec(0), "#0");
    assert_eq!(dec(7), "#7");
    assert_eq!(dec(10), "#10");
    assert_eq!(dec(10_000), "#10000");
    assert_eq!(dec(u64::MAX), "#18446744073709551615");
    for n in [0u64, 1, 9, 10, 11, 99, 100, 101, 12345, 4294967295] {
        assert_eq!(dec(n), format!("#{}", n));
    }
}

#[test]
fn decimal_two_wide_digits() {
    let dec = |n: u64| {
        let mut v = Vec::new();
        append_decimal_two_wide(&mut v, n as u128);
        v.into_iter().collect::<String>()
    };
    for n in [0u64, 1, 9, 10, 11, 99, 100, 4294967295] {
        assert_eq!(dec(n), format!("{:02}", n));
    }
}

#[test]
fn slices_and_equality() {
    let v = chars_of("hello");
    assert_eq!(slice_of(&v, 1, 3), vec!['e', 'l']);
    assert_eq!(slice_of(&v, 0, 0), Vec::<char>::new());
    assert_eq!(slice_of(&v, 0, 5), v);
    assert!(same_text(&v, &chars_of("hello")));
    assert!(!same_text(&v, &chars_of("hellp")));
    assert!(!same_text(&v, &chars_of("hell")));
    assert!(same_text(&Vec::new(), &Vec::new()));
}
