use std::path::{Path, PathBuf};
use tagmv::path::{
    extension_of_chars, file_name_chars, join_chars, normalized_chars, parent_chars,
    same_path_chars, stem_of_chars,
};

fn chars(s: &str) -> Vec<char> {
    s.chars().collect()
}

fn text(v: Vec<char>) -> String {
    v.into_iter().collect()
}

fn samples() -> Vec<String> {
    let parts = ["", "/", ".", "..", "a", "b.c", ".h", "x.", "a b", "...", "//", "/.", "./", "../"];
    let mut out: Vec<String> = Vec::new();
    for a in parts {
        out.push(a.to_string());
        for b in parts {
            out.push(format!("{}{}", a, b));
            out.push(format!("{}/{}", a, b));
            for c in parts {
                out.push(format!("{}/{}/{}", a, b, c));
                out.push(format!("{}{}{}", a, b, c));
            }
        }
    }
    out
}

#[test]
fn file_name_matches_std() {
    for p in samples() {
        let want = Path::new(&p).file_name().map(|n| n.to_str().unwrap().to_string());
        assert_eq!(file_name_chars(&chars(&p)).map(text), want, "path {:?}", p);
    }
}

#[test]
fn parent_matches_std() {
    for p in samples() {
        let want = Path::new(&p).parent().map(|n| n.to_str().unwrap().to_string());
        assert_eq!(parent_chars(&chars(&p)).map(text), want, "path {:?}", p);
    }
}

#[test]
fn stem_and_extension_match_std() {
    for p in samples() {
        let path = Path::new(&p);
        if let Some(name) = path.file_name() {
            let name = name.to_str().unwrap();
            let stem = path.file_stem().map(|n| n.to_str().unwrap().to_string());
            let ext = path.extension().map(|n| n.to_str().unwrap().to_string());
            assert_eq!(Some(text(stem_of_chars(&chars(name)))), stem, "path {:?}", p);
            assert_eq!(extension_of_chars(&chars(name)).map(text), ext, "path {:?}", p);
        }
    }
}

#[test]
fn join_matches_std() {
    let all = samples();
    for a in all.iter().step_by(7) {
        for b in all.iter().step_by(5) {
            let want = Path::new(a).join(b);
            assert_eq!(text(join_chars(&chars(a), &chars(b))), want.to_str().unwrap(), "{:?} {:?}", a, b);
        }
    }
}

#[test]
fn same_path_matches_std() {
    let all = samples();
    for a in all.iter().step_by(3) {
        for b in all.iter().step_by(4) {
            let want = PathBuf::from(a) == PathBuf::from(b);
            assert_eq!(same_path_chars(&chars(a), &chars(b)), want, "{:?} {:?}", a, b);
        }
        assert!(same_path_chars(&chars(a), &chars(a)));
        // the plainest spelling names the same path, and is its own plainest spelling
        let plain = text(normalized_chars(&chars(a)));
        assert_eq!(PathBuf::from(a), PathBuf::from(&plain), "{:?}", a);
        assert_eq!(text(normalized_chars(&chars(&plain))), plain, "{:?}", a);
    }
}

#[test]
fn path_examples() {
    assert_eq!(file_name_chars(&chars("/dl/01 Song.m4a")).map(text).as_deref(), Some("01 Song.m4a"));
    assert_eq!(file_name_chars(&chars("/dl/x/")).map(text).as_deref(), Some("x"));
    assert_eq!(file_name_chars(&chars("/")), None);
    assert_eq!(parent_chars(&chars("/b/song.mp3")).map(text).as_deref(), Some("/b"));
    assert_eq!(parent_chars(&chars("/song.mp3")).map(text).as_deref(), Some("/"));
    assert_eq!(parent_chars(&chars("song.mp3")).map(text).as_deref(), Some(""));
    assert_eq!(parent_chars(&chars("")), None);
    assert_eq!(text(stem_of_chars(&chars("a.tar.gz"))), "a.tar");
    assert_eq!(extension_of_chars(&chars("a.tar.gz")).map(text).as_deref(), Some("gz"));
    assert_eq!(extension_of_chars(&chars(".rc")), None);
    assert_eq!(text(join_chars(&chars("/music"), &chars("A - B"))), "/music/A - B");
    assert_eq!(text(join_chars(&chars("/music/"), &chars("A - B"))), "/music/A - B");
    assert_eq!(text(join_chars(&chars("/music"), &chars("/abs"))), "/abs");
    assert_eq!(text(normalized_chars(&chars("/a//b/./c/"))), "/a/b/c");
    assert_eq!(text(normalized_chars(&chars("./a/../b"))), "./a/../b");
}

fn all_texts(alphabet: &[char], longest: usize) -> Vec<String> {
    let mut texts: Vec<String> = vec![String::new()];
    let mut layer: Vec<String> = vec![String::new()];
    for _ in 0..longest {
        let mut next = Vec::new();
        for t in &layer {
            for c in alphabet {
                let mut u = t.clone();
                u.push(*c);
                next.push(u);
            }
        }
        texts.extend(next.iter().cloned());
        layer = next;
    }
    texts
}

#[test]
fn every_short_path_has_the_parts_that_std_gives() {
    for p in all_texts(&['/', '.', 'a'], 8) {
        let path = Path::new(&p);
        let name = path.file_name().map(|n| n.to_str().unwrap().to_string());
        let dir = path.parent().map(|n| n.to_str().unwrap().to_string());
        assert_eq!(file_name_chars(&chars(&p)).map(text), name, "path {:?}", p);
        assert_eq!(parent_chars(&chars(&p)).map(text), dir, "path {:?}", p);
        if let Some(name) = name {
            let stem = path.file_stem().map(|n| n.to_str().unwrap().to_string());
            let ext = path.extension().map(|n| n.to_str().unwrap().to_string());
            assert_eq!(Some(text(stem_of_chars(&chars(&name)))), stem, "path {:?}", p);
            assert_eq!(extension_of_chars(&chars(&name)).map(text), ext, "path {:?}", p);
        }
    }
}

#[test]
fn every_two_short_paths_are_the_same_where_std_says_so() {
    let all = all_texts(&['/', '.', 'a'], 5);
    let plain: Vec<Vec<char>> = all.iter().map(|p| normalized_chars(&chars(p))).collect();
    let paths: Vec<PathBuf> = all.iter().map(PathBuf::from).collect();
    for (i, a) in all.iter().enumerate() {
        assert_eq!(normalized_chars(&plain[i]), plain[i], "path {:?}", a);
        for (j, b) in all.iter().enumerate() {
            assert_eq!(plain[i] == plain[j], paths[i] == paths[j], "paths {:?} {:?}", a, b);
            if (i + j) % 7 == 0 {
                assert_eq!(same_path_chars(&chars(a), &chars(b)), paths[i] == paths[j]);
                assert_eq!(
                    text(join_chars(&chars(a), &chars(b))),
                    paths[i].join(&paths[j]).to_str().unwrap(),
                    "paths {:?} {:?}",
                    a,
                    b
                );
            }
        }
    }
}
