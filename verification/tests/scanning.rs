use std::path::Path;
use tagmv::planner::PlannedMove;
use tagmv::scan::{descends_into, is_audio_file, is_hidden};
use tagmv::summary::{outcome_line, summarize, Summary};
use tagmv::text::{chars_of, contains};

#[test]
fn audio_files_by_extension() {
    for ext in ["mp3", "m4a", "flac", "ogg", "wma", "aac", "wav"] {
        assert!(is_audio_file(&format!("/music/song.{}", ext)));
        assert!(is_audio_file(&format!("/music/song.{}", ext.to_uppercase())));
    }
    assert!(is_audio_file("a.b.Mp3"));
    assert!(is_audio_file("rel/dir/x.FlAc/"));
    assert!(!is_audio_file("/music/song.txt"));
    assert!(!is_audio_file("/music/song"));
    assert!(!is_audio_file("/music/.mp3"));
    assert!(!is_audio_file("/music/song.mp3x"));
    assert!(!is_audio_file("/music/song.mp"));
    assert!(!is_audio_file("/music/mp3"));
    assert!(!is_audio_file("/music/song.mp3/.."));
    assert!(!is_audio_file(""));
}

#[test]
fn audio_files_agree_with_the_standard_library() {
    let list = ["mp3", "m4a", "flac", "ogg", "wma", "aac", "wav"];
    let names = [
        "a.mp3", "a.MP3", "a.Wav", "a.wma ", "a.ogg.", ".ogg", "a.FLAC", "a.fl\u{212a}c", "a.aac",
        "x/y.m4a", "x/y.M4A/", "a.\u{ff4d}p3", "a.WÄV", "a.m4a.bak", "..wav", "a..wav", "a. mp3",
    ];
    for n in names {
        let want = Path::new(n)
            .extension()
            .and_then(|e| e.to_str())
            .map(|e| list.contains(&e.to_lowercase().as_str()))
            .unwrap_or(false);
        assert_eq!(is_audio_file(n), want, "name {:?}", n);
    }
}

#[test]
fn hidden_names() {
    assert!(is_hidden(".git"));
    assert!(is_hidden("."));
    assert!(is_hidden(".hidden.mp3"));
    assert!(!is_hidden("song.mp3"));
    assert!(!is_hidden(""));
    assert!(!is_hidden("a.b"));
}

#[test]
fn folders_that_are_searched() {
    assert!(descends_into(".hidden", 0));
    assert!(descends_into("_Unsorted", 0));
    assert!(!descends_into(".hidden", 1));
    assert!(!descends_into("_Unsorted", 1));
    assert!(!descends_into("_Unsorted", 7));
    assert!(descends_into("_unsorted", 1));
    assert!(descends_into("Artist - Album", 2));
    assert!(descends_into("", 1));
}

fn planned(source: &str, dest: &str, folder: &str) -> PlannedMove {
    PlannedMove {
        source: source.to_string(),
        dest: dest.to_string(),
        folder_name: folder.to_string(),
        file_name: "n".to_string(),
    }
}

#[test]
fn summary_counts() {
    let moves = vec![
        planned("/d/1", "/m/A - B/1", "A - B"),
        planned("/d/2", "/m/A - B/2", "A - B"),
        planned("/d/3", "/m/C - D/3", "C - D"),
        planned("/d/4", "/m/_Unsorted/4", "_Unsorted"),
        planned("/m/E - F/5", "/m/E - F/5", "E - F"),
        planned("/m/_Unsorted/6", "/m/_Unsorted//6", "_Unsorted"),
        planned("/d/7", "/m/A - B/7", "A - B"),
    ];
    let s = summarize(&moves);
    assert_eq!(s, Summary { moved: 4, unsorted: 1, in_place: 2, folders: 3 });
    assert_eq!(s.line(), "Summary: 7 files -> 3 folders, 1 unsorted, 2 already in place");
    let s = summarize(&moves[..4]);
    assert_eq!(s, Summary { moved: 3, unsorted: 1, in_place: 0, folders: 2 });
    assert_eq!(s.line(), "Summary: 4 files -> 2 folders, 1 unsorted");
    let s = summarize(&[]);
    assert_eq!(s, Summary { moved: 0, unsorted: 0, in_place: 0, folders: 0 });
    assert_eq!(s.line(), "Summary: 0 files -> 0 folders, 0 unsorted");
    let big = Summary { moved: usize::MAX, unsorted: usize::MAX, in_place: 0, folders: 12 };
    assert_eq!(
        big.line(),
        format!("Summary: {} files -> 12 folders, {} unsorted", 2 * (usize::MAX as u128), usize::MAX)
    );
}

#[test]
fn outcome_lines() {
    assert_eq!(outcome_line(3, 0), "Moved 3 files successfully");
    assert_eq!(outcome_line(0, 0), "Moved 0 files successfully");
    assert_eq!(outcome_line(12, 1), "Moved 12 files successfully, 1 errors");
}

#[test]
fn substring_search() {
    let has = |h: &str, n: &str| contains(&chars_of(h), &chars_of(n));
    for (h, n) in [("abc", ""), ("", ""), ("abc", "abc"), ("abc", "bc"), ("abc", "ab"), ("aab", "ab"), ("abab", "bab")] {
        assert!(has(h, n), "{:?} {:?}", h, n);
    }
    for (h, n) in [("", "a"), ("abc", "abcd"), ("abc", "ac"), ("abc", "cb"), ("aaa", "ab")] {
        assert!(!has(h, n), "{:?} {:?}", h, n);
    }
}
