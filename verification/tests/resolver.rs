use tagmv::planner::PlannedMove;
use tagmv::resolver::{
    candidate_chars, resolve_conflicts, resolve_conflicts_given, MAX_CONFLICT_ATTEMPTS,
};

fn planned(source: &str, dest: &str, folder: &str, file: &str) -> PlannedMove {
    PlannedMove {
        source: source.to_string(),
        dest: dest.to_string(),
        folder_name: folder.to_string(),
        file_name: file.to_string(),
    }
}

#[test]
fn resolve_conflicts_intra_batch() {
    let mut moves = vec![
        PlannedMove {
            source: "/a/file1.mp3".to_string(),
            dest: "/b/song.mp3".to_string(),
            folder_name: "folder".to_string(),
            file_name: "song.mp3".to_string(),
        },
        PlannedMove {
            source: "/a/file2.mp3".to_string(),
            dest: "/b/song.mp3".to_string(),
            folder_name: "folder".to_string(),
            file_name: "song.mp3".to_string(),
        },
    ];
    resolve_conflicts(&mut moves);
    assert_eq!(moves[0].file_name, "song.mp3");
    assert_eq!(moves[1].file_name, "song (1).mp3");
    assert_ne!(moves[0].dest, moves[1].dest);
}

#[test]
fn resolve_conflicts_already_in_place_skipped() {
    let same = "/music/Artist - Album/01 - Song.m4a".to_string();
    let mut moves = vec![PlannedMove {
        source: same.clone(),
        dest: same.clone(),
        folder_name: "Artist - Album".to_string(),
        file_name: "01 - Song.m4a".to_string(),
    }];
    resolve_conflicts(&mut moves);
    assert_eq!(moves[0].dest, same);
}

#[test]
fn resolve_conflicts_numbers_go_up() {
    let mut moves = vec![
        planned("/a/1.mp3", "/nowhere-b/song.mp3", "f", "song.mp3"),
        planned("/a/2.mp3", "/nowhere-b/song.mp3", "f", "song.mp3"),
        planned("/a/3.mp3", "/nowhere-b/song.mp3", "f", "song.mp3"),
        planned("/a/4.mp3", "/nowhere-b/other.mp3", "f", "other.mp3"),
        planned("/a/5.mp3", "/nowhere-b/song (1).mp3", "f", "song (1).mp3"),
    ];
    resolve_conflicts(&mut moves);
    assert_eq!(moves[0].dest, "/nowhere-b/song.mp3");
    assert_eq!(moves[1].dest, "/nowhere-b/song (1).mp3");
    assert_eq!(moves[2].dest, "/nowhere-b/song (2).mp3");
    assert_eq!(moves[2].file_name, "song (2).mp3");
    assert_eq!(moves[3].dest, "/nowhere-b/other.mp3");
    assert_eq!(moves[4].dest, "/nowhere-b/song (1) (1).mp3");
    assert_eq!(moves[4].file_name, "song (1) (1).mp3");
    for m in &moves {
        assert_eq!(m.folder_name, "f");
    }
    assert_eq!(moves[4].source, "/a/5.mp3");
}

#[test]
fn resolve_conflicts_in_place_entry_is_untouched_and_claims_nothing() {
    let mut moves = vec![
        planned("/nowhere-m/a.mp3", "/nowhere-m/a.mp3", "x", "stale name"),
        planned("/src/b.mp3", "/nowhere-m/a.mp3", "x", "a.mp3"),
    ];
    resolve_conflicts(&mut moves);
    assert_eq!(moves[0].dest, "/nowhere-m/a.mp3");
    assert_eq!(moves[0].file_name, "stale name");
    // nothing on disk and no claim: the second move keeps its destination
    assert_eq!(moves[1].dest, "/nowhere-m/a.mp3");
}

#[test]
fn resolve_conflicts_sees_other_spellings_of_a_path() {
    let mut moves = vec![
        planned("/a/1.mp3", "/nowhere-b/song.mp3", "f", "song.mp3"),
        planned("/a/2.mp3", "/nowhere-b//./song.mp3", "f", "song.mp3"),
        planned("/a/3.mp3", "/a/./3.mp3", "f", "3.mp3"),
    ];
    resolve_conflicts(&mut moves);
    assert_eq!(moves[0].dest, "/nowhere-b/song.mp3");
    assert_eq!(moves[1].dest, "/nowhere-b/song (1).mp3");
    // in place under another spelling
    assert_eq!(moves[2].dest, "/a/./3.mp3");
}

#[test]
fn resolve_conflicts_steps_aside_for_what_is_on_disk() {
    // the root of the file system tree holds a directory of this name
    let mut moves = vec![planned("/a/x", "/tmp", "f", "tmp"), planned("/a/y", "/tmp/", "f", "tmp")];
    resolve_conflicts(&mut moves);
    assert_eq!(moves[0].dest, "/tmp (1)");
    assert_eq!(moves[0].file_name, "tmp (1)");
    assert_eq!(moves[1].dest, "/tmp (2)");
}

#[test]
fn resolve_conflicts_without_extension_or_name() {
    let mut moves = vec![
        planned("/a/1", "/nowhere-b/README", "f", "README"),
        planned("/a/2", "/nowhere-b/README", "f", "README"),
        planned("/a/3", "/nowhere-b/.rc", "f", ".rc"),
        planned("/a/4", "/nowhere-b/.rc", "f", ".rc"),
        planned("/a/5", "/nowhere-b/a.", "f", "a."),
        planned("/a/6", "/nowhere-b/a.", "f", "a."),
        planned("/a/7", "/nowhere-b/x/..", "f", ".."),
        planned("/a/8", "/nowhere-b/x/..", "f", ".."),
    ];
    resolve_conflicts(&mut moves);
    assert_eq!(moves[1].dest, "/nowhere-b/README (1)");
    assert_eq!(moves[3].dest, "/nowhere-b/.rc (1)");
    assert_eq!(moves[5].dest, "/nowhere-b/a (1)");
    assert_eq!(moves[7].dest, "/nowhere-b/x/file (1)");
    assert_eq!(moves[7].file_name, "file (1)");
}

#[test]
fn resolve_conflicts_empty_batch() {
    let mut moves: Vec<PlannedMove> = Vec::new();
    resolve_conflicts(&mut moves);
    assert!(moves.is_empty());
}

#[test]
fn is_resolvable_wants_a_parent() {
    assert!(planned("/a", "/b/c", "", "").is_resolvable());
    assert!(planned("/a", "c", "", "").is_resolvable());
    assert!(!planned("/a", "/", "", "").is_resolvable());
    assert!(!planned("/a", "", "", "").is_resolvable());
    // in place: nothing to resolve
    assert!(planned("/", "/", "", "").is_resolvable());
    assert!(planned("/x/y", "/x//y/", "", "").is_in_place());
    assert!(!planned("/x/y", "/x/z", "", "").is_in_place());
}

#[test]
fn candidate_names() {
    let chars = |s: &str| s.chars().collect::<Vec<char>>();
    let text = |v: Vec<char>| v.into_iter().collect::<String>();
    assert_eq!(text(candidate_chars(&chars("/b/song.mp3"), 0)), "/b/song.mp3");
    assert_eq!(text(candidate_chars(&chars("/b/song.mp3"), 1)), "/b/song (1).mp3");
    assert_eq!(text(candidate_chars(&chars("/b/song.mp3"), 10)), "/b/song (10).mp3");
    assert_eq!(
        text(candidate_chars(&chars("/b/song.mp3"), MAX_CONFLICT_ATTEMPTS)),
        "/b/song (10000).mp3"
    );
    assert_eq!(text(candidate_chars(&chars("song.tar.gz"), 3)), "song.tar (3).gz");
    assert_eq!(text(candidate_chars(&chars("/song"), 2)), "/song (2)");
    assert_eq!(text(candidate_chars(&chars("/b//song.mp3/"), 1)), "/b/song (1).mp3");
    assert_eq!(MAX_CONFLICT_ATTEMPTS, 10_000);
}

#[test]
fn given_answers_stand_for_the_disk() {
    let mut moves = vec![
        planned("/a/1.mp3", "/b/song.mp3", "f", "song.mp3"),
        planned("/a/2.mp3", "/b/song.mp3", "f", "song.mp3"),
        planned("/a/3.mp3", "/b/free.mp3", "f", "free.mp3"),
    ];
    // the first destination and its first two numbered names are on disk;
    // for the second move the name with the number four is
    let answers = vec![vec![true, true, true], vec![false, false, false, false, true]];
    resolve_conflicts_given(&mut moves, &answers);
    assert_eq!(moves[0].dest, "/b/song (3).mp3");
    assert_eq!(moves[0].file_name, "song (3).mp3");
    // not told to be on disk, and not claimed: the second move keeps the name
    assert_eq!(moves[1].dest, "/b/song.mp3");
    assert_eq!(moves[1].file_name, "song.mp3");
    assert_eq!(moves[2].dest, "/b/free.mp3");
}

#[test]
fn given_answers_and_claims_add_up() {
    let mut moves = vec![
        planned("/a/1.mp3", "/b/song.mp3", "f", "song.mp3"),
        planned("/a/2.mp3", "/b/song.mp3", "f", "song.mp3"),
        planned("/a/3.mp3", "/b/song.mp3", "f", "song.mp3"),
    ];
    let answers = vec![vec![], vec![false, true], vec![false, false, false, true]];
    resolve_conflicts_given(&mut moves, &answers);
    assert_eq!(moves[0].dest, "/b/song.mp3");
    // claimed, then on disk, then free
    assert_eq!(moves[1].dest, "/b/song (2).mp3");
    // claimed, free by the disk and by the claims
    assert_eq!(moves[2].dest, "/b/song (1).mp3");
}

#[test]
fn given_answers_leave_in_place_moves_alone() {
    let mut moves = vec![
        planned("/b/song.mp3", "/b/song.mp3", "f", "song.mp3"),
        planned("/a/2.mp3", "/b/song.mp3", "f", "song.mp3"),
    ];
    let answers = vec![vec![true, true], vec![true]];
    resolve_conflicts_given(&mut moves, &answers);
    assert_eq!(moves[0].dest, "/b/song.mp3");
    assert_eq!(moves[1].dest, "/b/song (1).mp3");
}

#[test]
fn numbers_run_out_at_the_ceiling() {
    let mut moves = vec![
        planned("/a/1.mp3", "/b/song.mp3", "f", "song.mp3"),
        planned("/a/2.mp3", "/b/song.mp3", "f", "song.mp3"),
        planned("/a/3.mp3", "/b/song.mp3", "f", "song.mp3"),
    ];
    let full = vec![true; MAX_CONFLICT_ATTEMPTS as usize + 5];
    let mut nearly = vec![true; MAX_CONFLICT_ATTEMPTS as usize];
    nearly[MAX_CONFLICT_ATTEMPTS as usize - 1] = false;
    let answers = vec![full.clone(), nearly, full];
    resolve_conflicts_given(&mut moves, &answers);
    // every attempt was taken: the last name is kept unseen
    assert_eq!(moves[0].dest, "/b/song (10000).mp3");
    assert_eq!(moves[0].file_name, "song (10000).mp3");
    // the last attempt that is looked at is free
    assert_eq!(moves[1].dest, "/b/song (9999).mp3");
    // out of numbers again: the same name as the first, claimed or not
    assert_eq!(moves[2].dest, "/b/song (10000).mp3");
}
