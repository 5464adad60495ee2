use tagmv::planner::{compute_destination, compute_unsorted_destination, TrackMetadata};

#[test]
fn compute_destination_full_tags() {
    let base = "/music";
    let source = "/downloads/01 Song.m4a";
    let meta = TrackMetadata {
        artist: "Artist".to_string(),
        album: "Album".to_string(),
        title: Some("Song Title".to_string()),
        track_number: Some(1),
    };
    let result = compute_destination(base, source, &meta);
    assert_eq!(result.folder_name, "Artist - Album");
    assert_eq!(result.file_name, "01 - Song Title.m4a");
    assert_eq!(result.dest, "/music/Artist - Album/01 - Song Title.m4a");
    assert_eq!(result.source, "/downloads/01 Song.m4a");
}

#[test]
fn compute_destination_no_track_number() {
    let base = "/music";
    let source = "/downloads/song.mp3";
    let meta = TrackMetadata {
        artist: "A".to_string(),
        album: "B".to_string(),
        title: Some("Title".to_string()),
        track_number: None,
    };
    let result = compute_destination(base, source, &meta);
    assert_eq!(result.file_name, "Title.mp3");
}

#[test]
fn compute_destination_no_title_uses_stem() {
    let base = "/music";
    let source = "/downloads/03 Original Name.flac";
    let meta = TrackMetadata {
        artist: "X".to_string(),
        album: "Y".to_string(),
        title: None,
        track_number: Some(3),
    };
    let result = compute_destination(base, source, &meta);
    assert_eq!(result.file_name, "03 - 03 Original Name.flac");
}

#[test]
fn compute_destination_special_chars_in_artist() {
    let base = "/music";
    let source = "/downloads/song.m4a";
    let meta = TrackMetadata {
        artist: "AC/DC".to_string(),
        album: "Back in Black".to_string(),
        title: Some("Hells Bells".to_string()),
        track_number: Some(1),
    };
    let result = compute_destination(base, source, &meta);
    assert_eq!(result.folder_name, "AC-DC - Back in Black");
}

#[test]
fn compute_unsorted_preserves_filename() {
    let base = "/music";
    let source = "/downloads/weird file.m4a";
    let result = compute_unsorted_destination(base, source);
    assert_eq!(result.folder_name, "_Unsorted");
    assert_eq!(result.file_name, "weird file.m4a");
    assert_eq!(result.dest, "/music/_Unsorted/weird file.m4a");
}

fn meta(title: Option<&str>, track: Option<u32>) -> TrackMetadata {
    TrackMetadata {
        artist: "A".to_string(),
        album: "B".to_string(),
        title: title.map(String::from),
        track_number: track,
    }
}

#[test]
fn compute_destination_pads_track_to_two_digits() {
    assert_eq!(compute_destination("/m", "/d/x.mp3", &meta(Some("T"), Some(0))).file_name, "00 - T.mp3");
    assert_eq!(compute_destination("/m", "/d/x.mp3", &meta(Some("T"), Some(9))).file_name, "09 - T.mp3");
    assert_eq!(compute_destination("/m", "/d/x.mp3", &meta(Some("T"), Some(10))).file_name, "10 - T.mp3");
    assert_eq!(compute_destination("/m", "/d/x.mp3", &meta(Some("T"), Some(123))).file_name, "123 - T.mp3");
    assert_eq!(
        compute_destination("/m", "/d/x.mp3", &meta(Some("T"), Some(u32::MAX))).file_name,
        "4294967295 - T.mp3"
    );
}

#[test]
fn compute_destination_extension_edge_cases() {
    // no extension: the dot stays
    assert_eq!(compute_destination("/m", "/d/song", &meta(Some("T"), None)).file_name, "T.");
    // a name that is an extension only
    assert_eq!(compute_destination("/m", "/d/.hidden", &meta(Some("T"), None)).file_name, "T.hidden");
    assert_eq!(compute_destination("/m", "/d/.hidden", &meta(None, None)).file_name, ".hidden.hidden");
    // the last dot counts
    assert_eq!(compute_destination("/m", "/d/a.tar.gz", &meta(None, Some(2))).file_name, "02 - a.tar.gz");
    // a name that ends in a dot has an empty extension
    assert_eq!(compute_destination("/m", "/d/a.", &meta(None, None)).file_name, "a.");
    // no file name at all
    assert_eq!(compute_destination("/m", "/", &meta(None, None)).file_name, "Unknown.");
    assert_eq!(compute_destination("/m", "/d/..", &meta(None, None)).file_name, "Unknown.");
}

#[test]
fn compute_destination_title_is_sanitized_but_stem_is_not() {
    assert_eq!(compute_destination("/m", "/d/x.mp3", &meta(Some("a: b?"), None)).file_name, "a b.mp3");
    assert_eq!(compute_destination("/m", "/d/a: b?.mp3", &meta(None, None)).file_name, "a: b?.mp3");
    assert_eq!(compute_destination("/m", "/d/x.mp3", &meta(Some(""), None)).file_name, "Unknown.mp3");
}

#[test]
fn compute_destination_joins_under_base() {
    let m = meta(Some("T"), Some(1));
    assert_eq!(compute_destination("/music/", "/d/x.mp3", &m).dest, "/music/A - B/01 - T.mp3");
    assert_eq!(compute_destination("", "/d/x.mp3", &m).dest, "A - B/01 - T.mp3");
    assert_eq!(compute_destination("/", "/d/x.mp3", &m).dest, "/A - B/01 - T.mp3");
    assert_eq!(compute_destination("rel", "/d/x.mp3", &m).dest, "rel/A - B/01 - T.mp3");
}

#[test]
fn compute_destination_empty_artist_or_album() {
    let m = TrackMetadata {
        artist: "".to_string(),
        album: "  ".to_string(),
        title: Some("T".to_string()),
        track_number: None,
    };
    assert_eq!(compute_destination("/m", "/d/x.mp3", &m).folder_name, "Unknown - Unknown");
}

#[test]
fn compute_unsorted_without_a_file_name() {
    let r = compute_unsorted_destination("/music", "/");
    assert_eq!(r.file_name, "unknown");
    assert_eq!(r.dest, "/music/_Unsorted/unknown");
    let r = compute_unsorted_destination("/music", "/dl/x/..");
    assert_eq!(r.file_name, "unknown");
    let r = compute_unsorted_destination("/music", "/dl/odd: name?.m4a/");
    assert_eq!(r.file_name, "odd: name?.m4a");
}

#[test]
fn from_tags_needs_artist_and_album() {
    let s = |t: &str| Some(t.to_string());
    assert!(TrackMetadata::from_tags(None, s("B"), s("T"), Some(1)).is_none());
    assert!(TrackMetadata::from_tags(s("A"), None, s("T"), Some(1)).is_none());
    assert!(TrackMetadata::from_tags(s(""), s("B"), s("T"), Some(1)).is_none());
    assert!(TrackMetadata::from_tags(s("A"), s(""), s("T"), Some(1)).is_none());
    let m = TrackMetadata::from_tags(s("A"), s("B"), s("T"), Some(7)).unwrap();
    assert_eq!(m.artist, "A");
    assert_eq!(m.album, "B");
    assert_eq!(m.title.as_deref(), Some("T"));
    assert_eq!(m.track_number, Some(7));
    let m = TrackMetadata::from_tags(s("A"), s("B"), s(""), None).unwrap();
    assert_eq!(m.title, None);
    assert_eq!(m.track_number, None);
    let m = TrackMetadata::from_tags(s(" "), s("B"), None, None).unwrap();
    assert_eq!(m.artist, " ");
    assert_eq!(m.title, None);
}

#[test]
fn compute_destination_names_folder_file_and_dest() {
    let meta = TrackMetadata {
        artist: "Artist".to_string(),
        album: "Album".to_string(),
        title: Some("Song Title".to_string()),
        track_number: Some(1),
    };
    let result = compute_destination("/music", "/dl/01 Song.m4a", &meta);
    assert_eq!(result.folder_name, "Artist - Album");
    assert_eq!(result.file_name, "01 - Song Title.m4a");
    assert_eq!(result.dest, "/music/Artist - Album/01 - Song Title.m4a");
}

#[test]
fn compute_unsorted_keeps_the_name() {
    let result = compute_unsorted_destination("/music", "/dl/weird file.m4a");
    assert_eq!(result.folder_name, "_Unsorted");
    assert_eq!(result.file_name, "weird file.m4a");
    assert_eq!(result.source, "/dl/weird file.m4a");
}
