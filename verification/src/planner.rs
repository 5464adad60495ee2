//! What is known of a track, and where its file is to go.

use vstd::prelude::*;
use crate::path::{
    after_last_dot,
    after_last_dot_chars,
    extension_of_chars,
    file_name,
    file_name_chars,
    file_stem,
    join,
    join_chars,
    stem_of_chars,
};
use crate::sanitize::{sanitize_chars, sanitized, unknown};
use crate::text::{
    append,
    append_decimal_two_wide,
    append_str,
    chars_of,
    decimal_two_wide,
    string_of,
};

verus! {

/// What the tags of an audio file say of the track.
#[derive(Debug)]
pub struct TrackMetadata {
    pub artist: String,
    pub album: String,
    pub title: Option<String>,
    pub track_number: Option<u32>,
}

/// A [`TrackMetadata`] as text and numbers.
pub struct TrackView {
    pub artist: Seq<char>,
    pub album: Seq<char>,
    pub title: Option<Seq<char>>,
    pub track_number: Option<u32>,
}

impl View for TrackMetadata {
    type V = TrackView;

    open spec fn view(&self) -> TrackView {
        TrackView {
            artist: self.artist@,
            album: self.album@,
            title: match self.title {
                Some(t) => Some(t@),
                None => None,
            },
            track_number: self.track_number,
        }
    }
}

/// One file that is to be moved, and where to.
#[derive(Debug)]
pub struct PlannedMove {
    /// Where the file is.
    pub source: String,
    /// Where the file is to go.
    pub dest: String,
    /// The folder under the sort root that `dest` lies in.
    pub folder_name: String,
    /// The last component of `dest`.
    pub file_name: String,
}

/// A [`PlannedMove`] as text.
pub struct MoveView {
    pub source: Seq<char>,
    pub dest: Seq<char>,
    pub folder_name: Seq<char>,
    pub file_name: Seq<char>,
}

impl View for PlannedMove {
    type V = MoveView;

    open spec fn view(&self) -> MoveView {
        MoveView {
            source: self.source@,
            dest: self.dest@,
            folder_name: self.folder_name@,
            file_name: self.file_name@,
        }
    }
}

impl MoveView {
    /// Whether the file is where it is to go already, so that nothing is
    /// left to do.
    pub open spec fn in_place(self) -> bool {
        crate::path::same_path(self.source, self.dest)
    }
}

/// The text of `s`, where there is one.
pub open spec fn text_of(s: Option<String>) -> Option<Seq<char>> {
    match s {
        Some(t) => Some(t@),
        None => None,
    }
}

/// What the tags say of a track, if they say enough: both the artist and the
/// album must be there and not empty. An empty title counts as none.
pub open spec fn tagged(
    artist: Option<Seq<char>>,
    album: Option<Seq<char>>,
    title: Option<Seq<char>>,
    track_number: Option<u32>,
) -> Option<TrackView> {
    if artist is Some && album is Some && artist->0.len() > 0 && album->0.len() > 0 {
        Some(
            TrackView {
                artist: artist->0,
                album: album->0,
                title: if title is Some && title->0.len() > 0 {
                    title
                } else {
                    None
                },
                track_number,
            },
        )
    } else {
        None
    }
}

impl TrackMetadata {
    /// The metadata of a track whose tags hold these values, as [`tagged`]
    /// defines it. A file whose tags do not say enough has none and is left
    /// unsorted.
    pub fn from_tags(
        artist: Option<String>,
        album: Option<String>,
        title: Option<String>,
        track_number: Option<u32>,
    ) -> (r: Option<TrackMetadata>)
        ensures
            match r {
                Some(m) => tagged(text_of(artist), text_of(album), text_of(title), track_number)
                    == Some(m@),
                None => tagged(text_of(artist), text_of(album), text_of(title), track_number)
                    is None,
            },
    {
        let artist = match artist {
            Some(a) => a,
            None => {
                return None;
            },
        };
        let album = match album {
            Some(a) => a,
            None => {
                return None;
            },
        };
        if artist.as_str().is_empty() || album.as_str().is_empty() {
            return None;
        }
        let title = match title {
            Some(t) => if t.as_str().is_empty() {
                None
            } else {
                Some(t)
            },
            None => None,
        };
        Some(TrackMetadata { artist, album, title, track_number })
    }
}

/// The folder for a track by `artist` on `album`.
pub open spec fn folder_of(artist: Seq<char>, album: Seq<char>) -> Seq<char> {
    sanitized(artist) + " - "@ + sanitized(album)
}

/// The extension that the file at `source` keeps: what follows the last `.`
/// of its file name, and nothing where the name has no `.` or there is no
/// name.
pub open spec fn kept_extension(source: Seq<char>) -> Seq<char> {
    match file_name(source) {
        Some(name) => after_last_dot(name),
        None => Seq::empty(),
    }
}

/// The title that a file is named by: the safe form of the title in its
/// tags, or the stem of the file at `source` as it stands where the tags
/// hold no title.
pub open spec fn title_of(title: Option<Seq<char>>, source: Seq<char>) -> Seq<char> {
    match title {
        Some(t) => sanitized(t),
        None => match file_stem(source) {
            Some(stem) => stem,
            None => unknown(),
        },
    }
}

/// The file name `NN - title.ext`, or `title.ext` where the track has no
/// number.
pub open spec fn file_name_of(track_number: Option<u32>, title: Seq<char>, ext: Seq<char>) -> Seq<
    char,
> {
    match track_number {
        Some(n) => decimal_two_wide(n as nat) + " - "@ + title + "."@ + ext,
        None => title + "."@ + ext,
    }
}

/// The move with this source, folder and file name under `base`.
pub open spec fn placed(
    base: Seq<char>,
    source: Seq<char>,
    folder_name: Seq<char>,
    file_name: Seq<char>,
) -> MoveView {
    MoveView { source, dest: join(join(base, folder_name), file_name), folder_name, file_name }
}

/// Where the file at `source` goes under `base`, given what its tags say.
pub open spec fn planned(base: Seq<char>, source: Seq<char>, meta: TrackView) -> MoveView {
    placed(
        base,
        source,
        folder_of(meta.artist, meta.album),
        file_name_of(meta.track_number, title_of(meta.title, source), kept_extension(source)),
    )
}

/// Where the file at `source` goes under `base` when nothing is known of
/// it: into `_Unsorted`, under the name that it has.
pub open spec fn planned_unsorted(base: Seq<char>, source: Seq<char>) -> MoveView {
    placed(
        base,
        source,
        "_Unsorted"@,
        match file_name(source) {
            Some(name) => name,
            None => "unknown"@,
        },
    )
}

fn place(base: &Vec<char>, source: &str, folder_name: &Vec<char>, file_name: &Vec<char>) -> (r:
    PlannedMove)
    ensures
        r@ == placed(base@, source@, folder_name@, file_name@),
{
    let dir = join_chars(base, folder_name);
    let dest = join_chars(&dir, file_name);
    let source_chars = chars_of(source);
    PlannedMove {
        source: string_of(&source_chars),
        dest: string_of(&dest),
        folder_name: string_of(folder_name),
        file_name: string_of(file_name),
    }
}

/// Plans the move of the file at `source` into the folder of its artist and
/// album under `base_dir`, named by its track number and title.
pub fn compute_destination(base_dir: &str, source: &str, meta: &TrackMetadata) -> (r: PlannedMove)
    ensures
        r@ == planned(base_dir@, source@, meta@),
{
    let base = chars_of(base_dir);
    let source_chars = chars_of(source);
    let artist = sanitize_chars(&chars_of(meta.artist.as_str()));
    let album = sanitize_chars(&chars_of(meta.album.as_str()));
    let mut folder_name: Vec<char> = Vec::new();
    append(&mut folder_name, &artist);
    append_str(&mut folder_name, " - ");
    append(&mut folder_name, &album);

    let name = file_name_chars(&source_chars);
    let ext = match &name {
        Some(n) => match extension_of_chars(n) {
            Some(e) => e,
            None => after_last_dot_chars(n),
        },
        None => Vec::new(),
    };
    let title = match &meta.title {
        Some(t) => sanitize_chars(&chars_of(t.as_str())),
        None => match &name {
            Some(n) => stem_of_chars(n),
            None => {
                let u = chars_of("Unknown");
                proof {
                    reveal_strlit("Unknown");
                    assert(u@ == unknown());
                }
                u
            },
        },
    };
    let mut file_name: Vec<char> = Vec::new();
    match meta.track_number {
        Some(n) => {
            append_decimal_two_wide(&mut file_name, n as u128);
            append_str(&mut file_name, " - ");
        },
        None => {},
    }
    append(&mut file_name, &title);
    append_str(&mut file_name, ".");
    append(&mut file_name, &ext);
    proof {
        assert(Seq::<char>::empty() + title@ == title@);
    }
    place(&base, source, &folder_name, &file_name)
}

/// Plans the move of the file at `source`, of which nothing is known, into
/// `_Unsorted` under `base_dir`. The file keeps its name.
pub fn compute_unsorted_destination(base_dir: &str, source: &str) -> (r: PlannedMove)
    ensures
        r@ == planned_unsorted(base_dir@, source@),
{
    let base = chars_of(base_dir);
    let source_chars = chars_of(source);
    let file_name = match file_name_chars(&source_chars) {
        Some(name) => name,
        None => chars_of("unknown"),
    };
    let folder_name = chars_of("_Unsorted");
    place(&base, source, &folder_name, &file_name)
}

} // verus!
