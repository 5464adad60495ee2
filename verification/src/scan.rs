//! Which files and folders the sorter looks at.

use vstd::prelude::*;
use crate::path::{extension, extension_of_chars, file_name_chars};
use crate::text::{chars_of, same_text};

verus! {

/// `c` as a small letter where it is one of `A` to `Z`, else `c` itself.
pub open spec fn ascii_lower(c: char) -> char {
    if 'A' <= c <= 'Z' {
        ((c as u32) + 32) as char
    } else {
        c
    }
}

/// `s` with its letters `A` to `Z` as small letters.
pub open spec fn lower(s: Seq<char>) -> Seq<char> {
    Seq::new(s.len(), |i: int| ascii_lower(s[i]))
}

/// Whether files with the extension `ext` hold audio: `ext` is one of
/// `mp3`, `m4a`, `flac`, `ogg`, `wma`, `aac` and `wav`, in small or capital
/// letters.
pub open spec fn is_audio_extension(ext: Seq<char>) -> bool {
    let e = lower(ext);
    ||| e == "mp3"@
    ||| e == "m4a"@
    ||| e == "flac"@
    ||| e == "ogg"@
    ||| e == "wma"@
    ||| e == "aac"@
    ||| e == "wav"@
}

/// Whether the file at `path` holds audio, going by its extension.
pub open spec fn is_audio_path(path: Seq<char>) -> bool {
    match extension(path) {
        Some(ext) => is_audio_extension(ext),
        None => false,
    }
}

/// Whether a file or folder of this name is hidden: the name begins with a
/// dot.
pub open spec fn is_hidden_name(name: Seq<char>) -> bool {
    name.len() > 0 && name[0] == '.'
}

/// Whether the search goes down into the folder `name` that it meets
/// `depth` levels below where it began: always into the folder where it
/// began, and below that into every folder that is neither hidden nor
/// `_Unsorted`.
pub open spec fn is_searched(name: Seq<char>, depth: nat) -> bool {
    depth == 0 || (!is_hidden_name(name) && name != "_Unsorted"@)
}

fn lower_char(c: char) -> (r: char)
    ensures
        r == ascii_lower(c),
{
    if 'A' <= c && c <= 'Z' {
        ((c as u8) + 32) as char
    } else {
        c
    }
}

fn lower_chars(s: &Vec<char>) -> (r: Vec<char>)
    ensures
        r@ == lower(s@),
{
    let mut r: Vec<char> = Vec::new();
    let mut i: usize = 0;
    while i < s.len()
        invariant
            i <= s.len(),
            r@ == lower(s@.take(i as int)),
        decreases s.len() - i,
    {
        r.push(lower_char(s[i]));
        proof {
            assert(r@ =~= lower(s@.take(i + 1)));
        }
        i = i + 1;
    }
    proof {
        assert(s@.take(s.len() as int) == s@);
    }
    r
}

/// Whether the file at `path` holds audio, going by its extension.
pub fn is_audio_file(path: &str) -> (r: bool)
    ensures
        r == is_audio_path(path@),
{
    let name = match file_name_chars(&chars_of(path)) {
        Some(n) => n,
        None => {
            return false;
        },
    };
    let ext = match extension_of_chars(&name) {
        Some(e) => e,
        None => {
            return false;
        },
    };
    let e = lower_chars(&ext);
    same_text(&e, &chars_of("mp3")) || same_text(&e, &chars_of("m4a")) || same_text(
        &e,
        &chars_of("flac"),
    ) || same_text(&e, &chars_of("ogg")) || same_text(&e, &chars_of("wma")) || same_text(
        &e,
        &chars_of("aac"),
    ) || same_text(&e, &chars_of("wav"))
}

/// Whether a file or folder of this name is hidden.
pub fn is_hidden(name: &str) -> (r: bool)
    ensures
        r == is_hidden_name(name@),
{
    let n = chars_of(name);
    n.len() > 0 && n[0] == '.'
}

/// Whether the search goes down into the folder `name` that it meets
/// `depth` levels below where it began.
pub fn descends_into(name: &str, depth: usize) -> (r: bool)
    ensures
        r == is_searched(name@, depth as nat),
{
    if depth == 0 {
        return true;
    }
    let n = chars_of(name);
    !(n.len() > 0 && n[0] == '.') && !same_text(&n, &chars_of("_Unsorted"))
}

} // verus!
