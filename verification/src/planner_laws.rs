//! What holds of every planned move.
//!
//! A planned move lies under its base as its folder and its file name say,
//! and both are plain names. So every planned move can be resolved, and
//! stays in its folder when it is.

use vstd::prelude::*;
use crate::path::{
    after_last_dot,
    dot_dot,
    ends_idle,
    file_name,
    join,
    last_component,
    last_dot,
    last_end,
    last_start,
    lemma_last_bounds,
    lemma_name_start_bounds,
    lemma_trimmed_len_bounds,
    parent,
    };
use crate::path_laws::{
    is_name_char,
    is_plain_name,
    is_unbroken,
    lemma_joined_name_is_last,
    lemma_last_component_is_unbroken,
    lemma_last_dot_bounds,
    lemma_parent_of_join,
    lemma_stem_and_extension,
};
use crate::planner::{
    file_name_of,
    folder_of,
    kept_extension,
    placed,
    planned,
    planned_unsorted,
    title_of,
    TrackView,
};
use crate::resolver::resolvable;
use crate::sanitize::{is_edge, sanitized};
use crate::sanitize_laws::law_sanitized_is_name;
use crate::text::{decimal_two_wide, lemma_decimal_is_digits};

verus! {

/// A sanitized name holds no separator, is not empty, and does not begin
/// with a dot.
pub proof fn lemma_sanitized_is_unbroken(s: Seq<char>)
    ensures
        is_unbroken(sanitized(s)),
        sanitized(s).len() > 0,
        sanitized(s)[0] != '.',
{
    law_sanitized_is_name(s);
    let t = sanitized(s);
    assert forall|i: int| 0 <= i < t.len() implies is_name_char(#[trigger] t[i]) by {
        assert(crate::sanitize::is_allowed(t[i]));
    }
    assert(!is_edge(t.first()));
}

/// A file name is a plain name.
pub proof fn lemma_file_name_is_plain(p: Seq<char>)
    requires
        file_name(p) is Some,
    ensures
        is_plain_name(file_name(p)->0),
{
    let c = last_component(p);
    let b = last_start(p);
    let e = last_end(p);
    lemma_last_bounds(p);
    lemma_last_component_is_unbroken(p);
    lemma_trimmed_len_bounds(p, p.len() as int);
    lemma_name_start_bounds(p, e);
    if c == seq!['.'] {
        assert(seq!['.'].len() == 1);
        assert(c[0] == p[b]);
        assert(seq!['.'][0] == '.');
        assert(ends_idle(p, e));
    }
}

/// What follows the last `.` of a name without a separator holds neither a
/// separator nor a `.`.
pub proof fn lemma_after_last_dot(name: Seq<char>)
    requires
        is_unbroken(name),
    ensures
        is_unbroken(after_last_dot(name)),
        forall|i: int|
            0 <= i < after_last_dot(name).len() ==> #[trigger] after_last_dot(name)[i] != '.',
{
    let d = last_dot(name, name.len() as int);
    lemma_last_dot_bounds(name, name.len() as int);
    let ext = after_last_dot(name);
    if d >= 0 {
        assert forall|i: int| 0 <= i < ext.len() implies is_name_char(#[trigger] ext[i])
            && ext[i] != '.' by {
            assert(ext[i] == name[d + 1 + i]);
            lemma_no_dot_after_last(name, name.len() as int, d + 1 + i);
        }
    }
}

/// No `.` stands behind the last `.`.
proof fn lemma_no_dot_after_last(name: Seq<char>, n: int, i: int)
    requires
        0 <= i < n <= name.len(),
        last_dot(name, n) < i,
    ensures
        name[i] != '.',
    decreases n,
{
    if name[n - 1] != '.' && i < n - 1 {
        lemma_no_dot_after_last(name, n - 1, i);
    }
}

/// The folder of a tagged track is a plain name.
pub proof fn law_folder_is_plain(artist: Seq<char>, album: Seq<char>)
    ensures
        is_plain_name(folder_of(artist, album)),
{
    reveal_strlit(" - ");
    lemma_sanitized_is_unbroken(artist);
    lemma_sanitized_is_unbroken(album);
    let a = sanitized(artist);
    let b = sanitized(album);
    let f = folder_of(artist, album);
    let mid = " - "@;
    assert forall|i: int| 0 <= i < f.len() implies is_name_char(#[trigger] f[i]) by {
        if i < a.len() {
            assert(f[i] == a[i]);
        } else if i < a.len() + 3 {
            assert(f[i] == mid[i - a.len()]);
        } else {
            assert(f[i] == b[i - a.len() - 3]);
        }
    }
    assert(seq!['.'].len() == 1);
    assert(dot_dot().len() == 2);
}

/// The file name of a tagged track is a plain name.
pub proof fn law_file_name_is_plain(source: Seq<char>, meta: TrackView)
    ensures
        is_plain_name(
            file_name_of(meta.track_number, title_of(meta.title, source), kept_extension(source)),
        ),
{
    reveal_strlit(" - ");
    reveal_strlit(".");
    let title = title_of(meta.title, source);
    let ext = kept_extension(source);
    let name = file_name_of(meta.track_number, title, ext);
    let dot = "."@;
    // the title
    if meta.title is Some {
        lemma_sanitized_is_unbroken(meta.title->0);
    } else if file_name(source) is Some {
        let f = file_name(source)->0;
        lemma_file_name_is_plain(source);
        lemma_stem_and_extension(f);
        lemma_last_dot_bounds(f, f.len() as int);
    } else {
        assert(is_unbroken(crate::sanitize::unknown()));
        assert(crate::sanitize::unknown().len() == 7);
    }
    assert(is_unbroken(title));
    assert(title.len() > 0);
    // the extension
    if file_name(source) is Some {
        lemma_file_name_is_plain(source);
        lemma_after_last_dot(file_name(source)->0);
    }
    assert(is_unbroken(ext));
    assert(seq!['.'].len() == 1);
    assert(dot_dot().len() == 2);
    match meta.track_number {
        Some(n) => {
            lemma_decimal_is_digits(n as nat);
            lemma_decimal_is_digits((n / 10) as nat);
            let num = decimal_two_wide(n as nat);
            let mid = " - "@;
            assert(num.len() >= 2);
            assert forall|i: int| 0 <= i < num.len() implies is_name_char(#[trigger] num[i]) by {
                if n >= 10 {
                    assert('0' <= crate::text::decimal(n as nat)[i] <= '9');
                } else {
                    assert(num[0] == '0');
                    assert('0' <= crate::text::decimal(n as nat)[0] <= '9');
                }
            }
            let a = num.len() as int;
            let b = a + 3;
            let c = b + title.len();
            assert forall|i: int| 0 <= i < name.len() implies is_name_char(#[trigger] name[i]) by {
                if i < a {
                    assert(name[i] == num[i]);
                } else if i < b {
                    assert(name[i] == mid[i - a]);
                } else if i < c {
                    assert(name[i] == title[i - b]);
                } else if i == c {
                    assert(name[i] == dot[0]);
                } else {
                    assert(name[i] == ext[i - c - 1]);
                }
            }
        },
        None => {
            let c = title.len() as int;
            assert forall|i: int| 0 <= i < name.len() implies is_name_char(#[trigger] name[i]) by {
                if i < c {
                    assert(name[i] == title[i]);
                } else if i == c {
                    assert(name[i] == dot[0]);
                } else {
                    assert(name[i] == ext[i - c - 1]);
                }
            }
            assert(name.len() >= 2);
            if name == dot_dot() {
                // a title that is one dot: no safe name, and no stem of a file name
                assert(name.len() == 2);
                assert(title.len() == 1 && ext.len() == 0);
                assert(name[0] == title[0]);
                assert(dot_dot()[0] == '.');
                assert(title[0] == '.');
                if meta.title is None && file_name(source) is Some {
                    let f = file_name(source)->0;
                    let d = last_dot(f, f.len() as int);
                    lemma_last_dot_bounds(f, f.len() as int);
                    if d > 0 {
                        assert(title == f.take(d));
                        assert(d == 1);
                        assert(f[0] == f.take(d)[0]);
                        assert(f.skip(d + 1).len() == 0);
                        assert(f =~= dot_dot());
                    } else {
                        assert(title == f);
                        assert(f[0] == '.');
                        assert(f =~= seq!['.']);
                    }
                }
            }
        },
    }
}

/// A move that lies under a base by a plain folder and a plain file name
/// has the folder under the base for the parent of its destination, and its
/// file name for the file name of its destination.
pub proof fn law_placed_is_consistent(
    base: Seq<char>,
    source: Seq<char>,
    folder_name: Seq<char>,
    name: Seq<char>,
)
    requires
        is_plain_name(folder_name),
        is_plain_name(name),
    ensures
        parent(placed(base, source, folder_name, name).dest) == Some(join(base, folder_name)),
        file_name(placed(base, source, folder_name, name).dest) == Some(name),
        file_name(join(base, folder_name)) == Some(folder_name),
        resolvable(placed(base, source, folder_name, name)),
{
    let dir = join(base, folder_name);
    lemma_joined_name_is_last(base, folder_name);
    lemma_joined_name_is_last(dir, name);
    assert(is_name_char(folder_name[0]));
    if dir.len() == 1 && dir[0] == '.' {
        assert(dir =~= folder_name);
        assert(folder_name =~= seq!['.']);
    }
    lemma_parent_of_join(dir, name);
}

/// Every move that is planned for a tagged track lies under its base by a
/// plain folder and a plain file name, and can be resolved.
pub proof fn law_planned_is_consistent(base: Seq<char>, source: Seq<char>, meta: TrackView)
    ensures
        is_plain_name(planned(base, source, meta).folder_name),
        is_plain_name(planned(base, source, meta).file_name),
        planned(base, source, meta).source == source,
        parent(planned(base, source, meta).dest) == Some(
            join(base, planned(base, source, meta).folder_name),
        ),
        file_name(planned(base, source, meta).dest) == Some(
            planned(base, source, meta).file_name,
        ),
        resolvable(planned(base, source, meta)),
{
    law_folder_is_plain(meta.artist, meta.album);
    law_file_name_is_plain(source, meta);
    let m = planned(base, source, meta);
    law_placed_is_consistent(base, source, m.folder_name, m.file_name);
}

/// Every move that is planned for a file of which nothing is known lies
/// under its base in `_Unsorted` by a plain file name, and can be resolved.
pub proof fn law_planned_unsorted_is_consistent(base: Seq<char>, source: Seq<char>)
    ensures
        planned_unsorted(base, source).folder_name == "_Unsorted"@,
        is_plain_name(planned_unsorted(base, source).folder_name),
        is_plain_name(planned_unsorted(base, source).file_name),
        file_name(source) is Some ==> planned_unsorted(base, source).file_name == file_name(
            source,
        )->0,
        parent(planned_unsorted(base, source).dest) == Some(join(base, "_Unsorted"@)),
        file_name(planned_unsorted(base, source).dest) == Some(
            planned_unsorted(base, source).file_name,
        ),
        resolvable(planned_unsorted(base, source)),
{
    reveal_strlit("_Unsorted");
    reveal_strlit("unknown");
    assert(seq!['.'].len() == 1);
    assert(dot_dot().len() == 2);
    if file_name(source) is Some {
        lemma_file_name_is_plain(source);
    }
    let m = planned_unsorted(base, source);
    law_placed_is_consistent(base, source, m.folder_name, m.file_name);
}

/// A track without a title is named by the stem of its file, as the stem
/// stands: nothing is taken from it or changed in it.
pub proof fn law_missing_title_uses_stem(base: Seq<char>, source: Seq<char>, meta: TrackView)
    requires
        meta.title is None,
        file_name(source) is Some,
    ensures
        title_of(meta.title, source) == crate::path::stem_of(file_name(source)->0),
        planned(base, source, meta).file_name == file_name_of(
            meta.track_number,
            crate::path::stem_of(file_name(source)->0),
            kept_extension(source),
        ),
{
}

} // verus!
