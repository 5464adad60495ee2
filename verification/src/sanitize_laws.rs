//! What holds of every sanitized name.
//!
//! The safe form of a text is a [settled name](is_name): it holds no
//! character that a file system refuses, its words are parted by single
//! spaces, it neither begins nor ends with a dot or a space, and it is
//! neither empty nor the name of a device. A settled name is its own safe
//! form, so sanitizing twice is sanitizing once.

use vstd::prelude::*;
use crate::sanitize::{
    collapsed,
    guarded,
    is_allowed,
    is_edge,
    is_reserved,
    is_whitespace,
    sanitized,
    scrubbed,
    trimmed,
    trimmed_end,
    trimmed_start,
    unknown,
    upper,
};

verus! {

/// Whether every character of `s` may stand in a safe name: none is a
/// separator, a control character or one of `: * ? " < > |`.
pub open spec fn is_safe(s: Seq<char>) -> bool {
    forall|i: int| 0 <= i < s.len() ==> is_allowed(#[trigger] s[i])
}

/// Whether the only white space in `s` is the single space: every white
/// space character is a space, and none follows another.
pub open spec fn is_spaced(s: Seq<char>) -> bool {
    forall|i: int|
        0 <= i < s.len() && is_whitespace(#[trigger] s[i]) ==> s[i] == ' ' && (i == 0
            || !is_whitespace(s[i - 1]))
}

/// Whether `s` neither begins nor ends with a dot or a space.
pub open spec fn is_trim(s: Seq<char>) -> bool {
    s.len() == 0 || (!is_edge(s.first()) && !is_edge(s.last()))
}

/// Whether `s` is a settled name: safe, spaced, trim, not empty and not the
/// name of a device.
pub open spec fn is_name(s: Seq<char>) -> bool {
    &&& is_safe(s)
    &&& is_spaced(s)
    &&& is_trim(s)
    &&& s.len() > 0
    &&& !is_reserved(s)
}

/// Scrubbing leaves only characters that may stand in a safe name.
pub proof fn lemma_scrubbed_is_safe(s: Seq<char>)
    ensures
        is_safe(scrubbed(s)),
    decreases s.len(),
{
    if s.len() > 0 {
        lemma_scrubbed_is_safe(s.drop_last());
    }
}

/// Scrubbing changes nothing in a text that is safe already.
pub proof fn lemma_scrubbed_keeps_safe(s: Seq<char>)
    requires
        is_safe(s),
    ensures
        scrubbed(s) == s,
    decreases s.len(),
{
    if s.len() > 0 {
        let q = s.drop_last();
        assert forall|i: int| 0 <= i < q.len() implies is_allowed(#[trigger] q[i]) by {
            assert(q[i] == s[i]);
        }
        lemma_scrubbed_keeps_safe(q);
        assert(is_allowed(s[s.len() - 1]));
        assert(q.push(s.last()) == s);
    }
}

/// Collapsing leaves single spaces only, none of them at the end, and no
/// character that was not there or is a space.
pub proof fn lemma_collapsed_is_spaced(s: Seq<char>)
    ensures
        is_spaced(collapsed(s)),
        collapsed(s).len() > 0 ==> !is_whitespace(collapsed(s).last()),
        collapsed(s).len() > 0 ==> !is_whitespace(collapsed(s).first()),
        is_safe(s) ==> is_safe(collapsed(s)),
    decreases s.len(),
{
    if s.len() > 0 {
        let q = s.drop_last();
        let r = collapsed(q);
        let c = collapsed(s);
        lemma_collapsed_is_spaced(q);
        if is_safe(s) {
            assert forall|i: int| 0 <= i < q.len() implies is_allowed(#[trigger] q[i]) by {
                assert(q[i] == s[i]);
            }
            assert(is_allowed(s[s.len() - 1]));
        }
        if is_whitespace(s.last()) {
        } else if s.len() >= 2 && is_whitespace(s[s.len() - 2]) && r.len() > 0 {
            assert forall|i: int| 0 <= i < c.len() && is_whitespace(#[trigger] c[i]) implies c[i]
                == ' ' && (i == 0 || !is_whitespace(c[i - 1])) by {
                if i < r.len() {
                    assert(c[i] == r[i]);
                    if i > 0 {
                        assert(c[i - 1] == r[i - 1]);
                    }
                } else if i == r.len() {
                    assert(c[i - 1] == r.last());
                }
            }
            assert(c.first() == r.first());
            if is_safe(s) {
                assert forall|i: int| 0 <= i < c.len() implies is_allowed(#[trigger] c[i]) by {
                    if i < r.len() {
                        assert(c[i] == r[i]);
                    }
                }
            }
        } else {
            assert forall|i: int| 0 <= i < c.len() && is_whitespace(#[trigger] c[i]) implies c[i]
                == ' ' && (i == 0 || !is_whitespace(c[i - 1])) by {
                if i < r.len() {
                    assert(c[i] == r[i]);
                    if i > 0 {
                        assert(c[i - 1] == r[i - 1]);
                    }
                }
            }
            if r.len() > 0 {
                assert(c.first() == r.first());
            }
            if is_safe(s) {
                assert forall|i: int| 0 <= i < c.len() implies is_allowed(#[trigger] c[i]) by {
                    if i < r.len() {
                        assert(c[i] == r[i]);
                    }
                }
            }
        }
    }
}

/// Collapsing a spaced text that does not begin with a space takes away at
/// most a space at its end.
pub proof fn lemma_collapsed_keeps_spaced(s: Seq<char>)
    requires
        is_spaced(s),
        s.len() > 0 ==> !is_whitespace(s.first()),
    ensures
        collapsed(s) == if s.len() > 0 && is_whitespace(s.last()) {
            s.drop_last()
        } else {
            s
        },
    decreases s.len(),
{
    if s.len() > 0 {
        let q = s.drop_last();
        assert forall|i: int| 0 <= i < q.len() && is_whitespace(#[trigger] q[i]) implies q[i]
            == ' ' && (i == 0 || !is_whitespace(q[i - 1])) by {
            assert(q[i] == s[i]);
            if i > 0 {
                assert(q[i - 1] == s[i - 1]);
            }
        }
        if q.len() > 0 {
            assert(q.first() == s.first());
        }
        lemma_collapsed_keeps_spaced(q);
        let n = s.len() as int;
        if is_whitespace(s.last()) {
            assert(is_whitespace(s[n - 1]));
            assert(n >= 2);
            assert(q.last() == s[n - 2]);
        } else if n >= 2 && is_whitespace(s[n - 2]) {
            assert(q.last() == s[n - 2]);
            assert(is_whitespace(q[n - 2]));
            assert(n >= 3);
            assert(collapsed(q) == q.drop_last());
            assert(q.drop_last().push(' ').push(s.last()) == s);
        } else {
            if q.len() > 0 {
                assert(q.last() == s[n - 2]);
            }
            assert(q.push(s.last()) == s);
        }
    }
}

/// What is left after the dots and spaces at the start are cut is the rest
/// of the text from some place on, and does not begin with a dot or a space.
pub proof fn lemma_trimmed_start_is_rest(s: Seq<char>) -> (k: int)
    ensures
        0 <= k <= s.len(),
        trimmed_start(s) == s.skip(k),
        k < s.len() ==> !is_edge(s[k]),
    decreases s.len(),
{
    if s.len() > 0 && is_edge(s.first()) {
        let j = lemma_trimmed_start_is_rest(s.drop_first());
        assert(s.drop_first().skip(j) == s.skip(j + 1));
        if j + 1 < s.len() {
            assert(s.drop_first()[j] == s[j + 1]);
        }
        j + 1
    } else {
        assert(s.skip(0) == s);
        0
    }
}

/// What is left after the dots and spaces at the end are cut is the text up
/// to some place, and does not end with a dot or a space.
pub proof fn lemma_trimmed_end_is_head(s: Seq<char>) -> (k: int)
    ensures
        0 <= k <= s.len(),
        trimmed_end(s) == s.take(k),
        k > 0 ==> !is_edge(s[k - 1]),
    decreases s.len(),
{
    if s.len() > 0 && is_edge(s.last()) {
        let j = lemma_trimmed_end_is_head(s.drop_last());
        assert(s.drop_last().take(j) == s.take(j));
        if j > 0 {
            assert(s.drop_last()[j - 1] == s[j - 1]);
        }
        j
    } else {
        assert(s.take(s.len() as int) == s);
        s.len() as int
    }
}

/// Trimming gives a part of the text that is trim, and keeps it safe and
/// spaced.
pub proof fn lemma_trimmed_is_trim(s: Seq<char>)
    ensures
        is_trim(trimmed(s)),
        is_safe(s) ==> is_safe(trimmed(s)),
        is_spaced(s) ==> is_spaced(trimmed(s)),
{
    let a = lemma_trimmed_start_is_rest(s);
    let rest = s.skip(a);
    let b = lemma_trimmed_end_is_head(rest);
    let t = trimmed(s);
    assert(t == rest.take(b));
    assert forall|i: int| 0 <= i < t.len() implies #[trigger] t[i] == s[a + i] by {
        assert(t[i] == rest[i]);
    }
    if t.len() > 0 {
        assert(t.first() == s[a]);
        assert(t.last() == rest[b - 1]);
    }
    if is_safe(s) {
        assert forall|i: int| 0 <= i < t.len() implies is_allowed(#[trigger] t[i]) by {
            assert(t[i] == s[a + i]);
        }
    }
    if is_spaced(s) {
        assert forall|i: int| 0 <= i < t.len() && is_whitespace(#[trigger] t[i]) implies t[i]
            == ' ' && (i == 0 || !is_whitespace(t[i - 1])) by {
            assert(t[i] == s[a + i]);
            assert(is_whitespace(s[a + i]));
            if i > 0 {
                assert(t[i - 1] == s[a + i - 1]);
            }
        }
    }
}

/// Trimming changes nothing in a text that is trim already.
pub proof fn lemma_trimmed_keeps_trim(s: Seq<char>)
    requires
        is_trim(s),
    ensures
        trimmed(s) == s,
{
}

/// The name that stands for an empty text is a settled name.
pub proof fn lemma_unknown_is_name()
    ensures
        is_name(unknown()),
{
    let u = unknown();
    assert(u.len() == 7);
    assert(u[0] == 'U' && u[1] == 'n' && u[2] == 'k' && u[3] == 'n' && u[4] == 'o' && u[5] == 'w'
        && u[6] == 'n');
    assert(upper(u).len() == 7);
    assert(seq!['C', 'O', 'N'].len() == 3);
    assert(seq!['P', 'R', 'N'].len() == 3);
    assert(seq!['A', 'U', 'X'].len() == 3);
    assert(seq!['N', 'U', 'L'].len() == 3);
}

/// A name behind a `_` is not the name of a device.
pub proof fn lemma_underscore_is_not_reserved(s: Seq<char>)
    ensures
        !is_reserved(seq!['_'] + s),
{
    let t = seq!['_'] + s;
    let u = upper(t);
    assert(t[0] == '_');
    assert(u[0] == '_');
    assert(seq!['C', 'O', 'N'][0] == 'C');
    assert(seq!['P', 'R', 'N'][0] == 'P');
    assert(seq!['A', 'U', 'X'][0] == 'A');
    assert(seq!['N', 'U', 'L'][0] == 'N');
    if u.len() == 4 {
        assert(u.take(3)[0] == u[0]);
        assert(seq!['C', 'O', 'M'][0] == 'C');
        assert(seq!['L', 'P', 'T'][0] == 'L');
    }
}

/// Guarding a text that is safe, spaced and trim gives a settled name.
pub proof fn lemma_guarded_is_name(s: Seq<char>)
    requires
        is_safe(s),
        is_spaced(s),
        is_trim(s),
    ensures
        is_name(guarded(s)),
{
    if s.len() == 0 {
        lemma_unknown_is_name();
    } else if is_reserved(s) {
        let g = seq!['_'] + s;
        lemma_underscore_is_not_reserved(s);
        assert forall|i: int| 0 <= i < g.len() implies is_allowed(#[trigger] g[i]) by {
            if i > 0 {
                assert(g[i] == s[i - 1]);
            }
        }
        assert forall|i: int| 0 <= i < g.len() && is_whitespace(#[trigger] g[i]) implies g[i]
            == ' ' && (i == 0 || !is_whitespace(g[i - 1])) by {
            assert(i > 0);
            assert(g[i] == s[i - 1]);
            assert(is_whitespace(s[i - 1]));
            if i > 1 {
                assert(g[i - 1] == s[i - 2]);
            }
        }
        assert(g.first() == '_');
        assert(g.last() == s.last());
    }
}

/// A settled name is its own safe form.
pub proof fn lemma_name_is_fixed(s: Seq<char>)
    requires
        is_name(s),
    ensures
        sanitized(s) == s,
{
    lemma_scrubbed_keeps_safe(s);
    assert(is_whitespace(' '));
    lemma_collapsed_keeps_spaced(s);
    lemma_trimmed_keeps_trim(s);
}

/// The safe form of any text is a settled name. In particular it is never
/// empty.
pub proof fn law_sanitized_is_name(s: Seq<char>)
    ensures
        is_name(sanitized(s)),
{
    let a = scrubbed(s);
    lemma_scrubbed_is_safe(s);
    let b = collapsed(a);
    lemma_collapsed_is_spaced(a);
    lemma_trimmed_is_trim(b);
    lemma_guarded_is_name(trimmed(b));
}

/// The safe form of any text holds no `/` or `\`, none of `: * ? " < > |`
/// and no control character.
pub proof fn law_sanitized_is_safe(s: Seq<char>)
    ensures
        forall|i: int|
            0 <= i < sanitized(s).len() ==> {
                let c = #[trigger] sanitized(s)[i];
                &&& c != '/' && c != '\\'
                &&& c != ':' && c != '*' && c != '?' && c != '"' && c != '<' && c != '>' && c
                    != '|'
                &&& !crate::sanitize::is_control(c)
            },
{
    law_sanitized_is_name(s);
    assert forall|i: int| 0 <= i < sanitized(s).len() implies {
        let c = #[trigger] sanitized(s)[i];
        &&& c != '/' && c != '\\'
        &&& c != ':' && c != '*' && c != '?' && c != '"' && c != '<' && c != '>' && c != '|'
        &&& !crate::sanitize::is_control(c)
    } by {
        assert(is_allowed(sanitized(s)[i]));
    }
}

/// Sanitizing what is sanitized already changes nothing.
pub proof fn law_sanitized_is_idempotent(s: Seq<char>)
    ensures
        sanitized(sanitized(s)) == sanitized(s),
{
    law_sanitized_is_name(s);
    lemma_name_is_fixed(sanitized(s));
}

} // verus!
