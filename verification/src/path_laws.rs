//! What holds of paths that are put together from a folder and a name.

use vstd::prelude::*;
use crate::path::{
    body_start,
    dot_dot,
    ends_idle,
    extension_of,
    file_name,
    join,
    last_dot,
    last_component,
    last_end,
    last_start,
    lemma_last_bounds,
    lemma_name_start_bounds,
    lemma_trimmed_len_bounds,
    name_start,
    normalized,
    parent,
    same_path,
    stem_of,
    trimmed_len,
};

verus! {

/// Whether `c` is no separator.
pub open spec fn is_name_char(c: char) -> bool {
    c != '/'
}

/// Whether `name` holds no separator.
pub open spec fn is_unbroken(name: Seq<char>) -> bool {
    forall|i: int| 0 <= i < name.len() ==> is_name_char(#[trigger] name[i])
}

/// Whether `name` can be one component of a path that names a file: it is
/// not empty, holds no separator, and is neither `.` nor `..`.
pub open spec fn is_plain_name(name: Seq<char>) -> bool {
    &&& name.len() > 0
    &&& is_unbroken(name)
    &&& name != seq!['.']
    &&& name != dot_dot()
}

/// `base` as it stands before a name that is joined to it: with a `/` at
/// its end, unless it is empty.
pub open spec fn with_separator(base: Seq<char>) -> Seq<char> {
    if base.len() > 0 && base.last() != '/' {
        base.push('/')
    } else {
        base
    }
}

/// Two paths that agree in what stands before their components and in
/// their first `m` characters agree in where their components lie, up to
/// `m`.
pub proof fn lemma_heads_agree(x: Seq<char>, y: Seq<char>, m: int, k: int)
    requires
        body_start(x) == body_start(y),
        0 <= k <= m,
        m <= x.len(),
        m <= y.len(),
        forall|i: int| 0 <= i < m ==> x[i] == y[i],
    ensures
        trimmed_len(x, k) == trimmed_len(y, k),
        name_start(x, k) == name_start(y, k),
    decreases k,
{
    if k > 0 {
        lemma_heads_agree(x, y, m, k - 1);
        assert(x[k - 1] == y[k - 1]);
        if k > 1 {
            assert(x[k - 2] == y[k - 2]);
        }
    }
}

/// What is dropped from the end of a path is dropped from every shorter
/// end too.
pub proof fn lemma_trimmed_len_between(p: Seq<char>, n: int, top: int)
    requires
        trimmed_len(p, top) <= n <= top,
    ensures
        trimmed_len(p, n) == trimmed_len(p, top),
    decreases top,
{
    if n < top {
        if ends_idle(p, top) {
            lemma_trimmed_len_between(p, n, top - 1);
        }
    } else {
        lemma_trimmed_len_bounds(p, top);
    }
}

/// A run of characters without a separator that begins right behind a
/// separator, or where the components begin, is one component.
pub proof fn lemma_name_start_of_run(p: Seq<char>, b: int, e: int)
    requires
        body_start(p) <= b <= e <= p.len(),
        forall|i: int| b <= i < e ==> is_name_char(#[trigger] p[i]),
        b == body_start(p) || p[b - 1] == '/',
    ensures
        name_start(p, e) == b,
    decreases e,
{
    if b < e {
        assert(is_name_char(p[e - 1]));
        lemma_name_start_of_run(p, b, e - 1);
    }
}

/// The first `m` characters of a path begin as the path does, unless they
/// are a lone `.` cut out of a longer name.
pub proof fn lemma_body_start_of_head(p: Seq<char>, m: int)
    requires
        body_start(p) <= m <= p.len(),
        !(m == 1 && p[0] == '.' && body_start(p) == 0),
    ensures
        body_start(p.take(m)) == body_start(p),
{
    let y = p.take(m);
    if m >= 1 {
        assert(y[0] == p[0]);
        if m >= 2 {
            assert(y[1] == p[1]);
        }
    }
}

/// A path is spelled out plainly by what stands before the end of its last
/// component: what follows that end adds nothing.
pub proof fn lemma_normalized_of_head(x: Seq<char>, t: int)
    requires
        last_end(x) <= t <= x.len(),
    ensures
        normalized(x.take(t)) == normalized(x),
{
    let y = x.take(t);
    let e = last_end(x);
    let b = last_start(x);
    lemma_last_bounds(x);
    lemma_trimmed_len_bounds(x, x.len() as int);
    lemma_name_start_bounds(x, e);
    // the head begins as the path does
    if t == 1 && x[0] == '.' && body_start(x) == 0 {
        assert(x.len() >= 2);
        lemma_trimmed_len_between(x, 2, x.len() as int);
        assert(trimmed_len(x, 2) == e);
        assert(!ends_idle(x, 2));
        assert(false);
    }
    lemma_body_start_of_head(x, t);
    lemma_trimmed_len_between(x, t, x.len() as int);
    lemma_heads_agree(x, y, t, t);
    assert(last_end(y) == e);
    lemma_heads_agree(x, y, t, e);
    assert(last_start(y) == b);
    if 0 <= b < e {
        assert(y.take(b) == x.take(b));
        assert(y.subrange(b, e) == x.subrange(b, e));
    } else {
        assert(y.take(e) == x.take(e));
    }
}

/// A `/` at the end of a path adds nothing to it.
pub proof fn lemma_normalized_without_separator(d: Seq<char>)
    requires
        d.len() > 0,
    ensures
        normalized(d.push('/')) == normalized(d),
{
    let x = d.push('/');
    let t = d.len() as int;
    assert(x[0] == d[0]);
    if t >= 2 {
        assert(x[1] == d[1]);
    }
    assert(x[t] == '/');
    assert(ends_idle(x, t + 1));
    lemma_trimmed_len_bounds(x, t);
    assert(x.take(t) == d);
    lemma_normalized_of_head(x, t);
}

/// A plain name that is joined to a folder is the last component of what
/// comes of it, and its file name.
pub proof fn lemma_joined_name_is_last(d: Seq<char>, name: Seq<char>)
    requires
        is_plain_name(name),
    ensures
        join(d, name) == with_separator(d) + name,
        last_end(join(d, name)) == join(d, name).len(),
        last_start(join(d, name)) == with_separator(d).len(),
        last_component(join(d, name)) == name,
        file_name(join(d, name)) == Some(name),
{
    let q = join(d, name);
    let head = with_separator(d);
    let b = head.len() as int;
    let n = q.len() as int;
    assert(is_name_char(name[0]));
    assert(q == head + name);
    assert forall|i: int| b <= i < n implies is_name_char(#[trigger] q[i]) by {
        assert(q[i] == name[i - b]);
        assert(is_name_char(name[i - b]));
    }
    assert(q[n - 1] == name[name.len() - 1]);
    if name.len() >= 2 {
        assert(q[n - 2] == name[name.len() - 2]);
        assert(is_name_char(name[name.len() - 2]));
    } else {
        if name[0] == '.' {
            assert(name =~= seq!['.']);
        }
    }
    // where the components of the whole begin
    if b == 0 {
        assert(q =~= name);
        if q[0] == '.' {
            if n == 1 {
                assert(name =~= seq!['.']);
            } else {
                assert(is_name_char(name[1]));
            }
        }
        assert(body_start(q) == 0);
    } else {
        assert(q[b - 1] == head[b - 1]);
        assert(head[b - 1] == '/');
        assert(body_start(q) <= 1);
    }
    if q[n - 1] == '.' && n - 1 == body_start(q) {
        // a lone dot behind the root, or a dot behind a dot
        if n == 1 {
            assert(name =~= seq!['.']);
        } else {
            assert(n == 2);
            if b == 0 {
                assert(is_name_char(name[1]));
                assert(is_name_char(name[0]));
            } else {
                assert(name =~= seq!['.']);
            }
        }
    }
    assert(!ends_idle(q, n));
    assert(last_end(q) == n);
    lemma_name_start_of_run(q, b, n);
    assert(q.subrange(b, n) =~= name);
}

/// The plain spelling of a folder with a plain name joined to it is the
/// plain spelling of the folder with the name joined to it.
pub proof fn lemma_normalized_join(d: Seq<char>, name: Seq<char>)
    requires
        is_plain_name(name),
    ensures
        normalized(join(d, name)) == join(normalized(d), name),
{
    let q = join(d, name);
    let head = with_separator(d);
    let b = head.len() as int;
    lemma_joined_name_is_last(d, name);
    assert(q.take(b) =~= head);
    assert(q.subrange(b, q.len() as int) =~= name);
    if d.len() > 0 && d.last() != '/' {
        lemma_normalized_without_separator(d);
    }
    assert(normalized(q) == join(normalized(head), name));
}

/// The parent of a path with a last component is spelled out plainly as
/// what stands before that component is.
pub proof fn lemma_normalized_parent(p: Seq<char>)
    requires
        last_start(p) < last_end(p),
    ensures
        parent(p) is Some,
        normalized(parent(p)->0) == normalized(p.take(last_start(p))),
        normalized(p) == join(
            normalized(p.take(last_start(p))),
            p.subrange(last_start(p), last_end(p)),
        ),
{
    let e = last_end(p);
    let b = last_start(p);
    lemma_last_bounds(p);
    lemma_name_start_bounds(p, e);
    let x = p.take(b);
    let t = trimmed_len(p, b);
    lemma_trimmed_len_bounds(p, b);
    if b == 1 && body_start(p) == 0 {
        assert(p[b - 1] == '/');
    }
    lemma_body_start_of_head(p, b);
    lemma_heads_agree(p, x, b, b);
    assert(last_end(x) == t);
    lemma_normalized_of_head(x, t);
    assert(x.take(t) == p.take(t));
}

/// Two plain names that are joined to one folder give one path only where
/// they are one name.
pub proof fn lemma_join_tells_names_apart(d: Seq<char>, a: Seq<char>, b: Seq<char>)
    requires
        a.len() > 0,
        b.len() > 0,
        a[0] != '/',
        b[0] != '/',
        join(d, a) == join(d, b),
    ensures
        a == b,
{
    let head = with_separator(d);
    assert(join(d, a) == head + a);
    assert(join(d, b) == head + b);
    assert((head + a).skip(head.len() as int) =~= a);
    assert((head + b).skip(head.len() as int) =~= b);
}

/// A path does not name the same file once its last component is given up
/// for another plain name.
pub proof fn lemma_other_name_is_other_path(p: Seq<char>, name: Seq<char>)
    requires
        parent(p) is Some,
        is_plain_name(name),
        name != last_component(p),
    ensures
        !same_path(p, join(parent(p)->0, name)),
{
    let e = last_end(p);
    let b = last_start(p);
    let dir = parent(p)->0;
    lemma_last_bounds(p);
    lemma_normalized_join(dir, name);
    assert(is_name_char(name[0]));
    if b < e {
        lemma_normalized_parent(p);
        lemma_name_start_bounds(p, e);
        let c = p.subrange(b, e);
        assert(c == last_component(p));
        assert(c[0] == p[b]);
        if same_path(p, join(dir, name)) {
            lemma_join_tells_names_apart(normalized(p.take(b)), c, name);
        }
    } else {
        // the path is a lone `.`: its parent is empty
        assert(dir =~= Seq::<char>::empty());
        assert(normalized(dir) =~= Seq::<char>::empty());
        assert(join(normalized(dir), name) =~= name);
        assert(normalized(p) == p.take(1));
        if p.take(1) == name {
            assert(name.len() == 1);
            assert(name[0] == p.take(1)[0]);
            assert(name =~= seq!['.']);
        }
    }
}

/// The last `.` of a name, if it has one, lies in the name.
pub proof fn lemma_last_dot_bounds(name: Seq<char>, n: int)
    ensures
        -1 <= last_dot(name, n) < n || (n <= 0 && last_dot(name, n) == -1),
        0 <= last_dot(name, n) ==> n <= name.len() && name[last_dot(name, n)] == '.',
    decreases n,
{
    if 0 < n <= name.len() && name[n - 1] != '.' {
        lemma_last_dot_bounds(name, n - 1);
    }
}

/// The last component of a path holds no separator.
pub proof fn lemma_last_component_is_unbroken(p: Seq<char>)
    ensures
        is_unbroken(last_component(p)),
{
    lemma_last_bounds(p);
    lemma_name_start_bounds(p, last_end(p));
    let c = last_component(p);
    assert forall|i: int| 0 <= i < c.len() implies is_name_char(#[trigger] c[i]) by {
        assert(c[i] == p[last_start(p) + i]);
    }
}

/// A name without a separator falls into a stem and an extension without
/// one: it is its stem, then a `.` and its extension where it has one.
pub proof fn lemma_stem_and_extension(name: Seq<char>)
    requires
        is_unbroken(name),
    ensures
        is_unbroken(stem_of(name)),
        stem_of(name).len() <= name.len(),
        match extension_of(name) {
            Some(ext) => is_unbroken(ext) && name.len() == stem_of(name).len() + 1 + ext.len(),
            None => stem_of(name) == name,
        },
{
    let d = last_dot(name, name.len() as int);
    lemma_last_dot_bounds(name, name.len() as int);
    if d > 0 {
        let stem = name.take(d);
        let ext = name.skip(d + 1);
        assert forall|i: int| 0 <= i < stem.len() implies is_name_char(#[trigger] stem[i]) by {
            assert(stem[i] == name[i]);
        }
        assert forall|i: int| 0 <= i < ext.len() implies is_name_char(#[trigger] ext[i]) by {
            assert(ext[i] == name[d + 1 + i]);
        }
    }
}

/// A file that is put into a folder by a plain name has that folder for its
/// parent, as far as the folder ends in a component.
pub proof fn lemma_parent_of_join(d: Seq<char>, name: Seq<char>)
    requires
        is_plain_name(name),
        d.len() > 0,
        last_end(d) == d.len(),
        !(d.len() == 1 && d[0] == '.'),
    ensures
        parent(join(d, name)) == Some(d),
{
    let q = join(d, name);
    let head = with_separator(d);
    let b = head.len() as int;
    let n = d.len() as int;
    lemma_joined_name_is_last(d, name);
    lemma_trimmed_len_bounds(d, n);
    assert(q.take(n) =~= d);
    assert(q[0] == d[0]);
    if q.len() >= 2 && n >= 2 {
        assert(q[1] == d[1]);
    }
    if n == 1 {
        // the folder is one character, and no dot: the root, or a name
        if d[0] == '/' {
            assert(body_start(q) == 1);
        } else {
            assert(body_start(d) == 0);
            assert(q[0] != '.' && q[0] != '/');
        }
    } else {
        assert(body_start(q) == body_start(d));
    }
    assert(body_start(q) == body_start(d));
    lemma_heads_agree(q, d, n, n);
    assert(trimmed_len(q, n) == n);
    if b == n + 1 {
        assert(q[n] == '/');
        assert(ends_idle(q, n + 1));
    }
    assert(trimmed_len(q, b) == n);
}

} // verus!
