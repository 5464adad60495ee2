//! Paths as text.
//!
//! A path is a sequence of characters whose components are separated by `/`.
//! A leading `/` is the root. Empty components and `.` components say nothing
//! and are passed over, except a `.` that opens a path without a root. Two
//! spellings name the [same path](same_path) when they list the same
//! components.

use vstd::prelude::*;
use crate::text::{append, same_text, slice_of};

verus! {

/// The number of characters that stand before the components of `p`: one for
/// a root `/`, one for a `.` that opens the path as a component of its own,
/// else none.
pub open spec fn body_start(p: Seq<char>) -> int {
    if p.len() > 0 && (p[0] == '/' || (p[0] == '.' && (p.len() == 1 || p[1] == '/'))) {
        1
    } else {
        0
    }
}

/// Whether the character before index `n` of `p` belongs to a trailing
/// separator or to a trailing `.` component.
pub open spec fn ends_idle(p: Seq<char>, n: int) -> bool {
    &&& body_start(p) < n <= p.len()
    &&& (p[n - 1] == '/' || (p[n - 1] == '.' && (n - 1 == body_start(p) || p[n - 2] == '/')))
}

/// The length that is left of the first `n` characters of `p` once trailing
/// separators and trailing `.` components are dropped.
pub open spec fn trimmed_len(p: Seq<char>, n: int) -> int
    decreases n,
{
    if ends_idle(p, n) {
        trimmed_len(p, n - 1)
    } else {
        n
    }
}

/// The index at which the component that ends before index `e` of `p` begins.
pub open spec fn name_start(p: Seq<char>, e: int) -> int
    decreases e,
{
    if body_start(p) < e <= p.len() && p[e - 1] != '/' {
        name_start(p, e - 1)
    } else {
        e
    }
}

/// Where the last component of `p` ends.
pub open spec fn last_end(p: Seq<char>) -> int {
    trimmed_len(p, p.len() as int)
}

/// Where the last component of `p` begins.
pub open spec fn last_start(p: Seq<char>) -> int {
    name_start(p, last_end(p))
}

/// The last component of `p`; empty where `p` has none.
pub open spec fn last_component(p: Seq<char>) -> Seq<char> {
    p.subrange(last_start(p), last_end(p))
}

/// The two characters `..`, which name the directory above.
pub open spec fn dot_dot() -> Seq<char> {
    seq!['.', '.']
}

/// The file name of `p`: its last component, unless `p` has none or ends in
/// `..`.
pub open spec fn file_name(p: Seq<char>) -> Option<Seq<char>> {
    let name = last_component(p);
    if name.len() == 0 || name == dot_dot() {
        None
    } else {
        Some(name)
    }
}

/// The path without its last component. There is none for the empty path and
/// for a path that is the root alone.
pub open spec fn parent(p: Seq<char>) -> Option<Seq<char>> {
    if last_start(p) < last_end(p) {
        Some(p.take(trimmed_len(p, last_start(p))))
    } else if last_end(p) == 1 && p[0] == '.' {
        Some(Seq::empty())
    } else {
        None
    }
}

/// The index of the last `.` among the first `n` characters of `name`, or
/// `-1` where there is none.
pub open spec fn last_dot(name: Seq<char>, n: int) -> int
    decreases n,
{
    if n <= 0 || n > name.len() {
        -1
    } else if name[n - 1] == '.' {
        n - 1
    } else {
        last_dot(name, n - 1)
    }
}

/// The stem of a file name: what stands before its last `.`, or the whole
/// name where it has no `.` or only one that opens it.
pub open spec fn stem_of(name: Seq<char>) -> Seq<char> {
    let d = last_dot(name, name.len() as int);
    if d <= 0 {
        name
    } else {
        name.take(d)
    }
}

/// The extension of a file name: what follows its last `.`, and none where
/// it has no `.` or only one that opens it.
pub open spec fn extension_of(name: Seq<char>) -> Option<Seq<char>> {
    let d = last_dot(name, name.len() as int);
    if d <= 0 {
        None
    } else {
        Some(name.skip(d + 1))
    }
}

/// What follows the last `.` of `name`; nothing where it has no `.`.
pub open spec fn after_last_dot(name: Seq<char>) -> Seq<char> {
    let d = last_dot(name, name.len() as int);
    if d < 0 {
        Seq::empty()
    } else {
        name.skip(d + 1)
    }
}

/// The stem of the file name of `p`.
pub open spec fn file_stem(p: Seq<char>) -> Option<Seq<char>> {
    match file_name(p) {
        Some(name) => Some(stem_of(name)),
        None => None,
    }
}

/// The extension of the file name of `p`.
pub open spec fn extension(p: Seq<char>) -> Option<Seq<char>> {
    match file_name(p) {
        Some(name) => extension_of(name),
        None => None,
    }
}

/// `tail` adjoined to `base`. A `tail` that starts at the root replaces
/// `base`; otherwise a `/` is put between the two unless `base` is empty or
/// ends in one.
pub open spec fn join(base: Seq<char>, tail: Seq<char>) -> Seq<char> {
    if tail.len() > 0 && tail[0] == '/' {
        tail
    } else if base.len() > 0 && base.last() != '/' {
        base.push('/') + tail
    } else {
        base + tail
    }
}

/// The plainest spelling of `p`: what stands before its components, then
/// the components with one `/` between each two.
pub open spec fn normalized(p: Seq<char>) -> Seq<char>
    decreases p.len(),
{
    let e = last_end(p);
    let b = last_start(p);
    if 0 <= b < e <= p.len() {
        join(normalized(p.take(b)), p.subrange(b, e))
    } else if 0 <= e <= p.len() {
        p.take(e)
    } else {
        p
    }
}

/// Whether `p` starts at the root.
pub open spec fn is_absolute(p: Seq<char>) -> bool {
    p.len() > 0 && p[0] == '/'
}

/// Whether `a` and `b` name the same path: they list the same components.
pub open spec fn same_path(a: Seq<char>, b: Seq<char>) -> bool {
    normalized(a) == normalized(b)
}

/// `trimmed_len` stays between the start of the components and `n`.
pub proof fn lemma_trimmed_len_bounds(p: Seq<char>, n: int)
    ensures
        trimmed_len(p, n) <= n,
        body_start(p) <= n ==> body_start(p) <= trimmed_len(p, n),
        !ends_idle(p, trimmed_len(p, n)),
        trimmed_len(p, trimmed_len(p, n)) == trimmed_len(p, n),
    decreases n,
{
    if ends_idle(p, n) {
        lemma_trimmed_len_bounds(p, n - 1);
    }
}

/// `name_start` stays between the start of the components and `e`, and no
/// `/` stands between it and `e`.
pub proof fn lemma_name_start_bounds(p: Seq<char>, e: int)
    ensures
        name_start(p, e) <= e,
        body_start(p) <= e ==> body_start(p) <= name_start(p, e),
        forall|i: int| name_start(p, e) <= i < e && e <= p.len() ==> p[i] != '/',
        body_start(p) < name_start(p, e) <= p.len() ==> p[name_start(p, e) - 1] == '/',
    decreases e,
{
    if body_start(p) < e <= p.len() && p[e - 1] != '/' {
        lemma_name_start_bounds(p, e - 1);
    }
}

/// The last component lies inside the path.
pub proof fn lemma_last_bounds(p: Seq<char>)
    ensures
        0 <= body_start(p) <= last_start(p) <= last_end(p) <= p.len(),
{
    lemma_trimmed_len_bounds(p, p.len() as int);
    lemma_name_start_bounds(p, last_end(p));
}

fn body_start_of(p: &Vec<char>) -> (s: usize)
    ensures
        s == body_start(p@),
{
    if p.len() > 0 && (p[0] == '/' || (p[0] == '.' && (p.len() == 1 || p[1] == '/'))) {
        1
    } else {
        0
    }
}

fn trimmed_len_of(p: &Vec<char>, n: usize) -> (e: usize)
    requires
        n <= p.len(),
    ensures
        e == trimmed_len(p@, n as int),
        e <= n,
{
    let start = body_start_of(p);
    let mut e: usize = n;
    while e > start && (p[e - 1] == '/' || (p[e - 1] == '.' && (e - 1 == start || p[e - 2]
        == '/')))
        invariant
            e <= n <= p.len(),
            start == body_start(p@),
            trimmed_len(p@, e as int) == trimmed_len(p@, n as int),
        decreases e,
    {
        e = e - 1;
    }
    e
}

fn name_start_of(p: &Vec<char>, e: usize) -> (b: usize)
    requires
        e <= p.len(),
    ensures
        b == name_start(p@, e as int),
        b <= e,
{
    let start = body_start_of(p);
    let mut b: usize = e;
    while b > start && p[b - 1] != '/'
        invariant
            b <= e <= p.len(),
            start == body_start(p@),
            name_start(p@, b as int) == name_start(p@, e as int),
        decreases b,
    {
        b = b - 1;
    }
    b
}

/// The file name of `p`, as [`file_name`] defines it.
pub fn file_name_chars(p: &Vec<char>) -> (r: Option<Vec<char>>)
    ensures
        match r {
            Some(name) => file_name(p@) == Some(name@),
            None => file_name(p@) is None,
        },
{
    let e = trimmed_len_of(p, p.len());
    let b = name_start_of(p, e);
    let name = slice_of(p, b, e);
    if name.len() == 0 || (name.len() == 2 && name[0] == '.' && name[1] == '.') {
        assert(name.len() == 2 && name[0] == '.' && name[1] == '.' ==> name@ == dot_dot());
        None
    } else {
        Some(name)
    }
}

/// The parent of `p`, as [`parent`] defines it.
pub fn parent_chars(p: &Vec<char>) -> (r: Option<Vec<char>>)
    ensures
        match r {
            Some(dir) => parent(p@) == Some(dir@),
            None => parent(p@) is None,
        },
{
    let e = trimmed_len_of(p, p.len());
    let b = name_start_of(p, e);
    if b < e {
        let d = trimmed_len_of(p, b);
        Some(slice_of(p, 0, d))
    } else if e == 1 && p[0] == '.' {
        Some(Vec::new())
    } else {
        None
    }
}

fn last_dot_of(name: &Vec<char>) -> (r: Option<usize>)
    ensures
        match r {
            Some(d) => d == last_dot(name@, name.len() as int) && d < name.len(),
            None => last_dot(name@, name.len() as int) == -1,
        },
{
    let mut n: usize = name.len();
    while n > 0 && name[n - 1] != '.'
        invariant
            n <= name.len(),
            last_dot(name@, n as int) == last_dot(name@, name.len() as int),
        decreases n,
    {
        n = n - 1;
    }
    if n == 0 {
        None
    } else {
        Some(n - 1)
    }
}

/// The stem of the file name `name`, as [`stem_of`] defines it.
pub fn stem_of_chars(name: &Vec<char>) -> (r: Vec<char>)
    ensures
        r@ == stem_of(name@),
{
    match last_dot_of(name) {
        Some(d) => {
            if d == 0 {
                slice_of(name, 0, name.len())
            } else {
                slice_of(name, 0, d)
            }
        },
        None => slice_of(name, 0, name.len()),
    }
}

/// The extension of the file name `name`, as [`extension_of`] defines it.
pub fn extension_of_chars(name: &Vec<char>) -> (r: Option<Vec<char>>)
    ensures
        match r {
            Some(ext) => extension_of(name@) == Some(ext@),
            None => extension_of(name@) is None,
        },
{
    match last_dot_of(name) {
        Some(d) => {
            if d == 0 {
                None
            } else {
                Some(slice_of(name, d + 1, name.len()))
            }
        },
        None => None,
    }
}

/// What follows the last `.` of `name`, as [`after_last_dot`] defines it.
pub fn after_last_dot_chars(name: &Vec<char>) -> (r: Vec<char>)
    ensures
        r@ == after_last_dot(name@),
{
    match last_dot_of(name) {
        Some(d) => slice_of(name, d + 1, name.len()),
        None => Vec::new(),
    }
}

/// `tail` adjoined to `base`, as [`join`] defines it.
pub fn join_chars(base: &Vec<char>, tail: &Vec<char>) -> (r: Vec<char>)
    ensures
        r@ == join(base@, tail@),
{
    let mut r: Vec<char> = Vec::new();
    if tail.len() > 0 && tail[0] == '/' {
        append(&mut r, tail);
    } else {
        append(&mut r, base);
        if base.len() > 0 && base[base.len() - 1] != '/' {
            r.push('/');
        }
        append(&mut r, tail);
    }
    r
}

/// The plainest spelling of `p`, as [`normalized`] defines it.
pub fn normalized_chars(p: &Vec<char>) -> (r: Vec<char>)
    ensures
        r@ == normalized(p@),
    decreases p.len(),
{
    let e = trimmed_len_of(p, p.len());
    let b = name_start_of(p, e);
    if b < e {
        let head = slice_of(p, 0, b);
        let dir = normalized_chars(&head);
        let name = slice_of(p, b, e);
        join_chars(&dir, &name)
    } else {
        slice_of(p, 0, e)
    }
}

/// Whether `a` and `b` name the same path.
pub fn same_path_chars(a: &Vec<char>, b: &Vec<char>) -> (r: bool)
    ensures
        r == same_path(a@, b@),
{
    let x = normalized_chars(a);
    let y = normalized_chars(b);
    same_text(&x, &y)
}

/// Whether `p` starts at the root.
pub fn is_absolute_chars(p: &Vec<char>) -> (r: bool)
    ensures
        r == is_absolute(p@),
{
    p.len() > 0 && p[0] == '/'
}

} // verus!
