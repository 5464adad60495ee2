//! Giving every planned move a destination of its own.
//!
//! The moves of a batch are taken in order. A destination that is on disk, or
//! that an earlier move of the batch has claimed, is given up for the same
//! name with ` (1)` before the extension, then ` (2)`, and so on up to
//! [`MAX_CONFLICT_ATTEMPTS`]. A move whose file is in place already is left
//! alone and claims nothing.

use vstd::prelude::*;
use crate::path::{
    extension,
    extension_of_chars,
    file_name,
    file_name_chars,
    file_stem,
    join,
    join_chars,
    normalized,
    normalized_chars,
    parent,
    parent_chars,
    same_path,
    same_path_chars,
    stem_of_chars,
};
use crate::planner::{MoveView, PlannedMove};
use crate::resolver_laws::{law_in_place_is_untouched, law_resolution_renames};
use crate::text::{append, append_decimal, append_str, chars_of, decimal, same_text, string_of};

verus! {

/// The last number that is tried as a suffix. A name with this number is
/// kept whether or not it is free.
pub const MAX_CONFLICT_ATTEMPTS: u32 = 10_000;

/// The file name `stem (n).ext`, or `stem (n)` where `ext` is empty.
pub open spec fn numbered_name(stem: Seq<char>, ext: Seq<char>, n: nat) -> Seq<char> {
    if ext.len() == 0 {
        stem + " ("@ + decimal(n) + ")"@
    } else {
        stem + " ("@ + decimal(n) + ")."@ + ext
    }
}

/// The stem that the numbered names for `dest` are built on.
pub open spec fn stem_for(dest: Seq<char>) -> Seq<char> {
    match file_stem(dest) {
        Some(stem) => stem,
        None => "file"@,
    }
}

/// The extension that the numbered names for `dest` end in.
pub open spec fn extension_for(dest: Seq<char>) -> Seq<char> {
    match extension(dest) {
        Some(ext) => ext,
        None => Seq::empty(),
    }
}

/// The folder that the numbered names for `dest` are put in.
pub open spec fn folder_for(dest: Seq<char>) -> Seq<char> {
    match parent(dest) {
        Some(dir) => dir,
        None => Seq::empty(),
    }
}

/// The destination that is tried at attempt `n`: `dest` itself at first,
/// then `dest` with the number `n` in its file name.
pub open spec fn candidate(dest: Seq<char>, n: nat) -> Seq<char> {
    if n == 0 {
        dest
    } else {
        join(folder_for(dest), numbered_name(stem_for(dest), extension_for(dest), n))
    }
}

/// Whether one of the paths in `claimed` is the path `p`.
pub open spec fn is_claimed(claimed: Seq<Seq<char>>, p: Seq<char>) -> bool {
    exists|i: int| 0 <= i < claimed.len() && same_path(#[trigger] claimed[i], p)
}

/// Whether attempt `k` for `dest` has to be given up: the disk said that the
/// candidate exists (`busy[k]`), or the candidate is claimed.
pub open spec fn is_taken(dest: Seq<char>, claimed: Seq<Seq<char>>, busy: Seq<bool>, k: nat)
    -> bool {
    busy[k as int] || is_claimed(claimed, candidate(dest, k))
}

/// The attempt that `dest` is settled at when the search starts at attempt
/// `k`: the first one from `k` on that is not taken, or
/// [`MAX_CONFLICT_ATTEMPTS`] where all before it are.
pub open spec fn settled(dest: Seq<char>, claimed: Seq<Seq<char>>, busy: Seq<bool>, k: nat) -> nat
    decreases MAX_CONFLICT_ATTEMPTS - k,
{
    if k >= MAX_CONFLICT_ATTEMPTS {
        MAX_CONFLICT_ATTEMPTS as nat
    } else if is_taken(dest, claimed, busy, k) {
        settled(dest, claimed, busy, k + 1)
    } else {
        k
    }
}

/// The move `m` with the destination of attempt `n`. Its file name follows
/// the destination.
pub open spec fn renamed(m: MoveView, n: nat) -> MoveView {
    if n == 0 {
        m
    } else {
        MoveView {
            source: m.source,
            dest: candidate(m.dest, n),
            folder_name: m.folder_name,
            file_name: match file_name(candidate(m.dest, n)) {
                Some(name) => name,
                None => "unknown"@,
            },
        }
    }
}

/// The move `m` once it is resolved against the paths in `claimed`, where
/// `busy[k]` is what the disk said of attempt `k`.
pub open spec fn resolved_one(m: MoveView, claimed: Seq<Seq<char>>, busy: Seq<bool>) -> MoveView {
    if m.in_place() {
        m
    } else {
        renamed(m, settled(m.dest, claimed, busy, 0))
    }
}

/// The destinations that the moves in `done` have claimed. `done` holds the
/// first moves of `batch` after their resolution; one that was in place
/// claims nothing.
pub open spec fn claims(batch: Seq<MoveView>, done: Seq<MoveView>) -> Seq<Seq<char>>
    decreases done.len(),
{
    if done.len() == 0 {
        Seq::empty()
    } else if batch[done.len() - 1].in_place() {
        claims(batch, done.drop_last())
    } else {
        claims(batch, done.drop_last()).push(done.last().dest)
    }
}

/// The first `upto` moves of `batch` after their resolution, where
/// `busy[i][k]` is what the disk said of attempt `k` for move `i`.
pub open spec fn resolved(batch: Seq<MoveView>, busy: Seq<Seq<bool>>, upto: nat) -> Seq<MoveView>
    decreases upto,
{
    if upto == 0 {
        Seq::empty()
    } else {
        let done = resolved(batch, busy, (upto - 1) as nat);
        done.push(resolved_one(batch[upto - 1], claims(batch, done), busy[upto - 1]))
    }
}

/// The moves of `batch` as text.
pub open spec fn views(batch: Seq<PlannedMove>) -> Seq<MoveView> {
    batch.map_values(|m: PlannedMove| m@)
}

/// Whether `after` is `before` with nothing changed but, where the file is
/// not in place, the destination and the file name.
pub open spec fn is_resolution_of(after: MoveView, before: MoveView) -> bool {
    &&& after.source == before.source
    &&& after.folder_name == before.folder_name
    &&& before.in_place() ==> after == before
}

/// Whether the move can be resolved: it is in place, or its destination
/// has a parent to put a renamed file in.
pub open spec fn resolvable(m: MoveView) -> bool {
    m.in_place() || parent(m.dest) is Some
}

/// What `answers` says of attempt `k` for move `i`: that the candidate
/// exists where `answers[i][k]` says so, and that it does not exist where
/// `answers` is silent.
pub open spec fn told(answers: Seq<Vec<bool>>, i: int, k: int) -> bool {
    0 <= i < answers.len() && 0 <= k < answers[i]@.len() && answers[i]@[k]
}

/// What `answers` says of the attempts for move `i`.
pub open spec fn told_of(answers: Seq<Vec<bool>>, i: int) -> Seq<bool> {
    Seq::new(MAX_CONFLICT_ATTEMPTS as nat, |k: int| told(answers, i, k))
}

/// What `answers` says of the attempts for the first `n` moves.
pub open spec fn told_all(answers: Seq<Vec<bool>>, n: nat) -> Seq<Seq<bool>> {
    Seq::new(n, |i: int| told_of(answers, i))
}

/// Where it is learnt whether a candidate exists: on the disk itself, or
/// from answers that were given beforehand.
enum Disk<'a> {
    Live,
    Told(&'a Vec<Vec<bool>>),
}

/// The search for a free attempt passes over every attempt that is taken.
proof fn lemma_settled_from(
    dest: Seq<char>,
    claimed: Seq<Seq<char>>,
    busy: Seq<bool>,
    from: nat,
    k: nat,
)
    requires
        from <= k <= MAX_CONFLICT_ATTEMPTS,
        forall|j: nat| from <= j < k ==> is_taken(dest, claimed, busy, j),
        k == MAX_CONFLICT_ATTEMPTS || !is_taken(dest, claimed, busy, k),
    ensures
        settled(dest, claimed, busy, from) == k,
    decreases k - from,
{
    if from < k {
        lemma_settled_from(dest, claimed, busy, from + 1, k);
    }
}

/// `Path::exists`: whether the path points at something on disk at the
/// moment of the call. The answer depends on the disk alone, so nothing is
/// claimed of it.
#[verifier::external_body]
fn on_disk(path: &str) -> bool {
    std::path::Path::new(path).exists()
}

/// Whether the candidate `path` of attempt `k` for move `i` exists, as far as
/// `disk` knows.
fn probe(disk: &Disk, i: usize, k: u32, path: &Vec<char>) -> (r: bool)
    ensures
        disk matches Disk::Told(a) ==> r == told(a@, i as int, k as int),
{
    match disk {
        Disk::Live => on_disk(string_of(path).as_str()),
        Disk::Told(a) => i < a.len() && (k as usize) < a[i].len() && a[i][k as usize],
    }
}

/// The destination that is tried at attempt `n` for `dest`.
pub fn candidate_chars(dest: &Vec<char>, n: u32) -> (r: Vec<char>)
    ensures
        r@ == candidate(dest@, n as nat),
{
    let mut out: Vec<char> = Vec::new();
    if n == 0 {
        append(&mut out, dest);
        return out;
    }
    let name = file_name_chars(dest);
    let stem = match &name {
        Some(f) => stem_of_chars(f),
        None => chars_of("file"),
    };
    let ext = match &name {
        Some(f) => match extension_of_chars(f) {
            Some(e) => e,
            None => Vec::new(),
        },
        None => Vec::new(),
    };
    let dir = match parent_chars(dest) {
        Some(d) => d,
        None => Vec::new(),
    };
    append(&mut out, &stem);
    append_str(&mut out, " (");
    append_decimal(&mut out, n as u128);
    if ext.len() == 0 {
        append_str(&mut out, ")");
    } else {
        append_str(&mut out, ").");
        append(&mut out, &ext);
    }
    join_chars(&dir, &out)
}

/// Whether `p`, given in its plainest spelling, is among `claimed`, which
/// holds the plainest spellings of the paths in `paths`.
fn is_among(claimed: &Vec<Vec<char>>, plain: &Vec<char>, Ghost(paths): Ghost<Seq<Seq<char>>>, Ghost(
    p,
): Ghost<Seq<char>>) -> (r: bool)
    requires
        claimed.len() == paths.len(),
        forall|i: int| 0 <= i < paths.len() ==> (#[trigger] claimed[i])@ == normalized(paths[i]),
        plain@ == normalized(p),
    ensures
        r == is_claimed(paths, p),
{
    let mut i: usize = 0;
    while i < claimed.len()
        invariant
            i <= claimed.len(),
            claimed.len() == paths.len(),
            forall|j: int| 0 <= j < paths.len() ==> (#[trigger] claimed[j])@ == normalized(paths[j]),
            plain@ == normalized(p),
            forall|j: int| 0 <= j < i ==> !same_path(#[trigger] paths[j], p),
        decreases claimed.len() - i,
    {
        if same_text(&claimed[i], plain) {
            assert(same_path(paths[i as int], p));
            return true;
        }
        i = i + 1;
    }
    false
}

impl PlannedMove {
    /// Whether the file is where it is to go already.
    pub fn is_in_place(&self) -> (r: bool)
        ensures
            r == self@.in_place(),
    {
        let source = chars_of(self.source.as_str());
        let dest = chars_of(self.dest.as_str());
        same_path_chars(&source, &dest)
    }

    /// Whether [`resolve_conflicts`] takes the move.
    pub fn is_resolvable(&self) -> (r: bool)
        ensures
            r == resolvable(self@),
    {
        if self.is_in_place() {
            return true;
        }
        let dest = chars_of(self.dest.as_str());
        parent_chars(&dest).is_some()
    }
}

fn resolve(moves: &mut [PlannedMove], disk: &Disk)
    requires
        forall|i: int| 0 <= i < old(moves)@.len() ==> resolvable(#[trigger] old(moves)@[i]@),
    ensures
        final(moves)@.len() == old(moves)@.len(),
        forall|i: int|
            0 <= i < old(moves)@.len() ==> is_resolution_of(
                #[trigger] final(moves)@[i]@,
                old(moves)@[i]@,
            ),
        exists|busy: Seq<Seq<bool>>|
            {
                &&& views(final(moves)@) == #[trigger] resolved(
                    views(old(moves)@),
                    busy,
                    old(moves)@.len(),
                )
                &&& disk matches Disk::Told(a) ==> busy == told_all(a@, old(moves)@.len())
            },
{
    let n = moves.len();
    let ghost batch = views(moves@);
    let ghost mut busy: Seq<Seq<bool>> = Seq::empty();
    let mut claimed: Vec<Vec<char>> = Vec::new();
    let ghost mut paths: Seq<Seq<char>> = Seq::empty();
    let mut i: usize = 0;
    while i < n
        invariant
            i <= n,
            moves.len() == n,
            batch.len() == n,
            busy.len() == i,
            forall|j: int| i <= j < n ==> (#[trigger] moves[j])@ == batch[j],
            forall|j: int| 0 <= j < n ==> resolvable(#[trigger] batch[j]),
            views(moves@).take(i as int) == resolved(batch, busy, i as nat),
            paths == claims(batch, resolved(batch, busy, i as nat)),
            claimed.len() == paths.len(),
            forall|j: int| 0 <= j < paths.len() ==> (#[trigger] claimed[j])@ == normalized(paths[j]),
            disk matches Disk::Told(a) ==> busy == told_all(a@, i as nat),
        decreases n - i,
    {
        let ghost done = resolved(batch, busy, i as nat);
        let ghost before = views(moves@);
        assert(moves[i as int]@ == batch[i as int]);
        let dest = chars_of(moves[i].dest.as_str());
        let ghost mut answers: Seq<bool> = match disk {
            Disk::Live => Seq::empty(),
            Disk::Told(a) => told_of(a@, i as int),
        };
        if !moves[i].is_in_place() {
            let mut k: u32 = 0;
            let mut chosen = candidate_chars(&dest, 0);
            loop
                invariant_except_break
                    disk is Live ==> answers.len() == k,
                invariant
                    k <= MAX_CONFLICT_ATTEMPTS,
                    chosen@ == candidate(dest@, k as nat),
                    disk matches Disk::Told(a) ==> answers == told_of(a@, i as int),
                    forall|j: nat| j < k ==> is_taken(dest@, paths, answers, j),
                    claimed.len() == paths.len(),
                    forall|j: int|
                        0 <= j < paths.len() ==> (#[trigger] claimed[j])@ == normalized(paths[j]),
                ensures
                    k <= MAX_CONFLICT_ATTEMPTS,
                    chosen@ == candidate(dest@, k as nat),
                    k == settled(dest@, paths, answers, 0),
                decreases MAX_CONFLICT_ATTEMPTS - k,
            {
                if k >= MAX_CONFLICT_ATTEMPTS {
                    proof {
                        lemma_settled_from(dest@, paths, answers, 0, k as nat);
                    }
                    break;
                }
                let exists_now = probe(disk, i, k, &chosen);
                let plain = normalized_chars(&chosen);
                let taken = exists_now || is_among(&claimed, &plain, Ghost(paths), Ghost(chosen@));
                proof {
                    if disk is Live {
                        let ghost earlier = answers;
                        answers = answers.push(exists_now);
                        assert forall|j: nat| j < k implies is_taken(dest@, paths, answers, j) by {
                            assert(is_taken(dest@, paths, earlier, j));
                        }
                    }
                    assert(answers[k as int] == exists_now);
                }
                if !taken {
                    proof {
                        lemma_settled_from(dest@, paths, answers, 0, k as nat);
                    }
                    break;
                }
                k = k + 1;
                chosen = candidate_chars(&dest, k);
            }
            if k > 0 {
                let name = match file_name_chars(&chosen) {
                    Some(f) => string_of(&f),
                    None => string_of(&chars_of("unknown")),
                };
                let entry = PlannedMove {
                    source: moves[i].source.clone(),
                    dest: string_of(&chosen),
                    folder_name: moves[i].folder_name.clone(),
                    file_name: name,
                };
                moves[i] = entry;
            }
            claimed.push(normalized_chars(&chosen));
            proof {
                paths = paths.push(chosen@);
            }
        }
        proof {
            let earlier = busy;
            busy = busy.push(answers);
            let after = views(moves@);
            let next = resolved(batch, busy, (i + 1) as nat);
            lemma_resolved_prefix(batch, earlier, busy, i as nat);
            assert(resolved(batch, busy, i as nat) == done);
            assert(next == done.push(resolved_one(batch[i as int], claims(batch, done), answers)));
            assert(after[i as int] == resolved_one(batch[i as int], claims(batch, done), answers));
            assert(after.take(i + 1) =~= after.take(i as int).push(after[i as int]));
            assert(after.take(i as int) =~= before.take(i as int));
            assert(next.drop_last() =~= done);
            if let Disk::Told(a) = disk {
                assert(busy =~= told_all(a@, (i + 1) as nat));
            }
        }
        i = i + 1;
    }
    proof {
        assert(views(moves@).take(n as int) =~= views(moves@));
        assert forall|j: int| 0 <= j < n implies is_resolution_of(
            #[trigger] moves@[j]@,
            batch[j],
        ) by {
            assert(views(moves@)[j] == moves@[j]@);
            if batch[j].in_place() {
                law_in_place_is_untouched(batch, busy, j);
            } else {
                law_resolution_renames(batch, busy, j);
            }
        }
    }
}

/// Gives every move of the batch a destination that no earlier move of the
/// batch has claimed and that was not on disk when it was looked for, as far
/// as [`MAX_CONFLICT_ATTEMPTS`] numbers allow. What the disk says is not
/// known beforehand: the result is [`resolved`] for the answers that it
/// gave.
pub fn resolve_conflicts(moves: &mut [PlannedMove])
    requires
        forall|i: int| 0 <= i < old(moves)@.len() ==> resolvable(#[trigger] old(moves)@[i]@),
    ensures
        final(moves)@.len() == old(moves)@.len(),
        forall|i: int|
            0 <= i < old(moves)@.len() ==> is_resolution_of(
                #[trigger] final(moves)@[i]@,
                old(moves)@[i]@,
            ),
        exists|busy: Seq<Seq<bool>>|
            views(final(moves)@) == resolved(views(old(moves)@), busy, old(moves)@.len()),
{
    resolve(moves, &Disk::Live);
}

/// Resolves the batch as [`resolve_conflicts`] does, but asks `answers` in
/// place of the disk: the candidate of attempt `k` for move `i` is taken to
/// exist where `answers[i][k]` says so.
pub fn resolve_conflicts_given(moves: &mut [PlannedMove], answers: &Vec<Vec<bool>>)
    requires
        forall|i: int| 0 <= i < old(moves)@.len() ==> resolvable(#[trigger] old(moves)@[i]@),
    ensures
        final(moves)@.len() == old(moves)@.len(),
        forall|i: int|
            0 <= i < old(moves)@.len() ==> is_resolution_of(
                #[trigger] final(moves)@[i]@,
                old(moves)@[i]@,
            ),
        views(final(moves)@) == resolved(
            views(old(moves)@),
            told_all(answers@, old(moves)@.len()),
            old(moves)@.len(),
        ),
{
    resolve(moves, &Disk::Told(answers));
}

/// What has been resolved does not depend on what the disk says of later
/// moves.
proof fn lemma_resolved_prefix(
    batch: Seq<MoveView>,
    a: Seq<Seq<bool>>,
    b: Seq<Seq<bool>>,
    upto: nat,
)
    requires
        upto <= a.len(),
        upto <= b.len(),
        forall|i: int| 0 <= i < upto ==> a[i] == b[i],
    ensures
        resolved(batch, a, upto) == resolved(batch, b, upto),
    decreases upto,
{
    if upto > 0 {
        lemma_resolved_prefix(batch, a, b, (upto - 1) as nat);
    }
}

} // verus!
