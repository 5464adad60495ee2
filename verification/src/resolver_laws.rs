//! What holds of every resolved batch, whatever the disk said.

use vstd::prelude::*;
use crate::path::{
    extension_of,
    file_name,
    join,
    last_component,
    parent,
    same_path,
    stem_of,
};
use crate::path_laws::{
    is_name_char,
    is_plain_name,
    is_unbroken,
    lemma_joined_name_is_last,
    lemma_last_component_is_unbroken,
    lemma_other_name_is_other_path,
    lemma_parent_of_join,
    lemma_stem_and_extension,
};
use crate::planner::{placed, MoveView};
use crate::resolver::{
    candidate,
    claims,
    extension_for,
    folder_for,
    is_claimed,
    is_taken,
    numbered_name,
    renamed,
    resolved,
    resolved_one,
    settled,
    stem_for,
    MAX_CONFLICT_ATTEMPTS,
};
use crate::text::{decimal, lemma_decimal_is_digits};

verus! {

/// The attempt at which move `i` of `batch` comes to rest, where
/// `busy[j][k]` is what the disk said of attempt `k` for move `j`.
pub open spec fn attempt(batch: Seq<MoveView>, busy: Seq<Seq<bool>>, i: int) -> nat {
    settled(batch[i].dest, claims(batch, resolved(batch, busy, i as nat)), busy[i], 0)
}

/// Whether move `i` ran out of numbers: every attempt before the last was
/// taken, and the last was kept without being looked at.
pub open spec fn exhausted(batch: Seq<MoveView>, busy: Seq<Seq<bool>>, i: int) -> bool {
    attempt(batch, busy, i) == MAX_CONFLICT_ATTEMPTS
}

/// Every move of the batch is resolved, and what is resolved first does not
/// change as later moves are resolved.
pub proof fn lemma_resolved_grows(batch: Seq<MoveView>, busy: Seq<Seq<bool>>, i: nat, upto: nat)
    requires
        i <= upto,
    ensures
        resolved(batch, busy, upto).len() == upto,
        resolved(batch, busy, upto).take(i as int) == resolved(batch, busy, i),
    decreases upto,
{
    if upto == 0 {
        assert(resolved(batch, busy, upto).take(0) =~= Seq::<MoveView>::empty());
    } else if i == upto {
        lemma_resolved_grows(batch, busy, (upto - 1) as nat, (upto - 1) as nat);
        assert(resolved(batch, busy, upto).take(upto as int) =~= resolved(batch, busy, upto));
    } else {
        lemma_resolved_grows(batch, busy, i, (upto - 1) as nat);
        let done = resolved(batch, busy, (upto - 1) as nat);
        assert(resolved(batch, busy, upto).take(i as int) =~= done.take(i as int));
    }
}

/// Move `i` of a resolved batch is move `i` of the batch, resolved against
/// what the moves before it have claimed.
pub proof fn lemma_resolved_at(batch: Seq<MoveView>, busy: Seq<Seq<bool>>, upto: nat, i: int)
    requires
        0 <= i < upto,
    ensures
        resolved(batch, busy, upto)[i] == resolved_one(
            batch[i],
            claims(batch, resolved(batch, busy, i as nat)),
            busy[i],
        ),
{
    lemma_resolved_grows(batch, busy, (i + 1) as nat, upto);
    lemma_resolved_grows(batch, busy, i as nat, i as nat);
    let out = resolved(batch, busy, upto);
    let done = resolved(batch, busy, i as nat);
    let next = resolved(batch, busy, (i + 1) as nat);
    assert(next == done.push(resolved_one(batch[i], claims(batch, done), busy[i])));
    assert(out[i] == out.take(i + 1)[i]);
}

/// A search comes to rest at or before the last attempt. Where it rests
/// before the last, it rests at the first attempt that is not taken.
pub proof fn lemma_settled_is_first_free(
    dest: Seq<char>,
    claimed: Seq<Seq<char>>,
    busy: Seq<bool>,
    from: nat,
)
    requires
        from <= MAX_CONFLICT_ATTEMPTS,
    ensures
        from <= settled(dest, claimed, busy, from) <= MAX_CONFLICT_ATTEMPTS,
        settled(dest, claimed, busy, from) < MAX_CONFLICT_ATTEMPTS ==> !is_taken(
            dest,
            claimed,
            busy,
            settled(dest, claimed, busy, from),
        ),
        forall|k: nat|
            from <= k < settled(dest, claimed, busy, from) ==> is_taken(dest, claimed, busy, k),
    decreases MAX_CONFLICT_ATTEMPTS - from,
{
    if from < MAX_CONFLICT_ATTEMPTS && is_taken(dest, claimed, busy, from) {
        lemma_settled_is_first_free(dest, claimed, busy, from + 1);
    }
}

/// What a move that was not in place has come to rest at is claimed.
pub proof fn lemma_claims_hold(batch: Seq<MoveView>, done: Seq<MoveView>, i: int)
    requires
        0 <= i < done.len(),
        !batch[i].in_place(),
    ensures
        exists|m: int|
            0 <= m < claims(batch, done).len() && #[trigger] claims(batch, done)[m] == done[i].dest,
    decreases done.len(),
{
    let rest = claims(batch, done.drop_last());
    if i == done.len() - 1 {
        assert(claims(batch, done) == rest.push(done.last().dest));
        assert(claims(batch, done)[rest.len() as int] == done[i].dest);
    } else {
        lemma_claims_hold(batch, done.drop_last(), i);
        let m = choose|m: int| 0 <= m < rest.len() && #[trigger] rest[m] == done.drop_last()[i].dest;
        assert(done.drop_last()[i] == done[i]);
        assert(claims(batch, done)[m] == rest[m]);
    }
}

/// A move whose file is in place already is left as it is.
pub proof fn law_in_place_is_untouched(
    batch: Seq<MoveView>,
    busy: Seq<Seq<bool>>,
    i: int,
)
    requires
        0 <= i < batch.len(),
        batch[i].in_place(),
    ensures
        resolved(batch, busy, batch.len())[i] == batch[i],
{
    lemma_resolved_at(batch, busy, batch.len(), i);
}

/// A move is resolved by giving it the destination of one of its attempts
/// and the file name of that destination. Its source and its folder stay,
/// and a move that keeps its first destination stays whole.
pub proof fn law_resolution_renames(batch: Seq<MoveView>, busy: Seq<Seq<bool>>, i: int)
    requires
        0 <= i < batch.len(),
        !batch[i].in_place(),
    ensures
        attempt(batch, busy, i) <= MAX_CONFLICT_ATTEMPTS,
        resolved(batch, busy, batch.len())[i] == renamed(batch[i], attempt(batch, busy, i)),
        resolved(batch, busy, batch.len())[i].dest == candidate(
            batch[i].dest,
            attempt(batch, busy, i),
        ),
        resolved(batch, busy, batch.len())[i].source == batch[i].source,
        resolved(batch, busy, batch.len())[i].folder_name == batch[i].folder_name,
        attempt(batch, busy, i) == 0 ==> resolved(batch, busy, batch.len())[i] == batch[i],
{
    lemma_resolved_at(batch, busy, batch.len(), i);
    lemma_settled_is_first_free(
        batch[i].dest,
        claims(batch, resolved(batch, busy, i as nat)),
        busy[i],
        0,
    );
}

/// A move that did not run out of numbers rests at the first of its
/// attempts that the disk did not report and that no earlier move had
/// claimed.
pub proof fn law_resolution_takes_first_free(
    batch: Seq<MoveView>,
    busy: Seq<Seq<bool>>,
    i: int,
)
    requires
        0 <= i < batch.len(),
        !batch[i].in_place(),
        !exhausted(batch, busy, i),
    ensures
        !busy[i][attempt(batch, busy, i) as int],
        !is_claimed(
            claims(batch, resolved(batch, busy, i as nat)),
            resolved(batch, busy, batch.len())[i].dest,
        ),
        forall|k: nat|
            k < attempt(batch, busy, i) ==> busy[i][k as int] || is_claimed(
                claims(batch, resolved(batch, busy, i as nat)),
                candidate(batch[i].dest, k),
            ),
{
    let claimed = claims(batch, resolved(batch, busy, i as nat));
    law_resolution_renames(batch, busy, i);
    lemma_settled_is_first_free(batch[i].dest, claimed, busy[i], 0);
    assert forall|k: nat| k < attempt(batch, busy, i) implies busy[i][k as int] || is_claimed(
        claimed,
        candidate(batch[i].dest, k),
    ) by {
        assert(is_taken(batch[i].dest, claimed, busy[i], k));
    }
}

/// No two moves of a resolved batch go to the same destination, as far as
/// the later of them did not run out of numbers. Moves that were in place
/// stand aside: they claim nothing.
pub proof fn law_destinations_are_distinct(
    batch: Seq<MoveView>,
    busy: Seq<Seq<bool>>,
    i: int,
    j: int,
)
    requires
        0 <= i < j < batch.len(),
        !batch[i].in_place(),
        !batch[j].in_place(),
        !exhausted(batch, busy, j),
    ensures
        !same_path(
            resolved(batch, busy, batch.len())[i].dest,
            resolved(batch, busy, batch.len())[j].dest,
        ),
{
    let out = resolved(batch, busy, batch.len());
    let done = resolved(batch, busy, j as nat);
    let claimed = claims(batch, done);
    law_resolution_takes_first_free(batch, busy, j);
    lemma_resolved_grows(batch, busy, j as nat, batch.len());
    assert(done[i] == out.take(j)[i]);
    lemma_claims_hold(batch, done, i);
    let m = choose|m: int| 0 <= m < claimed.len() && #[trigger] claimed[m] == done[i].dest;
    assert(!same_path(claimed[m], out[j].dest));
}

/// A numbered name is a plain name, longer by its number than the stem
/// and the extension that it is made of.
pub proof fn lemma_numbered_name_is_plain(stem: Seq<char>, ext: Seq<char>, n: nat)
    requires
        is_unbroken(stem),
        is_unbroken(ext),
    ensures
        is_plain_name(numbered_name(stem, ext, n)),
        numbered_name(stem, ext, n).len() == stem.len() + 3 + decimal(n).len() + if ext.len()
            == 0 {
            0
        } else {
            1 + ext.len()
        },
{
    reveal_strlit(" (");
    reveal_strlit(")");
    reveal_strlit(").");
    lemma_decimal_is_digits(n);
    let name = numbered_name(stem, ext, n);
    let dec = decimal(n);
    let open = " ("@;
    let a = stem.len() as int;
    let b = a + 2;
    let c = b + dec.len();
    assert forall|i: int| 0 <= i < name.len() implies is_name_char(#[trigger] name[i]) by {
        if i < a {
            assert(name[i] == stem[i]);
        } else if i < b {
            assert(name[i] == open[i - a]);
        } else if i < c {
            assert(name[i] == dec[i - b]);
            assert('0' <= dec[i - b] <= '9');
        } else if ext.len() == 0 {
            assert(name[i] == ')');
        } else if i < c + 2 {
            assert(name[i] == ")."@[i - c]);
        } else {
            assert(name[i] == ext[i - c - 2]);
        }
    }
    assert(seq!['.'].len() == 1);
    assert(crate::path::dot_dot().len() == 2);
}

/// From the second attempt on a destination is tried under a numbered name
/// in the folder where it lay. That name is a plain name, is the file name
/// of the new destination, and is not the name that the destination had.
pub proof fn lemma_candidate_is_renamed(dest: Seq<char>, n: nat)
    requires
        n >= 1,
    ensures
        is_plain_name(numbered_name(stem_for(dest), extension_for(dest), n)),
        file_name(candidate(dest, n)) == Some(
            numbered_name(stem_for(dest), extension_for(dest), n),
        ),
        numbered_name(stem_for(dest), extension_for(dest), n) != last_component(dest),
{
    reveal_strlit("file");
    let c = last_component(dest);
    let name = numbered_name(stem_for(dest), extension_for(dest), n);
    lemma_last_component_is_unbroken(dest);
    lemma_decimal_is_digits(n);
    assert(crate::path::dot_dot().len() == 2);
    if file_name(dest) is Some {
        lemma_stem_and_extension(c);
        lemma_numbered_name_is_plain(stem_of(c), extension_for(dest), n);
        assert(name.len() > c.len());
    } else {
        assert(is_unbroken("file"@));
        lemma_numbered_name_is_plain("file"@, Seq::empty(), n);
        assert(name.len() > c.len());
    }
    lemma_joined_name_is_last(folder_for(dest), name);
}

/// No numbered attempt names the file that the destination names.
pub proof fn law_attempts_leave_the_destination(dest: Seq<char>, n: nat)
    requires
        parent(dest) is Some,
        n >= 1,
    ensures
        !same_path(dest, candidate(dest, n)),
{
    lemma_candidate_is_renamed(dest, n);
    lemma_other_name_is_other_path(
        dest,
        numbered_name(stem_for(dest), extension_for(dest), n),
    );
}

/// The file name of a resolved move is the last component of its
/// destination, as far as the move was not in place and did not keep its
/// first destination: it is the numbered name of the attempt.
pub proof fn law_file_name_follows_destination(
    batch: Seq<MoveView>,
    busy: Seq<Seq<bool>>,
    i: int,
)
    requires
        0 <= i < batch.len(),
        !batch[i].in_place(),
        attempt(batch, busy, i) >= 1,
    ensures
        resolved(batch, busy, batch.len())[i].file_name == numbered_name(
            stem_for(batch[i].dest),
            extension_for(batch[i].dest),
            attempt(batch, busy, i),
        ),
        file_name(resolved(batch, busy, batch.len())[i].dest) == Some(
            resolved(batch, busy, batch.len())[i].file_name,
        ),
{
    law_resolution_renames(batch, busy, i);
    lemma_candidate_is_renamed(batch[i].dest, attempt(batch, busy, i));
}

/// Of two moves to one destination, with nothing in the way on disk, the
/// first keeps the destination and the second gets the same name with
/// ` (1)` before the extension. The two then go to different files.
pub proof fn law_twin_gets_first_number(first: MoveView, second: MoveView, busy: Seq<Seq<bool>>)
    requires
        first.dest == second.dest,
        !first.in_place(),
        !second.in_place(),
        parent(first.dest) is Some,
        !busy[0][0],
        !busy[1][1],
    ensures
        resolved(seq![first, second], busy, 2)[0] == first,
        resolved(seq![first, second], busy, 2)[1].dest == candidate(second.dest, 1),
        resolved(seq![first, second], busy, 2)[1].file_name == numbered_name(
            stem_for(second.dest),
            extension_for(second.dest),
            1,
        ),
        !same_path(
            resolved(seq![first, second], busy, 2)[0].dest,
            resolved(seq![first, second], busy, 2)[1].dest,
        ),
{
    let batch = seq![first, second];
    let d = first.dest;
    assert(batch[0] == first && batch[1] == second);
    assert(batch.len() == 2);
    let none = resolved(batch, busy, 0);
    assert(claims(batch, none) =~= Seq::<Seq<char>>::empty());
    assert(!is_claimed(claims(batch, none), candidate(d, 0)));
    assert(!is_taken(d, claims(batch, none), busy[0], 0));
    assert(attempt(batch, busy, 0) == 0);
    law_resolution_renames(batch, busy, 0);
    let one = resolved(batch, busy, 1);
    lemma_resolved_at(batch, busy, 1, 0);
    lemma_resolved_grows(batch, busy, 1, 1);
    assert(one[0] == first);
    assert(one.drop_last() =~= none);
    assert(claims(batch, one) =~= seq![d]);
    let claimed = claims(batch, one);
    assert(same_path(claimed[0], candidate(d, 0)));
    assert(is_taken(d, claimed, busy[1], 0));
    law_attempts_leave_the_destination(d, 1);
    assert(!is_claimed(claimed, candidate(d, 1)));
    assert(!is_taken(d, claimed, busy[1], 1));
    assert(settled(d, claimed, busy[1], 1) == 1);
    assert(attempt(batch, busy, 1) == 1);
    law_resolution_renames(batch, busy, 1);
    law_file_name_follows_destination(batch, busy, 1);
}

/// A move that lies under its base as its folder and file name say still
/// does so once it is resolved: the destination of every attempt is the
/// numbered name in the same folder under the same base.
pub proof fn law_resolution_keeps_place(
    base: Seq<char>,
    source: Seq<char>,
    folder_name: Seq<char>,
    file_name: Seq<char>,
    n: nat,
)
    requires
        is_plain_name(folder_name),
        is_plain_name(file_name),
        n >= 1,
    ensures
        renamed(placed(base, source, folder_name, file_name), n) == placed(
            base,
            source,
            folder_name,
            numbered_name(
                stem_of(file_name),
                match extension_of(file_name) {
                    Some(ext) => ext,
                    None => Seq::empty(),
                },
                n,
            ),
        ),
{
    let dir = join(base, folder_name);
    let dest = join(dir, file_name);
    lemma_joined_name_is_last(base, folder_name);
    lemma_joined_name_is_last(dir, file_name);
    assert(is_name_char(folder_name[0]));
    if dir.len() == 1 && dir[0] == '.' {
        assert(dir =~= folder_name);
        assert(folder_name =~= seq!['.']);
    }
    lemma_parent_of_join(dir, file_name);
    lemma_candidate_is_renamed(dest, n);
}

} // verus!
