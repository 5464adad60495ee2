//! Counting what a batch of moves comes to.

use vstd::prelude::*;
use crate::planner::{MoveView, PlannedMove};
use crate::resolver::views;
use crate::text::{append_decimal, append_str, chars_of, decimal, same_text, string_of};

verus! {

/// What a batch of moves comes to.
#[derive(Debug, Clone, Copy, PartialEq, Eq, Structural)]
pub struct Summary {
    /// The files that go into the folder of their artist and album.
    pub moved: usize,
    /// The files that go into `_Unsorted`.
    pub unsorted: usize,
    /// The files that are where they are to go already.
    pub in_place: usize,
    /// The folders of artists and albums that the batch names.
    pub folders: usize,
}

/// Whether the move goes into `_Unsorted`.
pub open spec fn is_unsorted(m: MoveView) -> bool {
    m.folder_name == "_Unsorted"@
}

/// How many of the moves in `batch` are in place already.
pub open spec fn count_in_place(batch: Seq<MoveView>) -> nat
    decreases batch.len(),
{
    if batch.len() == 0 {
        0
    } else {
        count_in_place(batch.drop_last()) + if batch.last().in_place() {
            1nat
        } else {
            0nat
        }
    }
}

/// How many of the moves in `batch` take a file into `_Unsorted`.
pub open spec fn count_unsorted(batch: Seq<MoveView>) -> nat
    decreases batch.len(),
{
    if batch.len() == 0 {
        0
    } else {
        count_unsorted(batch.drop_last()) + if !batch.last().in_place() && is_unsorted(
            batch.last(),
        ) {
            1nat
        } else {
            0nat
        }
    }
}

/// How many of the moves in `batch` take a file into the folder of its
/// artist and album.
pub open spec fn count_moved(batch: Seq<MoveView>) -> nat
    decreases batch.len(),
{
    if batch.len() == 0 {
        0
    } else {
        count_moved(batch.drop_last()) + if !batch.last().in_place() && !is_unsorted(
            batch.last(),
        ) {
            1nat
        } else {
            0nat
        }
    }
}

/// Whether move `i` is the first of `batch` to name its folder, and the
/// folder is not `_Unsorted`.
pub open spec fn opens_folder(batch: Seq<MoveView>, i: int) -> bool {
    &&& !is_unsorted(batch[i])
    &&& forall|j: int| 0 <= j < i ==> (#[trigger] batch[j]).folder_name != batch[i].folder_name
}

/// How many folders other than `_Unsorted` the first `n` moves of `batch`
/// name.
pub open spec fn count_folders(batch: Seq<MoveView>, n: nat) -> nat
    decreases n,
{
    if n == 0 {
        0
    } else {
        count_folders(batch, (n - 1) as nat) + if opens_folder(batch, n - 1) {
            1nat
        } else {
            0nat
        }
    }
}

/// What `batch` comes to.
pub open spec fn summed(batch: Seq<MoveView>) -> (nat, nat, nat, nat) {
    (
        count_moved(batch),
        count_unsorted(batch),
        count_in_place(batch),
        count_folders(batch, batch.len()),
    )
}

fn names_new_folder(moves: &[PlannedMove], i: usize) -> (r: bool)
    requires
        i < moves@.len(),
    ensures
        r == opens_folder(views(moves@), i as int),
{
    let ghost batch = views(moves@);
    assert(batch[i as int] == moves[i as int]@);
    let folder = chars_of(moves[i].folder_name.as_str());
    if same_text(&folder, &chars_of("_Unsorted")) {
        return false;
    }
    let mut j: usize = 0;
    while j < i
        invariant
            j <= i < moves.len(),
            batch == views(moves@),
            folder@ == batch[i as int].folder_name,
            forall|k: int| 0 <= k < j ==> (#[trigger] batch[k]).folder_name != batch[i as int].folder_name,
        decreases i - j,
    {
        assert(batch[j as int] == moves[j as int]@);
        if same_text(&chars_of(moves[j].folder_name.as_str()), &folder) {
            return false;
        }
        j = j + 1;
    }
    true
}

/// Counts what the batch comes to: each move is in place, goes into
/// `_Unsorted` or goes into the folder of its artist and album, and each
/// folder other than `_Unsorted` counts once.
pub fn summarize(moves: &[PlannedMove]) -> (r: Summary)
    ensures
        (r.moved as nat, r.unsorted as nat, r.in_place as nat, r.folders as nat) == summed(
            views(moves@),
        ),
        r.moved + r.unsorted + r.in_place == moves@.len(),
{
    let ghost batch = views(moves@);
    let mut moved: usize = 0;
    let mut unsorted: usize = 0;
    let mut in_place: usize = 0;
    let mut folders: usize = 0;
    let mut i: usize = 0;
    while i < moves.len()
        invariant
            i <= moves.len(),
            batch == views(moves@),
            moved == count_moved(batch.take(i as int)),
            unsorted == count_unsorted(batch.take(i as int)),
            in_place == count_in_place(batch.take(i as int)),
            folders == count_folders(batch, i as nat),
            moved + unsorted + in_place == i,
            folders <= i,
        decreases moves.len() - i,
    {
        proof {
            assert(batch.take(i + 1).drop_last() == batch.take(i as int));
            assert(batch.take(i + 1).last() == batch[i as int]);
            assert(batch[i as int] == moves[i as int]@);
        }
        if moves[i].is_in_place() {
            in_place = in_place + 1;
        } else if same_text(&chars_of(moves[i].folder_name.as_str()), &chars_of("_Unsorted")) {
            unsorted = unsorted + 1;
        } else {
            moved = moved + 1;
        }
        if names_new_folder(moves, i) {
            folders = folders + 1;
        }
        i = i + 1;
    }
    proof {
        assert(batch.take(moves.len() as int) == batch);
    }
    Summary { moved, unsorted, in_place, folders }
}

impl Summary {
    /// The summary in a line.
    pub open spec fn text(self) -> Seq<char> {
        "Summary: "@ + decimal((self.moved + self.unsorted + self.in_place) as nat)
            + " files -> "@ + decimal(self.folders as nat) + " folders, "@ + decimal(
            self.unsorted as nat,
        ) + " unsorted"@ + if self.in_place > 0 {
            ", "@ + decimal(self.in_place as nat) + " already in place"@
        } else {
            Seq::empty()
        }
    }

    /// The summary in a line.
    pub fn line(&self) -> (r: String)
        ensures
            r@ == self.text(),
    {
        let mut out: Vec<char> = Vec::new();
        append_str(&mut out, "Summary: ");
        append_decimal(
            &mut out,
            self.moved as u128 + self.unsorted as u128 + self.in_place as u128,
        );
        append_str(&mut out, " files -> ");
        append_decimal(&mut out, self.folders as u128);
        append_str(&mut out, " folders, ");
        append_decimal(&mut out, self.unsorted as u128);
        append_str(&mut out, " unsorted");
        proof {
            assert(Seq::<char>::empty() + "Summary: "@ == "Summary: "@);
        }
        let ghost head = out@;
        if self.in_place > 0 {
            append_str(&mut out, ", ");
            append_decimal(&mut out, self.in_place as u128);
            append_str(&mut out, " already in place");
            proof {
                let tail = ", "@ + decimal(self.in_place as nat) + " already in place"@;
                assert(out@ =~= head + tail);
            }
        } else {
            proof {
                assert(out@ =~= head + Seq::<char>::empty());
            }
        }
        string_of(&out)
    }
}

/// What is said once the moves are made: how many went through, and how
/// many did not where any did not.
pub open spec fn outcome_text(moved: nat, failed: nat) -> Seq<char> {
    "Moved "@ + decimal(moved) + " files successfully"@ + if failed > 0 {
        ", "@ + decimal(failed) + " errors"@
    } else {
        Seq::empty()
    }
}

/// What is said once the moves are made.
pub fn outcome_line(moved: usize, failed: usize) -> (r: String)
    ensures
        r@ == outcome_text(moved as nat, failed as nat),
{
    let mut out: Vec<char> = Vec::new();
    append_str(&mut out, "Moved ");
    append_decimal(&mut out, moved as u128);
    append_str(&mut out, " files successfully");
    proof {
        assert(Seq::<char>::empty() + "Moved "@ == "Moved "@);
    }
    let ghost head = out@;
    if failed > 0 {
        append_str(&mut out, ", ");
        append_decimal(&mut out, failed as u128);
        append_str(&mut out, " errors");
        proof {
            let tail = ", "@ + decimal(failed as nat) + " errors"@;
            assert(out@ =~= head + tail);
        }
    } else {
        proof {
            assert(out@ =~= head + Seq::<char>::empty());
        }
    }
    string_of(&out)
}

} // verus!
