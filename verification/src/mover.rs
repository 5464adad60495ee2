//! Carrying out one planned move, one step at a time.
//!
//! Nothing here touches the file system. [`first_step`] and [`next_step`]
//! say what is to be done next; whoever drives the move does it and reports
//! back what happened as a [`MoveEvent`]. A move is first tried as a rename.
//! Only where the rename is refused because source and destination lie on
//! different file systems is the file copied, the copy checked against the
//! size of the source, and the source removed last.

use vstd::prelude::*;
use crate::path::{parent, parent_chars, same_path_chars};
use crate::planner::{MoveView, PlannedMove};
use crate::text::{append, append_decimal, append_str, chars_of, decimal, string_of};

verus! {

/// Why a move did not take place.
#[derive(Debug, Clone, Copy, PartialEq, Eq, Structural)]
pub enum MoveError {
    /// The folder for the destination could not be made.
    CreateDirectory,
    /// Something stands at the destination that was not there when the move
    /// was planned.
    DestinationExists,
    /// The rename failed, and not because of a second file system.
    Rename,
    /// The size of the source could not be read.
    SourceMetadata,
    /// The copy failed.
    Copy,
    /// The copy holds `copied` bytes where the source holds `expected`.
    Verification { expected: u64, copied: u64 },
    /// The copy stands, but the source could not be removed.
    RemoveSource,
}

/// What is to be done next for a move, or how the move ended.
#[derive(Debug, Clone, Copy, PartialEq, Eq, Structural)]
pub enum MoveStep {
    /// Make the parent folder of the destination, and every folder above it
    /// that is missing.
    CreateParent,
    /// Look whether anything stands at the destination.
    ProbeDestination,
    /// Rename the source to the destination.
    Rename,
    /// Read the size of the source.
    MeasureSource,
    /// Copy the source to the destination; the source holds `expected` bytes.
    Copy { expected: u64 },
    /// Remove the destination, which holds a copy of the wrong size.
    DiscardCopy { expected: u64, copied: u64 },
    /// Remove the source.
    RemoveSource,
    /// The move is done.
    Done,
    /// The move has failed.
    Failed(MoveError),
}

/// What came of a step.
#[derive(Debug, Clone, Copy, PartialEq, Eq, Structural)]
pub enum MoveEvent {
    /// The step was carried out.
    Completed,
    /// The step failed with the operating system's error code `os_code`, if
    /// it gave one.
    Refused { os_code: Option<i32> },
    /// Something stands at the destination.
    Present,
    /// Nothing stands at the destination.
    Absent,
    /// The step was carried out and counted this many bytes.
    Size(u64),
}

impl MoveStep {
    /// Whether the move has ended, so that no step is left to do.
    pub open spec fn is_final(self) -> bool {
        self is Done || self is Failed
    }

    /// Whether the move has ended, so that no step is left to do.
    pub fn ended(&self) -> (r: bool)
        ensures
            r == self.is_final(),
    {
        match self {
            MoveStep::Done | MoveStep::Failed(_) => true,
            _ => false,
        }
    }
}

/// The step that a move begins with. A file that is in place already needs
/// none.
pub open spec fn opening(planned: MoveView) -> MoveStep {
    if planned.in_place() {
        MoveStep::Done
    } else if parent(planned.dest) is Some {
        MoveStep::CreateParent
    } else {
        MoveStep::ProbeDestination
    }
}

/// The step that follows `step` once `event` has come of it, where
/// `cross_device` is the error code with which the operating system refuses
/// a rename across file systems. An event that cannot come of the step is
/// taken as its failure, and a move that has ended stays as it is.
pub open spec fn following(step: MoveStep, event: MoveEvent, cross_device: i32) -> MoveStep {
    match step {
        MoveStep::CreateParent => match event {
            MoveEvent::Completed => MoveStep::ProbeDestination,
            _ => MoveStep::Failed(MoveError::CreateDirectory),
        },
        MoveStep::ProbeDestination => match event {
            MoveEvent::Absent => MoveStep::Rename,
            _ => MoveStep::Failed(MoveError::DestinationExists),
        },
        MoveStep::Rename => match event {
            MoveEvent::Completed => MoveStep::Done,
            MoveEvent::Refused { os_code } => if os_code == Some(cross_device) {
                MoveStep::MeasureSource
            } else {
                MoveStep::Failed(MoveError::Rename)
            },
            _ => MoveStep::Failed(MoveError::Rename),
        },
        MoveStep::MeasureSource => match event {
            MoveEvent::Size(expected) => MoveStep::Copy { expected },
            _ => MoveStep::Failed(MoveError::SourceMetadata),
        },
        MoveStep::Copy { expected } => match event {
            MoveEvent::Size(copied) => if copied == expected {
                MoveStep::RemoveSource
            } else {
                MoveStep::DiscardCopy { expected, copied }
            },
            _ => MoveStep::Failed(MoveError::Copy),
        },
        MoveStep::DiscardCopy { expected, copied } => MoveStep::Failed(
            MoveError::Verification { expected, copied },
        ),
        MoveStep::RemoveSource => match event {
            MoveEvent::Completed => MoveStep::Done,
            _ => MoveStep::Failed(MoveError::RemoveSource),
        },
        MoveStep::Done => MoveStep::Done,
        MoveStep::Failed(e) => MoveStep::Failed(e),
    }
}

/// Whether `event` says that a rename was refused with an error code.
pub open spec fn is_coded_refusal(step: MoveStep, event: MoveEvent) -> bool {
    &&& step is Rename
    &&& event matches MoveEvent::Refused { os_code }
    &&& os_code is Some
}

/// `libc::EXDEV`, the error code with which the operating system refuses a
/// rename from one file system to another. The number differs from target
/// to target, so nothing is claimed of it.
#[verifier::external_body]
fn cross_device_code() -> i32 {
    libc::EXDEV
}

/// The step that a move begins with.
pub fn first_step(planned: &PlannedMove) -> (step: MoveStep)
    ensures
        step == opening(planned@),
{
    let source = chars_of(planned.source.as_str());
    let dest = chars_of(planned.dest.as_str());
    if same_path_chars(&source, &dest) {
        MoveStep::Done
    } else {
        match parent_chars(&dest) {
            Some(_) => MoveStep::CreateParent,
            None => MoveStep::ProbeDestination,
        }
    }
}

/// The folder that [`MoveStep::CreateParent`] asks for: the parent of the
/// destination.
pub fn destination_parent(planned: &PlannedMove) -> (dir: Option<String>)
    ensures
        match dir {
            Some(d) => parent(planned@.dest) == Some(d@),
            None => parent(planned@.dest) is None,
        },
{
    let dest = chars_of(planned.dest.as_str());
    match parent_chars(&dest) {
        Some(d) => Some(string_of(&d)),
        None => None,
    }
}

/// The step that follows `step` once `event` has come of it, given the
/// error code `cross_device` with which the operating system refuses a
/// rename across file systems.
pub fn next_step_given(step: MoveStep, event: MoveEvent, cross_device: i32) -> (next: MoveStep)
    ensures
        next == following(step, event, cross_device),
{
    match step {
        MoveStep::CreateParent => match event {
            MoveEvent::Completed => MoveStep::ProbeDestination,
            _ => MoveStep::Failed(MoveError::CreateDirectory),
        },
        MoveStep::ProbeDestination => match event {
            MoveEvent::Absent => MoveStep::Rename,
            _ => MoveStep::Failed(MoveError::DestinationExists),
        },
        MoveStep::Rename => match event {
            MoveEvent::Completed => MoveStep::Done,
            MoveEvent::Refused { os_code } => match os_code {
                Some(code) => if code == cross_device {
                    MoveStep::MeasureSource
                } else {
                    MoveStep::Failed(MoveError::Rename)
                },
                None => MoveStep::Failed(MoveError::Rename),
            },
            _ => MoveStep::Failed(MoveError::Rename),
        },
        MoveStep::MeasureSource => match event {
            MoveEvent::Size(expected) => MoveStep::Copy { expected },
            _ => MoveStep::Failed(MoveError::SourceMetadata),
        },
        MoveStep::Copy { expected } => match event {
            MoveEvent::Size(copied) => if copied == expected {
                MoveStep::RemoveSource
            } else {
                MoveStep::DiscardCopy { expected, copied }
            },
            _ => MoveStep::Failed(MoveError::Copy),
        },
        MoveStep::DiscardCopy { expected, copied } => MoveStep::Failed(
            MoveError::Verification { expected, copied },
        ),
        MoveStep::RemoveSource => match event {
            MoveEvent::Completed => MoveStep::Done,
            _ => MoveStep::Failed(MoveError::RemoveSource),
        },
        MoveStep::Done => MoveStep::Done,
        MoveStep::Failed(e) => MoveStep::Failed(e),
    }
}

/// The step that follows `step` once `event` has come of it. Which error
/// code stands for a second file system is asked of the platform. It bears
/// on one case only, a rename refused with a code: there the next step is
/// either to measure the source or to give up.
pub fn next_step(step: MoveStep, event: MoveEvent) -> (next: MoveStep)
    ensures
        exists|code: i32| next == following(step, event, code),
        !is_coded_refusal(step, event) ==> next == following(step, event, 0),
{
    let code = cross_device_code();
    next_step_given(step, event, code)
}

impl MoveError {
    /// What the error says of the move `planned`.
    pub open spec fn text(self, planned: MoveView) -> Seq<char> {
        match self {
            MoveError::CreateDirectory => "Failed to create directory: "@ + match parent(
                planned.dest,
            ) {
                Some(dir) => dir,
                None => Seq::empty(),
            },
            MoveError::DestinationExists =>
                "Destination already exists (appeared after planning): "@ + planned.dest,
            MoveError::Rename => "Failed to move "@ + planned.source + " -> "@ + planned.dest,
            MoveError::SourceMetadata => "Failed to read source metadata: "@ + planned.source,
            MoveError::Copy => "Failed to copy "@ + planned.source + " -> "@ + planned.dest,
            MoveError::Verification { expected, copied } => "Copy verification failed for "@
                + planned.source + ": expected "@ + decimal(expected as nat) + " bytes, copied "@
                + decimal(copied as nat),
            MoveError::RemoveSource => "Failed to remove source: "@ + planned.source,
        }
    }

    /// What the error says of the move `planned`.
    pub fn message(&self, planned: &PlannedMove) -> (s: String)
        ensures
            s@ == self.text(planned@),
    {
        let mut out: Vec<char> = Vec::new();
        match self {
            MoveError::CreateDirectory => {
                append_str(&mut out, "Failed to create directory: ");
                let dest = chars_of(planned.dest.as_str());
                match parent_chars(&dest) {
                    Some(dir) => {
                        append(&mut out, &dir);
                    },
                    None => {
                        assert(out@ + Seq::<char>::empty() == out@);
                    },
                }
            },
            MoveError::DestinationExists => {
                append_str(&mut out, "Destination already exists (appeared after planning): ");
                append_str(&mut out, planned.dest.as_str());
            },
            MoveError::Rename => {
                append_str(&mut out, "Failed to move ");
                append_str(&mut out, planned.source.as_str());
                append_str(&mut out, " -> ");
                append_str(&mut out, planned.dest.as_str());
            },
            MoveError::SourceMetadata => {
                append_str(&mut out, "Failed to read source metadata: ");
                append_str(&mut out, planned.source.as_str());
            },
            MoveError::Copy => {
                append_str(&mut out, "Failed to copy ");
                append_str(&mut out, planned.source.as_str());
                append_str(&mut out, " -> ");
                append_str(&mut out, planned.dest.as_str());
            },
            MoveError::Verification { expected, copied } => {
                append_str(&mut out, "Copy verification failed for ");
                append_str(&mut out, planned.source.as_str());
                append_str(&mut out, ": expected ");
                append_decimal(&mut out, *expected as u128);
                append_str(&mut out, " bytes, copied ");
                append_decimal(&mut out, *copied as u128);
            },
            MoveError::RemoveSource => {
                append_str(&mut out, "Failed to remove source: ");
                append_str(&mut out, planned.source.as_str());
            },
        }
        string_of(&out)
    }
}

/// The steps that a move goes through from `step` on as the events of
/// `events` come in, one after the other; the last of them is where the move
/// stands.
pub open spec fn run(step: MoveStep, events: Seq<MoveEvent>, cross_device: i32) -> Seq<MoveStep>
    decreases events.len(),
{
    if events.len() == 0 {
        seq![step]
    } else {
        let before = run(step, events.drop_last(), cross_device);
        before.push(following(before.last(), events.last(), cross_device))
    }
}

/// A run has one step more than it has events, and each of its steps
/// follows from the one before and the event that came of it.
pub proof fn lemma_run_steps(step: MoveStep, events: Seq<MoveEvent>, cross_device: i32)
    ensures
        run(step, events, cross_device).len() == events.len() + 1,
        run(step, events, cross_device)[0] == step,
        forall|i: int|
            1 <= i <= events.len() ==> #[trigger] run(step, events, cross_device)[i] == following(
                run(step, events, cross_device)[i - 1],
                events[i - 1],
                cross_device,
            ),
    decreases events.len(),
{
    if events.len() > 0 {
        let head = events.drop_last();
        lemma_run_steps(step, head, cross_device);
        let before = run(step, head, cross_device);
        let all = run(step, events, cross_device);
        assert forall|i: int| 1 <= i <= events.len() implies #[trigger] all[i] == following(
            all[i - 1],
            events[i - 1],
            cross_device,
        ) by {
            if i <= head.len() {
                assert(all[i] == before[i]);
                assert(all[i - 1] == before[i - 1]);
                assert(head[i - 1] == events[i - 1]);
            }
        }
    }
}

/// A file that is where it is to go is moved by doing nothing: the move is
/// done before anything is asked of the file system.
pub proof fn law_in_place_needs_no_step(planned: MoveView)
    requires
        planned.in_place(),
    ensures
        opening(planned) == MoveStep::Done,
{
}

/// A move that has ended stays as it ended, whatever is reported.
pub proof fn law_end_is_final(step: MoveStep, event: MoveEvent, cross_device: i32)
    requires
        step.is_final(),
    ensures
        following(step, event, cross_device) == step,
{
}

/// Nothing is renamed onto a destination that was not found absent just
/// before: the rename follows the probe and nothing else, and only where
/// the probe found nothing.
pub proof fn law_rename_only_onto_absent(step: MoveStep, event: MoveEvent, cross_device: i32)
    requires
        !(step is Rename),
        following(step, event, cross_device) is Rename,
    ensures
        step is ProbeDestination,
        event is Absent,
{
}

/// A destination that is found occupied ends the move with
/// [`MoveError::DestinationExists`], so that neither source nor destination
/// is touched.
pub proof fn law_occupied_destination_fails(event: MoveEvent, cross_device: i32)
    requires
        !(event is Absent),
    ensures
        following(MoveStep::ProbeDestination, event, cross_device) == MoveStep::Failed(
            MoveError::DestinationExists,
        ),
{
}

/// The copy is fallen back on only where a rename was refused with the code
/// for a second file system; any other refusal ends the move.
pub proof fn law_fallback_only_across_devices(
    step: MoveStep,
    event: MoveEvent,
    cross_device: i32,
)
    ensures
        following(step, event, cross_device) is MeasureSource <==> step is Rename && event
            == (MoveEvent::Refused { os_code: Some(cross_device) }),
        step is Rename && event is Refused && event != (MoveEvent::Refused {
            os_code: Some(cross_device),
        }) ==> following(step, event, cross_device) == MoveStep::Failed(MoveError::Rename),
{
}

/// The source is removed only after a copy that holds as many bytes as the
/// source was measured to hold.
pub proof fn law_source_removed_only_after_verified_copy(
    step: MoveStep,
    event: MoveEvent,
    cross_device: i32,
)
    requires
        following(step, event, cross_device) is RemoveSource,
        !(step is RemoveSource),
    ensures
        step is Copy,
        event == MoveEvent::Size(step->Copy_expected),
{
}

/// A copy of the wrong size is discarded, and the move then fails with the
/// two sizes, whether or not the copy could be removed. The source is not
/// touched.
pub proof fn law_wrong_size_discards_copy(
    expected: u64,
    copied: u64,
    removal: MoveEvent,
    cross_device: i32,
)
    requires
        copied != expected,
    ensures
        following(MoveStep::Copy { expected }, MoveEvent::Size(copied), cross_device)
            == (MoveStep::DiscardCopy { expected, copied }),
        following(MoveStep::DiscardCopy { expected, copied }, removal, cross_device)
            == MoveStep::Failed(MoveError::Verification { expected, copied }),
{
}

/// In a run that begins where a move begins, the source is removed only
/// after it was measured, copied in full, and before that refused a rename
/// across file systems onto a destination found absent.
pub proof fn law_run_removes_source_last(
    planned: MoveView,
    events: Seq<MoveEvent>,
    cross_device: i32,
    i: int,
)
    requires
        0 <= i <= events.len(),
        run(opening(planned), events, cross_device)[i] is RemoveSource,
    ensures
        i >= 4,
        run(opening(planned), events, cross_device)[i - 1] is Copy,
        events[i - 1] == MoveEvent::Size(
            run(opening(planned), events, cross_device)[i - 1]->Copy_expected,
        ),
        run(opening(planned), events, cross_device)[i - 2] is MeasureSource,
        events[i - 2] == MoveEvent::Size(
            run(opening(planned), events, cross_device)[i - 1]->Copy_expected,
        ),
        run(opening(planned), events, cross_device)[i - 3] is Rename,
        events[i - 3] == (MoveEvent::Refused { os_code: Some(cross_device) }),
        run(opening(planned), events, cross_device)[i - 4] is ProbeDestination,
        events[i - 4] is Absent,
{
    let steps = run(opening(planned), events, cross_device);
    lemma_run_steps(opening(planned), events, cross_device);
    assert(steps[0] == opening(planned));
    assert(i >= 1);
    assert(steps[i] == following(steps[i - 1], events[i - 1], cross_device));
    assert(steps[i - 1] is Copy);
    assert(i >= 2);
    assert(steps[i - 1] == following(steps[i - 2], events[i - 2], cross_device));
    assert(steps[i - 2] is MeasureSource);
    assert(i >= 3);
    assert(steps[i - 2] == following(steps[i - 3], events[i - 3], cross_device));
    assert(steps[i - 3] is Rename);
    assert(i >= 4);
    assert(steps[i - 3] == following(steps[i - 4], events[i - 4], cross_device));
}

/// A run in which the parent folder is made, the destination is found
/// absent and the rename goes through ends with the move done, after these
/// three steps and no other.
pub proof fn law_plain_move_succeeds(planned: MoveView, cross_device: i32)
    requires
        !planned.in_place(),
        parent(planned.dest) is Some,
    ensures
        run(
            opening(planned),
            seq![MoveEvent::Completed, MoveEvent::Absent, MoveEvent::Completed],
            cross_device,
        ) == seq![
            MoveStep::CreateParent,
            MoveStep::ProbeDestination,
            MoveStep::Rename,
            MoveStep::Done,
        ],
{
    let events = seq![MoveEvent::Completed, MoveEvent::Absent, MoveEvent::Completed];
    lemma_run_steps(opening(planned), events, cross_device);
    let steps = run(opening(planned), events, cross_device);
    assert(steps[0] == MoveStep::CreateParent);
    assert(steps[1] == following(steps[0], events[0], cross_device));
    assert(steps[2] == following(steps[1], events[1], cross_device));
    assert(steps[3] == following(steps[2], events[2], cross_device));
    assert(steps =~= seq![
        MoveStep::CreateParent,
        MoveStep::ProbeDestination,
        MoveStep::Rename,
        MoveStep::Done,
    ]);
}

} // verus!
