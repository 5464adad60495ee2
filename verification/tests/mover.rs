use tagmv::mover::{
    destination_parent, first_step, next_step, next_step_given, MoveError, MoveEvent, MoveStep,
};
use tagmv::planner::PlannedMove;

fn planned(source: &str, dest: &str) -> PlannedMove {
    PlannedMove {
        source: source.to_string(),
        dest: dest.to_string(),
        folder_name: "f".to_string(),
        file_name: "n".to_string(),
    }
}

const REFUSED: MoveEvent = MoveEvent::Refused { os_code: None };

#[test]
fn execute_move_skips_same_path() {
    let same = "/nonexistent/same.mp3".to_string();
    let planned = PlannedMove {
        source: same.clone(),
        dest: same,
        folder_name: "f".to_string(),
        file_name: "same.mp3".to_string(),
    };
    // Nothing is asked of the file system even though the path doesn't exist
    assert_eq!(first_step(&planned), MoveStep::Done);
    assert!(first_step(&planned).ended());
}

#[test]
fn move_begins_with_the_parent_folder() {
    let p = planned("/a/x.mp3", "/music/A - B/x.mp3");
    assert_eq!(first_step(&p), MoveStep::CreateParent);
    assert_eq!(destination_parent(&p).as_deref(), Some("/music/A - B"));
    let p = planned("/a/x.mp3", "/");
    assert_eq!(first_step(&p), MoveStep::ProbeDestination);
    assert_eq!(destination_parent(&p), None);
    let p = planned("/a/x.mp3", "x.mp3");
    assert_eq!(first_step(&p), MoveStep::CreateParent);
    assert_eq!(destination_parent(&p).as_deref(), Some(""));
}

#[test]
fn plain_rename_run() {
    let mut step = MoveStep::CreateParent;
    step = next_step(step, MoveEvent::Completed);
    assert_eq!(step, MoveStep::ProbeDestination);
    step = next_step(step, MoveEvent::Absent);
    assert_eq!(step, MoveStep::Rename);
    step = next_step(step, MoveEvent::Completed);
    assert_eq!(step, MoveStep::Done);
    assert!(step.ended());
}

#[test]
fn occupied_destination_fails_before_anything_is_moved() {
    let step = next_step(MoveStep::ProbeDestination, MoveEvent::Present);
    assert_eq!(step, MoveStep::Failed(MoveError::DestinationExists));
    assert!(step.ended());
    let p = planned("/a/a.txt", "/a/b.txt");
    assert!(MoveError::DestinationExists.message(&p).contains("already exists"));
    assert_eq!(
        MoveError::DestinationExists.message(&p),
        "Destination already exists (appeared after planning): /a/b.txt"
    );
}

#[test]
fn cross_device_rename_falls_back_to_copy() {
    let code = 18;
    let mut step = next_step_given(MoveStep::Rename, MoveEvent::Refused { os_code: Some(code) }, code);
    assert_eq!(step, MoveStep::MeasureSource);
    step = next_step_given(step, MoveEvent::Size(12), code);
    assert_eq!(step, MoveStep::Copy { expected: 12 });
    step = next_step_given(step, MoveEvent::Size(12), code);
    assert_eq!(step, MoveStep::RemoveSource);
    step = next_step_given(step, MoveEvent::Completed, code);
    assert_eq!(step, MoveStep::Done);
}

#[test]
fn next_step_knows_the_code_of_this_platform() {
    let step = next_step(MoveStep::Rename, MoveEvent::Refused { os_code: Some(libc::EXDEV) });
    assert_eq!(step, MoveStep::MeasureSource);
    let step = next_step(MoveStep::Rename, MoveEvent::Refused { os_code: Some(libc::EACCES) });
    assert_eq!(step, MoveStep::Failed(MoveError::Rename));
    let step = next_step(MoveStep::Rename, REFUSED);
    assert_eq!(step, MoveStep::Failed(MoveError::Rename));
}

#[test]
fn other_rename_failures_are_final() {
    let step = next_step_given(MoveStep::Rename, MoveEvent::Refused { os_code: Some(13) }, 18);
    assert_eq!(step, MoveStep::Failed(MoveError::Rename));
    let step = next_step_given(MoveStep::Rename, REFUSED, 18);
    assert_eq!(step, MoveStep::Failed(MoveError::Rename));
}

#[test]
fn short_copy_is_discarded_and_source_kept() {
    let mut step = next_step(MoveStep::Copy { expected: 12 }, MoveEvent::Size(7));
    assert_eq!(step, MoveStep::DiscardCopy { expected: 12, copied: 7 });
    let after_ok = next_step(step, MoveEvent::Completed);
    assert_eq!(after_ok, MoveStep::Failed(MoveError::Verification { expected: 12, copied: 7 }));
    step = next_step(step, REFUSED);
    assert_eq!(step, MoveStep::Failed(MoveError::Verification { expected: 12, copied: 7 }));
}

#[test]
fn each_failure_has_its_error() {
    assert_eq!(next_step(MoveStep::CreateParent, REFUSED), MoveStep::Failed(MoveError::CreateDirectory));
    assert_eq!(next_step(MoveStep::MeasureSource, REFUSED), MoveStep::Failed(MoveError::SourceMetadata));
    assert_eq!(next_step(MoveStep::Copy { expected: 1 }, REFUSED), MoveStep::Failed(MoveError::Copy));
    assert_eq!(next_step(MoveStep::RemoveSource, REFUSED), MoveStep::Failed(MoveError::RemoveSource));
}

#[test]
fn events_that_do_not_fit_fail_the_step() {
    assert_eq!(next_step(MoveStep::ProbeDestination, MoveEvent::Completed), MoveStep::Failed(MoveError::DestinationExists));
    assert_eq!(next_step(MoveStep::Rename, MoveEvent::Absent), MoveStep::Failed(MoveError::Rename));
    assert_eq!(next_step(MoveStep::Copy { expected: 3 }, MoveEvent::Completed), MoveStep::Failed(MoveError::Copy));
    assert_eq!(next_step(MoveStep::Done, MoveEvent::Completed), MoveStep::Done);
    assert_eq!(
        next_step(MoveStep::Failed(MoveError::Copy), MoveEvent::Completed),
        MoveStep::Failed(MoveError::Copy)
    );
}

#[test]
fn error_messages() {
    let p = planned("/dl/a.mp3", "/music/A - B/a.mp3");
    assert_eq!(MoveError::CreateDirectory.message(&p), "Failed to create directory: /music/A - B");
    assert_eq!(MoveError::Rename.message(&p), "Failed to move /dl/a.mp3 -> /music/A - B/a.mp3");
    assert_eq!(MoveError::SourceMetadata.message(&p), "Failed to read source metadata: /dl/a.mp3");
    assert_eq!(MoveError::Copy.message(&p), "Failed to copy /dl/a.mp3 -> /music/A - B/a.mp3");
    assert_eq!(
        MoveError::Verification { expected: 1200, copied: 0 }.message(&p),
        "Copy verification failed for /dl/a.mp3: expected 1200 bytes, copied 0"
    );
    assert_eq!(
        MoveError::Verification { expected: u64::MAX, copied: 9 }.message(&p),
        "Copy verification failed for /dl/a.mp3: expected 18446744073709551615 bytes, copied 9"
    );
    assert_eq!(MoveError::RemoveSource.message(&p), "Failed to remove source: /dl/a.mp3");
}
