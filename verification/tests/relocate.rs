use photosort::date::CalendarDate;
use photosort::relocate::{
    next_command, plan_relocation, skip_message, step, target_path, FileEntry, MoveCmd, MoveEvent,
    MoveState, RelocateDecision,
};

fn entry(source: &str, year: i32, month: u8, day: u8) -> FileEntry {
    FileEntry { source: String::from(source), target_date: CalendarDate { year, month, day } }
}

#[test]
fn target_is_directory_plus_basename() {
    assert_eq!(target_path("out/2024/2024-03-10", "in/IMG_001.JPG"), "out/2024/2024-03-10/IMG_001.JPG");
}

#[test]
fn plan_reports_the_full_mapping() {
    let e = entry("in/IMG_001.JPG", 2024, 3, 10);
    let p = plan_relocation(&e, "out/2024/2024-03-10", false, false);
    assert_eq!(p.target, "out/2024/2024-03-10/IMG_001.JPG");
    assert_eq!(
        p.report,
        "file: in/IMG_001.JPG date: 2024-03-10 target: out/2024/2024-03-10/IMG_001.JPG"
    );
    assert_eq!(p.decision, RelocateDecision::Move);
}

#[test]
fn occupied_target_is_skipped_not_overwritten() {
    // target/2023-05-01/photo.jpg already exists: the step is a reported
    // no-op for this file, dry-run or not.
    let e = entry("in/photo.jpg", 2023, 5, 1);
    let p = plan_relocation(&e, "target/2023/2023-05-01", true, false);
    assert_eq!(p.decision, RelocateDecision::Skip);
    let q = plan_relocation(&e, "target/2023/2023-05-01", true, true);
    assert_eq!(q.decision, RelocateDecision::Skip);
    assert_eq!(
        skip_message(&p.target),
        "INFO: target/2023/2023-05-01/photo.jpg skipped. Target already exists"
    );
}

#[test]
fn dry_run_prints_the_same_mapping_and_never_moves() {
    let e = entry("in/IMG_001.JPG", 2024, 3, 10);
    let dry = plan_relocation(&e, "out/2024/2024-03-10", false, true);
    let wet = plan_relocation(&e, "out/2024/2024-03-10", false, false);
    assert_eq!(dry.report, wet.report);
    assert_eq!(dry.target, wet.target);
    assert_eq!(dry.decision, RelocateDecision::DryRun);
    assert_ne!(dry.decision, RelocateDecision::Move);
}

#[test]
fn successful_rename_finishes_the_move() {
    let s0 = MoveState::Renaming;
    assert_eq!(next_command(s0), MoveCmd::DoRename);
    let s1 = step(s0, MoveEvent::RenameOk);
    assert_eq!(next_command(s1), MoveCmd::Done);
}

#[test]
fn fallback_copies_fully_before_deleting() {
    // Simulated rename failure: the machine orders copy, then — only
    // after the copy succeeded — deletion of the source.
    let s0 = MoveState::Renaming;
    assert_eq!(next_command(s0), MoveCmd::DoRename);
    let s1 = step(s0, MoveEvent::RenameErr);
    assert_eq!(next_command(s1), MoveCmd::DoCopy);
    let s2 = step(s1, MoveEvent::CopyOk);
    assert_eq!(next_command(s2), MoveCmd::DoDelete);
    let s3 = step(s2, MoveEvent::DeleteOk);
    assert_eq!(next_command(s3), MoveCmd::Done);
}

#[test]
fn failed_copy_aborts_with_source_intact() {
    let s1 = step(MoveState::Renaming, MoveEvent::RenameErr);
    let s2 = step(s1, MoveEvent::CopyErr);
    assert_eq!(next_command(s2), MoveCmd::Abort);
}

#[test]
fn failed_delete_aborts() {
    let s1 = step(MoveState::Renaming, MoveEvent::RenameErr);
    let s2 = step(s1, MoveEvent::CopyOk);
    let s3 = step(s2, MoveEvent::DeleteErr);
    assert_eq!(next_command(s3), MoveCmd::Abort);
}
