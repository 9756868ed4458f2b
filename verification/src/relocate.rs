//! The relocation step: one discovered file, its target date, and the
//! decisions that place it under its resolved destination directory
//! without overwriting anything — plus the small state machine that keeps
//! the copy-then-delete fallback from ever deleting a source before its
//! copy is complete.

use vstd::prelude::*;

use crate::date::{date_of_unix, date_from_timestamp, date_seq, CalendarDate, MAX_TIMESTAMP};
use crate::paths::{basename, basename_seq, join_path, join_seq};

verus! {

/// One discovered file: its source path and the calendar date it is
/// grouped under. Built once per file, consumed once by relocation.
pub struct FileEntry {
    pub source: String,
    pub target_date: CalendarDate,
}

/// Builds the entry for one discovered file from its path and its
/// modification time in seconds since the Unix epoch. Fails only when the
/// timestamp has no calendar date.
pub fn entry_for(source: String, mtime_secs: i64) -> (r: Option<FileEntry>)
    ensures
        0 <= mtime_secs < MAX_TIMESTAMP ==> r is Some,
        r matches Some(e) ==> e.source@ == source@ && e.target_date.wf() && e.target_date.triple()
            == date_of_unix(mtime_secs as int),
{
    match date_from_timestamp(mtime_secs) {
        Option::None => Option::None,
        Option::Some(d) => Option::Some(FileEntry { source, target_date: d }),
    }
}

/// What the run does with one file once its destination is known.
#[derive(Clone, Copy, PartialEq, Eq, Structural, Debug)]
pub enum RelocateDecision {
    /// A file of the same name is already at the target: leave both
    /// files alone and report the skip.
    Skip,
    /// Dry run: report only, mutate nothing.
    DryRun,
    /// Move the source to the target.
    Move,
}

/// The decision for one file, from the two facts that matter: whether the
/// target path is already occupied, and whether this is a dry run. An
/// occupied target is always a skip, dry-run never mutates, and only
/// otherwise is the file moved.
pub open spec fn decision_spec(target_exists: bool, dry_run: bool) -> RelocateDecision {
    if target_exists {
        RelocateDecision::Skip
    } else if dry_run {
        RelocateDecision::DryRun
    } else {
        RelocateDecision::Move
    }
}

/// The mapping line reported for every file, whatever the decision.
pub open spec fn report_seq(source: Seq<char>, d: CalendarDate, target: Seq<char>) -> Seq<char> {
    "file: "@ + source + " date: "@ + date_seq(d) + " target: "@ + target
}

/// The line reported when an occupied target makes the step a skip.
pub open spec fn skip_seq(target: Seq<char>) -> Seq<char> {
    "INFO: "@ + target + " skipped. Target already exists"@
}

/// Everything the shell needs for one file: the final target path, the
/// mapping line to print, and the decision.
pub struct RelocationPlan {
    pub target: String,
    pub report: String,
    pub decision: RelocateDecision,
}

/// The whole plan for one file as a value of the model: target path,
/// mapping line, decision.
pub open spec fn plan_spec(
    source: Seq<char>,
    d: CalendarDate,
    dir: Seq<char>,
    target_exists: bool,
    dry_run: bool,
) -> (Seq<char>, Seq<char>, RelocateDecision) {
    let target = join_seq(dir, basename_seq(source));
    (target, report_seq(source, d, target), decision_spec(target_exists, dry_run))
}

/// The target path for a source file under its resolved destination
/// directory: the directory joined with the file's base name.
pub fn target_path(dir: &str, source: &str) -> (r: String)
    ensures
        r@ == join_seq(dir@, basename_seq(source@)),
{
    let name = basename(source);
    join_path(dir, name.as_str())
}

/// Plans the relocation of one file: computes the target path and the
/// mapping line, and decides between skip, dry-run and move.
pub fn plan_relocation(
    entry: &FileEntry,
    dir: &str,
    target_exists: bool,
    dry_run: bool,
) -> (p: RelocationPlan)
    requires
        entry.target_date.wf(),
    ensures
        (p.target@, p.report@, p.decision) == plan_spec(
            entry.source@,
            entry.target_date,
            dir@,
            target_exists,
            dry_run,
        ),
{
    let target = target_path(dir, entry.source.as_str());
    let ds = crate::date::date_string(&entry.target_date);
    let report = String::from_str("file: ").concat(entry.source.as_str()).concat(
        " date: ",
    ).concat(ds.as_str()).concat(" target: ").concat(target.as_str());
    let decision: RelocateDecision = if target_exists {
        RelocateDecision::Skip
    } else if dry_run {
        RelocateDecision::DryRun
    } else {
        RelocateDecision::Move
    };
    assert(report@ =~= report_seq(entry.source@, entry.target_date, target@));
    RelocationPlan { target, report, decision }
}

/// The line reported for a skipped file.
pub fn skip_message(target: &str) -> (r: String)
    ensures
        r@ == skip_seq(target@),
{
    let r = String::from_str("INFO: ").concat(target).concat(" skipped. Target already exists");
    assert(r@ =~= skip_seq(target@));
    r
}

/// No overwrite: whatever else holds, an occupied target path makes the
/// step a skip — never a move, never an error.
pub proof fn lemma_never_overwrites(dry_run: bool)
    ensures
        decision_spec(true, dry_run) == RelocateDecision::Skip,
{
}

/// Dry-run purity: for every file the planned target and the reported
/// mapping line are identical with and without dry-run, and a dry run
/// never decides to move — so a dry run prints what the real run would,
/// and mutates nothing.
pub proof fn lemma_dry_run_purity(
    source: Seq<char>,
    d: CalendarDate,
    dir: Seq<char>,
    target_exists: bool,
)
    ensures
        plan_spec(source, d, dir, target_exists, true).0 == plan_spec(
            source,
            d,
            dir,
            target_exists,
            false,
        ).0,
        plan_spec(source, d, dir, target_exists, true).1 == plan_spec(
            source,
            d,
            dir,
            target_exists,
            false,
        ).1,
        plan_spec(source, d, dir, target_exists, true).2 != RelocateDecision::Move,
{
}

/// Where the move of one file stands.
#[derive(Clone, Copy, PartialEq, Eq, Structural, Debug)]
pub enum MoveState {
    /// The atomic rename has not been tried yet.
    Renaming,
    /// The rename failed; the copy has not completed yet.
    Copying,
    /// The copy completed and succeeded; the source may now go.
    CopyDone,
    /// The file is at the destination and the source is gone.
    Finished,
    /// A fallback step failed; the run aborts.
    Failed,
}

/// What the filesystem reported about the last command.
#[derive(Clone, Copy, PartialEq, Eq, Structural, Debug)]
pub enum MoveEvent {
    RenameOk,
    RenameErr,
    CopyOk,
    CopyErr,
    DeleteOk,
    DeleteErr,
}

/// The next filesystem operation the shell is to carry out.
#[derive(Clone, Copy, PartialEq, Eq, Structural, Debug)]
pub enum MoveCmd {
    /// Attempt the atomic rename of source to target.
    DoRename,
    /// Copy the source's bytes to the target.
    DoCopy,
    /// Delete the source.
    DoDelete,
    /// Nothing left to do for this file.
    Done,
    /// Abort the run with the failed step's error.
    Abort,
}

/// The state after one reported event. Any event the state does not
/// expect counts as a failure.
pub open spec fn step_spec(s: MoveState, e: MoveEvent) -> MoveState {
    match (s, e) {
        (MoveState::Renaming, MoveEvent::RenameOk) => MoveState::Finished,
        (MoveState::Renaming, MoveEvent::RenameErr) => MoveState::Copying,
        (MoveState::Copying, MoveEvent::CopyOk) => MoveState::CopyDone,
        (MoveState::Copying, MoveEvent::CopyErr) => MoveState::Failed,
        (MoveState::CopyDone, MoveEvent::DeleteOk) => MoveState::Finished,
        (MoveState::CopyDone, MoveEvent::DeleteErr) => MoveState::Failed,
        _ => MoveState::Failed,
    }
}

/// The command each state calls for.
pub open spec fn command_spec(s: MoveState) -> MoveCmd {
    match s {
        MoveState::Renaming => MoveCmd::DoRename,
        MoveState::Copying => MoveCmd::DoCopy,
        MoveState::CopyDone => MoveCmd::DoDelete,
        MoveState::Finished => MoveCmd::Done,
        MoveState::Failed => MoveCmd::Abort,
    }
}

/// The command to carry out next in state `s`. The source is only ever
/// deleted from the state that records a completed, successful copy.
pub fn next_command(s: MoveState) -> (c: MoveCmd)
    ensures
        c == command_spec(s),
        c == MoveCmd::DoDelete ==> s == MoveState::CopyDone,
{
    match s {
        MoveState::Renaming => MoveCmd::DoRename,
        MoveState::Copying => MoveCmd::DoCopy,
        MoveState::CopyDone => MoveCmd::DoDelete,
        MoveState::Finished => MoveCmd::Done,
        MoveState::Failed => MoveCmd::Abort,
    }
}

/// Advances the move after the filesystem reported `e`.
pub fn step(s: MoveState, e: MoveEvent) -> (t: MoveState)
    ensures
        t == step_spec(s, e),
{
    match (s, e) {
        (MoveState::Renaming, MoveEvent::RenameOk) => MoveState::Finished,
        (MoveState::Renaming, MoveEvent::RenameErr) => MoveState::Copying,
        (MoveState::Copying, MoveEvent::CopyOk) => MoveState::CopyDone,
        (MoveState::Copying, MoveEvent::CopyErr) => MoveState::Failed,
        (MoveState::CopyDone, MoveEvent::DeleteOk) => MoveState::Finished,
        (MoveState::CopyDone, MoveEvent::DeleteErr) => MoveState::Failed,
        _ => MoveState::Failed,
    }
}

/// The state of the move after a whole sequence of reported events,
/// starting before the rename attempt.
pub open spec fn run_spec(events: Seq<MoveEvent>) -> MoveState
    decreases events.len(),
{
    if events.len() == 0 {
        MoveState::Renaming
    } else {
        step_spec(run_spec(events.drop_last()), events.last())
    }
}

/// Move fallback safety: however the filesystem behaves, the machine asks
/// for the source's deletion only after some event reported the copy
/// complete and successful — a failed or missing copy leaves the source
/// in place.
pub proof fn lemma_delete_only_after_copy(events: Seq<MoveEvent>)
    requires
        command_spec(run_spec(events)) == MoveCmd::DoDelete,
    ensures
        exists|j: int| 0 <= j < events.len() && events[j] == MoveEvent::CopyOk,
{
    assert(run_spec(events) == MoveState::CopyDone);
    assert(events.len() > 0);
    assert(events.last() == MoveEvent::CopyOk);
    assert(events[events.len() - 1] == MoveEvent::CopyOk);
}

} // verus!
