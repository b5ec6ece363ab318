//! What holds of patches as they are applied: what each operation stages, what it asks of the
//! disk, and in which order files are written and put back.

use vstd::prelude::*;

use crate::error::ErrorView;
use crate::path::Part;
use crate::state::under_any;
use crate::tools::file::apply::{after_capture, after_restore, after_write, commit_action};
use crate::tools::file::apply::{commit_start, disk_need, patch_step, permitted_step};
use crate::tools::file::apply::{staged_content, staging_is_read_back, with_staged};
use crate::tools::file::apply::{CommitActionView, CommitView, DiskFact, DiskNeed, PatchView};
use crate::tools::file::apply::Staged;
use crate::tools::file::patch::{file_text, patched_text, OperationView};

verus! {

/// What a path holds where an operation comes to it: what the patch has put there, or else what
/// the disk told. An update is told the contents, any other operation whether there is a file.
pub open spec fn there_now(staged: Seq<Staged>, path: Seq<Part>, fact: DiskFact) -> bool {
    match staged_content(staged, path) {
        Some(content) => content is Some,
        None => match fact {
            DiskFact::Exists(there) => there,
            _ => arbitrary(),
        },
    }
}

/// The disk is asked about a path only where the patch has not touched it before: for its contents
/// by an update, for its existence by the others.
pub proof fn the_disk_is_asked_once(
    operation: OperationView,
    staged: Seq<Staged>,
    path: Seq<Part>,
    content: Option<Seq<char>>,
)
    ensures
        disk_need(operation, with_staged(staged, path, content), path) == DiskNeed::Nothing,
        staged_content(staged, path) is None ==> disk_need(operation, staged, path) == (
        match operation {
            OperationView::Update { .. } => DiskNeed::Contents,
            OperationView::Add { .. } => DiskNeed::Existence,
            OperationView::Delete { .. } => DiskNeed::Existence,
        }),
{
    staging_is_read_back(staged, path, content, path);
}

/// Whether an operation was staged: it is done, its path holds `content`, every other path holds
/// what it held, and it is reported behind the others.
pub open spec fn staged_as(
    v: PatchView,
    path: Seq<Part>,
    other: Seq<Part>,
    content: Option<Seq<char>>,
    report: Seq<char>,
    r: Result<PatchView, ErrorView>,
) -> bool {
    r matches Ok(after) && {
        &&& after.operations == v.operations.skip(1)
        &&& staged_content(after.staged, path) == Some(content)
        &&& other != path ==> staged_content(after.staged, other) == staged_content(v.staged, other)
        &&& after.changed == v.changed.push(report)
    }
}

/// A file is added where there is none, with the lines that the patch gives; otherwise the patch
/// fails.
pub proof fn files_are_added_where_there_are_none(
    v: PatchView,
    path: Seq<Part>,
    shown: Seq<char>,
    fact: DiskFact,
    other: Seq<Part>,
)
    requires
        v.operations.len() > 0,
        v.operations[0] is Add,
        fact.answers(disk_need(v.operations[0], v.staged, path)),
    ensures
        there_now(v.staged, path, fact) ==> patch_step(v, path, shown, fact) == Err::<
            PatchView,
            ErrorView,
        >(ErrorView::Tool("cannot add file that already exists: "@ + shown)),
        !there_now(v.staged, path, fact) ==> staged_as(
            v,
            path,
            other,
            Some(file_text(v.operations[0]->Add_lines)),
            "added "@ + shown,
            patch_step(v, path, shown, fact),
        ),
{
    let content = Some(file_text(v.operations[0]->Add_lines));
    staging_is_read_back(v.staged, path, content, path);
    staging_is_read_back(v.staged, path, content, other);
}

/// A file is deleted where there is one; otherwise the patch fails.
pub proof fn files_are_deleted_where_there_are_some(
    v: PatchView,
    path: Seq<Part>,
    shown: Seq<char>,
    fact: DiskFact,
    other: Seq<Part>,
)
    requires
        v.operations.len() > 0,
        v.operations[0] is Delete,
        fact.answers(disk_need(v.operations[0], v.staged, path)),
    ensures
        !there_now(v.staged, path, fact) ==> patch_step(v, path, shown, fact) == Err::<
            PatchView,
            ErrorView,
        >(ErrorView::Tool("cannot delete missing file: "@ + shown)),
        there_now(v.staged, path, fact) ==> staged_as(
            v,
            path,
            other,
            None,
            "deleted "@ + shown,
            patch_step(v, path, shown, fact),
        ),
{
    staging_is_read_back(v.staged, path, None, path);
    staging_is_read_back(v.staged, path, None, other);
}

/// A file is updated from what it holds: what an earlier operation of the patch put there, or else
/// what the disk told. A file that the patch deleted, or in which a hunk is not found, fails it.
pub proof fn files_are_updated_from_what_they_hold(
    v: PatchView,
    path: Seq<Part>,
    shown: Seq<char>,
    fact: DiskFact,
    other: Seq<Part>,
)
    requires
        v.operations.len() > 0,
        v.operations[0] is Update,
        fact.answers(disk_need(v.operations[0], v.staged, path)),
    ensures
        ({
            let r = patch_step(v, path, shown, fact);
            let held = match staged_content(v.staged, path) {
                Some(content) => content,
                None => match fact {
                    DiskFact::Contents(text) => Some(text@),
                    _ => None,
                },
            };
            match held {
                None => r == Err::<PatchView, ErrorView>(
                    ErrorView::Tool("cannot update deleted file: "@ + shown),
                ),
                Some(text) => match patched_text(text, v.operations[0]->Update_hunks) {
                    None => r == Err::<PatchView, ErrorView>(
                        ErrorView::Tool("update hunk did not match the target file"@),
                    ),
                    Some(updated) => staged_as(
                        v,
                        path,
                        other,
                        Some(updated),
                        "updated "@ + shown,
                        r,
                    ),
                },
            }
        }),
{
    let held = match staged_content(v.staged, path) {
        Some(content) => content,
        None => match fact {
            DiskFact::Contents(text) => Some(text@),
            _ => None,
        },
    };
    if let Some(text) = held {
        if let Some(updated) = patched_text(text, v.operations[0]->Update_hunks) {
            staging_is_read_back(v.staged, path, Some(updated), path);
            staging_is_read_back(v.staged, path, Some(updated), other);
        }
    }
}

/// A patch does under the write roots what it would do anywhere, and nothing elsewhere.
pub proof fn patches_do_the_same_under_every_root(
    v: PatchView,
    write: Seq<Seq<Part>>,
    path: Seq<Part>,
    shown: Seq<char>,
    fact: DiskFact,
)
    ensures
        under_any(path, write) ==> permitted_step(v, write, path, shown, fact) == patch_step(
            v,
            path,
            shown,
            fact,
        ),
        !under_any(path, write) ==> permitted_step(v, write, path, shown, fact) is Err,
{
}

// ---------------------------------------------------------------------------------------------
// Commits
// ---------------------------------------------------------------------------------------------

/// A commit after `n` captures that gave `snapshots`.
pub open spec fn captures_done(v: CommitView, snapshots: Seq<Option<Seq<char>>>) -> CommitView
    decreases snapshots.len(),
{
    if snapshots.len() == 0 {
        v
    } else {
        after_capture(captures_done(v, snapshots.drop_last()), Ok(snapshots.last()))
    }
}

/// A commit after `n` writes.
pub open spec fn writes_done(v: CommitView, n: nat) -> CommitView
    decreases n,
{
    if n == 0 {
        v
    } else {
        after_write(writes_done(v, (n - 1) as nat), Ok(()))
    }
}

proof fn lemma_captures_done(staged: Seq<Staged>, snapshots: Seq<Option<Seq<char>>>)
    ensures
        captures_done(commit_start(staged), snapshots) == (CommitView {
            staged,
            snapshots,
            written: 0,
            restored: 0,
            failure: None,
            ended: None,
        }),
    decreases snapshots.len(),
{
    if snapshots.len() > 0 {
        lemma_captures_done(staged, snapshots.drop_last());
        assert(snapshots.drop_last().push(snapshots.last()) =~= snapshots);
    } else {
        assert(snapshots =~= seq![]);
    }
}

proof fn lemma_writes_done(v: CommitView, n: nat)
    ensures
        writes_done(v, n) == (CommitView { written: v.written + n, ..v }),
    decreases n,
{
    if n > 0 {
        lemma_writes_done(v, (n - 1) as nat);
    }
}

/// A commit first takes a snapshot of every staged file, in order, and writes none before; then it
/// writes each, in order and with what was staged; then it is done.
pub proof fn commits_capture_all_then_write_all(
    staged: Seq<Staged>,
    snapshots: Seq<Option<Seq<char>>>,
    n: nat,
)
    requires
        snapshots.len() <= staged.len(),
        n <= staged.len(),
    ensures
        snapshots.len() < staged.len() ==> commit_action(
            captures_done(commit_start(staged), snapshots),
        ) == CommitActionView::Capture(staged[snapshots.len() as int].0),
        snapshots.len() == staged.len() ==> commit_action(
            writes_done(captures_done(commit_start(staged), snapshots), n),
        ) == if n < staged.len() {
            CommitActionView::Write(staged[n as int].0, staged[n as int].1)
        } else {
            CommitActionView::Done
        },
{
    lemma_captures_done(staged, snapshots);
    lemma_writes_done(captures_done(commit_start(staged), snapshots), n);
}

/// Where a write fails, every file is put back as its snapshot has it; where a file cannot be put
/// back, both failures are told and nothing more is done.
pub proof fn failed_restores_are_told(
    v: CommitView,
    e: ErrorView,
    message: Seq<char>,
    restored: nat,
)
    requires
        v.failure is None,
        v.ended is None,
        restored < v.snapshots.len() <= v.staged.len(),
        v.restored == restored,
    ensures
        commit_action(after_write(v, Err(e))) == CommitActionView::Restore(
            v.staged[restored as int].0,
            v.snapshots[restored as int],
        ),
        commit_action(after_restore(after_write(v, Err(e)), Err(message)))
            == CommitActionView::Failed(
            ErrorView::Tool(
                "patch failed: "@ + e.message() + "; rollback failed: "@ + message,
            ),
        ),
        after_write(v, Err(e)).written == v.written,
{
}

} // verus!
