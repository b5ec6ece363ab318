//! Applying a patch: every operation is staged first, then all files are written, or none.

use vstd::prelude::*;

use crate::common::{duplicate_option, lemma_views_push, view_of, views, Duplicate};
use crate::error::{Error, ErrorView};
use crate::path::{
    path_comes_before, same_path, strip_windows_verbatim_prefix, FilePath, Part,
};
use crate::path::{
    path_before, path_order_is_total, path_order_is_transitive, path_text, without_verbatim_prefix,
};
use crate::state::{under_any, AgentState, RootsView};
use crate::text::{concat2, join_texts};
use crate::text::joined;
use crate::tools::file::{ensure_can_write, write_refused};
use crate::tools::file::patch::{
    apply_hunks, lines_to_text, parse_patch, OperationView, PatchOperation,
};
use crate::tools::file::patch::{file_text, patch_operations, patched_text};

verus! {

broadcast use lemma_views_push;

/// A file as a patch leaves it.
#[derive(Debug, PartialEq, Eq)]
pub struct StagedFile {
    /// The file.
    pub path: FilePath,
    /// Its contents, or nothing where it is deleted.
    pub content: Option<String>,
}

/// A file as it was before a patch.
#[derive(Debug, PartialEq, Eq)]
pub enum FileSnapshot {
    /// There was none.
    Missing,
    /// Its contents.
    File(String),
}

/// A staged file's path and contents.
pub type Staged = (Seq<Part>, Option<Seq<char>>);

impl View for StagedFile {
    type V = Staged;

    open spec fn view(&self) -> Staged {
        (self.path@, view_of(self.content))
    }
}

impl View for FileSnapshot {
    type V = Option<Seq<char>>;

    open spec fn view(&self) -> Option<Seq<char>> {
        match self {
            FileSnapshot::Missing => None,
            FileSnapshot::File(content) => Some(content@),
        }
    }
}

impl Duplicate for FileSnapshot {
    fn duplicate(&self) -> (copy: Self) {
        match self {
            FileSnapshot::Missing => FileSnapshot::Missing,
            FileSnapshot::File(content) => FileSnapshot::File(content.clone()),
        }
    }
}

// ---------------------------------------------------------------------------------------------
// Staging
// ---------------------------------------------------------------------------------------------

/// What is staged for `path`, if anything is.
pub open spec fn staged_content(staged: Seq<Staged>, path: Seq<Part>) -> Option<Option<Seq<char>>>
    decreases staged.len(),
{
    if staged.len() == 0 {
        None
    } else if staged[0].0 == path {
        Some(staged[0].1)
    } else {
        staged_content(staged.drop_first(), path)
    }
}

/// `staged` with `content` for `path`, in the order of the paths.
pub open spec fn with_staged(
    staged: Seq<Staged>,
    path: Seq<Part>,
    content: Option<Seq<char>>,
) -> Seq<Staged>
    decreases staged.len(),
{
    if staged.len() == 0 {
        seq![(path, content)]
    } else if staged[0].0 == path {
        seq![(path, content)] + staged.drop_first()
    } else if path_before(path, staged[0].0) {
        seq![(path, content)] + staged
    } else {
        seq![staged[0]] + with_staged(staged.drop_first(), path, content)
    }
}

/// A patch that is being staged.
pub struct PatchRun {
    state: AgentState,
    operations: Vec<PatchOperation>,
    next: usize,
    staged: Vec<StagedFile>,
    changed: Vec<String>,
}

/// The model of a [`PatchRun`].
#[verifier::ext_equal]
pub struct PatchView {
    /// The operations to come.
    pub operations: Seq<OperationView>,
    pub staged: Seq<Staged>,
    /// What was done, in words.
    pub changed: Seq<Seq<char>>,
}

/// What has to be known of the file that the next operation is about.
#[derive(Clone, Copy, Debug, PartialEq, Eq, Structural)]
pub enum DiskNeed {
    /// Nothing: the patch has touched it before.
    Nothing,
    /// Whether it exists.
    Existence,
    /// Its contents.
    Contents,
}

/// What is known of the file that the next operation is about.
#[derive(Debug, PartialEq, Eq)]
pub enum DiskFact {
    /// Nothing.
    Unasked,
    /// Whether it exists.
    Exists(bool),
    /// Its contents.
    Contents(String),
}

/// What has to be known of `path` before `operation`.
pub open spec fn disk_need(
    operation: OperationView,
    staged: Seq<Staged>,
    path: Seq<Part>,
) -> DiskNeed {
    if staged_content(staged, path) is Some {
        DiskNeed::Nothing
    } else if operation is Update {
        DiskNeed::Contents
    } else {
        DiskNeed::Existence
    }
}

impl DiskFact {
    /// Whether this answers `need`.
    pub open spec fn answers(&self, need: DiskNeed) -> bool {
        match need {
            DiskNeed::Nothing => true,
            DiskNeed::Existence => self is Exists,
            DiskNeed::Contents => self is Contents,
        }
    }
}

/// Whether `path` exists, as staged or else on disk.
pub open spec fn exists_now(staged: Seq<Staged>, path: Seq<Part>, fact: DiskFact) -> bool {
    match staged_content(staged, path) {
        Some(content) => content is Some,
        None => fact->Exists_0,
    }
}

/// `v` after an operation on `path`, whose text is `shown`, that leaves `content` and is told of
/// as `verb`.
pub open spec fn operation_staged(
    v: PatchView,
    path: Seq<Part>,
    content: Option<Seq<char>>,
    verb: Seq<char>,
    shown: Seq<char>,
) -> PatchView {
    PatchView {
        operations: v.operations.drop_first(),
        staged: with_staged(v.staged, path, content),
        changed: v.changed.push(verb + shown),
    }
}

/// A failure of a tool over a path.
pub open spec fn path_failure(message: Seq<char>, shown: Seq<char>) -> Result<PatchView, ErrorView> {
    Err(ErrorView::Tool(message + shown))
}

/// `v` after its next operation, whose file is at `path`, shown as `shown`.
pub open spec fn patch_step(
    v: PatchView,
    path: Seq<Part>,
    shown: Seq<char>,
    fact: DiskFact,
) -> Result<PatchView, ErrorView> {
    match v.operations[0] {
        OperationView::Add { lines, .. } => if exists_now(v.staged, path, fact) {
            path_failure("cannot add file that already exists: "@, shown)
        } else {
            Ok(operation_staged(v, path, Some(file_text(lines)), "added "@, shown))
        },
        OperationView::Delete { .. } => if !exists_now(v.staged, path, fact) {
            path_failure("cannot delete missing file: "@, shown)
        } else {
            Ok(operation_staged(v, path, None, "deleted "@, shown))
        },
        OperationView::Update { hunks, .. } => match staged_content(v.staged, path) {
            Some(None) => path_failure("cannot update deleted file: "@, shown),
            Some(Some(text)) => update_step(v, path, text, hunks, shown),
            None => update_step(v, path, fact->Contents_0@, hunks, shown),
        },
    }
}

/// `v` after its next operation, where only files under `write` may be touched.
pub open spec fn permitted_step(
    v: PatchView,
    write: Seq<Seq<Part>>,
    path: Seq<Part>,
    shown: Seq<char>,
    fact: DiskFact,
) -> Result<PatchView, ErrorView> {
    if under_any(path, write) {
        patch_step(v, path, shown, fact)
    } else {
        Err(write_refused(v.operations[0].path()))
    }
}

/// Whether every staged file is under a root of `write`.
pub open spec fn all_under(staged: Seq<Staged>, write: Seq<Seq<Part>>) -> bool {
    forall|i: int| 0 <= i < staged.len() ==> under_any((#[trigger] staged[i]).0, write)
}

/// `v` after an update of `path`, which holds `text`.
pub open spec fn update_step(
    v: PatchView,
    path: Seq<Part>,
    text: Seq<char>,
    hunks: Seq<Seq<crate::tools::file::patch::HunkLineView>>,
    shown: Seq<char>,
) -> Result<PatchView, ErrorView> {
    match patched_text(text, hunks) {
        None => Err(ErrorView::Tool("update hunk did not match the target file"@)),
        Some(updated) => Ok(operation_staged(v, path, Some(updated), "updated "@, shown)),
    }
}

impl View for PatchRun {
    type V = PatchView;

    closed spec fn view(&self) -> PatchView {
        PatchView {
            operations: views(self.operations@).skip(self.next as int),
            staged: views(self.staged@),
            changed: views(self.changed@),
        }
    }
}

fn find_staged(staged: &Vec<StagedFile>, path: &FilePath) -> (r: Option<usize>)
    ensures
        match r {
            Some(i) => i < staged@.len() && staged_content(views(staged@), path@) == Some(
                views(staged@)[i as int].1,
            ),
            None => staged_content(views(staged@), path@) is None,
        },
{
    let ghost all = views(staged@);
    let mut i: usize = 0;
    assert(all.skip(0) =~= all);
    while i < staged.len()
        invariant
            i <= staged@.len(),
            all == views(staged@),
            staged_content(all, path@) == staged_content(all.skip(i as int), path@),
        decreases staged@.len() - i,
    {
        proof {
            assert(all.skip(i as int)[0] == all[i as int]);
            assert(all.skip(i as int).drop_first() =~= all.skip(i + 1));
        }
        if same_path(&staged[i].path, path) {
            return Some(i);
        }
        i += 1;
    }
    None
}

fn stage(staged: &mut Vec<StagedFile>, path: FilePath, content: Option<String>)
    ensures
        views(final(staged)@) == with_staged(views(old(staged)@), path@, view_of(content)),
{
    let ghost all = views(staged@);
    let ghost text = view_of(content);
    let mut i: usize = 0;
    proof {
        assert(all.skip(0) =~= all);
        assert(all.take(0) + with_staged(all, path@, text) =~= with_staged(all, path@, text));
    }
    while i < staged.len() && !same_path(&staged[i].path, &path) && !path_comes_before(
        &path,
        &staged[i].path,
    )
        invariant
            i <= staged@.len(),
            *staged == *old(staged),
            all == views(staged@),
            with_staged(all, path@, text) == all.take(i as int) + with_staged(
                all.skip(i as int),
                path@,
                text,
            ),
        decreases staged@.len() - i,
    {
        proof {
            let left = all.skip(i as int);
            assert(left[0] == staged@[i as int]@);
            assert(left.drop_first() =~= all.skip(i + 1));
            assert(all.take(i as int) + (seq![left[0]] + with_staged(all.skip(i + 1), path@, text))
                =~= all.take(i + 1) + with_staged(all.skip(i + 1), path@, text));
        }
        i += 1;
    }
    let file = StagedFile { path, content };
    let ghost left = all.skip(i as int);
    proof {
        if i < staged.len() {
            assert(left[0] == staged@[i as int]@);
        }
    }
    if i < staged.len() && same_path(&staged[i].path, &file.path) {
        staged.set(i, file);
        proof {
            assert(views(staged@) =~= all.take(i as int) + (seq![file@] + left.drop_first()));
        }
    } else {
        staged.insert(i, file);
        proof {
            assert(views(staged@) =~= all.take(i as int) + (seq![file@] + left));
            if i == all.len() {
                assert(left =~= seq![]);
                assert(seq![file@] + left =~= seq![file@]);
            }
        }
    }
}

fn failure<T>(message: &str, shown: &str) -> (r: Result<T, Error>)
    ensures
        r is Err,
        r->Err_0@ == ErrorView::Tool(message@ + shown@),
{
    Err(Error::Tool(concat2(message, shown)))
}

impl PatchRun {
    /// Where files may be read and written.
    pub closed spec fn roots(&self) -> RootsView {
        self.state@
    }

    /// The operations that are left are among those of the patch, and no file outside the write
    /// roots is staged.
    pub closed spec fn wf(&self) -> bool {
        self.next <= self.operations@.len() && all_under(self@.staged, self.roots().write)
    }

    /// Read a patch, which must hold an operation, for an agent that may write where `state` says.
    pub fn new(patch: &str, state: AgentState) -> (r: Result<Self, Error>)
        ensures
            match (patch_operations(patch@), r) {
                (Err(e), Err(error)) => error@ == e,
                (Ok(operations), Err(error)) => operations.len() == 0 && error@ == ErrorView::Tool(
                    "patch contained no operations"@,
                ),
                (Ok(operations), Ok(run)) => operations.len() > 0 && run.wf() && run.roots()
                    == state@ && run@ == (PatchView {
                    operations,
                    staged: seq![],
                    changed: seq![],
                }),
                (Err(_), Ok(_)) => false,
            },
    {
        let operations = match parse_patch(patch) {
            Ok(operations) => operations,
            Err(e) => {
                return Err(e);
            },
        };
        if operations.len() == 0 {
            return Err(Error::Tool("patch contained no operations".to_owned()));
        }
        let run = PatchRun { state, operations, next: 0, staged: Vec::new(), changed: Vec::new() };
        proof {
            assert(views(run.operations@).skip(0) =~= views(run.operations@));
            assert(run@.staged =~= seq![]);
            assert(run@.changed =~= seq![]);
        }
        Ok(run)
    }

    /// The text of the path that the next operation is about, while there is one.
    pub fn next_path(&self) -> (path: Option<&str>)
        requires
            self.wf(),
        ensures
            match path {
                Some(path) => self@.operations.len() > 0 && path@ == self@.operations[0].path(),
                None => self@.operations.len() == 0,
            },
    {
        if self.next < self.operations.len() {
            assert(self@.operations[0] == self.operations@[self.next as int]@);
            Some(self.operations[self.next].path())
        } else {
            None
        }
    }

    /// The next operation's path, normalized, where it may be written.
    fn permitted(&self, normalized: FilePath) -> (r: Result<FilePath, Error>)
        requires
            self.wf(),
            self@.operations.len() > 0,
        ensures
            match r {
                Ok(path) => under_any(normalized@, self.roots().write) && path@ == normalized@,
                Err(e) => !under_any(normalized@, self.roots().write) && e@ == write_refused(
                    self@.operations[0].path(),
                ),
            },
    {
        assert(self@.operations[0] == self.operations@[self.next as int]@);
        ensure_can_write(&self.state, self.operations[self.next].path(), normalized)
    }

    /// What has to be known of the file that the next operation is about, whose normalized path is
    /// `normalized`, or that it may not be written.
    pub fn needs(&self, normalized: FilePath) -> (r: Result<DiskNeed, Error>)
        requires
            self.wf(),
            self@.operations.len() > 0,
        ensures
            match r {
                Ok(need) => under_any(normalized@, self.roots().write) && need == disk_need(
                    self@.operations[0],
                    self@.staged,
                    normalized@,
                ),
                Err(e) => !under_any(normalized@, self.roots().write) && e@ == write_refused(
                    self@.operations[0].path(),
                ),
            },
    {
        let path = match self.permitted(normalized) {
            Ok(path) => path,
            Err(e) => {
                return Err(e);
            },
        };
        assert(self@.operations[0] == self.operations@[self.next as int]@);
        if find_staged(&self.staged, &path).is_some() {
            return Ok(DiskNeed::Nothing);
        }
        match &self.operations[self.next] {
            PatchOperation::Update { .. } => Ok(DiskNeed::Contents),
            _ => Ok(DiskNeed::Existence),
        }
    }

    /// Stage the next operation, whose path is `normalized`, on a system with the separator: one that
    /// may not be written is refused, and nothing is staged.
    pub fn apply(&mut self, normalized: FilePath, separator: char, fact: DiskFact) -> (r: Result<
        (),
        Error,
    >)
        requires
            old(self).wf(),
            old(self)@.operations.len() > 0,
            under_any(normalized@, old(self).roots().write) ==> fact.answers(
                disk_need(old(self)@.operations[0], old(self)@.staged, normalized@),
            ),
        ensures
            final(self).wf(),
            final(self).roots() == old(self).roots(),
            match permitted_step(
                old(self)@,
                old(self).roots().write,
                normalized@,
                without_verbatim_prefix(path_text(normalized@, separator)),
                fact,
            ) {
                Ok(v) => r is Ok && final(self)@ == v,
                Err(e) => r is Err && r->Err_0@ == e && final(self)@ == old(self)@,
            },
    {
        let path = match self.permitted(normalized) {
            Ok(path) => path,
            Err(e) => {
                return Err(e);
            },
        };
        let text = path.text(separator);
        let shown = strip_windows_verbatim_prefix(text.as_str());
        let ghost v = self@;
        proof {
            assert(v.operations[0] == self.operations@[self.next as int]@);
            assert(v.operations.drop_first() =~= views(self.operations@).skip(self.next + 1));
        }
        let found = find_staged(&self.staged, &path);
        let present = match found {
            Some(i) => self.staged[i].content.is_some(),
            None => match &fact {
                DiskFact::Exists(b) => *b,
                _ => true,
            },
        };
        let (content, verb): (Option<String>, &str) = match &self.operations[self.next] {
            PatchOperation::Add { lines, .. } => {
                if present {
                    return failure("cannot add file that already exists: ", shown.as_str());
                }
                (Some(lines_to_text(lines)), "added ")
            },
            PatchOperation::Delete { .. } => {
                if !present {
                    return failure("cannot delete missing file: ", shown.as_str());
                }
                (None, "deleted ")
            },
            PatchOperation::Update { hunks, .. } => {
                let original = match found {
                    Some(i) => match &self.staged[i].content {
                        Some(content) => content.clone(),
                        None => {
                            return failure("cannot update deleted file: ", shown.as_str());
                        },
                    },
                    None => match fact {
                        DiskFact::Contents(content) => content,
                        _ => String::new(),
                    },
                };
                match apply_hunks(original.as_str(), hunks) {
                    Ok(updated) => (Some(updated), "updated "),
                    Err(e) => {
                        return Err(e);
                    },
                }
            },
        };
        proof {
            staging_stays_under_the_roots(v.staged, path@, view_of(content), self.roots().write);
        }
        stage(&mut self.staged, path, content);
        let told = concat2(verb, shown.as_str());
        self.changed.push(told);
        let total: usize = self.operations.len();
        assert(self.next < total);
        self.next = self.next + 1;
        Ok(())
    }

    /// What was done, line by line.
    pub fn report(&self) -> (text: String)
        ensures
            text@ == joined(self@.changed, "\n"@),
    {
        join_texts(&self.changed, "\n")
    }

    /// Begin to write the staged files.
    pub fn commit(self) -> (commit: Commit)
        requires
            self.wf(),
            self@.operations.len() == 0,
        ensures
            commit@.wf(),
            commit@ == commit_start(self@.staged),
            all_under(commit@.staged, self.roots().write),
    {
        let commit = Commit {
            staged: self.staged,
            snapshots: Vec::new(),
            written: 0,
            restored: 0,
            failure: None,
            ended: None,
        };
        proof {
            assert(commit@.snapshots =~= seq![]);
        }
        commit
    }
}

// ---------------------------------------------------------------------------------------------
// Writing
// ---------------------------------------------------------------------------------------------

/// Staged files that are being written.
pub struct Commit {
    staged: Vec<StagedFile>,
    snapshots: Vec<FileSnapshot>,
    written: usize,
    restored: usize,
    failure: Option<Error>,
    ended: Option<Error>,
}

/// What a [`Commit`] asks for.
#[derive(Debug, PartialEq, Eq)]
pub enum CommitAction {
    /// Take a snapshot of a file.
    Capture(FilePath),
    /// Write a file, with its parent directories, or delete it.
    Write(FilePath, Option<String>),
    /// Put a file back as it was.
    Restore(FilePath, FileSnapshot),
    /// Nothing: every file was written.
    Done,
    /// Nothing: the patch failed.
    Failed(Error),
}

/// The model of a [`Commit`].
pub struct CommitView {
    pub staged: Seq<Staged>,
    pub snapshots: Seq<Option<Seq<char>>>,
    pub written: int,
    pub restored: int,
    /// What failed, while files are put back.
    pub failure: Option<ErrorView>,
    /// What is reported in the end.
    pub ended: Option<ErrorView>,
}

impl CommitView {
    /// The counters count staged files, and files are written once each has a snapshot.
    pub open spec fn wf(self) -> bool {
        &&& 0 <= self.written <= self.staged.len()
        &&& 0 <= self.restored <= self.snapshots.len() <= self.staged.len()
        &&& self.written > 0 || self.failure is Some ==> self.snapshots.len() == self.staged.len()
    }
}

/// The model of a [`CommitAction`].
pub enum CommitActionView {
    Capture(Seq<Part>),
    Write(Seq<Part>, Option<Seq<char>>),
    Restore(Seq<Part>, Option<Seq<char>>),
    Done,
    Failed(ErrorView),
}

impl View for CommitAction {
    type V = CommitActionView;

    open spec fn view(&self) -> CommitActionView {
        match self {
            CommitAction::Capture(path) => CommitActionView::Capture(path@),
            CommitAction::Write(path, content) => CommitActionView::Write(path@, view_of(*content)),
            CommitAction::Restore(path, snapshot) => CommitActionView::Restore(path@, snapshot@),
            CommitAction::Done => CommitActionView::Done,
            CommitAction::Failed(e) => CommitActionView::Failed(e@),
        }
    }
}

/// A commit that has done nothing yet.
pub open spec fn commit_start(staged: Seq<Staged>) -> CommitView {
    CommitView {
        staged,
        snapshots: seq![],
        written: 0,
        restored: 0,
        failure: None,
        ended: None,
    }
}

/// What a commit asks for: first a snapshot of every file, in order; then every file is written,
/// in order; and once a file cannot be written, every file is put back.
pub open spec fn commit_action(v: CommitView) -> CommitActionView {
    match (v.ended, v.failure) {
        (Some(e), _) => CommitActionView::Failed(e),
        (None, Some(e)) => if v.restored < v.snapshots.len() {
            CommitActionView::Restore(v.staged[v.restored].0, v.snapshots[v.restored])
        } else {
            CommitActionView::Failed(e)
        },
        (None, None) => if v.snapshots.len() < v.staged.len() {
            CommitActionView::Capture(v.staged[v.snapshots.len() as int].0)
        } else if v.written < v.staged.len() {
            CommitActionView::Write(v.staged[v.written].0, v.staged[v.written].1)
        } else {
            CommitActionView::Done
        },
    }
}

/// A commit after a snapshot.
pub open spec fn after_capture(v: CommitView, r: Result<Option<Seq<char>>, ErrorView>) -> CommitView {
    match r {
        Ok(snapshot) => CommitView { snapshots: v.snapshots.push(snapshot), ..v },
        Err(e) => CommitView { ended: Some(e), ..v },
    }
}

/// A commit after a file was written, or could not be.
pub open spec fn after_write(v: CommitView, r: Result<(), ErrorView>) -> CommitView {
    match r {
        Ok(_) => CommitView { written: v.written + 1, ..v },
        Err(e) => CommitView { failure: Some(e), ..v },
    }
}

/// A commit after a file was put back, or could not be.
pub open spec fn after_restore(v: CommitView, r: Result<(), Seq<char>>) -> CommitView {
    match (r, v.failure) {
        (Err(message), Some(e)) => CommitView {
            ended: Some(
                ErrorView::Tool(
                    "patch failed: "@ + e.message() + "; rollback failed: "@ + message,
                ),
            ),
            ..v
        },
        _ => CommitView { restored: v.restored + 1, ..v },
    }
}

impl View for Commit {
    type V = CommitView;

    closed spec fn view(&self) -> CommitView {
        CommitView {
            staged: views(self.staged@),
            snapshots: views(self.snapshots@),
            written: self.written as int,
            restored: self.restored as int,
            failure: view_of(self.failure),
            ended: view_of(self.ended),
        }
    }
}

/// The view of a result that carries no value.
pub open spec fn done_or_failed<E: View>(r: Result<(), E>) -> Result<(), E::V> {
    match r {
        Ok(_) => Ok(()),
        Err(e) => Err(e@),
    }
}

impl Commit {
    /// What to do next.
    pub fn action(&self) -> (action: CommitAction)
        requires
            self@.wf(),
        ensures
            action@ == commit_action(self@),
    {
        if let Some(e) = &self.ended {
            return CommitAction::Failed(e.duplicate());
        }
        if let Some(e) = &self.failure {
            if self.restored < self.snapshots.len() {
                return CommitAction::Restore(
                    self.staged[self.restored].path.duplicate(),
                    self.snapshots[self.restored].duplicate(),
                );
            }
            return CommitAction::Failed(e.duplicate());
        }
        if self.snapshots.len() < self.staged.len() {
            CommitAction::Capture(self.staged[self.snapshots.len()].path.duplicate())
        } else if self.written < self.staged.len() {
            CommitAction::Write(
                self.staged[self.written].path.duplicate(),
                duplicate_option(&self.staged[self.written].content),
            )
        } else {
            CommitAction::Done
        }
    }

    /// Go on with the snapshot that was asked for.
    pub fn on_captured(&mut self, r: Result<FileSnapshot, Error>)
        requires
            old(self)@.wf(),
            commit_action(old(self)@) is Capture,
        ensures
            final(self)@.wf(),
            final(self)@ == after_capture(old(self)@, crate::common::outcome(r)),
    {
        match r {
            Ok(snapshot) => {
                self.snapshots.push(snapshot);
            },
            Err(e) => {
                self.ended = Some(e);
            },
        }
    }

    /// Go on once a file was written, or could not be.
    pub fn on_written(&mut self, r: Result<(), Error>)
        requires
            old(self)@.wf(),
            commit_action(old(self)@) is Write,
        ensures
            final(self)@.wf(),
            final(self)@ == after_write(old(self)@, done_or_failed(r)),
    {
        match r {
            Ok(_) => {
                let total: usize = self.staged.len();
                assert(self.written < total);
                self.written = self.written + 1;
            },
            Err(e) => {
                self.failure = Some(e);
            },
        }
    }

    /// Go on once a file was put back, or could not be, with the reason.
    pub fn on_restored(&mut self, r: Result<(), String>)
        requires
            old(self)@.wf(),
            commit_action(old(self)@) is Restore,
        ensures
            final(self)@.wf(),
            final(self)@ == after_restore(old(self)@, done_or_failed(r)),
    {
        match (r, &self.failure) {
            (Err(message), Some(e)) => {
                let mut text = "patch failed: ".to_owned();
                text.append(e.to_string().as_str());
                text.append("; rollback failed: ");
                text.append(message.as_str());
                self.ended = Some(Error::Tool(text));
            },
            _ => {
                let total: usize = self.snapshots.len();
                assert(self.restored < total);
                self.restored = self.restored + 1;
            },
        }
    }
}

// ---------------------------------------------------------------------------------------------
// Laws
// ---------------------------------------------------------------------------------------------

/// Whether files are staged in the order of their paths, each once.
pub open spec fn in_path_order(staged: Seq<Staged>) -> bool {
    forall|i: int, j: int|
        0 <= i < j < staged.len() ==> path_before(#[trigger] staged[i].0, #[trigger] staged[j].0)
}

/// What is staged for a path is found again, and nothing else changes.
pub proof fn staging_is_read_back(
    staged: Seq<Staged>,
    path: Seq<Part>,
    content: Option<Seq<char>>,
    other: Seq<Part>,
)
    ensures
        staged_content(with_staged(staged, path, content), other) == if other == path {
            Some(content)
        } else {
            staged_content(staged, other)
        },
    decreases staged.len(),
{
    let after = with_staged(staged, path, content);
    if staged.len() == 0 {
        assert(after.drop_first() =~= staged);
    } else if staged[0].0 == path {
        assert(after.drop_first() =~= staged.drop_first());
    } else if path_before(path, staged[0].0) {
        assert(after.drop_first() =~= staged);
    } else {
        staging_is_read_back(staged.drop_first(), path, content, other);
        assert(after.drop_first() =~= with_staged(staged.drop_first(), path, content));
    }
}

proof fn lemma_with_staged_member(
    staged: Seq<Staged>,
    path: Seq<Part>,
    content: Option<Seq<char>>,
    i: int,
)
    requires
        0 <= i < with_staged(staged, path, content).len(),
    ensures
        with_staged(staged, path, content)[i].0 == path || exists|j: int|
            0 <= j < staged.len() && with_staged(staged, path, content)[i] == #[trigger] staged[j],
    decreases staged.len(),
{
    let after = with_staged(staged, path, content);
    if staged.len() == 0 {
    } else if staged[0].0 == path {
        if i > 0 {
            assert(after[i] == staged[i]);
        }
    } else if path_before(path, staged[0].0) {
        if i > 0 {
            assert(after[i] == staged[i - 1]);
        }
    } else if i == 0 {
        assert(after[i] == staged[0]);
    } else {
        let rest = staged.drop_first();
        lemma_with_staged_member(rest, path, content, i - 1);
        let inner = with_staged(rest, path, content);
        assert(after[i] == inner[i - 1]);
        if inner[i - 1].0 != path {
            let j = choose|j: int| 0 <= j < rest.len() && inner[i - 1] == #[trigger] rest[j];
            assert(staged[j + 1] == rest[j]);
        }
    }
}

/// Staging a file under a root keeps every staged file under one.
pub proof fn staging_stays_under_the_roots(
    staged: Seq<Staged>,
    path: Seq<Part>,
    content: Option<Seq<char>>,
    write: Seq<Seq<Part>>,
)
    requires
        all_under(staged, write),
        under_any(path, write),
    ensures
        all_under(with_staged(staged, path, content), write),
{
    let after = with_staged(staged, path, content);
    assert forall|i: int| 0 <= i < after.len() implies under_any((#[trigger] after[i]).0, write) by {
        lemma_with_staged_member(staged, path, content, i);
        if after[i].0 != path {
            let j = choose|j: int| 0 <= j < staged.len() && after[i] == #[trigger] staged[j];
            assert(under_any(staged[j].0, write));
        }
    }
}

/// The file that an action is about.
pub open spec fn action_path(action: CommitActionView) -> Option<Seq<Part>> {
    match action {
        CommitActionView::Capture(path) => Some(path),
        CommitActionView::Write(path, _) => Some(path),
        CommitActionView::Restore(path, _) => Some(path),
        _ => None,
    }
}

/// Every file that a commit looks at, writes or puts back is under a write root, and stays so
/// whatever came of an action.
pub proof fn a_commit_stays_under_the_write_roots(
    v: CommitView,
    write: Seq<Seq<Part>>,
    captured: Result<Option<Seq<char>>, ErrorView>,
    wrote: Result<(), ErrorView>,
    restored: Result<(), Seq<char>>,
)
    requires
        v.wf(),
        all_under(v.staged, write),
    ensures
        action_path(commit_action(v)) matches Some(path) ==> under_any(path, write),
        all_under(after_capture(v, captured).staged, write),
        all_under(after_write(v, wrote).staged, write),
        all_under(after_restore(v, restored).staged, write),
{
    match commit_action(v) {
        CommitActionView::Restore(_, _) => {
            assert(under_any(v.staged[v.restored].0, write));
        },
        CommitActionView::Capture(_) => {
            assert(under_any(v.staged[v.snapshots.len() as int].0, write));
        },
        CommitActionView::Write(_, _) => {
            assert(under_any(v.staged[v.written].0, write));
        },
        _ => {},
    }
}

/// An operation on a file outside the write roots is refused, whatever it would do.
pub proof fn patches_stay_under_the_write_roots(
    v: PatchView,
    write: Seq<Seq<Part>>,
    path: Seq<Part>,
    shown: Seq<char>,
    fact: DiskFact,
)
    requires
        !under_any(path, write),
    ensures
        permitted_step(v, write, path, shown, fact) == Err::<PatchView, ErrorView>(
            write_refused(v.operations[0].path()),
        ),
{
}

/// Staging keeps the files in the order of their paths, each once.
pub proof fn staged_files_stay_in_order(
    staged: Seq<Staged>,
    path: Seq<Part>,
    content: Option<Seq<char>>,
)
    requires
        in_path_order(staged),
    ensures
        in_path_order(with_staged(staged, path, content)),
    decreases staged.len(),
{
    let after = with_staged(staged, path, content);
    if staged.len() > 0 {
        let rest = staged.drop_first();
        assert(in_path_order(rest)) by {
            assert forall|i: int, j: int| 0 <= i < j < rest.len() implies path_before(
                #[trigger] rest[i].0,
                #[trigger] rest[j].0,
            ) by {
                assert(rest[i] == staged[i + 1]);
                assert(rest[j] == staged[j + 1]);
            }
        }
        path_order_is_total(path, staged[0].0);
        if staged[0].0 == path {
            assert forall|i: int, j: int| 0 <= i < j < after.len() implies path_before(
                #[trigger] after[i].0,
                #[trigger] after[j].0,
            ) by {
                assert(after[i].0 == staged[i].0);
                assert(after[j].0 == staged[j].0);
            }
        } else if path_before(path, staged[0].0) {
            assert forall|i: int, j: int| 0 <= i < j < after.len() implies path_before(
                #[trigger] after[i].0,
                #[trigger] after[j].0,
            ) by {
                assert(after[j] == staged[j - 1]);
                if i > 0 {
                    assert(after[i] == staged[i - 1]);
                } else if j > 1 {
                    path_order_is_transitive(path, staged[0].0, staged[j - 1].0);
                }
            }
        } else {
            staged_files_stay_in_order(rest, path, content);
            let inner = with_staged(rest, path, content);
            assert forall|i: int, j: int| 0 <= i < j < after.len() implies path_before(
                #[trigger] after[i].0,
                #[trigger] after[j].0,
            ) by {
                assert(after[j] == inner[j - 1]);
                if i > 0 {
                    assert(after[i] == inner[i - 1]);
                } else {
                    lemma_with_staged_member(rest, path, content, j - 1);
                    if inner[j - 1].0 != path {
                        let k = choose|k: int|
                            0 <= k < rest.len() && inner[j - 1] == #[trigger] rest[k];
                        assert(rest[k] == staged[k + 1]);
                    }
                }
            }
        }
    }
}

/// The contents of files, by path.
pub type Files = Map<Seq<Part>, Seq<char>>;

/// The contents of the file at `path`.
pub open spec fn file_at(files: Files, path: Seq<Part>) -> Option<Seq<char>> {
    if files.contains_key(path) {
        Some(files[path])
    } else {
        None
    }
}

/// `files` with `content` at `path`, or nothing there.
pub open spec fn with_file(files: Files, path: Seq<Part>, content: Option<Seq<char>>) -> Files {
    match content {
        Some(text) => files.insert(path, text),
        None => files.remove(path),
    }
}

/// `files` once the first `n` staged files were written.
pub open spec fn written_files(files: Files, staged: Seq<Staged>, n: int) -> Files
    decreases n,
{
    if n <= 0 {
        files
    } else {
        with_file(written_files(files, staged, n - 1), staged[n - 1].0, staged[n - 1].1)
    }
}

/// `files` once the first `n` staged files were put back.
pub open spec fn restored_files(
    files: Files,
    staged: Seq<Staged>,
    snapshots: Seq<Option<Seq<char>>>,
    n: int,
) -> Files
    decreases n,
{
    if n <= 0 {
        files
    } else {
        with_file(
            restored_files(files, staged, snapshots, n - 1),
            staged[n - 1].0,
            snapshots[n - 1],
        )
    }
}

/// The snapshots of all staged files.
pub open spec fn captured(files: Files, staged: Seq<Staged>) -> Seq<Option<Seq<char>>> {
    staged.map_values(|file: Staged| file_at(files, file.0))
}

proof fn lemma_in_path_order_distinct(staged: Seq<Staged>, i: int, j: int)
    requires
        in_path_order(staged),
        0 <= i < j < staged.len(),
    ensures
        staged[i].0 != staged[j].0,
{
    path_order_is_total(staged[i].0, staged[j].0);
}

proof fn lemma_written_other(files: Files, staged: Seq<Staged>, n: int, path: Seq<Part>)
    requires
        0 <= n <= staged.len(),
        forall|i: int| 0 <= i < n ==> (#[trigger] staged[i]).0 != path,
    ensures
        file_at(written_files(files, staged, n), path) == file_at(files, path),
    decreases n,
{
    if n > 0 {
        assert(staged[n - 1].0 != path);
        lemma_written_other(files, staged, n - 1, path);
    }
}

/// Once every staged file was written, each holds what was staged for it, and no other file
/// has changed.
pub proof fn a_commit_writes_what_was_staged(files: Files, staged: Seq<Staged>, path: Seq<Part>)
    requires
        in_path_order(staged),
    ensures
        file_at(written_files(files, staged, staged.len() as int), path) == match staged_content(
            staged,
            path,
        ) {
            Some(content) => content,
            None => file_at(files, path),
        },
{
    let n = staged.len() as int;
    lemma_staged_content_at(staged, path);
    match staged_content(staged, path) {
        Some(content) => {
            let i = choose|i: int|
                0 <= i < staged.len() && (#[trigger] staged[i]).0 == path && staged[i].1 == content;
            lemma_written_at(files, staged, i, n);
        },
        None => {
            lemma_written_other(files, staged, n, path);
        },
    }
}

proof fn lemma_staged_content_at(staged: Seq<Staged>, path: Seq<Part>)
    ensures
        match staged_content(staged, path) {
            Some(content) => exists|i: int|
                0 <= i < staged.len() && (#[trigger] staged[i]).0 == path && staged[i].1 == content,
            None => forall|i: int| 0 <= i < staged.len() ==> (#[trigger] staged[i]).0 != path,
        },
    decreases staged.len(),
{
    if staged.len() > 0 && staged[0].0 != path {
        let rest = staged.drop_first();
        lemma_staged_content_at(rest, path);
        match staged_content(staged, path) {
            Some(content) => {
                let i = choose|i: int|
                    0 <= i < rest.len() && (#[trigger] rest[i]).0 == path && rest[i].1 == content;
                assert(staged[i + 1] == rest[i]);
            },
            None => {
                assert forall|i: int| 0 <= i < staged.len() implies (#[trigger] staged[i]).0
                    != path by {
                    if i > 0 {
                        assert(staged[i] == rest[i - 1]);
                    }
                }
            },
        }
    } else if staged.len() > 0 {
        assert(staged[0].0 == path);
    }
}

proof fn lemma_written_at(files: Files, staged: Seq<Staged>, i: int, n: int)
    requires
        in_path_order(staged),
        0 <= i < n <= staged.len(),
    ensures
        file_at(written_files(files, staged, n), staged[i].0) == staged[i].1,
    decreases n,
{
    if n - 1 > i {
        lemma_in_path_order_distinct(staged, i, n - 1);
        lemma_written_at(files, staged, i, n - 1);
    }
}

proof fn lemma_restored(files: Files, broken: Files, staged: Seq<Staged>, n: int, path: Seq<Part>)
    requires
        in_path_order(staged),
        0 <= n <= staged.len(),
        forall|i: int| 0 <= i < staged.len() ==> (#[trigger] staged[i]).0 != path || i < n,
        (forall|i: int| 0 <= i < staged.len() ==> (#[trigger] staged[i]).0 != path) ==> file_at(
            broken,
            path,
        ) == file_at(files, path),
    ensures
        file_at(restored_files(broken, staged, captured(files, staged), n), path) == file_at(
            files,
            path,
        ),
    decreases n,
{
    if n == 0 {
        assert forall|i: int| 0 <= i < staged.len() implies (#[trigger] staged[i]).0 != path by {
        }
    } else if staged[n - 1].0 == path {
        assert(captured(files, staged)[n - 1] == file_at(files, path));
    } else {
        assert forall|i: int| 0 <= i < staged.len() implies (#[trigger] staged[i]).0 != path || i
            < n - 1 by {
            if i == n - 1 {
                assert(staged[i].0 != path);
            }
        }
        lemma_restored(files, broken, staged, n - 1, path);
    }
}

/// Where a staged file cannot be written, whatever became of it, every file is put back as it was.
pub proof fn a_failed_commit_changes_no_file(
    files: Files,
    staged: Seq<Staged>,
    k: int,
    debris: Option<Seq<char>>,
)
    requires
        in_path_order(staged),
        0 <= k < staged.len(),
    ensures
        restored_files(
            with_file(written_files(files, staged, k), staged[k].0, debris),
            staged,
            captured(files, staged),
            staged.len() as int,
        ) == files,
{
    let broken = with_file(written_files(files, staged, k), staged[k].0, debris);
    let back = restored_files(broken, staged, captured(files, staged), staged.len() as int);
    assert forall|path: Seq<Part>| #[trigger] file_at(back, path) == file_at(files, path) by {
        if forall|i: int| 0 <= i < staged.len() ==> (#[trigger] staged[i]).0 != path {
            assert(staged[k].0 != path);
            lemma_written_other(files, staged, k, path);
        }
        lemma_restored(files, broken, staged, staged.len() as int, path);
    }
    assert forall|path: Seq<Part>| #[trigger] back.contains_key(path) == files.contains_key(
        path,
    ) by {
        assert(file_at(back, path) == file_at(files, path));
    }
    assert forall|path: Seq<Part>| back.contains_key(path) implies #[trigger] back[path]
        == files[path] by {
        assert(file_at(back, path) == file_at(files, path));
    }
    assert(back =~= files);
}

/// The state of a commit after `n` files were put back.
pub open spec fn restores_done(v: CommitView, n: nat) -> CommitView
    decreases n,
{
    if n == 0 {
        v
    } else {
        after_restore(restores_done(v, (n - 1) as nat), Ok(()))
    }
}

/// Once a file cannot be written, a commit asks for every file to be put back, in order, and then
/// reports the failure.
pub proof fn a_failed_commit_restores_every_file(v: CommitView, e: ErrorView, n: nat)
    requires
        v.failure is None,
        v.ended is None,
        v.restored == 0,
        v.snapshots.len() == v.staged.len(),
        n <= v.staged.len(),
    ensures
        commit_action(restores_done(after_write(v, Err(e)), n)) == if n < v.staged.len() {
            CommitActionView::Restore(v.staged[n as int].0, v.snapshots[n as int])
        } else {
            CommitActionView::Failed(e)
        },
    decreases n,
{
    lemma_restores_done(after_write(v, Err(e)), n);
}

proof fn lemma_restores_done(v: CommitView, n: nat)
    requires
        v.failure is Some,
    ensures
        restores_done(v, n) == (CommitView { restored: v.restored + n, ..v }),
    decreases n,
{
    if n > 0 {
        lemma_restores_done(v, (n - 1) as nat);
    }
}

/// A commit that cannot take a snapshot writes nothing.
pub proof fn a_commit_without_snapshots_writes_nothing(v: CommitView, e: ErrorView)
    requires
        commit_action(v) is Capture,
    ensures
        commit_action(after_capture(v, Err(e))) == CommitActionView::Failed(e),
        after_capture(v, Err(e)).written == v.written,
{
}

} // verus!
