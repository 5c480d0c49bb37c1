//! Staging a transaction: the directory for what it needs, the copies to roll
//! back to, and the texts that it will write.
//!
//! The caller carries out one action at a time and hands back what it came to.
//! Nothing in the workspace is changed, and a step that fails ends the staging.

use vstd::prelude::*;

use crate::digest::digest_text;
use crate::edits::EditView;
use crate::failure::{ContractFailure, FailureView};
use crate::manifest::PathView;
use crate::order::Key;
use crate::path::NativePath;
use crate::plan::{CanonicalOperation, OperationView};
use crate::planner::saturating_sum;
use crate::records::{TransactionRecord, TransactionView};
use crate::staging::{
    Staging,
    StagingView,
    TextInput,
    TextInputView,
    TextSource,
    TextSourceView,
    after_create,
    after_delete,
    after_rename,
    after_text,
    check_rollback_bytes,
    rollback_limit_failed,
    stage_failed,
    stage_failure,
    staged_place,
    staged_text_path,
    text_source,
    text_staged,
};
use crate::text::{concat, opt_ref_view, opt_view, same};

verus! {

/// What a staging waits for.
#[derive(Clone, Copy, Debug, PartialEq, Eq, Structural)]
pub enum StagePhase {
    Start,
    MakingDirectory,
    Marking,
    Restricting,
    Copying,
    ReadingText,
    WritingText,
    Flushing,
    Finished,
}

/// What an action of a staging came to.
pub enum StageEvent {
    Begin,
    Done,
    Failed { os_code: Option<i32> },
    /// The step that failed, in words.
    FailedAt { message: String, os_code: Option<i32> },
    /// The directory could not be marked; whether it could be removed again.
    Unmarked { message: String, os_code: Option<i32>, removed: bool },
    /// How many bytes a copy took.
    Copied(u64),
    Text(TextInput),
}

/// What a [`StageEvent`] stands for.
pub ghost enum StageEventView {
    Begin,
    Done,
    Failed { os_code: Option<i32> },
    FailedAt { message: Seq<char>, os_code: Option<i32> },
    Unmarked { message: Seq<char>, os_code: Option<i32>, removed: bool },
    Copied(u64),
    Text(TextInputView),
}

impl View for StageEvent {
    type V = StageEventView;

    open spec fn view(&self) -> StageEventView {
        match self {
            StageEvent::Begin => StageEventView::Begin,
            StageEvent::Done => StageEventView::Done,
            StageEvent::Failed { os_code } => StageEventView::Failed { os_code: *os_code },
            StageEvent::FailedAt { message, os_code } => StageEventView::FailedAt {
                message: message@,
                os_code: *os_code,
            },
            StageEvent::Unmarked { message, os_code, removed } => StageEventView::Unmarked {
                message: message@,
                os_code: *os_code,
                removed: *removed,
            },
            StageEvent::Copied(bytes) => StageEventView::Copied(*bytes),
            StageEvent::Text(input) => StageEventView::Text(input@),
        }
    }
}

/// What the caller has to do next.
pub enum StageAction {
    /// Make a directory that only its owner can enter.
    MakeDirectory(NativePath),
    /// Put the name of the transaction into the directory.
    Mark(NativePath),
    /// Keep others out of the directory.
    Restrict(NativePath),
    Copy { from: NativePath, to: NativePath },
    ReadText(NativePath),
    WriteText { path: NativePath, bytes: Vec<u8> },
    Flush(NativePath),
    Staged,
    /// The staging failed; whether its directory is there.
    Unstaged { failure: ContractFailure, artifact_created: bool },
}

/// What a [`StageAction`] stands for.
pub ghost enum StageActionView {
    MakeDirectory(PathView),
    Mark(PathView),
    Restrict(PathView),
    Copy { from: PathView, to: PathView },
    ReadText(PathView),
    WriteText { path: PathView, bytes: Seq<u8> },
    Flush(PathView),
    Staged,
    Unstaged { failure: FailureView, artifact_created: bool },
}

impl View for StageAction {
    type V = StageActionView;

    open spec fn view(&self) -> StageActionView {
        match self {
            StageAction::MakeDirectory(path) => StageActionView::MakeDirectory(path@),
            StageAction::Mark(path) => StageActionView::Mark(path@),
            StageAction::Restrict(path) => StageActionView::Restrict(path@),
            StageAction::Copy { from, to } => StageActionView::Copy { from: from@, to: to@ },
            StageAction::ReadText(path) => StageActionView::ReadText(path@),
            StageAction::WriteText { path, bytes } => StageActionView::WriteText { path: path@, bytes: bytes@ },
            StageAction::Flush(path) => StageActionView::Flush(path@),
            StageAction::Staged => StageActionView::Staged,
            StageAction::Unstaged { failure, artifact_created } => StageActionView::Unstaged {
                failure: failure@,
                artifact_created: *artifact_created,
            },
        }
    }
}

/// A staging under way.
pub struct StageRun {
    pub transaction: TransactionRecord,
    pub max_rollback_bytes: u64,
    pub max_staged_text_bytes: u64,
    pub phase: StagePhase,
    /// How many resources are copied.
    pub copies: usize,
    pub copied_bytes: u64,
    /// How many operations are staged.
    pub staged: usize,
    pub staging: Staging,
}

/// What a [`StageRun`] stands for.
#[verifier::ext_equal]
pub ghost struct StageRunView {
    pub transaction: TransactionView,
    pub max_rollback_bytes: u64,
    pub max_staged_text_bytes: u64,
    pub phase: StagePhase,
    pub copies: nat,
    pub copied_bytes: u64,
    pub staged: nat,
    pub staging: StagingView,
}

impl View for StageRun {
    type V = StageRunView;

    open spec fn view(&self) -> StageRunView {
        StageRunView {
            transaction: self.transaction@,
            max_rollback_bytes: self.max_rollback_bytes,
            max_staged_text_bytes: self.max_staged_text_bytes,
            phase: self.phase,
            copies: self.copies as nat,
            copied_bytes: self.copied_bytes,
            staged: self.staged as nat,
            staging: self.staging@,
        }
    }
}

/// Nothing is staged.
pub open spec fn nothing_staged() -> StagingView {
    StagingView { texts: Map::empty(), unavailable: Seq::empty(), aliases: Seq::empty(), staged_bytes: 0 }
}

impl StageRunView {
    /// The operation that is staged.
    pub open spec fn operation(self) -> OperationView {
        self.transaction.operations[self.staged as int]
    }

    /// Whether no more is done than there is to do.
    pub open spec fn within(self) -> bool {
        &&& self.copies <= self.transaction.backups.len()
        &&& self.staged <= self.transaction.operations.len()
    }

    /// Whether a staging waits for what belongs to its transaction.
    pub open spec fn sound(self) -> bool {
        &&& self.within()
        &&& self.phase == StagePhase::Copying ==> self.copies < self.transaction.backups.len()
        &&& self.phase == StagePhase::ReadingText || self.phase == StagePhase::WritingText ==> self.staged
            < self.transaction.operations.len() && self.operation() is Text
    }

    /// Whether what an action came to is what the staging waits for.
    pub open spec fn expects(self, e: StageEventView) -> bool {
        match self.phase {
            StagePhase::Start => e is Begin,
            StagePhase::MakingDirectory | StagePhase::Flushing => e is Done || e is Failed,
            StagePhase::Marking => e is Done || e is Unmarked,
            StagePhase::Restricting | StagePhase::WritingText => e is Done || e is FailedAt,
            StagePhase::Copying => e is Copied || e is Failed,
            StagePhase::ReadingText => e is Text,
            StagePhase::Finished => false,
        }
    }

    /// The staging in another phase.
    pub open spec fn in_phase(self, phase: StagePhase) -> StageRunView {
        StageRunView { phase, ..self }
    }

    /// The staging ends with a failure.
    pub open spec fn unstaged(self, failure: FailureView, artifact_created: bool) -> (StageRunView, StageActionView) {
        (self.in_phase(StagePhase::Finished), StageActionView::Unstaged { failure, artifact_created })
    }

    /// The staging ends at a step that failed.
    pub open spec fn failed_at(self, message: Seq<char>, os_code: Option<i32>, artifact_created: bool) -> (
        StageRunView,
        StageActionView,
    ) {
        self.unstaged(stage_failed(self.transaction.transaction_id, message, os_code), artifact_created)
    }

    /// The new text of the operation is made of what was read.
    pub open spec fn text_made(
        self,
        input: TextInputView,
        index: u64,
        path: PathView,
        before_digest: Seq<char>,
        after_digest: Seq<char>,
        edits: Seq<EditView>,
    ) -> (StageRunView, StageActionView) {
        match text_staged(
            self.transaction.transaction_id,
            input,
            index,
            before_digest,
            after_digest,
            edits,
            self.staging.staged_bytes,
            self.max_staged_text_bytes,
        ) {
            Err(failure) => self.unstaged(failure, true),
            Ok(bytes) => (
                StageRunView {
                    phase: StagePhase::WritingText,
                    staging: after_text(self.staging, path, bytes),
                    ..self
                },
                StageActionView::WriteText {
                    path: staged_place(self.transaction.artifact_directory, index),
                    bytes,
                },
            ),
        }
    }

    /// The first step of the operation that comes next.
    pub open spec fn staging_next(self) -> (StageRunView, StageActionView)
        decreases self.transaction.operations.len() - self.staged,
    {
        if self.staged >= self.transaction.operations.len() {
            (
                self.in_phase(StagePhase::Flushing),
                StageActionView::Flush(self.transaction.artifact_directory),
            )
        } else {
            match self.operation() {
                OperationView::Text { index, path, before_digest, after_digest, edits, .. } => match text_source(
                    self.staging,
                    path,
                ) {
                    TextSourceView::Known(bytes) => self.text_made(
                        TextInputView::Bytes(bytes),
                        index,
                        path,
                        before_digest,
                        after_digest,
                        edits,
                    ),
                    TextSourceView::Unavailable => self.text_made(
                        TextInputView::Unread { os_code: None },
                        index,
                        path,
                        before_digest,
                        after_digest,
                        edits,
                    ),
                    TextSourceView::Physical(place) => (
                        self.in_phase(StagePhase::ReadingText),
                        StageActionView::ReadText(place),
                    ),
                },
                OperationView::Create { path, .. } => (StageRunView {
                    staged: self.staged + 1,
                    staging: after_create(self.staging, path),
                    ..self
                }).staging_next(),
                OperationView::Rename { old_path, new_path, .. } => (StageRunView {
                    staged: self.staged + 1,
                    staging: after_rename(self.staging, old_path, new_path),
                    ..self
                }).staging_next(),
                OperationView::Delete { path, .. } => (StageRunView {
                    staged: self.staged + 1,
                    staging: after_delete(self.staging, path),
                    ..self
                }).staging_next(),
            }
        }
    }

    /// The next copy to roll back to.
    pub open spec fn copying_next(self) -> (StageRunView, StageActionView) {
        if self.copies < self.transaction.backups.len() {
            (
                self.in_phase(StagePhase::Copying),
                StageActionView::Copy {
                    from: self.transaction.backups[self.copies as int].path,
                    to: self.transaction.backups[self.copies as int].backup_path,
                },
            )
        } else {
            self.staging_next()
        }
    }

    /// The staging after an action came to something, and what comes next.
    pub open spec fn next(self, e: StageEventView) -> (StageRunView, StageActionView) {
        match self.phase {
            StagePhase::Start => (
                self.in_phase(StagePhase::MakingDirectory),
                StageActionView::MakeDirectory(self.transaction.artifact_directory),
            ),
            StagePhase::MakingDirectory => match e {
                StageEventView::Failed { os_code } => self.failed_at(
                    "The same-volume transaction directory cannot be created."@,
                    os_code,
                    false,
                ),
                _ => (
                    self.in_phase(StagePhase::Marking),
                    StageActionView::Mark(self.transaction.artifact_directory),
                ),
            },
            StagePhase::Marking => match e {
                StageEventView::Unmarked { message, os_code, removed } => self.failed_at(message, os_code, !removed),
                _ => (
                    self.in_phase(StagePhase::Restricting),
                    StageActionView::Restrict(self.transaction.artifact_directory),
                ),
            },
            StagePhase::Restricting => match e {
                StageEventView::FailedAt { message, os_code } => self.failed_at(message, os_code, true),
                _ => self.copying_next(),
            },
            StagePhase::Copying => match e {
                StageEventView::Copied(bytes) => {
                    let copied = StageRunView {
                        copies: self.copies + 1,
                        copied_bytes: saturating_sum(self.copied_bytes as int, bytes as int),
                        ..self
                    };
                    match rollback_limit_failed(copied.copied_bytes, self.max_rollback_bytes) {
                        Some(failure) => copied.unstaged(failure, true),
                        None => copied.copying_next(),
                    }
                },
                StageEventView::Failed { os_code } => self.failed_at(
                    "A rollback backup cannot be staged."@,
                    os_code,
                    true,
                ),
                _ => self.copying_next(),
            },
            StagePhase::ReadingText => match (e, self.operation()) {
                (
                    StageEventView::Text(input),
                    OperationView::Text { index, path, before_digest, after_digest, edits, .. },
                ) => self.text_made(input, index, path, before_digest, after_digest, edits),
                _ => self.staging_next(),
            },
            StagePhase::WritingText => match e {
                StageEventView::FailedAt { message, os_code } => self.failed_at(message, os_code, true),
                _ => (StageRunView { staged: self.staged + 1, ..self }).staging_next(),
            },
            StagePhase::Flushing => match e {
                StageEventView::Failed { os_code } => self.failed_at(
                    "The transaction directory cannot be flushed."@,
                    os_code,
                    true,
                ),
                _ => (self.in_phase(StagePhase::Finished), StageActionView::Staged),
            },
            StagePhase::Finished => (self, StageActionView::Staged),
        }
    }
}

impl StageRun {
    /// A staging of a transaction within limits.
    pub fn new(transaction: TransactionRecord, max_rollback_bytes: u64, max_staged_text_bytes: u64) -> (r: StageRun)
        ensures
            r@ == (StageRunView {
                transaction: transaction@,
                max_rollback_bytes,
                max_staged_text_bytes,
                phase: StagePhase::Start,
                copies: 0,
                copied_bytes: 0,
                staged: 0,
                staging: nothing_staged(),
            }),
            r@.sound(),
    {
        StageRun {
            transaction,
            max_rollback_bytes,
            max_staged_text_bytes,
            phase: StagePhase::Start,
            copies: 0,
            copied_bytes: 0,
            staged: 0,
            staging: Staging::new(),
        }
    }

    fn fail(&mut self, failure: ContractFailure, artifact_created: bool) -> (r: StageAction)
        requires
            old(self)@.within(),
        ensures
            (final(self)@, r@) == old(self)@.unstaged(failure@, artifact_created),
            final(self)@.sound(),
    {
        self.phase = StagePhase::Finished;
        StageAction::Unstaged { failure, artifact_created }
    }

    fn fail_at(&mut self, message: &str, os_code: Option<i32>, artifact_created: bool) -> (r: StageAction)
        requires
            old(self)@.within(),
        ensures
            (final(self)@, r@) == old(self)@.failed_at(message@, os_code, artifact_created),
            final(self)@.sound(),
    {
        let failure: ContractFailure = stage_failure(self.transaction.transaction_id.as_str(), message, os_code);
        self.fail(failure, artifact_created)
    }

    fn make_text(&mut self, input: &TextInput) -> (r: StageAction)
        requires
            old(self)@.within(),
            old(self)@.staged < old(self)@.transaction.operations.len(),
            old(self)@.operation() is Text,
        ensures
            old(self)@.operation() matches OperationView::Text {
                index,
                path,
                before_digest,
                after_digest,
                edits,
                ..
            } ==> (final(self)@, r@) == old(self)@.text_made(
                input@,
                index,
                path,
                before_digest,
                after_digest,
                edits,
            ),
            final(self)@.sound(),
    {
        assert(self@.operation() == self.transaction.operations@[self.staged as int]@);
        match &self.transaction.operations[self.staged] {
            CanonicalOperation::Text { index, path, before_digest, after_digest, edits, .. } => {
                let place: NativePath = staged_text_path(&self.transaction.artifact_directory, *index);
                match self.staging.stage_text(
                    self.transaction.transaction_id.as_str(),
                    input,
                    *index,
                    path,
                    before_digest.as_str(),
                    after_digest.as_str(),
                    edits,
                    self.max_staged_text_bytes,
                ) {
                    Ok(bytes) => {
                        self.phase = StagePhase::WritingText;
                        StageAction::WriteText { path: place, bytes }
                    },
                    Err(failure) => self.fail(failure, true),
                }
            },
            _ => StageAction::Staged,
        }
    }

    fn stage_next(&mut self) -> (r: StageAction)
        requires
            old(self)@.within(),
        ensures
            (final(self)@, r@) == old(self)@.staging_next(),
            final(self)@.sound(),
        decreases old(self)@.transaction.operations.len() - old(self)@.staged,
    {
        if self.staged >= self.transaction.operations.len() {
            let place: NativePath = self.transaction.artifact_directory.duplicate();
            self.phase = StagePhase::Flushing;
            return StageAction::Flush(place);
        }
        assert(self@.operation() == self.transaction.operations@[self.staged as int]@);
        match &self.transaction.operations[self.staged] {
            CanonicalOperation::Text { path, .. } => match self.staging.virtual_text(path) {
                TextSource::Known(bytes) => self.make_text(&TextInput::Bytes(bytes)),
                TextSource::Unavailable => self.make_text(&TextInput::Unread { os_code: None }),
                TextSource::Physical(place) => {
                    self.phase = StagePhase::ReadingText;
                    StageAction::ReadText(place)
                },
            },
            CanonicalOperation::Create { path, .. } => {
                self.staging.stage_create(path);
                self.staged = self.staged + 1;
                self.stage_next()
            },
            CanonicalOperation::Rename { old_path, new_path, .. } => {
                self.staging.stage_rename(old_path, new_path);
                self.staged = self.staged + 1;
                self.stage_next()
            },
            CanonicalOperation::Delete { path, .. } => {
                self.staging.stage_delete(path);
                self.staged = self.staged + 1;
                self.stage_next()
            },
        }
    }

    fn copy_next(&mut self) -> (r: StageAction)
        requires
            old(self)@.within(),
        ensures
            (final(self)@, r@) == old(self)@.copying_next(),
            final(self)@.sound(),
    {
        if self.copies < self.transaction.backups.len() {
            assert(self@.transaction.backups[self.copies as int] == self.transaction.backups@[self.copies as int]@);
            let from: NativePath = self.transaction.backups[self.copies].path.duplicate();
            let to: NativePath = self.transaction.backups[self.copies].backup_path.duplicate();
            self.phase = StagePhase::Copying;
            StageAction::Copy { from, to }
        } else {
            self.stage_next()
        }
    }

    /// What the caller has to do next, given what the last action came to.
    pub fn step(&mut self, event: StageEvent) -> (r: StageAction)
        requires
            old(self)@.sound(),
            old(self)@.expects(event@),
        ensures
            (final(self)@, r@) == old(self)@.next(event@),
            final(self)@.sound(),
    {
        match self.phase {
            StagePhase::Start => {
                let place: NativePath = self.transaction.artifact_directory.duplicate();
                self.phase = StagePhase::MakingDirectory;
                StageAction::MakeDirectory(place)
            },
            StagePhase::MakingDirectory => match event {
                StageEvent::Failed { os_code } => self.fail_at(
                    "The same-volume transaction directory cannot be created.",
                    os_code,
                    false,
                ),
                _ => {
                    let place: NativePath = self.transaction.artifact_directory.duplicate();
                    self.phase = StagePhase::Marking;
                    StageAction::Mark(place)
                },
            },
            StagePhase::Marking => match event {
                StageEvent::Unmarked { message, os_code, removed } => self.fail_at(
                    message.as_str(),
                    os_code,
                    !removed,
                ),
                _ => {
                    let place: NativePath = self.transaction.artifact_directory.duplicate();
                    self.phase = StagePhase::Restricting;
                    StageAction::Restrict(place)
                },
            },
            StagePhase::Restricting => match event {
                StageEvent::FailedAt { message, os_code } => self.fail_at(message.as_str(), os_code, true),
                _ => self.copy_next(),
            },
            StagePhase::Copying => match event {
                StageEvent::Copied(bytes) => {
                    let size: usize = self.transaction.backups.len();
                    assert(self.copies < size);
                    self.copies = self.copies + 1;
                    self.copied_bytes = self.copied_bytes.saturating_add(bytes);
                    match check_rollback_bytes(self.copied_bytes, self.max_rollback_bytes) {
                        Some(failure) => self.fail(failure, true),
                        None => self.copy_next(),
                    }
                },
                StageEvent::Failed { os_code } => self.fail_at("A rollback backup cannot be staged.", os_code, true),
                _ => self.copy_next(),
            },
            StagePhase::ReadingText => match event {
                StageEvent::Text(input) => self.make_text(&input),
                _ => self.stage_next(),
            },
            StagePhase::WritingText => match event {
                StageEvent::FailedAt { message, os_code } => self.fail_at(message.as_str(), os_code, true),
                _ => {
                    let size: usize = self.transaction.operations.len();
                    assert(self.staged < size);
                    self.staged = self.staged + 1;
                    self.stage_next()
                },
            },
            StagePhase::Flushing => match event {
                StageEvent::Failed { os_code } => self.fail_at(
                    "The transaction directory cannot be flushed.",
                    os_code,
                    true,
                ),
                _ => {
                    self.phase = StagePhase::Finished;
                    StageAction::Staged
                },
            },
            StagePhase::Finished => StageAction::Staged,
        }
    }
}

/// Why the directory of a transaction may not be removed, if it may not: it is
/// not the one that the transaction would make, or does not hold its name.
pub open spec fn artifact_problem(t: TransactionView, marker: Option<Seq<char>>) -> Option<Seq<char>> {
    if t.artifact_directory != t.workspace_path.push(".lspctl-"@ + t.transaction_id) {
        Some("The transaction artifact path is not canonical."@)
    } else if marker != Some(t.transaction_id) {
        Some("The transaction artifact ownership cannot be verified."@)
    } else {
        None
    }
}

/// Checks that the directory of a transaction is its own, given the name that
/// was found in it.
pub fn cleanup_transaction_artifacts(t: &TransactionRecord, marker: Option<&String>) -> (r: Option<String>)
    ensures
        opt_view(r) == artifact_problem(t@, opt_ref_view(marker)),
{
    let name: String = concat(".lspctl-", t.transaction_id.as_str());
    let expected: NativePath = t.workspace_path.join(name.as_str());
    if !t.artifact_directory.same_path(&expected) {
        return Some("The transaction artifact path is not canonical.".to_owned());
    }
    let owned: bool = match marker {
        Some(marker) => same(marker.as_str(), t.transaction_id.as_str()),
        None => false,
    };
    if !owned {
        return Some("The transaction artifact ownership cannot be verified.".to_owned());
    }
    None
}

/// Only a directory that holds the name of the transaction is removed.
pub proof fn law_only_owned_artifacts_are_removed(t: TransactionView, marker: Option<Seq<char>>)
    ensures
        artifact_problem(t, marker) is None ==> marker == Some(t.transaction_id),
{
}

proof fn lemma_staging_goes_on(c: StageRunView)
    requires
        c.within(),
    ensures
        c.staging_next().0.sound(),
        c.staging_next().0.transaction == c.transaction,
        c.staged <= c.staging_next().0.staged,
        c.staging_next().1 is Staged ==> false,
        c.staging_next().1 is Flush ==> c.staging_next().0.staged == c.transaction.operations.len(),
        c.staging_next().1 matches StageActionView::WriteText { path, bytes } ==> writes_intended_text(
            c.staging_next().0,
            path,
            bytes,
        ),
        c.staging_next().1 matches StageActionView::Unstaged { failure, artifact_created } ==> artifact_created,
    decreases c.transaction.operations.len() - c.staged,
{
    if c.staged < c.transaction.operations.len() {
        match c.operation() {
            OperationView::Text { .. } => {},
            OperationView::Create { path, .. } => lemma_staging_goes_on(
                StageRunView { staged: c.staged + 1, staging: after_create(c.staging, path), ..c },
            ),
            OperationView::Rename { old_path, new_path, .. } => lemma_staging_goes_on(
                StageRunView { staged: c.staged + 1, staging: after_rename(c.staging, old_path, new_path), ..c },
            ),
            OperationView::Delete { path, .. } => lemma_staging_goes_on(
                StageRunView { staged: c.staged + 1, staging: after_delete(c.staging, path), ..c },
            ),
        }
    }
}

/// Whether a text is written for the operation that is staged, to its place,
/// and is the one that the plan intends.
pub open spec fn writes_intended_text(c: StageRunView, path: PathView, bytes: Seq<u8>) -> bool {
    &&& c.operation() is Text
    &&& path == staged_place(c.transaction.artifact_directory, c.operation()->Text_index)
    &&& digest_text(bytes) == c.operation()->Text_after_digest
}

/// A staging goes through its transaction in order and never back.
pub proof fn law_staging_keeps_the_order(c: StageRunView, e: StageEventView)
    requires
        c.sound(),
        c.expects(e),
    ensures
        c.next(e).0.sound(),
        c.next(e).0.transaction == c.transaction,
        c.copies <= c.next(e).0.copies,
        c.staged <= c.next(e).0.staged,
{
    lemma_steps_go_on(c, e);
}

proof fn lemma_steps_go_on(c: StageRunView, e: StageEventView)
    requires
        c.sound(),
        c.expects(e),
    ensures
        c.next(e).0.sound(),
        c.next(e).0.transaction == c.transaction,
        c.copies <= c.next(e).0.copies,
        c.staged <= c.next(e).0.staged,
        c.next(e).1 is Staged ==> c.phase == StagePhase::Flushing,
        c.next(e).1 is Flush ==> c.next(e).0.staged == c.transaction.operations.len(),
        c.next(e).1 matches StageActionView::WriteText { path, bytes } ==> writes_intended_text(
            c.next(e).0,
            path,
            bytes,
        ),
        c.next(e).1 matches StageActionView::Unstaged { failure, artifact_created } ==> artifact_created || c.phase
            == StagePhase::MakingDirectory || c.phase == StagePhase::Marking,
{
    lemma_staging_goes_on(c);
    lemma_copies_stay(c);
    if c.phase == StagePhase::WritingText {
        let more = StageRunView { staged: c.staged + 1, ..c };
        lemma_staging_goes_on(more);
        lemma_copies_stay(more);
    }
    if let StageEventView::Copied(bytes) = e {
        let copied = StageRunView {
            copies: c.copies + 1,
            copied_bytes: saturating_sum(c.copied_bytes as int, bytes as int),
            ..c
        };
        lemma_staging_goes_on(copied);
        lemma_copies_stay(copied);
    }
}

proof fn lemma_copies_stay(c: StageRunView)
    requires
        c.within(),
    ensures
        c.staging_next().0.copies == c.copies,
    decreases c.transaction.operations.len() - c.staged,
{
    if c.staged < c.transaction.operations.len() {
        match c.operation() {
            OperationView::Text { .. } => {},
            OperationView::Create { path, .. } => lemma_copies_stay(
                StageRunView { staged: c.staged + 1, staging: after_create(c.staging, path), ..c },
            ),
            OperationView::Rename { old_path, new_path, .. } => lemma_copies_stay(
                StageRunView { staged: c.staged + 1, staging: after_rename(c.staging, old_path, new_path), ..c },
            ),
            OperationView::Delete { path, .. } => lemma_copies_stay(
                StageRunView { staged: c.staged + 1, staging: after_delete(c.staging, path), ..c },
            ),
        }
    }
}

/// Every text that a staging writes is the one that the plan intends, and goes
/// to the place from which it is committed.
pub proof fn law_staged_texts_are_intended(c: StageRunView, e: StageEventView, path: PathView, bytes: Seq<u8>)
    requires
        c.sound(),
        c.expects(e),
        c.next(e).1 == (StageActionView::WriteText { path, bytes }),
    ensures
        writes_intended_text(c.next(e).0, path, bytes),
{
    lemma_steps_go_on(c, e);
}

/// A failure that leaves no directory behind comes before anything is put into
/// it: when it could not be made, or was removed again.
pub proof fn law_failures_tell_of_the_directory(c: StageRunView, e: StageEventView, failure: FailureView)
    requires
        c.sound(),
        c.expects(e),
        c.next(e).1 == (StageActionView::Unstaged { failure, artifact_created: false }),
    ensures
        c.phase == StagePhase::MakingDirectory || c.phase == StagePhase::Marking,
{
    lemma_steps_go_on(c, e);
}

} // verus!
