//! Committing a plan: which operation comes next, and what it has to do given
//! what stands in the filesystem.
//!
//! The caller carries out one action at a time and hands back what it came to.
//! The first operation that cannot be carried out ends the commit.

use vstd::prelude::*;

use crate::digest::digest_text;
use crate::manifest::PathView;
use crate::order::Key;
use crate::path::NativePath;
use crate::plan::{CanonicalOperation, OperationView};
use crate::rollback::{
    CreateStep,
    DeleteStep,
    RenameStep,
    check_text_commit,
    create_choice,
    create_step,
    delete_choice,
    delete_step,
    rename_choice,
    rename_step,
    text_commit_problem,
};
use crate::staging::{staged_place, staged_text_path, undo_place, undo_resource_path};
use crate::text::views;

verus! {

/// What a commit waits for.
#[derive(Clone, Copy, Debug, PartialEq, Eq, Structural)]
pub enum CommitPhase {
    Start,
    ReadingText,
    ReadingStaged,
    Writing,
    LookingAtCreated,
    Making,
    LookingAtDestination,
    SettingAside,
    Moving,
    LookingAtDeleted,
    Deleting,
    Finished,
}

/// What an action of a commit came to.
pub enum CommitEvent {
    Begin,
    Done,
    Failed,
    Bytes(Vec<u8>),
    /// Whether something stands at the path.
    Exists(bool),
    /// What stands at the path; for a directory, whether it holds anything.
    Entry { exists: bool, directory: bool, has_children: bool },
}

/// What a [`CommitEvent`] stands for.
pub ghost enum CommitEventView {
    Begin,
    Done,
    Failed,
    Bytes(Seq<u8>),
    Exists(bool),
    Entry { exists: bool, directory: bool, has_children: bool },
}

impl View for CommitEvent {
    type V = CommitEventView;

    open spec fn view(&self) -> CommitEventView {
        match self {
            CommitEvent::Begin => CommitEventView::Begin,
            CommitEvent::Done => CommitEventView::Done,
            CommitEvent::Failed => CommitEventView::Failed,
            CommitEvent::Bytes(bytes) => CommitEventView::Bytes(bytes@),
            CommitEvent::Exists(exists) => CommitEventView::Exists(*exists),
            CommitEvent::Entry { exists, directory, has_children } => CommitEventView::Entry {
                exists: *exists,
                directory: *directory,
                has_children: *has_children,
            },
        }
    }
}

/// What the caller has to do next.
pub enum CommitAction {
    ReadText(NativePath),
    ReadStaged(NativePath),
    /// Put the bytes into the file that stands there.
    WriteText { path: NativePath, bytes: Vec<u8> },
    LookAt(NativePath),
    /// Empty the file that stands there.
    Truncate(NativePath),
    Create(NativePath),
    Move { from: NativePath, to: NativePath },
    /// Look at what stands there, and into it where it is a directory.
    LookInto(NativePath),
    Committed,
    /// The operation of this index could not be carried out.
    Refused(u64),
}

/// What a [`CommitAction`] stands for.
pub ghost enum CommitActionView {
    ReadText(PathView),
    ReadStaged(PathView),
    WriteText { path: PathView, bytes: Seq<u8> },
    LookAt(PathView),
    Truncate(PathView),
    Create(PathView),
    Move { from: PathView, to: PathView },
    LookInto(PathView),
    Committed,
    Refused(u64),
}

impl View for CommitAction {
    type V = CommitActionView;

    open spec fn view(&self) -> CommitActionView {
        match self {
            CommitAction::ReadText(path) => CommitActionView::ReadText(path@),
            CommitAction::ReadStaged(path) => CommitActionView::ReadStaged(path@),
            CommitAction::WriteText { path, bytes } => CommitActionView::WriteText { path: path@, bytes: bytes@ },
            CommitAction::LookAt(path) => CommitActionView::LookAt(path@),
            CommitAction::Truncate(path) => CommitActionView::Truncate(path@),
            CommitAction::Create(path) => CommitActionView::Create(path@),
            CommitAction::Move { from, to } => CommitActionView::Move { from: from@, to: to@ },
            CommitAction::LookInto(path) => CommitActionView::LookInto(path@),
            CommitAction::Committed => CommitActionView::Committed,
            CommitAction::Refused(index) => CommitActionView::Refused(*index),
        }
    }
}

/// A commit under way.
pub struct Commit {
    pub operations: Vec<CanonicalOperation>,
    pub artifact_directory: NativePath,
    /// How many operations are carried out.
    pub done: usize,
    pub phase: CommitPhase,
    /// The text that stands where a text is to be written.
    pub current: Vec<u8>,
}

/// What a [`Commit`] stands for.
#[verifier::ext_equal]
pub ghost struct CommitView {
    pub operations: Seq<OperationView>,
    pub artifacts: PathView,
    pub done: nat,
    pub phase: CommitPhase,
    pub current: Seq<u8>,
}

impl View for Commit {
    type V = CommitView;

    open spec fn view(&self) -> CommitView {
        CommitView {
            operations: views(self.operations@),
            artifacts: self.artifact_directory@,
            done: self.done as nat,
            phase: self.phase,
            current: self.current@,
        }
    }
}

/// The index of an operation.
pub open spec fn operation_index(op: OperationView) -> u64 {
    match op {
        OperationView::Text { index, .. } => index,
        OperationView::Create { index, .. } => index,
        OperationView::Rename { index, .. } => index,
        OperationView::Delete { index, .. } => index,
    }
}

impl CommitView {
    /// The operation that is carried out.
    pub open spec fn operation(self) -> OperationView {
        self.operations[self.done as int]
    }

    /// Whether a commit waits for what belongs to its operation.
    pub open spec fn sound(self) -> bool {
        match self.phase {
            CommitPhase::Start => self.done == 0,
            CommitPhase::Finished => self.done <= self.operations.len(),
            CommitPhase::ReadingText | CommitPhase::ReadingStaged
            | CommitPhase::Writing => self.done < self.operations.len() && self.operation() is Text,
            CommitPhase::LookingAtCreated
            | CommitPhase::Making => self.done < self.operations.len() && self.operation() is Create,
            CommitPhase::LookingAtDestination | CommitPhase::SettingAside
            | CommitPhase::Moving => self.done < self.operations.len() && self.operation() is Rename,
            CommitPhase::LookingAtDeleted
            | CommitPhase::Deleting => self.done < self.operations.len() && self.operation() is Delete,
        }
    }

    /// Whether what an action came to is what the commit waits for.
    pub open spec fn expects(self, e: CommitEventView) -> bool {
        match self.phase {
            CommitPhase::Start => e is Begin,
            CommitPhase::ReadingText | CommitPhase::ReadingStaged => e is Bytes || e is Failed,
            CommitPhase::Writing | CommitPhase::Making | CommitPhase::SettingAside | CommitPhase::Moving
            | CommitPhase::Deleting => e is Done || e is Failed,
            CommitPhase::LookingAtCreated | CommitPhase::LookingAtDestination => e is Exists,
            CommitPhase::LookingAtDeleted => e is Entry || e is Failed,
            CommitPhase::Finished => false,
        }
    }

    /// The commit in another phase.
    pub open spec fn in_phase(self, phase: CommitPhase) -> CommitView {
        CommitView { phase, ..self }
    }

    /// The first step of the operation that comes next.
    pub open spec fn opened(self) -> (CommitView, CommitActionView) {
        if self.done >= self.operations.len() {
            (self.in_phase(CommitPhase::Finished), CommitActionView::Committed)
        } else {
            match self.operation() {
                OperationView::Text { path, .. } => (
                    self.in_phase(CommitPhase::ReadingText),
                    CommitActionView::ReadText(path),
                ),
                OperationView::Create { path, .. } => (
                    self.in_phase(CommitPhase::LookingAtCreated),
                    CommitActionView::LookAt(path),
                ),
                OperationView::Rename { new_path, .. } => (
                    self.in_phase(CommitPhase::LookingAtDestination),
                    CommitActionView::LookAt(new_path),
                ),
                OperationView::Delete { path, .. } => (
                    self.in_phase(CommitPhase::LookingAtDeleted),
                    CommitActionView::LookInto(path),
                ),
            }
        }
    }

    /// The operation is carried out.
    pub open spec fn passed(self) -> (CommitView, CommitActionView) {
        CommitView { done: self.done + 1, ..self }.opened()
    }

    /// The operation cannot be carried out.
    pub open spec fn refused(self) -> (CommitView, CommitActionView) {
        (self.in_phase(CommitPhase::Finished), CommitActionView::Refused(operation_index(self.operation())))
    }

    /// What follows a step that changes something.
    pub open spec fn after_change(self, e: CommitEventView) -> (CommitView, CommitActionView) {
        if e is Done {
            self.passed()
        } else {
            self.refused()
        }
    }

    /// What comes next of an operation on a text.
    pub open spec fn text_next(
        self,
        e: CommitEventView,
        index: u64,
        path: PathView,
        before_digest: Seq<char>,
        after_digest: Seq<char>,
    ) -> (CommitView, CommitActionView) {
        match (self.phase, e) {
            (CommitPhase::ReadingText, CommitEventView::Bytes(current)) => (
                CommitView { phase: CommitPhase::ReadingStaged, current, ..self },
                CommitActionView::ReadStaged(staged_place(self.artifacts, index)),
            ),
            (CommitPhase::ReadingStaged, CommitEventView::Bytes(bytes)) => if text_commit_problem(
                self.current,
                before_digest,
                bytes,
                after_digest,
            ) is None {
                (self.in_phase(CommitPhase::Writing), CommitActionView::WriteText { path, bytes })
            } else {
                self.refused()
            },
            _ => self.after_change(e),
        }
    }

    /// What comes next of a creation.
    pub open spec fn create_next(
        self,
        e: CommitEventView,
        path: PathView,
        overwrite: bool,
        ignore_if_exists: bool,
    ) -> (CommitView, CommitActionView) {
        match (self.phase, e) {
            (CommitPhase::LookingAtCreated, CommitEventView::Exists(exists)) => match create_choice(
                exists,
                overwrite,
                ignore_if_exists,
            ) {
                CreateStep::CreateNew => (self.in_phase(CommitPhase::Making), CommitActionView::Create(path)),
                CreateStep::Truncate => (self.in_phase(CommitPhase::Making), CommitActionView::Truncate(path)),
                CreateStep::Skip => self.passed(),
                CreateStep::Refuse => self.refused(),
            },
            _ => self.after_change(e),
        }
    }

    /// What comes next of a renaming.
    pub open spec fn rename_next(
        self,
        e: CommitEventView,
        index: u64,
        old_path: PathView,
        new_path: PathView,
        overwrite: bool,
        ignore_if_exists: bool,
    ) -> (CommitView, CommitActionView) {
        match (self.phase, e) {
            (CommitPhase::LookingAtDestination, CommitEventView::Exists(exists)) => match rename_choice(
                exists,
                overwrite,
                ignore_if_exists,
            ) {
                RenameStep::SetAsideAndMove => (
                    self.in_phase(CommitPhase::SettingAside),
                    CommitActionView::Move { from: new_path, to: undo_place(self.artifacts, index) },
                ),
                RenameStep::Move => (
                    self.in_phase(CommitPhase::Moving),
                    CommitActionView::Move { from: old_path, to: new_path },
                ),
                RenameStep::Skip => self.passed(),
                RenameStep::Refuse => self.refused(),
            },
            (CommitPhase::SettingAside, CommitEventView::Done) => (
                self.in_phase(CommitPhase::Moving),
                CommitActionView::Move { from: old_path, to: new_path },
            ),
            _ => self.after_change(e),
        }
    }

    /// What comes next of a deletion.
    pub open spec fn delete_next(
        self,
        e: CommitEventView,
        index: u64,
        path: PathView,
        recursive: bool,
        ignore_if_not_exists: bool,
    ) -> (CommitView, CommitActionView) {
        match (self.phase, e) {
            (
                CommitPhase::LookingAtDeleted,
                CommitEventView::Entry { exists, directory, has_children },
            ) => match delete_choice(exists, directory, has_children, recursive, ignore_if_not_exists) {
                DeleteStep::SetAside => (
                    self.in_phase(CommitPhase::Deleting),
                    CommitActionView::Move { from: path, to: undo_place(self.artifacts, index) },
                ),
                DeleteStep::Skip => self.passed(),
                DeleteStep::RefuseMissing | DeleteStep::RefuseNotEmpty => self.refused(),
            },
            _ => self.after_change(e),
        }
    }

    /// The commit after an action came to something, and what comes next.
    pub open spec fn next(self, e: CommitEventView) -> (CommitView, CommitActionView) {
        if self.phase == CommitPhase::Start {
            self.opened()
        } else {
            match self.operation() {
                OperationView::Text { index, path, before_digest, after_digest, .. } => self.text_next(
                    e,
                    index,
                    path,
                    before_digest,
                    after_digest,
                ),
                OperationView::Create { path, overwrite, ignore_if_exists, .. } => self.create_next(
                    e,
                    path,
                    overwrite,
                    ignore_if_exists,
                ),
                OperationView::Rename { index, old_path, new_path, overwrite, ignore_if_exists, .. } => self.rename_next(
                    e,
                    index,
                    old_path,
                    new_path,
                    overwrite,
                    ignore_if_exists,
                ),
                OperationView::Delete { index, path, recursive, ignore_if_not_exists, .. } => self.delete_next(
                    e,
                    index,
                    path,
                    recursive,
                    ignore_if_not_exists,
                ),
            }
        }
    }
}

impl Commit {
    /// A commit of these operations, whose staged texts lie in a directory.
    pub fn new(operations: Vec<CanonicalOperation>, artifact_directory: NativePath) -> (r: Commit)
        ensures
            r@ == (CommitView {
                operations: views(operations@),
                artifacts: artifact_directory@,
                done: 0,
                phase: CommitPhase::Start,
                current: Seq::empty(),
            }),
            r@.sound(),
    {
        let current: Vec<u8> = Vec::new();
        assert(current@ =~= Seq::<u8>::empty());
        Commit { operations, artifact_directory, done: 0, phase: CommitPhase::Start, current }
    }

    fn open(&mut self) -> (r: CommitAction)
        requires
            old(self)@.done <= old(self)@.operations.len(),
        ensures
            (final(self)@, r@) == old(self)@.opened(),
            final(self)@.sound(),
    {
        if self.done >= self.operations.len() {
            self.phase = CommitPhase::Finished;
            return CommitAction::Committed;
        }
        assert(self@.operation() == self.operations@[self.done as int]@);
        match &self.operations[self.done] {
            CanonicalOperation::Text { path, .. } => {
                let path: NativePath = path.duplicate();
                self.phase = CommitPhase::ReadingText;
                CommitAction::ReadText(path)
            },
            CanonicalOperation::Create { path, .. } => {
                let path: NativePath = path.duplicate();
                self.phase = CommitPhase::LookingAtCreated;
                CommitAction::LookAt(path)
            },
            CanonicalOperation::Rename { new_path, .. } => {
                let path: NativePath = new_path.duplicate();
                self.phase = CommitPhase::LookingAtDestination;
                CommitAction::LookAt(path)
            },
            CanonicalOperation::Delete { path, .. } => {
                let path: NativePath = path.duplicate();
                self.phase = CommitPhase::LookingAtDeleted;
                CommitAction::LookInto(path)
            },
        }
    }

    fn pass(&mut self) -> (r: CommitAction)
        requires
            old(self)@.done < old(self)@.operations.len(),
        ensures
            (final(self)@, r@) == old(self)@.passed(),
            final(self)@.sound(),
    {
        let size: usize = self.operations.len();
        assert(self.done < size);
        self.done = self.done + 1;
        self.open()
    }

    fn refuse(&mut self) -> (r: CommitAction)
        requires
            old(self)@.done < old(self)@.operations.len(),
        ensures
            (final(self)@, r@) == old(self)@.refused(),
            final(self)@.sound(),
    {
        assert(self@.operation() == self.operations@[self.done as int]@);
        let index: u64 = match &self.operations[self.done] {
            CanonicalOperation::Text { index, .. } => *index,
            CanonicalOperation::Create { index, .. } => *index,
            CanonicalOperation::Rename { index, .. } => *index,
            CanonicalOperation::Delete { index, .. } => *index,
        };
        self.phase = CommitPhase::Finished;
        CommitAction::Refused(index)
    }

    fn change(&mut self, event: CommitEvent) -> (r: CommitAction)
        requires
            old(self)@.done < old(self)@.operations.len(),
        ensures
            (final(self)@, r@) == old(self)@.after_change(event@),
            final(self)@.sound(),
    {
        match event {
            CommitEvent::Done => self.pass(),
            _ => self.refuse(),
        }
    }

    /// What the caller has to do next, given what the last action came to.
    pub fn step(&mut self, event: CommitEvent) -> (r: CommitAction)
        requires
            old(self)@.sound(),
            old(self)@.expects(event@),
        ensures
            (final(self)@, r@) == old(self)@.next(event@),
            final(self)@.sound(),
    {
        if self.phase == CommitPhase::Start {
            return self.open();
        }
        assert(self@.operation() == self.operations@[self.done as int]@);
        match &self.operations[self.done] {
            CanonicalOperation::Text { index, path, before_digest, after_digest, .. } => match event {
                CommitEvent::Bytes(bytes) => if self.phase == CommitPhase::ReadingText {
                    let place: NativePath = staged_text_path(&self.artifact_directory, *index);
                    self.current = bytes;
                    self.phase = CommitPhase::ReadingStaged;
                    CommitAction::ReadStaged(place)
                } else {
                    let problem: Option<String> = check_text_commit(
                        &self.current,
                        before_digest.as_str(),
                        &bytes,
                        after_digest.as_str(),
                    );
                    if problem.is_none() {
                        let path: NativePath = path.duplicate();
                        self.phase = CommitPhase::Writing;
                        CommitAction::WriteText { path, bytes }
                    } else {
                        self.refuse()
                    }
                },
                _ => self.change(event),
            },
            CanonicalOperation::Create { path, overwrite, ignore_if_exists, .. } => match event {
                CommitEvent::Exists(exists) => match create_step(exists, *overwrite, *ignore_if_exists) {
                    CreateStep::CreateNew => {
                        let path: NativePath = path.duplicate();
                        self.phase = CommitPhase::Making;
                        CommitAction::Create(path)
                    },
                    CreateStep::Truncate => {
                        let path: NativePath = path.duplicate();
                        self.phase = CommitPhase::Making;
                        CommitAction::Truncate(path)
                    },
                    CreateStep::Skip => self.pass(),
                    CreateStep::Refuse => self.refuse(),
                },
                _ => self.change(event),
            },
            CanonicalOperation::Rename { index, old_path, new_path, overwrite, ignore_if_exists, .. } => {
                let from: NativePath = old_path.duplicate();
                let to: NativePath = new_path.duplicate();
                match event {
                    CommitEvent::Exists(exists) => match rename_step(exists, *overwrite, *ignore_if_exists) {
                        RenameStep::SetAsideAndMove => {
                            let aside: NativePath = undo_resource_path(&self.artifact_directory, *index);
                            self.phase = CommitPhase::SettingAside;
                            CommitAction::Move { from: to, to: aside }
                        },
                        RenameStep::Move => {
                            self.phase = CommitPhase::Moving;
                            CommitAction::Move { from, to }
                        },
                        RenameStep::Skip => self.pass(),
                        RenameStep::Refuse => self.refuse(),
                    },
                    CommitEvent::Done => if self.phase == CommitPhase::SettingAside {
                        self.phase = CommitPhase::Moving;
                        CommitAction::Move { from, to }
                    } else {
                        self.pass()
                    },
                    _ => self.refuse(),
                }
            },
            CanonicalOperation::Delete { index, path, recursive, ignore_if_not_exists, .. } => match event {
                CommitEvent::Entry { exists, directory, has_children } => match delete_step(
                    exists,
                    directory,
                    has_children,
                    *recursive,
                    *ignore_if_not_exists,
                ) {
                    DeleteStep::SetAside => {
                        let from: NativePath = path.duplicate();
                        let to: NativePath = undo_resource_path(&self.artifact_directory, *index);
                        self.phase = CommitPhase::Deleting;
                        CommitAction::Move { from, to }
                    },
                    DeleteStep::Skip => self.pass(),
                    DeleteStep::RefuseMissing | DeleteStep::RefuseNotEmpty => self.refuse(),
                },
                _ => self.change(event),
            },
        }
    }
}

/// A commit carries its operations out in their order: each step leaves as many
/// or one more carried out, it is done when all are, and it ends early only at
/// the operation that it names.
pub proof fn law_commit_keeps_the_order(c: CommitView, e: CommitEventView)
    requires
        c.sound(),
        c.expects(e),
    ensures
        c.next(e).0.sound(),
        c.next(e).0.operations == c.operations,
        c.done <= c.next(e).0.done <= c.done + 1,
        c.next(e).1 is Committed ==> c.next(e).0.done == c.operations.len(),
        c.next(e).1 matches CommitActionView::Refused(index) ==> c.next(e).0.done == c.done && index
            == operation_index(c.operation()),
{
}

/// A text is written only where the text stands that the plan was made for, and
/// only the text that the plan intends.
pub proof fn law_commit_writes_the_intended_text(c: CommitView, e: CommitEventView, path: PathView, bytes: Seq<u8>)
    requires
        c.sound(),
        c.expects(e),
        c.next(e).1 == (CommitActionView::WriteText { path, bytes }),
    ensures
        c.operation() is Text,
        c.operation()->Text_path == path,
        digest_text(c.current) == c.operation()->Text_before_digest,
        digest_text(bytes) == c.operation()->Text_after_digest,
{
}

/// Nothing is overwritten by moving: what stands at the destination of a
/// renaming is set aside first, or the renaming is left out or refused.
pub proof fn law_commit_moves_to_free_places(c: CommitView, exists: bool)
    requires
        c.sound(),
        c.phase == CommitPhase::LookingAtDestination,
        exists,
    ensures
        c.next(CommitEventView::Exists(exists)).1 matches CommitActionView::Move { from, to } ==> from
            == c.operation()->Rename_new_path && to == undo_place(c.artifacts, operation_index(c.operation())),
{
}

} // verus!
