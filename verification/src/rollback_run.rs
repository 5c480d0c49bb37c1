//! Undoing an application: its operations in reverse order, then the files
//! that are filled from their backups, then the check of what stands.
//!
//! The caller carries out one action at a time and hands back what it came to.

use vstd::prelude::*;

use crate::checks::{manifest_for_path, mismatches, recorded, same_identity, same_resource_identity};
use crate::manifest::{ManifestEntry, ManifestView, PathView, missing_at, missing_manifest};
use crate::order::Key;
use crate::path::NativePath;
use crate::plan::{CanonicalOperation, OperationView};
use crate::records::{TransactionRecord, TransactionView};
use crate::rollback::{
    Restoration,
    RestorationView,
    check_restored,
    delete_undone,
    destination_undone,
    plan_restoration,
    rename_undone,
    restoration_of,
    undo_create,
    undo_delete,
    undo_rename_destination,
    undo_rename_source,
};
use crate::staging::{alias_views, undo_place, undo_resource_path};
use crate::text::{concat, views};

verus! {

/// What a rollback waits for.
#[derive(Clone, Copy, Debug, PartialEq, Eq, Structural)]
pub enum RollbackPhase {
    Start,
    LookingAtCreated,
    Removing,
    LookingAtOld,
    LookingAtNew,
    MovingBack,
    LookingAside,
    LookingAtDestination,
    PuttingBack,
    LookingAtDeleted,
    LookingAtDeletedAside,
    PuttingBackDeleted,
    Inspecting,
    Clearing,
    Filling,
    Checking,
    Finished,
}

/// What an action of a rollback came to.
pub enum RollbackEvent {
    Begin,
    Done,
    /// Why the action failed.
    Failed(String),
    /// What stands at a path.
    Entry(ManifestEntry),
    Manifest(Vec<ManifestEntry>),
    /// What is wrong with the resources of the transaction.
    Unsupported(String),
}

/// What a [`RollbackEvent`] stands for.
pub ghost enum RollbackEventView {
    Begin,
    Done,
    Failed(Seq<char>),
    Entry(ManifestView),
    Manifest(Seq<ManifestView>),
    Unsupported(Seq<char>),
}

impl View for RollbackEvent {
    type V = RollbackEventView;

    open spec fn view(&self) -> RollbackEventView {
        match self {
            RollbackEvent::Begin => RollbackEventView::Begin,
            RollbackEvent::Done => RollbackEventView::Done,
            RollbackEvent::Failed(reason) => RollbackEventView::Failed(reason@),
            RollbackEvent::Entry(entry) => RollbackEventView::Entry(entry@),
            RollbackEvent::Manifest(list) => RollbackEventView::Manifest(views(list@)),
            RollbackEvent::Unsupported(problems) => RollbackEventView::Unsupported(problems@),
        }
    }
}

/// What the caller has to do next.
pub enum RollbackAction {
    /// Read what stands at a path.
    Inspect(NativePath),
    Remove(NativePath),
    Move { from: NativePath, to: NativePath },
    /// Read back everything that the transaction speaks of.
    InspectTransaction,
    /// Remove what stands at a path, where something does.
    Clear(NativePath),
    /// Fill a file from its backup.
    Fill { backup: NativePath, destination: NativePath },
    Restored(Vec<ManifestEntry>),
    Stuck(String),
}

/// What a [`RollbackAction`] stands for.
pub ghost enum RollbackActionView {
    Inspect(PathView),
    Remove(PathView),
    Move { from: PathView, to: PathView },
    InspectTransaction,
    Clear(PathView),
    Fill { backup: PathView, destination: PathView },
    Restored(Seq<ManifestView>),
    Stuck(Seq<char>),
}

impl View for RollbackAction {
    type V = RollbackActionView;

    open spec fn view(&self) -> RollbackActionView {
        match self {
            RollbackAction::Inspect(path) => RollbackActionView::Inspect(path@),
            RollbackAction::Remove(path) => RollbackActionView::Remove(path@),
            RollbackAction::Move { from, to } => RollbackActionView::Move { from: from@, to: to@ },
            RollbackAction::InspectTransaction => RollbackActionView::InspectTransaction,
            RollbackAction::Clear(path) => RollbackActionView::Clear(path@),
            RollbackAction::Fill { backup, destination } => RollbackActionView::Fill {
                backup: backup@,
                destination: destination@,
            },
            RollbackAction::Restored(list) => RollbackActionView::Restored(views(list@)),
            RollbackAction::Stuck(reason) => RollbackActionView::Stuck(reason@),
        }
    }
}

/// A rollback under way.
pub struct Rollback {
    pub transaction: TransactionRecord,
    /// How many operations are still to be undone.
    pub left: usize,
    pub phase: RollbackPhase,
    /// What was seen last at the path of the operation.
    pub seen: ManifestEntry,
    pub restoration: Restoration,
    /// How many steps of the restoration are done.
    pub done: usize,
}

/// What a [`Rollback`] stands for.
#[verifier::ext_equal]
pub ghost struct RollbackView {
    pub transaction: TransactionView,
    pub left: nat,
    pub phase: RollbackPhase,
    pub seen: ManifestView,
    pub restoration: RestorationView,
    pub done: nat,
}

impl View for Rollback {
    type V = RollbackView;

    open spec fn view(&self) -> RollbackView {
        RollbackView {
            transaction: self.transaction@,
            left: self.left as nat,
            phase: self.phase,
            seen: self.seen@,
            restoration: self.restoration@,
            done: self.done as nat,
        }
    }
}

/// Why a path cannot be undone of which nothing is known.
pub open spec fn unrecorded() -> Seq<char> {
    "A rollback manifest path is missing."@
}

impl RollbackView {
    /// The operation that is undone.
    pub open spec fn operation(self) -> OperationView {
        self.transaction.operations[self.left - 1]
    }

    /// What stood at a path before the application.
    pub open spec fn before(self, path: PathView) -> Option<ManifestView> {
        recorded(self.transaction.before_manifest, path)
    }

    /// Whether the operation is a creation of something recorded.
    pub open spec fn creating(self) -> bool {
        &&& 0 < self.left <= self.transaction.operations.len()
        &&& self.operation() is Create
        &&& self.before(self.operation()->Create_path) is Some
    }

    /// Whether the operation is a renaming from somewhere recorded.
    pub open spec fn renaming(self) -> bool {
        &&& 0 < self.left <= self.transaction.operations.len()
        &&& self.operation() is Rename
        &&& self.before(self.operation()->old_path) is Some
    }

    /// Whether the operation is a renaming to somewhere recorded.
    pub open spec fn arriving(self) -> bool {
        &&& self.renaming()
        &&& self.before(self.operation()->new_path) is Some
    }

    /// Whether the operation is a deletion of something recorded.
    pub open spec fn deleting(self) -> bool {
        &&& 0 < self.left <= self.transaction.operations.len()
        &&& self.operation() is Delete
        &&& self.before(self.operation()->Delete_path) is Some
    }

    /// Whether a rollback waits for what belongs to its operation.
    pub open spec fn sound(self) -> bool {
        match self.phase {
            RollbackPhase::Start => self.left == self.transaction.operations.len(),
            RollbackPhase::LookingAtCreated | RollbackPhase::Removing => self.creating(),
            RollbackPhase::LookingAtOld | RollbackPhase::LookingAtNew | RollbackPhase::MovingBack => self.renaming(),
            RollbackPhase::LookingAside | RollbackPhase::LookingAtDestination
            | RollbackPhase::PuttingBack => self.arriving(),
            RollbackPhase::LookingAtDeleted | RollbackPhase::LookingAtDeletedAside
            | RollbackPhase::PuttingBackDeleted => self.deleting(),
            RollbackPhase::Inspecting | RollbackPhase::Checking => self.left == 0,
            RollbackPhase::Clearing => self.left == 0 && self.done < self.restoration.remove.len(),
            RollbackPhase::Filling => self.left == 0 && self.done < self.restoration.restore.len(),
            RollbackPhase::Finished => self.left <= self.transaction.operations.len(),
        }
    }

    /// Whether what an action came to is what the rollback waits for.
    pub open spec fn expects(self, e: RollbackEventView) -> bool {
        match self.phase {
            RollbackPhase::Start => e is Begin,
            RollbackPhase::LookingAtCreated | RollbackPhase::LookingAtOld | RollbackPhase::LookingAtNew
            | RollbackPhase::LookingAside | RollbackPhase::LookingAtDestination | RollbackPhase::LookingAtDeleted
            | RollbackPhase::LookingAtDeletedAside => e is Entry || e is Failed,
            RollbackPhase::Removing | RollbackPhase::MovingBack | RollbackPhase::PuttingBack
            | RollbackPhase::PuttingBackDeleted | RollbackPhase::Clearing
            | RollbackPhase::Filling => e is Done || e is Failed,
            RollbackPhase::Inspecting | RollbackPhase::Checking => e is Manifest || e is Unsupported,
            RollbackPhase::Finished => false,
        }
    }

    /// The rollback in another phase.
    pub open spec fn in_phase(self, phase: RollbackPhase) -> RollbackView {
        RollbackView { phase, ..self }
    }

    /// The rollback cannot go on.
    pub open spec fn stuck(self, reason: Seq<char>) -> (RollbackView, RollbackActionView) {
        (self.in_phase(RollbackPhase::Finished), RollbackActionView::Stuck(reason))
    }

    /// Looks at a path in another phase, where something is known of it.
    pub open spec fn looking(self, phase: RollbackPhase, path: PathView) -> (RollbackView, RollbackActionView) {
        if self.before(path) is None {
            self.stuck(unrecorded())
        } else {
            (self.in_phase(phase), RollbackActionView::Inspect(path))
        }
    }

    /// The first step of undoing the operation that comes next.
    pub open spec fn opened(self) -> (RollbackView, RollbackActionView)
        decreases self.left,
    {
        if self.left == 0 {
            (self.in_phase(RollbackPhase::Inspecting), RollbackActionView::InspectTransaction)
        } else {
            match self.operation() {
                OperationView::Text { .. } => (RollbackView { left: (self.left - 1) as nat, ..self }).opened(),
                OperationView::Create { path, .. } => self.looking(RollbackPhase::LookingAtCreated, path),
                OperationView::Rename { old_path, .. } => self.looking(RollbackPhase::LookingAtOld, old_path),
                OperationView::Delete { path, .. } => self.looking(RollbackPhase::LookingAtDeleted, path),
            }
        }
    }

    /// The operation is undone.
    pub open spec fn passed(self) -> (RollbackView, RollbackActionView) {
        (RollbackView { left: (self.left - 1) as nat, ..self }).opened()
    }

    /// The place where an operation puts what it takes away.
    pub open spec fn aside(self, index: u64) -> PathView {
        undo_place(self.transaction.artifact_directory, index)
    }

    /// The second half of undoing a renaming: what stood at its destination.
    pub open spec fn at_destination(self, index: u64, new_path: PathView) -> (RollbackView, RollbackActionView) {
        if self.before(new_path) is None {
            self.stuck(unrecorded())
        } else {
            (self.in_phase(RollbackPhase::LookingAside), RollbackActionView::Inspect(self.aside(index)))
        }
    }

    /// What comes next of undoing a creation.
    pub open spec fn create_next(self, e: RollbackEventView, path: PathView) -> (RollbackView, RollbackActionView) {
        match e {
            RollbackEventView::Failed(reason) => self.stuck(reason),
            RollbackEventView::Entry(actual) => if !self.before(path)->0.exists && actual.exists {
                (self.in_phase(RollbackPhase::Removing), RollbackActionView::Remove(path))
            } else {
                self.passed()
            },
            _ => self.passed(),
        }
    }

    /// What comes next of undoing a renaming.
    pub open spec fn rename_next(
        self,
        e: RollbackEventView,
        index: u64,
        old_path: PathView,
        new_path: PathView,
    ) -> (RollbackView, RollbackActionView) {
        match e {
            RollbackEventView::Failed(reason) => self.stuck(reason),
            RollbackEventView::Entry(found) => if self.phase == RollbackPhase::LookingAtOld {
                if !found.exists {
                    (
                        RollbackView { phase: RollbackPhase::LookingAtNew, seen: found, ..self },
                        RollbackActionView::Inspect(new_path),
                    )
                } else {
                    match rename_undone(self.before(old_path)->0, found, found) {
                        Err(reason) => self.stuck(reason),
                        Ok(_) => self.at_destination(index, new_path),
                    }
                }
            } else if self.phase == RollbackPhase::LookingAtNew {
                match rename_undone(self.before(old_path)->0, self.seen, found) {
                    Err(reason) => self.stuck(reason),
                    Ok(moved) => if moved {
                        (
                            self.in_phase(RollbackPhase::MovingBack),
                            RollbackActionView::Move { from: new_path, to: old_path },
                        )
                    } else {
                        self.at_destination(index, new_path)
                    },
                }
            } else if self.phase == RollbackPhase::LookingAside {
                if found.exists && self.before(new_path)->0.exists && !same_identity(
                    self.before(new_path)->0,
                    found,
                ) {
                    self.stuck("The overwritten rename destination changed in staging."@)
                } else {
                    (
                        RollbackView { phase: RollbackPhase::LookingAtDestination, seen: found, ..self },
                        RollbackActionView::Inspect(new_path),
                    )
                }
            } else {
                match destination_undone(self.before(new_path)->0, self.seen, found) {
                    Err(reason) => self.stuck(reason),
                    Ok(moved) => if moved {
                        (
                            self.in_phase(RollbackPhase::PuttingBack),
                            RollbackActionView::Move { from: self.aside(index), to: new_path },
                        )
                    } else {
                        self.passed()
                    },
                }
            },
            _ => if self.phase == RollbackPhase::MovingBack {
                self.at_destination(index, new_path)
            } else {
                self.passed()
            },
        }
    }

    /// What comes next of undoing a deletion.
    pub open spec fn delete_next(self, e: RollbackEventView, index: u64, path: PathView) -> (
        RollbackView,
        RollbackActionView,
    ) {
        match e {
            RollbackEventView::Failed(reason) => self.stuck(reason),
            RollbackEventView::Entry(found) => if self.phase == RollbackPhase::LookingAtDeleted {
                (
                    RollbackView { phase: RollbackPhase::LookingAtDeletedAside, seen: found, ..self },
                    RollbackActionView::Inspect(self.aside(index)),
                )
            } else {
                match delete_undone(self.before(path)->0, self.seen, found) {
                    Err(reason) => self.stuck(reason),
                    Ok(moved) => if moved {
                        (
                            self.in_phase(RollbackPhase::PuttingBackDeleted),
                            RollbackActionView::Move { from: self.aside(index), to: path },
                        )
                    } else {
                        self.passed()
                    },
                }
            },
            _ => self.passed(),
        }
    }

    /// The next file that is filled from its backup.
    pub open spec fn filling(self) -> (RollbackView, RollbackActionView) {
        if self.done < self.restoration.restore.len() {
            (
                self.in_phase(RollbackPhase::Filling),
                RollbackActionView::Fill {
                    backup: self.restoration.restore[self.done as int].0,
                    destination: self.restoration.restore[self.done as int].1,
                },
            )
        } else {
            (self.in_phase(RollbackPhase::Checking), RollbackActionView::InspectTransaction)
        }
    }

    /// The next resource that is removed.
    pub open spec fn clearing(self) -> (RollbackView, RollbackActionView) {
        if self.done < self.restoration.remove.len() {
            (
                self.in_phase(RollbackPhase::Clearing),
                RollbackActionView::Clear(self.restoration.remove[self.done as int]),
            )
        } else {
            RollbackView { done: 0, ..self }.filling()
        }
    }

    /// What comes next once the operations are undone.
    pub open spec fn restoring_next(self, e: RollbackEventView) -> (RollbackView, RollbackActionView) {
        match e {
            RollbackEventView::Failed(reason) => self.stuck(reason),
            RollbackEventView::Manifest(current) => if self.phase == RollbackPhase::Inspecting {
                match restoration_of(self.transaction.before_manifest, current, self.transaction.backups) {
                    Err(reason) => self.stuck(reason),
                    Ok(restoration) => RollbackView { restoration, done: 0, ..self }.clearing(),
                }
            } else if mismatches(self.transaction.before_manifest, current).len() == 0 {
                (self.in_phase(RollbackPhase::Finished), RollbackActionView::Restored(current))
            } else {
                self.stuck("The rollback manifest does not match its preconditions."@)
            },
            RollbackEventView::Unsupported(problems) => if self.phase == RollbackPhase::Inspecting {
                self.stuck("The partial filesystem is unsafe for automatic rollback: "@ + problems)
            } else {
                self.stuck("The restored filesystem cannot be inspected."@)
            },
            _ => if self.phase == RollbackPhase::Clearing {
                RollbackView { done: self.done + 1, ..self }.clearing()
            } else {
                RollbackView { done: self.done + 1, ..self }.filling()
            },
        }
    }

    /// The rollback after an action came to something, and what comes next.
    pub open spec fn next(self, e: RollbackEventView) -> (RollbackView, RollbackActionView) {
        if self.phase == RollbackPhase::Start {
            self.opened()
        } else if self.left == 0 {
            self.restoring_next(e)
        } else {
            match self.operation() {
                OperationView::Create { path, .. } => self.create_next(e, path),
                OperationView::Rename { index, old_path, new_path, .. } => self.rename_next(
                    e,
                    index,
                    old_path,
                    new_path,
                ),
                OperationView::Delete { index, path, .. } => self.delete_next(e, index, path),
                OperationView::Text { .. } => self.passed(),
            }
        }
    }
}

impl Rollback {
    /// A rollback of a transaction.
    pub fn new(transaction: TransactionRecord) -> (r: Rollback)
        ensures
            r@ == (RollbackView {
                transaction: transaction@,
                left: transaction@.operations.len(),
                phase: RollbackPhase::Start,
                seen: missing_at(transaction@.workspace_path),
                restoration: RestorationView { restore: Seq::empty(), remove: Seq::empty() },
                done: 0,
            }),
            r@.sound(),
    {
        let left: usize = transaction.operations.len();
        let seen: ManifestEntry = missing_manifest(&transaction.workspace_path);
        let restoration = Restoration { restore: Vec::new(), remove: Vec::new() };
        assert(alias_views(restoration.restore@) =~= Seq::<(PathView, PathView)>::empty());
        assert(views(restoration.remove@) =~= Seq::<PathView>::empty());
        Rollback { transaction, left, phase: RollbackPhase::Start, seen, restoration, done: 0 }
    }

    fn fail(&mut self, reason: String) -> (r: RollbackAction)
        requires
            old(self)@.left <= old(self)@.transaction.operations.len(),
        ensures
            (final(self)@, r@) == old(self)@.stuck(reason@),
            final(self)@.sound(),
    {
        self.phase = RollbackPhase::Finished;
        RollbackAction::Stuck(reason)
    }

    fn look(&mut self, phase: RollbackPhase, path: NativePath) -> (r: RollbackAction)
        requires
            old(self)@.left <= old(self)@.transaction.operations.len(),
            old(self)@.before(path@) is Some ==> old(self)@.in_phase(phase).sound(),
        ensures
            (final(self)@, r@) == old(self)@.looking(phase, path@),
            final(self)@.sound(),
    {
        match manifest_for_path(&self.transaction.before_manifest, &path) {
            Err(reason) => self.fail(reason),
            Ok(_) => {
                self.phase = phase;
                RollbackAction::Inspect(path)
            },
        }
    }

    fn open(&mut self) -> (r: RollbackAction)
        requires
            old(self)@.left <= old(self)@.transaction.operations.len(),
        ensures
            (final(self)@, r@) == old(self)@.opened(),
            final(self)@.sound(),
        decreases old(self).left,
    {
        if self.left == 0 {
            self.phase = RollbackPhase::Inspecting;
            return RollbackAction::InspectTransaction;
        }
        let at: usize = self.left - 1;
        assert(self@.operation() == self.transaction.operations@[at as int]@);
        match &self.transaction.operations[at] {
            CanonicalOperation::Text { .. } => {
                self.left = at;
                self.open()
            },
            CanonicalOperation::Create { path, .. } => {
                let path: NativePath = path.duplicate();
                self.look(RollbackPhase::LookingAtCreated, path)
            },
            CanonicalOperation::Rename { old_path, .. } => {
                let path: NativePath = old_path.duplicate();
                self.look(RollbackPhase::LookingAtOld, path)
            },
            CanonicalOperation::Delete { path, .. } => {
                let path: NativePath = path.duplicate();
                self.look(RollbackPhase::LookingAtDeleted, path)
            },
        }
    }

    fn pass(&mut self) -> (r: RollbackAction)
        requires
            0 < old(self)@.left <= old(self)@.transaction.operations.len(),
        ensures
            (final(self)@, r@) == old(self)@.passed(),
            final(self)@.sound(),
    {
        self.left = self.left - 1;
        self.open()
    }

    fn look_aside(&mut self, index: u64, new_path: &NativePath) -> (r: RollbackAction)
        requires
            old(self)@.renaming(),
            old(self)@.operation()->new_path == new_path@,
        ensures
            (final(self)@, r@) == old(self)@.at_destination(index, new_path@),
            final(self)@.sound(),
    {
        match manifest_for_path(&self.transaction.before_manifest, new_path) {
            Err(reason) => self.fail(reason),
            Ok(_) => {
                let place: NativePath = undo_resource_path(&self.transaction.artifact_directory, index);
                self.phase = RollbackPhase::LookingAside;
                RollbackAction::Inspect(place)
            },
        }
    }

    /// What stood at a path of which something is known.
    fn stood(&self, path: &NativePath) -> (r: ManifestEntry)
        requires
            self@.before(path@) is Some,
        ensures
            self@.before(path@) == Some(r@),
    {
        match manifest_for_path(&self.transaction.before_manifest, path) {
            Ok(entry) => entry.copy(),
            Err(_) => missing_manifest(path),
        }
    }

    fn step_create(&mut self, event: RollbackEvent, path: NativePath) -> (r: RollbackAction)
        requires
            old(self)@.creating(),
            old(self)@.operation()->Create_path == path@,
        ensures
            (final(self)@, r@) == old(self)@.create_next(event@, path@),
            final(self)@.sound(),
    {
        match event {
            RollbackEvent::Failed(reason) => self.fail(reason),
            RollbackEvent::Entry(actual) => {
                let expected: ManifestEntry = self.stood(&path);
                if undo_create(&expected, &actual) {
                    self.phase = RollbackPhase::Removing;
                    RollbackAction::Remove(path)
                } else {
                    self.pass()
                }
            },
            _ => self.pass(),
        }
    }

    fn step_rename(&mut self, event: RollbackEvent, index: u64, old_path: NativePath, new_path: NativePath) -> (r:
        RollbackAction)
        requires
            old(self)@.sound(),
            old(self)@.expects(event@),
            old(self)@.left > 0,
            old(self)@.renaming(),
            old(self)@.phase != RollbackPhase::Start,
            old(self)@.operation()->old_path == old_path@,
            old(self)@.operation()->new_path == new_path@,
        ensures
            (final(self)@, r@) == old(self)@.rename_next(event@, index, old_path@, new_path@),
            final(self)@.sound(),
    {
        match event {
            RollbackEvent::Failed(reason) => self.fail(reason),
            RollbackEvent::Entry(found) => if self.phase == RollbackPhase::LookingAtOld {
                if !found.exists {
                    self.seen = found;
                    self.phase = RollbackPhase::LookingAtNew;
                    return RollbackAction::Inspect(new_path);
                }
                let expected: ManifestEntry = self.stood(&old_path);
                match undo_rename_source(&expected, &found, &found) {
                    Err(reason) => self.fail(reason),
                    Ok(_) => self.look_aside(index, &new_path),
                }
            } else if self.phase == RollbackPhase::LookingAtNew {
                let expected: ManifestEntry = self.stood(&old_path);
                match undo_rename_source(&expected, &self.seen, &found) {
                    Err(reason) => self.fail(reason),
                    Ok(moved) => if moved {
                        self.phase = RollbackPhase::MovingBack;
                        RollbackAction::Move { from: new_path, to: old_path }
                    } else {
                        self.look_aside(index, &new_path)
                    },
                }
            } else if self.phase == RollbackPhase::LookingAside {
                let expected: ManifestEntry = self.stood(&new_path);
                if found.exists && expected.exists && !same_resource_identity(&expected, &found) {
                    return self.fail("The overwritten rename destination changed in staging.".to_owned());
                }
                self.seen = found;
                self.phase = RollbackPhase::LookingAtDestination;
                RollbackAction::Inspect(new_path)
            } else {
                let expected: ManifestEntry = self.stood(&new_path);
                match undo_rename_destination(&expected, &self.seen, &found) {
                    Err(reason) => self.fail(reason),
                    Ok(moved) => if moved {
                        let from: NativePath = undo_resource_path(&self.transaction.artifact_directory, index);
                        self.phase = RollbackPhase::PuttingBack;
                        RollbackAction::Move { from, to: new_path }
                    } else {
                        self.pass()
                    },
                }
            },
            _ => if self.phase == RollbackPhase::MovingBack {
                self.look_aside(index, &new_path)
            } else {
                self.pass()
            },
        }
    }

    fn step_delete(&mut self, event: RollbackEvent, index: u64, path: NativePath) -> (r: RollbackAction)
        requires
            old(self)@.deleting(),
            old(self)@.operation()->Delete_path == path@,
        ensures
            (final(self)@, r@) == old(self)@.delete_next(event@, index, path@),
            final(self)@.sound(),
    {
        match event {
            RollbackEvent::Failed(reason) => self.fail(reason),
            RollbackEvent::Entry(found) => if self.phase == RollbackPhase::LookingAtDeleted {
                let place: NativePath = undo_resource_path(&self.transaction.artifact_directory, index);
                self.seen = found;
                self.phase = RollbackPhase::LookingAtDeletedAside;
                RollbackAction::Inspect(place)
            } else {
                let expected: ManifestEntry = self.stood(&path);
                match undo_delete(&expected, &self.seen, &found) {
                    Err(reason) => self.fail(reason),
                    Ok(moved) => if moved {
                        let from: NativePath = undo_resource_path(&self.transaction.artifact_directory, index);
                        self.phase = RollbackPhase::PuttingBackDeleted;
                        RollbackAction::Move { from, to: path }
                    } else {
                        self.pass()
                    },
                }
            },
            _ => self.pass(),
        }
    }

    fn fill(&mut self) -> (r: RollbackAction)
        requires
            old(self)@.left == 0,
        ensures
            (final(self)@, r@) == old(self)@.filling(),
            final(self)@.sound(),
    {
        assert(self@.restoration.restore.len() == self.restoration.restore@.len());
        if self.done < self.restoration.restore.len() {
            assert(self@.restoration.restore[self.done as int] == (
                self.restoration.restore@[self.done as int].0@,
                self.restoration.restore@[self.done as int].1@,
            ));
            let backup: NativePath = self.restoration.restore[self.done].0.duplicate();
            let destination: NativePath = self.restoration.restore[self.done].1.duplicate();
            self.phase = RollbackPhase::Filling;
            RollbackAction::Fill { backup, destination }
        } else {
            self.phase = RollbackPhase::Checking;
            RollbackAction::InspectTransaction
        }
    }

    fn clear(&mut self) -> (r: RollbackAction)
        requires
            old(self)@.left == 0,
        ensures
            (final(self)@, r@) == old(self)@.clearing(),
            final(self)@.sound(),
    {
        if self.done < self.restoration.remove.len() {
            assert(self@.restoration.remove[self.done as int] == self.restoration.remove@[self.done as int]@);
            let path: NativePath = self.restoration.remove[self.done].duplicate();
            self.phase = RollbackPhase::Clearing;
            RollbackAction::Clear(path)
        } else {
            self.done = 0;
            self.fill()
        }
    }

    fn step_restoring(&mut self, event: RollbackEvent) -> (r: RollbackAction)
        requires
            old(self)@.sound(),
            old(self)@.expects(event@),
            old(self)@.left == 0,
            old(self)@.phase != RollbackPhase::Start,
        ensures
            (final(self)@, r@) == old(self)@.restoring_next(event@),
            final(self)@.sound(),
    {
        match event {
            RollbackEvent::Failed(reason) => self.fail(reason),
            RollbackEvent::Manifest(current) => if self.phase == RollbackPhase::Inspecting {
                match plan_restoration(&self.transaction.before_manifest, &current, &self.transaction.backups) {
                    Err(reason) => self.fail(reason),
                    Ok(restoration) => {
                        self.restoration = restoration;
                        self.done = 0;
                        self.clear()
                    },
                }
            } else {
                match check_restored(&self.transaction.before_manifest, &current) {
                    Ok(_) => {
                        self.phase = RollbackPhase::Finished;
                        RollbackAction::Restored(current)
                    },
                    Err(reason) => self.fail(reason),
                }
            },
            RollbackEvent::Unsupported(problems) => if self.phase == RollbackPhase::Inspecting {
                self.fail(concat("The partial filesystem is unsafe for automatic rollback: ", problems.as_str()))
            } else {
                self.fail("The restored filesystem cannot be inspected.".to_owned())
            },
            _ => {
                assert(alias_views(self.restoration.restore@).len() == self.restoration.restore@.len());
                let removals: usize = self.restoration.remove.len();
                let fillings: usize = self.restoration.restore.len();
                assert(self.done < removals || self.done < fillings);
                self.done = self.done + 1;
                if self.phase == RollbackPhase::Clearing {
                    self.clear()
                } else {
                    self.fill()
                }
            },
        }
    }

    /// What the caller has to do next, given what the last action came to.
    pub fn step(&mut self, event: RollbackEvent) -> (r: RollbackAction)
        requires
            old(self)@.sound(),
            old(self)@.expects(event@),
        ensures
            (final(self)@, r@) == old(self)@.next(event@),
            final(self)@.sound(),
    {
        if self.phase == RollbackPhase::Start {
            return self.open();
        }
        if self.left == 0 {
            return self.step_restoring(event);
        }
        let at: usize = self.left - 1;
        assert(self@.operation() == self.transaction.operations@[at as int]@);
        match &self.transaction.operations[at] {
            CanonicalOperation::Create { path, .. } => {
                let path: NativePath = path.duplicate();
                self.step_create(event, path)
            },
            CanonicalOperation::Rename { index, old_path, new_path, .. } => {
                let index: u64 = *index;
                let old_path: NativePath = old_path.duplicate();
                let new_path: NativePath = new_path.duplicate();
                self.step_rename(event, index, old_path, new_path)
            },
            CanonicalOperation::Delete { index, path, .. } => {
                let index: u64 = *index;
                let path: NativePath = path.duplicate();
                self.step_delete(event, index, path)
            },
            CanonicalOperation::Text { .. } => self.pass(),
        }
    }
}

proof fn lemma_opening_goes_down(c: RollbackView)
    requires
        c.left <= c.transaction.operations.len(),
    ensures
        c.opened().0.left <= c.left,
        c.opened().0.transaction == c.transaction,
        c.opened().0.sound(),
        !(c.opened().1 is Restored),
    decreases c.left,
{
    if c.left > 0 && c.operation() is Text {
        lemma_opening_goes_down(RollbackView { left: (c.left - 1) as nat, ..c });
    }
}

/// A rollback undoes the operations from the last to the first: no step leaves
/// more of them to be undone.
pub proof fn law_rollback_goes_backwards(c: RollbackView, e: RollbackEventView)
    requires
        c.sound(),
        c.expects(e),
    ensures
        c.next(e).0.sound(),
        c.next(e).0.transaction == c.transaction,
        c.next(e).0.left <= c.left,
{
    lemma_opening_goes_down(c);
    if c.left > 0 {
        lemma_opening_goes_down(RollbackView { left: (c.left - 1) as nat, ..c });
    }
}

/// What a rollback reports as restored is what stood before the application.
pub proof fn law_restored_is_as_before(c: RollbackView, e: RollbackEventView, restored: Seq<ManifestView>)
    requires
        c.sound(),
        c.expects(e),
        c.next(e).1 == RollbackActionView::Restored(restored),
    ensures
        mismatches(c.transaction.before_manifest, restored).len() == 0,
        c.left == 0,
{
    lemma_opening_goes_down(c);
    if c.left > 0 {
        lemma_opening_goes_down(RollbackView { left: (c.left - 1) as nat, ..c });
    }
}

/// A rollback removes only what the application made: something that stands
/// where nothing stood.
pub proof fn law_rollback_removes_only_what_is_new(c: RollbackView, e: RollbackEventView, path: PathView)
    requires
        c.sound(),
        c.expects(e),
        c.phase == RollbackPhase::LookingAtCreated,
        c.next(e).1 == RollbackActionView::Remove(path),
    ensures
        c.before(path) matches Some(entry) && !entry.exists,
{
    lemma_opening_goes_down(RollbackView { left: (c.left - 1) as nat, ..c });
    lemma_opening_removes_nothing(RollbackView { left: (c.left - 1) as nat, ..c });
}

proof fn lemma_opening_removes_nothing(c: RollbackView)
    requires
        c.left <= c.transaction.operations.len(),
    ensures
        !(c.opened().1 is Remove),
    decreases c.left,
{
    if c.left > 0 && c.operation() is Text {
        lemma_opening_removes_nothing(RollbackView { left: (c.left - 1) as nat, ..c });
    }
}

} // verus!
