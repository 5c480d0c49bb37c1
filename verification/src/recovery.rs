//! Recovering from an application that did not come to its end: which step
//! comes next, given what the last one came to.
//!
//! The caller carries out one action at a time and hands back what it came
//! to. Nothing is restored unless the files are as the journal recorded them
//! and as the caller has seen them.

use vstd::prelude::*;

use crate::checks::{manifest_mismatches, mismatches};
use crate::failure::{ContractFailure, FailureView, result_view};
use crate::json::{Json, JsonView};
use crate::manifest::{ManifestEntry, ManifestView, manifest_digest, manifest_digest_of};
use crate::plan::{ProblemView, WorkspaceEditProblem};
use crate::records::{
    ReceiptRecord,
    ReceiptView,
    StoredPreview,
    StoredPreviewView,
    TransactionRecord,
    TransactionState,
    TransactionView,
};
use crate::recovery_reports::{
    artifacts_failed,
    artifacts_failure,
    cleanup_only_failed,
    cleanup_only_failure,
    conflict_failed,
    conflict_failure,
    digest_mismatch_failed,
    digest_mismatch_failure,
    recovery_receipt,
    recovery_receipt_of,
    recovery_report,
    recovery_report_json,
    restore_failed,
    restore_failure,
};
use crate::reports::{unsupported_failure, unsupported_filesystem_failure};
use crate::text::{opt_view, same, views};
use crate::timing::{LockAttempt, lock_failed, lock_failure};

verus! {

/// How far a recovery has come.
#[derive(Clone, Copy, Debug, PartialEq, Eq, Structural)]
pub enum RecoveryPhase {
    Start,
    Finding,
    Locking,
    Reading,
    Capacity,
    Inspecting,
    RollingBack,
    InspectingRestored,
    Salvaging,
    Naming,
    Linking,
    LookingForPreview,
    Timing,
    Storing,
    Retiring,
    Cleaning,
    Removing,
    Finished,
}

/// What the caller has to do next.
pub enum RecoveryAction {
    ReadTransaction,
    LockWorkspace,
    EnsureReceiptCapacity,
    InspectTransaction,
    Rollback,
    /// Read back as much of what was there before as can be read.
    Salvage,
    NewReceiptId,
    ReadReceipt,
    ReadPreview,
    ReadClock,
    WriteReceipt(ReceiptRecord),
    RetirePreview,
    CleanArtifacts,
    RemoveTransaction,
    Finish(Result<Json, ContractFailure>),
}

/// What a [`RecoveryAction`] stands for.
pub ghost enum RecoveryActionView {
    ReadTransaction,
    LockWorkspace,
    EnsureReceiptCapacity,
    InspectTransaction,
    Rollback,
    Salvage,
    NewReceiptId,
    ReadReceipt,
    ReadPreview,
    ReadClock,
    WriteReceipt(ReceiptView),
    RetirePreview,
    CleanArtifacts,
    RemoveTransaction,
    Finish(Result<JsonView, FailureView>),
}

impl View for RecoveryAction {
    type V = RecoveryActionView;

    open spec fn view(&self) -> RecoveryActionView {
        match self {
            RecoveryAction::ReadTransaction => RecoveryActionView::ReadTransaction,
            RecoveryAction::LockWorkspace => RecoveryActionView::LockWorkspace,
            RecoveryAction::EnsureReceiptCapacity => RecoveryActionView::EnsureReceiptCapacity,
            RecoveryAction::InspectTransaction => RecoveryActionView::InspectTransaction,
            RecoveryAction::Rollback => RecoveryActionView::Rollback,
            RecoveryAction::Salvage => RecoveryActionView::Salvage,
            RecoveryAction::NewReceiptId => RecoveryActionView::NewReceiptId,
            RecoveryAction::ReadReceipt => RecoveryActionView::ReadReceipt,
            RecoveryAction::ReadPreview => RecoveryActionView::ReadPreview,
            RecoveryAction::ReadClock => RecoveryActionView::ReadClock,
            RecoveryAction::WriteReceipt(receipt) => RecoveryActionView::WriteReceipt(receipt@),
            RecoveryAction::RetirePreview => RecoveryActionView::RetirePreview,
            RecoveryAction::CleanArtifacts => RecoveryActionView::CleanArtifacts,
            RecoveryAction::RemoveTransaction => RecoveryActionView::RemoveTransaction,
            RecoveryAction::Finish(r) => RecoveryActionView::Finish(result_view(*r)),
        }
    }
}

/// What an action came to.
pub enum RecoveryEvent {
    Begin,
    Failed(ContractFailure),
    Done,
    Transaction(TransactionRecord),
    Manifest(Vec<ManifestEntry>),
    Unsupported(Vec<WorkspaceEditProblem>),
    RollbackFailed { stage: String, observed: Vec<ManifestEntry> },
    Named(String),
    Receipt(Option<ReceiptRecord>),
    Preview(Option<StoredPreview>),
    Clock { started_at: String, completed_at: String },
    /// What could not be cleaned up.
    CleaningFailed(String),
}

/// What a [`RecoveryEvent`] stands for.
pub ghost enum RecoveryEventView {
    Begin,
    Failed(FailureView),
    Done,
    Transaction(TransactionView),
    Manifest(Seq<ManifestView>),
    Unsupported(Seq<ProblemView>),
    RollbackFailed { stage: Seq<char>, observed: Seq<ManifestView> },
    Named(Seq<char>),
    Receipt(Option<ReceiptView>),
    Preview(Option<StoredPreviewView>),
    Clock { started_at: Seq<char>, completed_at: Seq<char> },
    CleaningFailed(Seq<char>),
}

impl View for RecoveryEvent {
    type V = RecoveryEventView;

    open spec fn view(&self) -> RecoveryEventView {
        match self {
            RecoveryEvent::Begin => RecoveryEventView::Begin,
            RecoveryEvent::Failed(f) => RecoveryEventView::Failed(f@),
            RecoveryEvent::Done => RecoveryEventView::Done,
            RecoveryEvent::Transaction(t) => RecoveryEventView::Transaction(t@),
            RecoveryEvent::Manifest(m) => RecoveryEventView::Manifest(views(m@)),
            RecoveryEvent::Unsupported(p) => RecoveryEventView::Unsupported(views(p@)),
            RecoveryEvent::RollbackFailed { stage, observed } => RecoveryEventView::RollbackFailed {
                stage: stage@,
                observed: views(observed@),
            },
            RecoveryEvent::Named(s) => RecoveryEventView::Named(s@),
            RecoveryEvent::Receipt(r) => RecoveryEventView::Receipt(opt_view(*r)),
            RecoveryEvent::Preview(p) => RecoveryEventView::Preview(opt_view(*p)),
            RecoveryEvent::Clock { started_at, completed_at } => RecoveryEventView::Clock {
                started_at: started_at@,
                completed_at: completed_at@,
            },
            RecoveryEvent::CleaningFailed(s) => RecoveryEventView::CleaningFailed(s@),
        }
    }
}

/// One recovery.
pub struct Recovery {
    pub transaction_id: String,
    /// The digest of the manifest that the caller has seen.
    pub supplied_digest: String,
    /// Whether what stands is accepted in place of being undone.
    pub accept_current: bool,
    pub directories_flush: bool,
    pub phase: RecoveryPhase,
    pub transaction: Option<TransactionRecord>,
    pub final_manifest: Vec<ManifestEntry>,
    pub receipt_id: String,
    pub original: Option<ReceiptRecord>,
    pub pending: Option<StoredPreview>,
}

/// What a [`Recovery`] stands for.
pub ghost struct RecoveryView {
    pub transaction_id: Seq<char>,
    pub supplied_digest: Seq<char>,
    pub accept_current: bool,
    pub directories_flush: bool,
    pub phase: RecoveryPhase,
    pub transaction: Option<TransactionView>,
    pub final_manifest: Seq<ManifestView>,
    pub receipt_id: Seq<char>,
    pub original: Option<ReceiptView>,
    pub pending: Option<StoredPreviewView>,
}

impl View for Recovery {
    type V = RecoveryView;

    open spec fn view(&self) -> RecoveryView {
        RecoveryView {
            transaction_id: self.transaction_id@,
            supplied_digest: self.supplied_digest@,
            accept_current: self.accept_current,
            directories_flush: self.directories_flush,
            phase: self.phase,
            transaction: opt_view(self.transaction),
            final_manifest: views(self.final_manifest@),
            receipt_id: self.receipt_id@,
            original: opt_view(self.original),
            pending: opt_view(self.pending),
        }
    }
}

/// Whether a recovery may go on with a journal, or why it may not.
pub open spec fn admission(
    t: TransactionView,
    transaction_id: Seq<char>,
    supplied_digest: Seq<char>,
    accept_current: bool,
) -> Result<(), FailureView> {
    if t.state == TransactionState::CleanupPending && !accept_current {
        Err(cleanup_only_failed(transaction_id))
    } else if supplied_digest != t.manifest_digest {
        Err(digest_mismatch_failed(transaction_id, t.manifest_digest, supplied_digest))
    } else {
        Ok(())
    }
}

impl RecoveryView {
    /// The recovery in another phase.
    pub open spec fn at(self, phase: RecoveryPhase) -> RecoveryView {
        RecoveryView { phase, ..self }
    }

    /// The end of the recovery.
    pub open spec fn finished(self, result: Result<JsonView, FailureView>) -> (RecoveryView, RecoveryActionView) {
        (self.at(RecoveryPhase::Finished), RecoveryActionView::Finish(result))
    }

    /// The next phase where an action succeeded, and the end where it failed.
    pub open spec fn onward(
        self,
        e: RecoveryEventView,
        phase: RecoveryPhase,
        action: RecoveryActionView,
    ) -> (RecoveryView, RecoveryActionView) {
        match e {
            RecoveryEventView::Failed(f) => self.finished(Err(f)),
            _ => (self.at(phase), action),
        }
    }

    /// Whether an event can follow in the phase.
    pub open spec fn expects(self, e: RecoveryEventView) -> bool {
        match self.phase {
            RecoveryPhase::Start => e is Begin,
            RecoveryPhase::Finding => e is Failed || e is Transaction,
            RecoveryPhase::Locking => e is Failed || e is Done,
            RecoveryPhase::Reading => e is Failed || e is Transaction,
            RecoveryPhase::Capacity => (e is Failed || e is Done) && self.transaction is Some,
            RecoveryPhase::Inspecting => (e is Unsupported || e is Manifest) && self.transaction is Some,
            RecoveryPhase::RollingBack => (e is RollbackFailed || e is Done) && self.transaction is Some,
            RecoveryPhase::InspectingRestored => (e is Unsupported || e is Manifest) && self.transaction is Some,
            RecoveryPhase::Salvaging => e is Manifest && self.transaction is Some,
            RecoveryPhase::Naming => (e is Failed || e is Named) && self.transaction is Some,
            RecoveryPhase::Linking => e is Receipt && self.transaction is Some,
            RecoveryPhase::LookingForPreview => e is Preview && self.transaction is Some,
            RecoveryPhase::Timing => e is Clock && self.transaction is Some,
            RecoveryPhase::Storing => e is Failed || e is Done,
            RecoveryPhase::Retiring => e is Failed || e is Done,
            RecoveryPhase::Cleaning => e is CleaningFailed || e is Done,
            RecoveryPhase::Removing => e is Failed || e is Done,
            RecoveryPhase::Finished => false,
        }
    }

    /// What comes next once the journal is read under the lock.
    pub open spec fn admitted(self, e: RecoveryEventView) -> (RecoveryView, RecoveryActionView) {
        match e {
            RecoveryEventView::Transaction(t) => {
                let next = RecoveryView { transaction: Some(t), ..self };
                match admission(t, self.transaction_id, self.supplied_digest, self.accept_current) {
                    Ok(_) => (next.at(RecoveryPhase::Capacity), RecoveryActionView::EnsureReceiptCapacity),
                    Err(f) => next.finished(Err(f)),
                }
            },
            RecoveryEventView::Failed(f) => self.finished(Err(f)),
            _ => self.finished(Err(cleanup_only_failed(self.transaction_id))),
        }
    }

    /// What comes next once it is known what stands.
    pub open spec fn inspected(self, current: Seq<ManifestView>) -> (RecoveryView, RecoveryActionView) {
        let t = self.transaction->0;
        if manifest_digest_of(current) != t.manifest_digest {
            self.finished(Err(conflict_failed(self.transaction_id, t.observed_manifest, current)))
        } else if self.accept_current {
            (
                RecoveryView { phase: RecoveryPhase::Naming, final_manifest: current, ..self },
                RecoveryActionView::NewReceiptId,
            )
        } else if t.state == TransactionState::Staged && mismatches(t.before_manifest, current).len() == 0 {
            (self.at(RecoveryPhase::InspectingRestored), RecoveryActionView::InspectTransaction)
        } else {
            (self.at(RecoveryPhase::RollingBack), RecoveryActionView::Rollback)
        }
    }

    /// The receipt of the recovery.
    pub open spec fn receipt_at(self, started_at: Seq<char>, completed_at: Seq<char>) -> ReceiptView {
        recovery_receipt_of(
            self.transaction->0,
            self.transaction_id,
            self.receipt_id,
            self.accept_current,
            self.original,
            self.pending,
            self.final_manifest,
            started_at,
            completed_at,
            self.directories_flush,
        )
    }

    /// What comes next before anything is restored.
    pub open spec fn next_checking(self, e: RecoveryEventView) -> (RecoveryView, RecoveryActionView) {
        match self.phase {
            RecoveryPhase::Start => (self.at(RecoveryPhase::Finding), RecoveryActionView::ReadTransaction),
            RecoveryPhase::Finding => match e {
                RecoveryEventView::Transaction(t) => (
                    RecoveryView { phase: RecoveryPhase::Locking, transaction: Some(t), ..self },
                    RecoveryActionView::LockWorkspace,
                ),
                _ => self.onward(e, RecoveryPhase::Locking, RecoveryActionView::LockWorkspace),
            },
            RecoveryPhase::Locking => self.onward(e, RecoveryPhase::Reading, RecoveryActionView::ReadTransaction),
            RecoveryPhase::Reading => self.admitted(e),
            RecoveryPhase::Capacity => self.onward(
                e,
                RecoveryPhase::Inspecting,
                RecoveryActionView::InspectTransaction,
            ),
            _ => match e {
                RecoveryEventView::Manifest(current) => self.inspected(current),
                RecoveryEventView::Unsupported(problems) => self.finished(
                    Err(unsupported_failure(self.transaction->0.workspace_uri, problems)),
                ),
                _ => self.finished(Err(cleanup_only_failed(self.transaction_id))),
            },
        }
    }

    /// Whether nothing is restored yet.
    pub open spec fn checking(self) -> bool {
        match self.phase {
            RecoveryPhase::Start | RecoveryPhase::Finding | RecoveryPhase::Locking | RecoveryPhase::Reading
            | RecoveryPhase::Capacity | RecoveryPhase::Inspecting => true,
            _ => false,
        }
    }

    /// What comes next while files are restored and looked at again.
    pub open spec fn next_restoring(self, e: RecoveryEventView) -> (RecoveryView, RecoveryActionView) {
        match self.phase {
            RecoveryPhase::RollingBack => match e {
                RecoveryEventView::RollbackFailed { stage, observed } => self.finished(
                    Err(
                        restore_failed(
                            self.transaction_id,
                            stage,
                            self.transaction->0.before_manifest,
                            observed,
                        ),
                    ),
                ),
                _ => (self.at(RecoveryPhase::InspectingRestored), RecoveryActionView::InspectTransaction),
            },
            _ => match e {
                RecoveryEventView::Manifest(found) => (
                    RecoveryView { phase: RecoveryPhase::Naming, final_manifest: found, ..self },
                    RecoveryActionView::NewReceiptId,
                ),
                _ => (self.at(RecoveryPhase::Salvaging), RecoveryActionView::Salvage),
            },
        }
    }

    /// Whether files are restored and looked at again.
    pub open spec fn restoring(self) -> bool {
        match self.phase {
            RecoveryPhase::RollingBack | RecoveryPhase::InspectingRestored | RecoveryPhase::Salvaging => true,
            _ => false,
        }
    }

    /// What comes next while the recovery is recorded.
    pub open spec fn next_recording(self, e: RecoveryEventView) -> (RecoveryView, RecoveryActionView) {
        match e {
            RecoveryEventView::Failed(f) => self.finished(Err(f)),
            RecoveryEventView::Named(id) => (
                RecoveryView { phase: RecoveryPhase::Linking, receipt_id: id, ..self },
                RecoveryActionView::ReadReceipt,
            ),
            RecoveryEventView::Receipt(original) => (
                RecoveryView { phase: RecoveryPhase::LookingForPreview, original, ..self },
                RecoveryActionView::ReadPreview,
            ),
            RecoveryEventView::Preview(pending) => (
                RecoveryView { phase: RecoveryPhase::Timing, pending, ..self },
                RecoveryActionView::ReadClock,
            ),
            RecoveryEventView::Clock { started_at, completed_at } => (
                self.at(RecoveryPhase::Storing),
                RecoveryActionView::WriteReceipt(self.receipt_at(started_at, completed_at)),
            ),
            _ => self.finished(Err(cleanup_only_failed(self.transaction_id))),
        }
    }

    /// Whether the recovery is being recorded.
    pub open spec fn recording(self) -> bool {
        match self.phase {
            RecoveryPhase::Naming | RecoveryPhase::Linking | RecoveryPhase::LookingForPreview
            | RecoveryPhase::Timing => true,
            _ => false,
        }
    }

    /// What comes next once the recovery is recorded.
    pub open spec fn next_recorded(self, e: RecoveryEventView) -> (RecoveryView, RecoveryActionView) {
        match self.phase {
            RecoveryPhase::Storing => self.onward(e, RecoveryPhase::Retiring, RecoveryActionView::RetirePreview),
            RecoveryPhase::Retiring => self.onward(e, RecoveryPhase::Cleaning, RecoveryActionView::CleanArtifacts),
            RecoveryPhase::Cleaning => match e {
                RecoveryEventView::CleaningFailed(stage) => self.finished(
                    Err(artifacts_failed(self.transaction_id, stage)),
                ),
                _ => (self.at(RecoveryPhase::Removing), RecoveryActionView::RemoveTransaction),
            },
            _ => match e {
                RecoveryEventView::Failed(f) => self.finished(Err(f)),
                _ => self.finished(
                    Ok(
                        recovery_report_json(
                            self.transaction_id,
                            self.receipt_id,
                            self.accept_current,
                            self.final_manifest,
                        ),
                    ),
                ),
            },
        }
    }

    /// What comes next.
    pub open spec fn next(self, e: RecoveryEventView) -> (RecoveryView, RecoveryActionView) {
        if self.checking() {
            self.next_checking(e)
        } else if self.restoring() {
            self.next_restoring(e)
        } else if self.recording() {
            self.next_recording(e)
        } else {
            self.next_recorded(e)
        }
    }
}

/// Whether a recovery may go on with a journal, or why it may not.
pub fn admit_recovery(t: &TransactionRecord, transaction_id: &str, supplied_digest: &str, accept_current: bool) -> (r:
    Result<(), ContractFailure>)
    ensures
        match r {
            Ok(_) => admission(t@, transaction_id@, supplied_digest@, accept_current) is Ok,
            Err(f) => admission(t@, transaction_id@, supplied_digest@, accept_current) == Err::<(), FailureView>(f@),
        },
{
    if t.state == TransactionState::CleanupPending && !accept_current {
        return Err(cleanup_only_failure(transaction_id));
    }
    if !same(supplied_digest, t.manifest_digest.as_str()) {
        return Err(digest_mismatch_failure(transaction_id, t.manifest_digest.as_str(), supplied_digest));
    }
    Ok(())
}

impl Recovery {
    /// A recovery at its start.
    pub fn new(transaction_id: &str, supplied_digest: &str, accept_current: bool, directories_flush: bool) -> (r:
        Recovery)
        ensures
            r@.transaction_id == transaction_id@,
            r@.supplied_digest == supplied_digest@,
            r@.accept_current == accept_current,
            r@.directories_flush == directories_flush,
            r@.phase == RecoveryPhase::Start,
            r@.transaction is None,
            r@.final_manifest.len() == 0,
            r@.receipt_id.len() == 0,
            r@.original is None,
            r@.pending is None,
    {
        Recovery {
            transaction_id: transaction_id.to_owned(),
            supplied_digest: supplied_digest.to_owned(),
            accept_current,
            directories_flush,
            phase: RecoveryPhase::Start,
            transaction: None,
            final_manifest: Vec::new(),
            receipt_id: String::new(),
            original: None,
            pending: None,
        }
    }

    fn finish(&mut self, result: Result<Json, ContractFailure>) -> (r: RecoveryAction)
        ensures
            (final(self)@, r@) == old(self)@.finished(result_view(result)),
    {
        self.phase = RecoveryPhase::Finished;
        RecoveryAction::Finish(result)
    }

    fn go_on(&mut self, event: RecoveryEvent, phase: RecoveryPhase, action: RecoveryAction) -> (r: RecoveryAction)
        ensures
            (final(self)@, r@) == old(self)@.onward(event@, phase, action@),
    {
        match event {
            RecoveryEvent::Failed(f) => self.finish(Err(f)),
            _ => {
                self.phase = phase;
                action
            },
        }
    }

    fn judge(&mut self, event: RecoveryEvent) -> (r: RecoveryAction)
        ensures
            (final(self)@, r@) == old(self)@.admitted(event@),
    {
        match event {
            RecoveryEvent::Transaction(t) => {
                let admitted = admit_recovery(
                    &t,
                    self.transaction_id.as_str(),
                    self.supplied_digest.as_str(),
                    self.accept_current,
                );
                self.transaction = Some(t);
                match admitted {
                    Ok(()) => {
                        self.phase = RecoveryPhase::Capacity;
                        RecoveryAction::EnsureReceiptCapacity
                    },
                    Err(f) => self.finish(Err(f)),
                }
            },
            RecoveryEvent::Failed(f) => self.finish(Err(f)),
            _ => {
                let f: ContractFailure = cleanup_only_failure(self.transaction_id.as_str());
                self.finish(Err(f))
            },
        }
    }

    fn inspect(&mut self, current: Vec<ManifestEntry>) -> (r: RecoveryAction)
        requires
            old(self)@.transaction is Some,
        ensures
            (final(self)@, r@) == old(self)@.inspected(views(current@)),
    {
        let t: &TransactionRecord = self.transaction.as_ref().unwrap();
        let digest: String = manifest_digest(&current);
        if !same(digest.as_str(), t.manifest_digest.as_str()) {
            let f: ContractFailure = conflict_failure(self.transaction_id.as_str(), &t.observed_manifest, &current);
            return self.finish(Err(f));
        }
        if self.accept_current {
            self.final_manifest = current;
            self.phase = RecoveryPhase::Naming;
            return RecoveryAction::NewReceiptId;
        }
        if t.state == TransactionState::Staged && manifest_mismatches(&t.before_manifest, &current).len() == 0 {
            self.phase = RecoveryPhase::InspectingRestored;
            return RecoveryAction::InspectTransaction;
        }
        self.phase = RecoveryPhase::RollingBack;
        RecoveryAction::Rollback
    }

    fn step_checking(&mut self, event: RecoveryEvent) -> (r: RecoveryAction)
        requires
            old(self)@.checking(),
            old(self)@.expects(event@),
        ensures
            (final(self)@, r@) == old(self)@.next_checking(event@),
    {
        match self.phase {
            RecoveryPhase::Start => {
                self.phase = RecoveryPhase::Finding;
                RecoveryAction::ReadTransaction
            },
            RecoveryPhase::Finding => match event {
                RecoveryEvent::Transaction(t) => {
                    self.transaction = Some(t);
                    self.phase = RecoveryPhase::Locking;
                    RecoveryAction::LockWorkspace
                },
                _ => self.go_on(event, RecoveryPhase::Locking, RecoveryAction::LockWorkspace),
            },
            RecoveryPhase::Locking => self.go_on(event, RecoveryPhase::Reading, RecoveryAction::ReadTransaction),
            RecoveryPhase::Reading => self.judge(event),
            RecoveryPhase::Capacity => self.go_on(
                event,
                RecoveryPhase::Inspecting,
                RecoveryAction::InspectTransaction,
            ),
            _ => match event {
                RecoveryEvent::Manifest(current) => self.inspect(current),
                RecoveryEvent::Unsupported(problems) => {
                    let f: ContractFailure = unsupported_filesystem_failure(
                        self.transaction.as_ref().unwrap().workspace_uri.as_str(),
                        &problems,
                    );
                    self.finish(Err(f))
                },
                _ => {
                    let f: ContractFailure = cleanup_only_failure(self.transaction_id.as_str());
                    self.finish(Err(f))
                },
            },
        }
    }

    fn step_restoring(&mut self, event: RecoveryEvent) -> (r: RecoveryAction)
        requires
            old(self)@.restoring(),
            old(self)@.expects(event@),
        ensures
            (final(self)@, r@) == old(self)@.next_restoring(event@),
    {
        match event {
            RecoveryEvent::RollbackFailed { stage, observed } => {
                let f: ContractFailure = restore_failure(
                    self.transaction_id.as_str(),
                    stage.as_str(),
                    &self.transaction.as_ref().unwrap().before_manifest,
                    &observed,
                );
                self.finish(Err(f))
            },
            RecoveryEvent::Manifest(found) => {
                self.final_manifest = found;
                self.phase = RecoveryPhase::Naming;
                RecoveryAction::NewReceiptId
            },
            RecoveryEvent::Done => {
                self.phase = RecoveryPhase::InspectingRestored;
                RecoveryAction::InspectTransaction
            },
            _ => {
                self.phase = RecoveryPhase::Salvaging;
                RecoveryAction::Salvage
            },
        }
    }

    fn step_recording(&mut self, event: RecoveryEvent) -> (r: RecoveryAction)
        requires
            old(self)@.recording(),
            old(self)@.expects(event@),
        ensures
            (final(self)@, r@) == old(self)@.next_recording(event@),
    {
        match event {
            RecoveryEvent::Failed(f) => self.finish(Err(f)),
            RecoveryEvent::Named(id) => {
                self.receipt_id = id;
                self.phase = RecoveryPhase::Linking;
                RecoveryAction::ReadReceipt
            },
            RecoveryEvent::Receipt(original) => {
                self.original = original;
                self.phase = RecoveryPhase::LookingForPreview;
                RecoveryAction::ReadPreview
            },
            RecoveryEvent::Preview(pending) => {
                self.pending = pending;
                self.phase = RecoveryPhase::Timing;
                RecoveryAction::ReadClock
            },
            RecoveryEvent::Clock { started_at, completed_at } => {
                let receipt = recovery_receipt(
                    self.transaction.as_ref().unwrap(),
                    self.transaction_id.as_str(),
                    self.receipt_id.as_str(),
                    self.accept_current,
                    &self.original,
                    &self.pending,
                    &self.final_manifest,
                    started_at,
                    completed_at,
                    self.directories_flush,
                );
                self.phase = RecoveryPhase::Storing;
                RecoveryAction::WriteReceipt(receipt)
            },
            _ => {
                let f: ContractFailure = cleanup_only_failure(self.transaction_id.as_str());
                self.finish(Err(f))
            },
        }
    }

    fn step_recorded(&mut self, event: RecoveryEvent) -> (r: RecoveryAction)
        requires
            !old(self)@.checking(),
            !old(self)@.restoring(),
            !old(self)@.recording(),
            old(self)@.expects(event@),
        ensures
            (final(self)@, r@) == old(self)@.next_recorded(event@),
    {
        match self.phase {
            RecoveryPhase::Storing => self.go_on(event, RecoveryPhase::Retiring, RecoveryAction::RetirePreview),
            RecoveryPhase::Retiring => self.go_on(event, RecoveryPhase::Cleaning, RecoveryAction::CleanArtifacts),
            RecoveryPhase::Cleaning => match event {
                RecoveryEvent::CleaningFailed(stage) => {
                    let f: ContractFailure = artifacts_failure(self.transaction_id.as_str(), stage.as_str());
                    self.finish(Err(f))
                },
                _ => {
                    self.phase = RecoveryPhase::Removing;
                    RecoveryAction::RemoveTransaction
                },
            },
            _ => match event {
                RecoveryEvent::Failed(f) => self.finish(Err(f)),
                _ => {
                    let report: Json = recovery_report(
                        self.transaction_id.as_str(),
                        self.receipt_id.as_str(),
                        self.accept_current,
                        &self.final_manifest,
                    );
                    self.finish(Ok(report))
                },
            },
        }
    }

    /// What the caller has to do next, given what the last action came to.
    pub fn step(&mut self, event: RecoveryEvent) -> (r: RecoveryAction)
        requires
            old(self)@.expects(event@),
        ensures
            (final(self)@, r@) == old(self)@.next(event@),
    {
        match self.phase {
            RecoveryPhase::Start | RecoveryPhase::Finding | RecoveryPhase::Locking | RecoveryPhase::Reading
            | RecoveryPhase::Capacity | RecoveryPhase::Inspecting => self.step_checking(event),
            RecoveryPhase::RollingBack | RecoveryPhase::InspectingRestored
            | RecoveryPhase::Salvaging => self.step_restoring(event),
            RecoveryPhase::Naming | RecoveryPhase::Linking | RecoveryPhase::LookingForPreview
            | RecoveryPhase::Timing => self.step_recording(event),
            _ => self.step_recorded(event),
        }
    }
}

/// How far a recovery has come, as a number.
pub open spec fn recovery_rank(phase: RecoveryPhase) -> int {
    match phase {
        RecoveryPhase::Start => 0,
        RecoveryPhase::Finding => 1,
        RecoveryPhase::Locking => 2,
        RecoveryPhase::Reading => 3,
        RecoveryPhase::Capacity => 4,
        RecoveryPhase::Inspecting => 5,
        RecoveryPhase::RollingBack => 6,
        RecoveryPhase::InspectingRestored => 7,
        RecoveryPhase::Salvaging => 8,
        RecoveryPhase::Naming => 9,
        RecoveryPhase::Linking => 10,
        RecoveryPhase::LookingForPreview => 11,
        RecoveryPhase::Timing => 12,
        RecoveryPhase::Storing => 13,
        RecoveryPhase::Retiring => 14,
        RecoveryPhase::Cleaning => 15,
        RecoveryPhase::Removing => 16,
        RecoveryPhase::Finished => 17,
    }
}

/// What holds of a recovery at each moment.
pub open spec fn recovery_sound(s: RecoveryView) -> bool {
    &&& 4 <= recovery_rank(s.phase) < 17 ==> s.transaction is Some
    &&& 4 <= recovery_rank(s.phase) < 17 ==> admission(
        s.transaction->0,
        s.transaction_id,
        s.supplied_digest,
        s.accept_current,
    ) is Ok
    &&& 6 <= recovery_rank(s.phase) <= 8 ==> !s.accept_current
}

/// What holds of a recovery at each moment holds after each step.
pub proof fn law_recovery_stays_sound(s: RecoveryView, e: RecoveryEventView)
    requires
        recovery_sound(s),
        s.expects(e),
    ensures
        recovery_sound(s.next(e).0),
{
}

/// Each step leads further on, so that a recovery ends.
pub proof fn law_recovery_leads_on(s: RecoveryView, e: RecoveryEventView)
    requires
        s.expects(e),
    ensures
        recovery_rank(s.next(e).0.phase) > recovery_rank(s.phase),
{
}

/// Files are restored only where they are as the caller has seen them and as
/// the journal recorded them, and only where the caller asked for it.
pub proof fn law_rollback_needs_the_recorded_files(s: RecoveryView, e: RecoveryEventView)
    requires
        recovery_sound(s),
        s.expects(e),
        s.next(e).1 is Rollback,
    ensures
        !s.accept_current,
        s.supplied_digest == s.transaction->0.manifest_digest,
        e matches RecoveryEventView::Manifest(current) && manifest_digest_of(current) == s.supplied_digest,
        s.transaction->0.state != TransactionState::CleanupPending,
{
}

/// Accepting what stands changes no file: it never comes to a rollback, and
/// it records the manifest that was found.
pub proof fn law_accepting_changes_nothing(s: RecoveryView, e: RecoveryEventView)
    requires
        recovery_sound(s),
        s.expects(e),
        s.accept_current,
    ensures
        !(s.next(e).1 is Rollback),
        s.next(e).0.accept_current,
        s.phase == RecoveryPhase::Inspecting && s.next(e).0.phase == RecoveryPhase::Naming ==> e
            == RecoveryEventView::Manifest(s.next(e).0.final_manifest),
{
}

/// A recovery reports success only once its receipt is stored, what it kept
/// is cleaned up and its journal is gone.
pub proof fn law_recovery_success_comes_last(s: RecoveryView, e: RecoveryEventView)
    requires
        s.expects(e),
        s.next(e).1 matches RecoveryActionView::Finish(r) && r is Ok,
    ensures
        s.phase == RecoveryPhase::Removing,
        e is Done,
{
}

/// The receipt of a recovery is linked to that of the application, where
/// there is one.
pub proof fn law_recovery_receipt_is_linked(s: RecoveryView, e: RecoveryEventView)
    requires
        s.expects(e),
        s.next(e).1 is WriteReceipt,
    ensures
        s.next(e).1->WriteReceipt_0.transaction_id == s.transaction_id,
        s.original matches Some(o) ==> s.next(e).1->WriteReceipt_0.linked_receipt_id == Some(o.receipt_id),
        s.next(e).1->WriteReceipt_0.before_manifest == s.transaction->0.observed_manifest,
        s.next(e).1->WriteReceipt_0.observed_manifest == s.final_manifest,
{
}

/// Whether a journal may have been left behind by an application that ended.
pub open spec fn may_be_abandoned(state: TransactionState) -> bool {
    state == TransactionState::Staged || state == TransactionState::Committing
}

/// The journal once it is known what an abandoned application left.
pub open spec fn sealed(t: TransactionView, current: Seq<ManifestView>) -> TransactionView {
    let abandoned = t.state == TransactionState::Committing || mismatches(t.before_manifest, current).len() > 0;
    TransactionView {
        observed_manifest: current,
        manifest_digest: manifest_digest_of(current),
        state: if abandoned {
            TransactionState::RecoveryRequired
        } else {
            t.state
        },
        cleanup_pending: abandoned || t.cleanup_pending,
        ..t
    }
}

/// The journal once it is known what an abandoned application left.
pub fn seal_transaction(t: TransactionRecord, current: Vec<ManifestEntry>) -> (r: TransactionRecord)
    ensures
        r@ == sealed(t@, views(current@)),
{
    let mut t: TransactionRecord = t;
    let abandoned: bool = t.state == TransactionState::Committing || manifest_mismatches(
        &t.before_manifest,
        &current,
    ).len() > 0;
    t.manifest_digest = manifest_digest(&current);
    t.observed_manifest = current;
    if abandoned {
        t.state = TransactionState::RecoveryRequired;
        t.cleanup_pending = true;
    }
    t
}

/// What the caller has to do next to find out what a journal stands for.
pub enum ReconcileStep {
    ReadTransaction,
    InspectTransaction(TransactionRecord),
    WriteTransaction(TransactionRecord),
    /// The journal as it stands, where there is one.
    Report(Result<Option<TransactionRecord>, ContractFailure>),
}

/// What a [`ReconcileStep`] stands for.
pub ghost enum ReconcileStepView {
    ReadTransaction,
    InspectTransaction(TransactionView),
    WriteTransaction(TransactionView),
    Report(Result<Option<TransactionView>, FailureView>),
}

impl View for ReconcileStep {
    type V = ReconcileStepView;

    open spec fn view(&self) -> ReconcileStepView {
        match self {
            ReconcileStep::ReadTransaction => ReconcileStepView::ReadTransaction,
            ReconcileStep::InspectTransaction(t) => ReconcileStepView::InspectTransaction(t@),
            ReconcileStep::WriteTransaction(t) => ReconcileStepView::WriteTransaction(t@),
            ReconcileStep::Report(Ok(t)) => ReconcileStepView::Report(Ok(opt_view(*t))),
            ReconcileStep::Report(Err(f)) => ReconcileStepView::Report(Err(f@)),
        }
    }
}

/// What follows the one attempt to take the lock. While another process holds
/// it, the journal is reported as it was found.
pub fn reconcile_locked(attempt: LockAttempt, initial: TransactionRecord) -> (r: ReconcileStep)
    ensures
        r@ == match attempt {
            LockAttempt::Taken => ReconcileStepView::ReadTransaction,
            LockAttempt::Busy => ReconcileStepView::Report(Ok(Some(initial@))),
            LockAttempt::Failed(os_code) => ReconcileStepView::Report(
                Err(lock_failed("workspace-application-lock"@, os_code)),
            ),
        },
{
    match attempt {
        LockAttempt::Taken => ReconcileStep::ReadTransaction,
        LockAttempt::Busy => ReconcileStep::Report(Ok(Some(initial))),
        LockAttempt::Failed(os_code) => ReconcileStep::Report(
            Err(lock_failure("workspace-application-lock", os_code)),
        ),
    }
}

/// What follows reading the journal again. One that is gone is reported as
/// gone, and one that no application can have left behind as it stands.
pub fn reconcile_read(read: Result<TransactionRecord, ContractFailure>) -> (r: ReconcileStep)
    ensures
        r@ == match result_view(read) {
            Ok(t) => if may_be_abandoned(t.state) {
                ReconcileStepView::InspectTransaction(t)
            } else {
                ReconcileStepView::Report(Ok(Some(t)))
            },
            Err(f) => if f.code == "recovery_not_found"@ {
                ReconcileStepView::Report(Ok(None))
            } else {
                ReconcileStepView::Report(Err(f))
            },
        },
{
    match read {
        Ok(t) => if t.state == TransactionState::Staged || t.state == TransactionState::Committing {
            ReconcileStep::InspectTransaction(t)
        } else {
            ReconcileStep::Report(Ok(Some(t)))
        },
        Err(f) => if same(f.code.as_str(), "recovery_not_found") {
            ReconcileStep::Report(Ok(None))
        } else {
            ReconcileStep::Report(Err(f))
        },
    }
}

/// What follows looking at what an application left.
pub fn reconcile_inspected(
    t: TransactionRecord,
    inspected: Result<Vec<ManifestEntry>, Vec<WorkspaceEditProblem>>,
) -> (r: ReconcileStep)
    ensures
        r@ == match inspected {
            Ok(current) => ReconcileStepView::WriteTransaction(sealed(t@, views(current@))),
            Err(problems) => ReconcileStepView::Report(
                Err(unsupported_failure(t@.workspace_uri, views(problems@))),
            ),
        },
{
    match inspected {
        Ok(current) => ReconcileStep::WriteTransaction(seal_transaction(t, current)),
        Err(problems) => ReconcileStep::Report(
            Err(unsupported_filesystem_failure(t.workspace_uri.as_str(), &problems)),
        ),
    }
}

/// What follows writing the journal.
pub fn reconcile_written(t: TransactionRecord, written: Result<(), ContractFailure>) -> (r: ReconcileStep)
    ensures
        r@ == match written {
            Ok(_) => ReconcileStepView::Report(Ok(Some(t@))),
            Err(f) => ReconcileStepView::Report(Err(f@)),
        },
{
    match written {
        Ok(()) => ReconcileStep::Report(Ok(Some(t))),
        Err(f) => ReconcileStep::Report(Err(f)),
    }
}

/// Sealing a journal settles it: a second look at the same files finds the
/// journal as it stands.
pub proof fn law_sealing_settles(t: TransactionView, current: Seq<ManifestView>)
    ensures
        sealed(sealed(t, current), current) == sealed(t, current),
        sealed(t, current).manifest_digest == manifest_digest_of(sealed(t, current).observed_manifest),
        t.state == TransactionState::Committing ==> sealed(t, current).state == TransactionState::RecoveryRequired,
{
}

/// A staged journal over files that nobody touched stays one that can be
/// restored without writing.
pub proof fn law_sealing_untouched(t: TransactionView, current: Seq<ManifestView>)
    requires
        t.state == TransactionState::Staged,
        mismatches(t.before_manifest, current).len() == 0,
    ensures
        sealed(t, current).state == TransactionState::Staged,
        sealed(t, current).cleanup_pending == t.cleanup_pending,
{
}

} // verus!
