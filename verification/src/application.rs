//! Applying a preview: which step comes next, given what the last one came to.
//!
//! The caller carries out one action at a time and hands back what it came
//! to. Nothing is written to the workspace before the preview is reserved,
//! found to fit, journalled and staged; what is written is checked; and what
//! fails the check is undone or kept for recovery.

use vstd::prelude::*;

use crate::checks::{
    backups_planned,
    manifest_mismatches,
    mismatches,
    planned_backups,
    preview_manifest_mismatches,
    preview_mismatches,
};
use crate::failure::{ContractFailure, FailureView};
use crate::json::{Json, JsonView, array_view};
use crate::manifest::{ManifestEntry, ManifestView, copy_manifest, manifest_digest, manifest_digest_of};
use crate::order::Key;
use crate::path::NativePath;
use crate::plan::{ProblemView, WorkspaceEditProblem};
use crate::records::{
    MUTATION_STATE_VERSION,
    ReceiptRecord,
    ReceiptView,
    StoredPreview,
    StoredPreviewView,
    TransactionRecord,
    TransactionState,
    TransactionView,
    copy_operations,
};
use crate::reports::{
    application_cancelled,
    application_success,
    cancelled_failure,
    durability_json,
    durability_value,
    evidence_failure,
    evidence_invalid_failure,
    preview_stale_failure,
    recovery_failure,
    recovery_required_failure,
    report_rolled_back,
    rolled_back_failure,
    stale_failure,
    success_json,
    unsupported_failure,
    unsupported_filesystem_failure,
};
use crate::text::{concat, copy_opt, opt_view, same, views};

verus! {

/// How far an application has come.
#[derive(Clone, Copy, Debug, PartialEq, Eq, Structural)]
pub enum Phase {
    Start,
    FirstLookUp,
    Reading,
    LookUpAfterUnknown,
    Locking,
    LockedLookUp,
    Reserving,
    ReservedDeadline,
    Reauthorizing,
    Listing,
    Capacity,
    Inspecting,
    Starting,
    JournalingStage,
    Staging,
    StagedDeadline,
    CleaningFailed,
    JournalingFailed,
    RemovingFailed,
    Releasing,
    JournalingCommit,
    Committing,
    Verifying,
    JournalingApplied,
    StoringApplied,
    RollingBack,
    JournalingRolledBack,
    StoringRolledBack,
    Salvaging,
    JournalingRecovery,
    StoringRecovery,
    FinishCleaning,
    FinishRetiring,
    FinishRemoving,
    FinishMarking,
    PostCommitting,
    MarkingSynchronized,
    Finished,
}

/// What the caller has to do next.
pub enum Action {
    /// Look for a receipt under the preview's name.
    LookUpReceipt,
    ReadPreview,
    LockWorkspace,
    ReservePreview,
    CheckDeadline,
    Reauthorize,
    ListTransactions,
    EnsureReceiptCapacity,
    /// Read back the manifest that the preview was made for.
    InspectBefore,
    /// Make up the name of a new transaction.
    NewTransaction,
    /// Write the journal as it stands.
    WriteTransaction,
    Stage,
    CleanArtifacts,
    RemoveTransaction,
    ReleasePreview,
    Commit,
    /// Read back the manifest that the plan intends. Where it cannot be read,
    /// nothing counts as read.
    InspectIntended,
    Rollback,
    /// Read back as much as can be read.
    Salvage,
    /// Store the receipt and take the preview away.
    ConvertToReceipt,
    RetirePreview,
    MarkCleanupComplete,
    PostCommit,
    MarkSynchronized,
    /// Report what the application came to.
    Finish(Result<Json, ContractFailure>),
}

/// What an [`Action`] stands for.
pub ghost enum ActionView {
    LookUpReceipt,
    ReadPreview,
    LockWorkspace,
    ReservePreview,
    CheckDeadline,
    Reauthorize,
    ListTransactions,
    EnsureReceiptCapacity,
    InspectBefore,
    NewTransaction,
    WriteTransaction,
    Stage,
    CleanArtifacts,
    RemoveTransaction,
    ReleasePreview,
    Commit,
    InspectIntended,
    Rollback,
    Salvage,
    ConvertToReceipt,
    RetirePreview,
    MarkCleanupComplete,
    PostCommit,
    MarkSynchronized,
    Finish(Result<JsonView, FailureView>),
}

impl View for Action {
    type V = ActionView;

    open spec fn view(&self) -> ActionView {
        match self {
            Action::LookUpReceipt => ActionView::LookUpReceipt,
            Action::ReadPreview => ActionView::ReadPreview,
            Action::LockWorkspace => ActionView::LockWorkspace,
            Action::ReservePreview => ActionView::ReservePreview,
            Action::CheckDeadline => ActionView::CheckDeadline,
            Action::Reauthorize => ActionView::Reauthorize,
            Action::ListTransactions => ActionView::ListTransactions,
            Action::EnsureReceiptCapacity => ActionView::EnsureReceiptCapacity,
            Action::InspectBefore => ActionView::InspectBefore,
            Action::NewTransaction => ActionView::NewTransaction,
            Action::WriteTransaction => ActionView::WriteTransaction,
            Action::Stage => ActionView::Stage,
            Action::CleanArtifacts => ActionView::CleanArtifacts,
            Action::RemoveTransaction => ActionView::RemoveTransaction,
            Action::ReleasePreview => ActionView::ReleasePreview,
            Action::Commit => ActionView::Commit,
            Action::InspectIntended => ActionView::InspectIntended,
            Action::Rollback => ActionView::Rollback,
            Action::Salvage => ActionView::Salvage,
            Action::ConvertToReceipt => ActionView::ConvertToReceipt,
            Action::RetirePreview => ActionView::RetirePreview,
            Action::MarkCleanupComplete => ActionView::MarkCleanupComplete,
            Action::PostCommit => ActionView::PostCommit,
            Action::MarkSynchronized => ActionView::MarkSynchronized,
            Action::Finish(r) => ActionView::Finish(crate::failure::result_view(*r)),
        }
    }
}

/// A journal as it was found.
pub enum Journal {
    Record(TransactionRecord),
    Corrupt(Json),
}

/// What a [`Journal`] stands for.
pub ghost enum JournalView {
    Record(TransactionView),
    Corrupt(JsonView),
}

impl View for Journal {
    type V = JournalView;

    open spec fn view(&self) -> JournalView {
        match self {
            Journal::Record(t) => JournalView::Record(t@),
            Journal::Corrupt(v) => JournalView::Corrupt(v@),
        }
    }
}

/// What an action came to.
pub enum Event {
    Begin,
    Failed(ContractFailure),
    Done,
    Receipt(Option<ReceiptRecord>),
    Preview(StoredPreview),
    /// Whether the caller's deadline has passed.
    Deadline(bool),
    Reasons(Vec<Json>),
    Journals(Vec<Journal>),
    Manifest(Vec<ManifestEntry>),
    Unsupported(Vec<WorkspaceEditProblem>),
    Started { transaction_id: String, started_at: String },
    StageFailed { failure: ContractFailure, artifact_created: bool },
    /// Whether a step of cleaning up succeeded.
    Cleaned(bool),
    /// The operation that could not be carried out.
    CommitFailed(u64),
    RollbackFailed,
    /// The journal is written; the time is now.
    Journaled(String),
    Stored(ReceiptRecord),
    Synchronized(bool),
}

/// What an [`Event`] stands for.
pub ghost enum EventView {
    Begin,
    Failed(FailureView),
    Done,
    Receipt(Option<ReceiptView>),
    Preview(StoredPreviewView),
    Deadline(bool),
    Reasons(Seq<JsonView>),
    Journals(Seq<JournalView>),
    Manifest(Seq<ManifestView>),
    Unsupported(Seq<ProblemView>),
    Started { transaction_id: Seq<char>, started_at: Seq<char> },
    StageFailed { failure: FailureView, artifact_created: bool },
    Cleaned(bool),
    CommitFailed(u64),
    RollbackFailed,
    Journaled(Seq<char>),
    Stored(ReceiptView),
    Synchronized(bool),
}

impl View for Event {
    type V = EventView;

    open spec fn view(&self) -> EventView {
        match self {
            Event::Begin => EventView::Begin,
            Event::Failed(f) => EventView::Failed(f@),
            Event::Done => EventView::Done,
            Event::Receipt(r) => EventView::Receipt(opt_view(*r)),
            Event::Preview(p) => EventView::Preview(p@),
            Event::Deadline(b) => EventView::Deadline(*b),
            Event::Reasons(r) => EventView::Reasons(array_view(r@)),
            Event::Journals(j) => EventView::Journals(views(j@)),
            Event::Manifest(m) => EventView::Manifest(views(m@)),
            Event::Unsupported(p) => EventView::Unsupported(views(p@)),
            Event::Started { transaction_id, started_at } => EventView::Started {
                transaction_id: transaction_id@,
                started_at: started_at@,
            },
            Event::StageFailed { failure, artifact_created } => EventView::StageFailed {
                failure: failure@,
                artifact_created: *artifact_created,
            },
            Event::Cleaned(b) => EventView::Cleaned(*b),
            Event::CommitFailed(i) => EventView::CommitFailed(*i),
            Event::RollbackFailed => EventView::RollbackFailed,
            Event::Journaled(s) => EventView::Journaled(s@),
            Event::Stored(r) => EventView::Stored(r@),
            Event::Synchronized(b) => EventView::Synchronized(*b),
        }
    }
}

/// One application of a preview.
pub struct Application {
    pub preview_id: String,
    pub preauthorized: bool,
    /// Whether the preview has to be authorized anew.
    pub reauthorizes: bool,
    /// Whether a session is told of what was carried out.
    pub post_commits: bool,
    /// Whether directories can be flushed.
    pub directories_flush: bool,
    pub phase: Phase,
    pub stored: Option<StoredPreview>,
    pub current: Vec<ManifestEntry>,
    pub transaction: Option<TransactionRecord>,
    pub receipt: Option<ReceiptRecord>,
    /// What is reported once everything is put away.
    pub pending: Option<ContractFailure>,
    /// The operation that could not be carried out.
    pub failed_change: Option<u64>,
    pub committed: bool,
}

/// What an [`Application`] stands for.
pub ghost struct ApplicationView {
    pub preview_id: Seq<char>,
    pub preauthorized: bool,
    pub reauthorizes: bool,
    pub post_commits: bool,
    pub directories_flush: bool,
    pub phase: Phase,
    pub stored: Option<StoredPreviewView>,
    pub current: Seq<ManifestView>,
    pub transaction: Option<TransactionView>,
    pub receipt: Option<ReceiptView>,
    pub pending: Option<FailureView>,
    pub failed_change: Option<u64>,
    pub committed: bool,
}

impl View for Application {
    type V = ApplicationView;

    open spec fn view(&self) -> ApplicationView {
        ApplicationView {
            preview_id: self.preview_id@,
            preauthorized: self.preauthorized,
            reauthorizes: self.reauthorizes,
            post_commits: self.post_commits,
            directories_flush: self.directories_flush,
            phase: self.phase,
            stored: opt_view(self.stored),
            current: views(self.current@),
            transaction: opt_view(self.transaction),
            receipt: opt_view(self.receipt),
            pending: opt_view(self.pending),
            failed_change: self.failed_change,
            committed: self.committed,
        }
    }
}

/// Whether a receipt shows that its preview was applied.
pub open spec fn shows_applied(receipt: Option<ReceiptView>) -> bool {
    receipt is Some && receipt->0.outcome == "applied"@
}

/// The first journal that stands against an application in a workspace.
pub open spec fn blocking_journal(journals: Seq<JournalView>, workspace_uri: Seq<char>) -> Option<FailureView>
    decreases journals.len(),
{
    if journals.len() == 0 {
        None
    } else {
        match journals[0] {
            JournalView::Record(t) => if t.workspace_uri == workspace_uri {
                Some(recovery_failure(t))
            } else {
                blocking_journal(journals.drop_first(), workspace_uri)
            },
            JournalView::Corrupt(evidence) => Some(evidence_failure(evidence)),
        }
    }
}

/// The preview with its reservation given up.
pub open spec fn released(stored: StoredPreviewView) -> StoredPreviewView {
    StoredPreviewView {
        preview: crate::records::PreviewView { reserved: false, ..stored.preview },
        ..stored
    }
}

impl ApplicationView {
    /// The application in another phase.
    pub open spec fn at(self, phase: Phase) -> ApplicationView {
        ApplicationView { phase, ..self }
    }

    /// The end of the application.
    pub open spec fn finished(self, result: Result<JsonView, FailureView>) -> (ApplicationView, ActionView) {
        (self.at(Phase::Finished), ActionView::Finish(result))
    }

    /// Gives the reservation up and then reports a failure.
    pub open spec fn releasing(self, failure: FailureView) -> (ApplicationView, ActionView) {
        (
            ApplicationView {
                phase: Phase::Releasing,
                stored: Some(released(self.stored->0)),
                pending: Some(failure),
                ..self
            },
            ActionView::ReleasePreview,
        )
    }

    /// Cleans what was staged up and then reports a failure.
    pub open spec fn abandoning(self, failure: FailureView) -> (ApplicationView, ActionView) {
        (
            ApplicationView { phase: Phase::CleaningFailed, pending: Some(failure), ..self },
            ActionView::CleanArtifacts,
        )
    }

    /// The journal at the start.
    pub open spec fn journal(self, transaction_id: Seq<char>, started_at: Seq<char>) -> TransactionView {
        let stored = self.stored->0;
        let artifacts = stored.workspace_path.push(".lspctl-"@ + transaction_id);
        TransactionView {
            format_version: MUTATION_STATE_VERSION,
            transaction_id,
            preview_id: self.preview_id,
            receipt_id: self.preview_id,
            workspace_path: stored.workspace_path,
            workspace_uri: stored.preview.workspace_uri,
            state: TransactionState::Staged,
            started_at,
            artifact_directory: artifacts,
            backups: backups_planned(stored.preview.plan.before_manifest, artifacts),
            operations: stored.preview.plan.operations,
            before_manifest: stored.preview.plan.before_manifest,
            intended_manifest: stored.preview.plan.intended_manifest,
            observed_manifest: self.current,
            manifest_digest: manifest_digest_of(stored.preview.plan.before_manifest),
            cleanup_pending: false,
        }
    }

    /// The journal once it is known what stands.
    pub open spec fn journal_seen(self, state: TransactionState, observed: Seq<ManifestView>, cleanup: bool) -> TransactionView {
        TransactionView {
            state,
            observed_manifest: observed,
            manifest_digest: manifest_digest_of(observed),
            cleanup_pending: cleanup,
            ..self.transaction->0
        }
    }

    /// The receipt of the application.
    pub open spec fn receipt_of(
        self,
        outcome: Seq<char>,
        filesystem_state: Seq<char>,
        failure_stage: Option<Seq<char>>,
        completed_at: Seq<char>,
    ) -> ReceiptView {
        let stored = self.stored->0;
        let t = self.transaction->0;
        ReceiptView {
            receipt_id: self.preview_id,
            kind: "receipt"@,
            transaction_id: t.transaction_id,
            workspace_uri: stored.preview.workspace_uri,
            server: stored.preview.server,
            session_identity: Some(stored.preview.session_identity),
            preview_id: Some(self.preview_id),
            linked_receipt_id: None,
            preauthorized: self.preauthorized,
            started_at: t.started_at,
            completed_at,
            outcome,
            filesystem_state,
            summary: stored.preview.summary,
            before_manifest: stored.preview.plan.before_manifest,
            intended_manifest: stored.preview.plan.intended_manifest,
            observed_manifest: t.observed_manifest,
            session_synchronized: false,
            cleanup_pending: true,
            durability: durability_json(self.directories_flush),
            manifest_digest: t.manifest_digest,
            failure_stage,
            failed_change: if failure_stage is Some { self.failed_change } else { None },
        }
    }

    /// The end of cleaning up.
    pub open spec fn cleaned_up(self, complete: bool) -> (ApplicationView, ActionView) {
        if self.committed {
            let receipt = ReceiptView { cleanup_pending: !complete, ..self.receipt->0 };
            let next = ApplicationView { receipt: Some(receipt), ..self };
            if self.post_commits {
                (next.at(Phase::PostCommitting), ActionView::PostCommit)
            } else {
                next.finished(Ok(success_json(receipt, "applied"@)))
            }
        } else {
            self.finished(
                Err(
                    rolled_back_failure(
                        self.preview_id,
                        self.transaction->0.transaction_id,
                        self.transaction->0.observed_manifest,
                    ),
                ),
            )
        }
    }

    /// What a look for a receipt leads to.
    pub open spec fn looked_up(self, e: EventView, otherwise: (ApplicationView, ActionView)) -> (
        ApplicationView,
        ActionView,
    ) {
        match e {
            EventView::Failed(f) => self.finished(Err(f)),
            EventView::Receipt(r) => if shows_applied(r) {
                self.finished(Ok(success_json(r->0, "already_applied"@)))
            } else {
                otherwise
            },
            _ => self.finished(Err(arbitrary())),
        }
    }

    /// Whether an event can follow in the phase.
    pub open spec fn expects(self, e: EventView) -> bool {
        match self.phase {
            Phase::Start => e is Begin,
            Phase::FirstLookUp => e is Failed || e is Receipt,
            Phase::Reading => e is Failed || e is Preview,
            Phase::LookUpAfterUnknown => (e is Failed || e is Receipt) && self.pending is Some,
            Phase::Locking => (e is Failed || e is Done) && self.stored is Some,
            Phase::LockedLookUp => e is Failed || e is Receipt,
            Phase::Reserving => e is Failed || e is Preview,
            Phase::ReservedDeadline => e is Deadline && self.stored is Some,
            Phase::Reauthorizing => (e is Failed || e is Reasons) && self.stored is Some,
            Phase::Listing => (e is Failed || e is Journals) && self.stored is Some,
            Phase::Capacity => (e is Failed || e is Done) && self.stored is Some,
            Phase::Inspecting => (e is Unsupported || e is Manifest) && self.stored is Some,
            Phase::Starting => (e is Failed || e is Started) && self.stored is Some,
            Phase::JournalingStage => (e is Failed || e is Done) && self.has_journal(),
            Phase::Staging => (e is StageFailed || e is Done) && self.has_journal(),
            Phase::StagedDeadline => e is Deadline && self.has_journal(),
            Phase::CleaningFailed => e is Cleaned && self.has_journal() && self.pending is Some,
            Phase::JournalingFailed => (e is Failed || e is Done) && self.has_journal(),
            Phase::RemovingFailed => e is Done && self.has_journal() && self.pending is Some,
            Phase::Releasing => e is Done && self.pending is Some,
            Phase::JournalingCommit => (e is Failed || e is Done) && self.has_journal(),
            Phase::Committing => (e is CommitFailed || e is Done) && self.has_journal(),
            Phase::Verifying => (e is Unsupported || e is Manifest) && self.has_journal(),
            Phase::JournalingApplied => (e is Failed || e is Journaled) && self.has_journal(),
            Phase::StoringApplied => (e is Failed || e is Stored) && self.has_journal(),
            Phase::RollingBack => (e is Manifest || e is RollbackFailed) && self.has_journal(),
            Phase::JournalingRolledBack => (e is Failed || e is Journaled) && self.has_journal(),
            Phase::StoringRolledBack => (e is Failed || e is Stored) && self.has_journal(),
            Phase::Salvaging => e is Manifest && self.has_journal(),
            Phase::JournalingRecovery => (e is Failed || e is Journaled) && self.has_journal(),
            Phase::StoringRecovery => (e is Failed || e is Stored) && self.has_journal(),
            Phase::FinishCleaning => e is Cleaned && self.has_journal() && self.receipt is Some,
            Phase::FinishRetiring => e is Cleaned && self.has_journal() && self.receipt is Some,
            Phase::FinishRemoving => e is Cleaned && self.has_journal() && self.receipt is Some,
            Phase::FinishMarking => e is Cleaned && self.has_journal() && self.receipt is Some,
            Phase::PostCommitting => e is Synchronized && self.receipt is Some,
            Phase::MarkingSynchronized => (e is Failed || e is Done) && self.receipt is Some,
            Phase::Finished => false,
        }
    }

    /// Whether the preview and the journal are at hand.
    pub open spec fn has_journal(self) -> bool {
        self.stored is Some && self.transaction is Some
    }

    /// What comes next before the preview is reserved.
    pub open spec fn next_unreserved(self, e: EventView) -> (ApplicationView, ActionView) {
        match self.phase {
            Phase::Start => (self.at(Phase::FirstLookUp), ActionView::LookUpReceipt),
            Phase::FirstLookUp => self.looked_up(e, (self.at(Phase::Reading), ActionView::ReadPreview)),
            Phase::Reading => match e {
                EventView::Preview(p) => (
                    ApplicationView { phase: Phase::Locking, stored: Some(p), ..self },
                    ActionView::LockWorkspace,
                ),
                EventView::Failed(f) => if f.code == "preview_unknown"@ {
                    (
                        ApplicationView { phase: Phase::LookUpAfterUnknown, pending: Some(f), ..self },
                        ActionView::LookUpReceipt,
                    )
                } else {
                    self.finished(Err(f))
                },
                _ => arbitrary(),
            },
            Phase::LookUpAfterUnknown => self.looked_up(e, self.finished(Err(self.pending->0))),
            Phase::Locking => match e {
                EventView::Failed(f) => self.finished(Err(f)),
                _ => (self.at(Phase::LockedLookUp), ActionView::LookUpReceipt),
            },
            Phase::LockedLookUp => self.looked_up(e, (self.at(Phase::Reserving), ActionView::ReservePreview)),
            _ => match e {
                EventView::Failed(f) => self.finished(Err(f)),
                EventView::Preview(p) => (
                    ApplicationView { phase: Phase::ReservedDeadline, stored: Some(p), ..self },
                    ActionView::CheckDeadline,
                ),
                _ => arbitrary(),
            },
        }
    }

    /// What comes next while the reserved preview is checked.
    pub open spec fn next_reserved(self, e: EventView) -> (ApplicationView, ActionView) {
        let stored = self.stored->0;
        match self.phase {
            Phase::ReservedDeadline => if e == EventView::Deadline(true) {
                self.releasing(cancelled_failure(self.preview_id))
            } else if self.reauthorizes {
                (self.at(Phase::Reauthorizing), ActionView::Reauthorize)
            } else {
                (self.at(Phase::Listing), ActionView::ListTransactions)
            },
            Phase::Reauthorizing => match e {
                EventView::Failed(f) => self.releasing(f),
                EventView::Reasons(reasons) => if reasons.len() > 0 {
                    self.releasing(
                        stale_failure(
                            "The Preview authorization or immutable inputs changed."@,
                            stored.preview.preview_id,
                            reasons,
                            stored.preview.preconditions,
                        ),
                    )
                } else {
                    (self.at(Phase::Listing), ActionView::ListTransactions)
                },
                _ => arbitrary(),
            },
            Phase::Listing => match e {
                EventView::Failed(f) => self.finished(Err(f)),
                EventView::Journals(journals) => match blocking_journal(journals, stored.preview.workspace_uri) {
                    Some(f) => self.releasing(f),
                    None => (self.at(Phase::Capacity), ActionView::EnsureReceiptCapacity),
                },
                _ => arbitrary(),
            },
            Phase::Capacity => match e {
                EventView::Failed(f) => self.finished(Err(f)),
                _ => (self.at(Phase::Inspecting), ActionView::InspectBefore),
            },
            Phase::Inspecting => match e {
                EventView::Unsupported(problems) => self.finished(
                    Err(unsupported_failure(stored.preview.workspace_uri, problems)),
                ),
                EventView::Manifest(current) => {
                    let reasons = preview_mismatches(stored.preview.plan, current);
                    if reasons.len() > 0 {
                        self.releasing(
                            stale_failure(
                                "The Preview no longer matches the Workspace filesystem."@,
                                self.preview_id,
                                reasons,
                                stored.preview.preconditions,
                            ),
                        )
                    } else {
                        (
                            ApplicationView { phase: Phase::Starting, current, ..self },
                            ActionView::NewTransaction,
                        )
                    }
                },
                _ => arbitrary(),
            },
            Phase::Starting => match e {
                EventView::Failed(f) => self.finished(Err(f)),
                EventView::Started { transaction_id, started_at } => (
                    ApplicationView {
                        phase: Phase::JournalingStage,
                        transaction: Some(self.journal(transaction_id, started_at)),
                        ..self
                    },
                    ActionView::WriteTransaction,
                ),
                _ => arbitrary(),
            },
            _ => self.finished(Err(self.pending->0)),
        }
    }

    /// What comes next while the application is staged.
    pub open spec fn next_staging(self, e: EventView) -> (ApplicationView, ActionView) {
        match self.phase {
            Phase::JournalingStage => match e {
                EventView::Failed(f) => self.finished(Err(f)),
                _ => (self.at(Phase::Staging), ActionView::Stage),
            },
            Phase::Staging => match e {
                EventView::StageFailed { failure, artifact_created } => if artifact_created {
                    self.abandoning(failure)
                } else {
                    (
                        ApplicationView { phase: Phase::RemovingFailed, pending: Some(failure), ..self },
                        ActionView::RemoveTransaction,
                    )
                },
                _ => (self.at(Phase::StagedDeadline), ActionView::CheckDeadline),
            },
            Phase::StagedDeadline => if e == EventView::Deadline(true) {
                self.abandoning(cancelled_failure(self.preview_id))
            } else {
                (
                    ApplicationView {
                        phase: Phase::JournalingCommit,
                        transaction: Some(
                            TransactionView { state: TransactionState::Committing, ..self.transaction->0 },
                        ),
                        ..self
                    },
                    ActionView::WriteTransaction,
                )
            },
            Phase::CleaningFailed => if e == EventView::Cleaned(true) {
                (self.at(Phase::RemovingFailed), ActionView::RemoveTransaction)
            } else {
                (
                    ApplicationView {
                        phase: Phase::JournalingFailed,
                        transaction: Some(
                            TransactionView {
                                state: TransactionState::RecoveryRequired,
                                cleanup_pending: true,
                                ..self.transaction->0
                            },
                        ),
                        ..self
                    },
                    ActionView::WriteTransaction,
                )
            },
            Phase::JournalingFailed => match e {
                EventView::Failed(f) => self.finished(Err(f)),
                _ => self.finished(Err(recovery_failure(self.transaction->0))),
            },
            Phase::RemovingFailed => self.releasing(self.pending->0),
            _ => match e {
                EventView::Failed(f) => self.finished(Err(f)),
                _ => (self.at(Phase::Committing), ActionView::Commit),
            },
        }
    }

    /// What comes next once the operations are carried out.
    pub open spec fn next_committed(self, e: EventView) -> (ApplicationView, ActionView) {
        match self.phase {
            Phase::Committing => (
                ApplicationView {
                    phase: Phase::Verifying,
                    committed: e is Done,
                    failed_change: match e {
                        EventView::CommitFailed(i) => Some(i),
                        _ => None,
                    },
                    ..self
                },
                ActionView::InspectIntended,
            ),
            Phase::Verifying => {
                let observed = match e {
                    EventView::Manifest(manifest) => manifest,
                    _ => Seq::empty(),
                };
                if self.committed && mismatches(self.stored->0.preview.plan.intended_manifest, observed).len() == 0 {
                    (
                        ApplicationView {
                            phase: Phase::JournalingApplied,
                            transaction: Some(self.journal_seen(TransactionState::CleanupPending, observed, true)),
                            ..self
                        },
                        ActionView::WriteTransaction,
                    )
                } else {
                    (
                        ApplicationView {
                            phase: Phase::RollingBack,
                            committed: false,
                            transaction: Some(
                                TransactionView { observed_manifest: observed, ..self.transaction->0 },
                            ),
                            ..self
                        },
                        ActionView::Rollback,
                    )
                }
            },
            Phase::JournalingApplied => match e {
                EventView::Failed(f) => self.finished(Err(f)),
                EventView::Journaled(now) => (
                    ApplicationView {
                        phase: Phase::StoringApplied,
                        receipt: Some(self.receipt_of("applied"@, "changed"@, None, now)),
                        ..self
                    },
                    ActionView::ConvertToReceipt,
                ),
                _ => arbitrary(),
            },
            Phase::RollingBack => match e {
                EventView::Manifest(restored) => (
                    ApplicationView {
                        phase: Phase::JournalingRolledBack,
                        transaction: Some(self.journal_seen(TransactionState::CleanupPending, restored, true)),
                        ..self
                    },
                    ActionView::WriteTransaction,
                ),
                _ => (self.at(Phase::Salvaging), ActionView::Salvage),
            },
            Phase::JournalingRolledBack => match e {
                EventView::Failed(f) => self.finished(Err(f)),
                EventView::Journaled(now) => (
                    ApplicationView {
                        phase: Phase::StoringRolledBack,
                        receipt: Some(self.receipt_of("rolled_back"@, "unchanged"@, Some("commit"@), now)),
                        ..self
                    },
                    ActionView::ConvertToReceipt,
                ),
                _ => arbitrary(),
            },
            Phase::Salvaging => (
                ApplicationView {
                    phase: Phase::JournalingRecovery,
                    transaction: Some(
                        self.journal_seen(
                            TransactionState::RecoveryRequired,
                            e->Manifest_0,
                            self.transaction->0.cleanup_pending,
                        ),
                    ),
                    ..self
                },
                ActionView::WriteTransaction,
            ),
            Phase::JournalingRecovery => match e {
                EventView::Failed(f) => self.finished(Err(f)),
                EventView::Journaled(now) => (
                    ApplicationView {
                        phase: Phase::StoringRecovery,
                        receipt: Some(self.receipt_of("recovery_required"@, "partial"@, Some("rollback"@), now)),
                        ..self
                    },
                    ActionView::ConvertToReceipt,
                ),
                _ => arbitrary(),
            },
            Phase::StoringRecovery => match e {
                EventView::Failed(f) => self.finished(Err(f)),
                _ => self.finished(Err(recovery_failure(self.transaction->0))),
            },
            _ => match e {
                EventView::Failed(f) => self.finished(Err(f)),
                EventView::Stored(r) => (
                    ApplicationView { phase: Phase::FinishCleaning, receipt: Some(r), ..self },
                    ActionView::CleanArtifacts,
                ),
                _ => arbitrary(),
            },
        }
    }

    /// What comes next once the receipt is stored.
    pub open spec fn next_stored(self, e: EventView) -> (ApplicationView, ActionView) {
        match self.phase {
            Phase::FinishCleaning => if e == EventView::Cleaned(true) {
                (self.at(Phase::FinishRetiring), ActionView::RetirePreview)
            } else {
                self.cleaned_up(false)
            },
            Phase::FinishRetiring => if e == EventView::Cleaned(true) {
                (self.at(Phase::FinishRemoving), ActionView::RemoveTransaction)
            } else {
                self.cleaned_up(false)
            },
            Phase::FinishRemoving => if e == EventView::Cleaned(true) {
                (self.at(Phase::FinishMarking), ActionView::MarkCleanupComplete)
            } else {
                self.cleaned_up(false)
            },
            Phase::FinishMarking => self.cleaned_up(e == EventView::Cleaned(true)),
            Phase::PostCommitting => if e == EventView::Synchronized(true) {
                (self.at(Phase::MarkingSynchronized), ActionView::MarkSynchronized)
            } else {
                self.finished(Ok(success_json(self.receipt->0, "applied"@)))
            },
            _ => match e {
                EventView::Failed(f) => self.finished(Err(f)),
                _ => {
                    let receipt = ReceiptView { session_synchronized: true, ..self.receipt->0 };
                    ApplicationView { receipt: Some(receipt), ..self }.finished(
                        Ok(success_json(receipt, "applied"@)),
                    )
                },
            },
        }
    }

    /// Whether the preview is not reserved yet.
    pub open spec fn unreserved(self) -> bool {
        match self.phase {
            Phase::Start | Phase::FirstLookUp | Phase::Reading | Phase::LookUpAfterUnknown | Phase::Locking
            | Phase::LockedLookUp | Phase::Reserving => true,
            _ => false,
        }
    }

    /// Whether the reserved preview is being checked, or given up.
    pub open spec fn reserved_only(self) -> bool {
        match self.phase {
            Phase::ReservedDeadline | Phase::Reauthorizing | Phase::Listing | Phase::Capacity | Phase::Inspecting
            | Phase::Starting | Phase::Releasing => true,
            _ => false,
        }
    }

    /// Whether the application is being staged, or abandoned.
    pub open spec fn staging(self) -> bool {
        match self.phase {
            Phase::JournalingStage | Phase::Staging | Phase::StagedDeadline | Phase::CleaningFailed
            | Phase::JournalingFailed | Phase::RemovingFailed | Phase::JournalingCommit => true,
            _ => false,
        }
    }

    /// Whether operations are carried out, or undone.
    pub open spec fn underway(self) -> bool {
        match self.phase {
            Phase::Committing | Phase::Verifying | Phase::JournalingApplied | Phase::StoringApplied
            | Phase::RollingBack | Phase::JournalingRolledBack | Phase::StoringRolledBack | Phase::Salvaging
            | Phase::JournalingRecovery | Phase::StoringRecovery => true,
            _ => false,
        }
    }

    /// What comes next.
    pub open spec fn next(self, e: EventView) -> (ApplicationView, ActionView) {
        if self.unreserved() {
            self.next_unreserved(e)
        } else if self.reserved_only() {
            self.next_reserved(e)
        } else if self.staging() {
            self.next_staging(e)
        } else if self.underway() {
            self.next_committed(e)
        } else {
            self.next_stored(e)
        }
    }
}

fn find_blocking_journal(journals: &Vec<Journal>, workspace_uri: &str) -> (r: Option<ContractFailure>)
    ensures
        opt_view(r) == blocking_journal(views(journals@), workspace_uri@),
{
    let ghost all = views(journals@);
    let mut i: usize = 0;
    assert(all.skip(0) =~= all);
    while i < journals.len()
        invariant
            all == views(journals@),
            i <= journals@.len(),
            blocking_journal(all, workspace_uri@) == blocking_journal(all.skip(i as int), workspace_uri@),
        decreases journals.len() - i,
    {
        assert(all.skip(i as int)[0] == journals@[i as int]@);
        assert(all.skip(i as int).drop_first() =~= all.skip(i + 1));
        match &journals[i] {
            Journal::Record(t) => {
                if same(t.workspace_uri.as_str(), workspace_uri) {
                    return Some(recovery_required_failure(t));
                }
            },
            Journal::Corrupt(evidence) => {
                return Some(evidence_invalid_failure(evidence));
            },
        }
        i += 1;
    }
    None
}

/// The report that a preview was applied before, where a receipt shows it.
fn applied_before(receipt: &Option<ReceiptRecord>) -> (r: Option<Json>)
    ensures
        match r {
            Some(v) => shows_applied(opt_view(*receipt)) && v@ == success_json(
                opt_view(*receipt)->0,
                "already_applied"@,
            ),
            None => !shows_applied(opt_view(*receipt)),
        },
{
    match receipt {
        Some(r) => if same(r.outcome.as_str(), "applied") {
            Some(application_success(r, "already_applied"))
        } else {
            None
        },
        None => None,
    }
}

impl Application {
    /// An application at its start.
    pub fn new(
        preview_id: &str,
        preauthorized: bool,
        reauthorizes: bool,
        post_commits: bool,
        directories_flush: bool,
    ) -> (r: Application)
        ensures
            r@ == (ApplicationView {
                preview_id: preview_id@,
                preauthorized,
                reauthorizes,
                post_commits,
                directories_flush,
                phase: Phase::Start,
                stored: None,
                current: Seq::empty(),
                transaction: None,
                receipt: None,
                pending: None,
                failed_change: None,
                committed: false,
            }),
    {
        let current: Vec<ManifestEntry> = Vec::new();
        assert(views(current@) =~= Seq::<ManifestView>::empty());
        Application {
            preview_id: preview_id.to_owned(),
            preauthorized,
            reauthorizes,
            post_commits,
            directories_flush,
            phase: Phase::Start,
            stored: None,
            current,
            transaction: None,
            receipt: None,
            pending: None,
            failed_change: None,
            committed: false,
        }
    }

    fn finish(&mut self, result: Result<Json, ContractFailure>) -> (r: Action)
        ensures
            (final(self)@, r@) == old(self)@.finished(crate::failure::result_view(result)),
    {
        self.phase = Phase::Finished;
        Action::Finish(result)
    }

    fn go(&mut self, phase: Phase, action: Action) -> (r: Action)
        ensures
            final(self)@ == old(self)@.at(phase),
            r == action,
    {
        self.phase = phase;
        action
    }

    fn release(&mut self, failure: ContractFailure) -> (r: Action)
        requires
            old(self)@.stored is Some,
        ensures
            (final(self)@, r@) == old(self)@.releasing(failure@),
    {
        match self.stored.take() {
            Some(mut stored) => {
                stored.preview.reserved = false;
                self.stored = Some(stored);
            },
            None => {},
        }
        self.pending = Some(failure);
        self.phase = Phase::Releasing;
        Action::ReleasePreview
    }

    fn abandon(&mut self, failure: ContractFailure) -> (r: Action)
        ensures
            (final(self)@, r@) == old(self)@.abandoning(failure@),
    {
        self.pending = Some(failure);
        self.phase = Phase::CleaningFailed;
        Action::CleanArtifacts
    }

    fn finish_pending(&mut self) -> (r: Action)
        requires
            old(self)@.pending is Some,
        ensures
            (final(self)@, r@) == old(self)@.finished(Err(old(self)@.pending->0)),
    {
        let pending: ContractFailure = self.pending.as_ref().unwrap().copy();
        self.finish(Err(pending))
    }

    fn store_receipt(
        &mut self,
        phase: Phase,
        outcome: &str,
        filesystem_state: &str,
        failure_stage: Option<String>,
        completed_at: String,
    ) -> (r: Action)
        requires
            old(self)@.has_journal(),
        ensures
            final(self)@ == (ApplicationView {
                phase,
                receipt: Some(
                    old(self)@.receipt_of(outcome@, filesystem_state@, opt_view(failure_stage), completed_at@),
                ),
                ..old(self)@
            }),
            r@ == ActionView::ConvertToReceipt,
    {
        let stored: &StoredPreview = self.stored.as_ref().unwrap();
        let t: &TransactionRecord = self.transaction.as_ref().unwrap();
        let failed_change: Option<u64> = if failure_stage.is_some() { self.failed_change } else { None };
        let receipt = ReceiptRecord {
            receipt_id: self.preview_id.clone(),
            kind: "receipt".to_owned(),
            transaction_id: t.transaction_id.clone(),
            workspace_uri: stored.preview.workspace_uri.clone(),
            server: copy_opt(&stored.preview.server),
            session_identity: Some(stored.preview.session_identity.clone()),
            preview_id: Some(self.preview_id.clone()),
            linked_receipt_id: None,
            preauthorized: self.preauthorized,
            started_at: t.started_at.clone(),
            completed_at,
            outcome: outcome.to_owned(),
            filesystem_state: filesystem_state.to_owned(),
            summary: stored.preview.summary,
            before_manifest: copy_manifest(&stored.preview.plan.before_manifest),
            intended_manifest: copy_manifest(&stored.preview.plan.intended_manifest),
            observed_manifest: copy_manifest(&t.observed_manifest),
            session_synchronized: false,
            cleanup_pending: true,
            durability: durability_value(self.directories_flush),
            manifest_digest: t.manifest_digest.clone(),
            failure_stage,
            failed_change,
        };
        self.receipt = Some(receipt);
        self.phase = phase;
        Action::ConvertToReceipt
    }

    fn write_seen(
        &mut self,
        phase: Phase,
        state: TransactionState,
        observed: Vec<ManifestEntry>,
        cleanup: bool,
    ) -> (r: Action)
        requires
            old(self)@.has_journal(),
        ensures
            final(self)@ == (ApplicationView {
                phase,
                transaction: Some(old(self)@.journal_seen(state, views(observed@), cleanup)),
                ..old(self)@
            }),
            r@ == ActionView::WriteTransaction,
    {
        match self.transaction.take() {
            Some(mut t) => {
                t.state = state;
                t.manifest_digest = manifest_digest(&observed);
                t.observed_manifest = observed;
                t.cleanup_pending = cleanup;
                self.transaction = Some(t);
            },
            None => {},
        }
        self.phase = phase;
        Action::WriteTransaction
    }

    fn clean_up(&mut self, complete: bool) -> (r: Action)
        requires
            old(self)@.has_journal(),
            old(self)@.receipt is Some,
        ensures
            (final(self)@, r@) == old(self)@.cleaned_up(complete),
    {
        if self.committed {
            match self.receipt.take() {
                Some(mut receipt) => {
                    receipt.cleanup_pending = !complete;
                    self.receipt = Some(receipt);
                },
                None => {},
            }
            if self.post_commits {
                self.phase = Phase::PostCommitting;
                return Action::PostCommit;
            }
            let report: Json = application_success(self.receipt.as_ref().unwrap(), "applied");
            return self.finish(Ok(report));
        }
        let t: &TransactionRecord = self.transaction.as_ref().unwrap();
        let report: ContractFailure = report_rolled_back(
            self.preview_id.as_str(),
            t.transaction_id.as_str(),
            &t.observed_manifest,
        );
        self.finish(Err(report))
    }

    fn step_unreserved(&mut self, event: Event) -> (r: Action)
        requires
            old(self)@.unreserved(),
            old(self)@.expects(event@),
        ensures
            (final(self)@, r@) == old(self)@.next_unreserved(event@),
    {
        match self.phase {
            Phase::Start => self.go(Phase::FirstLookUp, Action::LookUpReceipt),
            Phase::FirstLookUp => match event {
                Event::Failed(f) => self.finish(Err(f)),
                Event::Receipt(receipt) => match applied_before(&receipt) {
                    Some(report) => self.finish(Ok(report)),
                    None => self.go(Phase::Reading, Action::ReadPreview),
                },
                _ => Action::ReadPreview,
            },
            Phase::Reading => match event {
                Event::Preview(p) => {
                    self.stored = Some(p);
                    self.go(Phase::Locking, Action::LockWorkspace)
                },
                Event::Failed(f) => {
                    if same(f.code.as_str(), "preview_unknown") {
                        self.pending = Some(f);
                        self.go(Phase::LookUpAfterUnknown, Action::LookUpReceipt)
                    } else {
                        self.finish(Err(f))
                    }
                },
                _ => Action::ReadPreview,
            },
            Phase::LookUpAfterUnknown => match event {
                Event::Failed(f) => self.finish(Err(f)),
                Event::Receipt(receipt) => match applied_before(&receipt) {
                    Some(report) => self.finish(Ok(report)),
                    None => self.finish_pending(),
                },
                _ => Action::LookUpReceipt,
            },
            Phase::Locking => match event {
                Event::Failed(f) => self.finish(Err(f)),
                _ => self.go(Phase::LockedLookUp, Action::LookUpReceipt),
            },
            Phase::LockedLookUp => match event {
                Event::Failed(f) => self.finish(Err(f)),
                Event::Receipt(receipt) => match applied_before(&receipt) {
                    Some(report) => self.finish(Ok(report)),
                    None => self.go(Phase::Reserving, Action::ReservePreview),
                },
                _ => Action::LookUpReceipt,
            },
            _ => match event {
                Event::Failed(f) => self.finish(Err(f)),
                Event::Preview(p) => {
                    self.stored = Some(p);
                    self.go(Phase::ReservedDeadline, Action::CheckDeadline)
                },
                _ => Action::ReservePreview,
            },
        }
    }

    fn begin_transaction(&mut self, transaction_id: String, started_at: String) -> (r: Action)
        requires
            old(self)@.stored is Some,
        ensures
            final(self)@ == (ApplicationView {
                phase: Phase::JournalingStage,
                transaction: Some(old(self)@.journal(transaction_id@, started_at@)),
                ..old(self)@
            }),
            r@ == ActionView::WriteTransaction,
    {
        let stored: &StoredPreview = self.stored.as_ref().unwrap();
        let name: String = concat(".lspctl-", transaction_id.as_str());
        let artifacts: NativePath = stored.workspace_path.join(name.as_str());
        let t = TransactionRecord {
            format_version: MUTATION_STATE_VERSION,
            transaction_id,
            preview_id: self.preview_id.clone(),
            receipt_id: self.preview_id.clone(),
            workspace_path: stored.workspace_path.duplicate(),
            workspace_uri: stored.preview.workspace_uri.clone(),
            state: TransactionState::Staged,
            started_at,
            backups: planned_backups(&stored.preview.plan.before_manifest, &artifacts),
            artifact_directory: artifacts,
            operations: copy_operations(&stored.preview.plan.operations),
            before_manifest: copy_manifest(&stored.preview.plan.before_manifest),
            intended_manifest: copy_manifest(&stored.preview.plan.intended_manifest),
            observed_manifest: copy_manifest(&self.current),
            manifest_digest: manifest_digest(&stored.preview.plan.before_manifest),
            cleanup_pending: false,
        };
        self.transaction = Some(t);
        self.phase = Phase::JournalingStage;
        Action::WriteTransaction
    }

    fn hold_against(&mut self, current: Vec<ManifestEntry>) -> (r: Action)
        requires
            old(self)@.stored is Some,
            old(self).phase == Phase::Inspecting,
        ensures
            (final(self)@, r@) == old(self)@.next_reserved(EventView::Manifest(views(current@))),
    {
        let stored: &StoredPreview = self.stored.as_ref().unwrap();
        let reasons: Vec<Json> = preview_manifest_mismatches(&stored.preview.plan, &current);
        assert(array_view(reasons@).len() == reasons@.len());
        if reasons.len() > 0 {
            let failure: ContractFailure = preview_stale_failure(
                "The Preview no longer matches the Workspace filesystem.",
                self.preview_id.as_str(),
                reasons,
                &stored.preview.preconditions,
            );
            self.release(failure)
        } else {
            self.current = current;
            self.go(Phase::Starting, Action::NewTransaction)
        }
    }

    fn reauthorized(&mut self, reasons: Vec<Json>) -> (r: Action)
        requires
            old(self)@.stored is Some,
            old(self).phase == Phase::Reauthorizing,
        ensures
            (final(self)@, r@) == old(self)@.next_reserved(EventView::Reasons(array_view(reasons@))),
    {
        assert(array_view(reasons@).len() == reasons@.len());
        if reasons.len() > 0 {
            let stored: &StoredPreview = self.stored.as_ref().unwrap();
            let failure: ContractFailure = preview_stale_failure(
                "The Preview authorization or immutable inputs changed.",
                stored.preview.preview_id.as_str(),
                reasons,
                &stored.preview.preconditions,
            );
            self.release(failure)
        } else {
            self.go(Phase::Listing, Action::ListTransactions)
        }
    }

    fn step_reserved(&mut self, event: Event) -> (r: Action)
        requires
            old(self)@.reserved_only(),
            old(self)@.expects(event@),
        ensures
            (final(self)@, r@) == old(self)@.next_reserved(event@),
    {
        match self.phase {
            Phase::ReservedDeadline => match event {
                Event::Deadline(true) => {
                    let failure: ContractFailure = application_cancelled(self.preview_id.as_str());
                    self.release(failure)
                },
                _ => if self.reauthorizes {
                    self.go(Phase::Reauthorizing, Action::Reauthorize)
                } else {
                    self.go(Phase::Listing, Action::ListTransactions)
                },
            },
            Phase::Reauthorizing => match event {
                Event::Failed(f) => self.release(f),
                Event::Reasons(reasons) => self.reauthorized(reasons),
                _ => Action::Reauthorize,
            },
            Phase::Listing => match event {
                Event::Failed(f) => self.finish(Err(f)),
                Event::Journals(journals) => {
                    let stored: &StoredPreview = self.stored.as_ref().unwrap();
                    match find_blocking_journal(&journals, stored.preview.workspace_uri.as_str()) {
                        Some(failure) => self.release(failure),
                        None => self.go(Phase::Capacity, Action::EnsureReceiptCapacity),
                    }
                },
                _ => Action::ListTransactions,
            },
            Phase::Capacity => match event {
                Event::Failed(f) => self.finish(Err(f)),
                _ => self.go(Phase::Inspecting, Action::InspectBefore),
            },
            Phase::Inspecting => match event {
                Event::Unsupported(problems) => {
                    let stored: &StoredPreview = self.stored.as_ref().unwrap();
                    let failure: ContractFailure = unsupported_filesystem_failure(
                        stored.preview.workspace_uri.as_str(),
                        &problems,
                    );
                    self.finish(Err(failure))
                },
                Event::Manifest(current) => self.hold_against(current),
                _ => Action::InspectBefore,
            },
            Phase::Starting => match event {
                Event::Failed(f) => self.finish(Err(f)),
                Event::Started { transaction_id, started_at } => self.begin_transaction(transaction_id, started_at),
                _ => Action::NewTransaction,
            },
            _ => self.finish_pending(),
        }
    }

    fn set_state(&mut self, state: TransactionState, cleanup: Option<bool>)
        requires
            old(self)@.has_journal(),
        ensures
            final(self)@ == (ApplicationView {
                transaction: Some(
                    TransactionView {
                        state,
                        cleanup_pending: match cleanup {
                            Some(b) => b,
                            None => old(self)@.transaction->0.cleanup_pending,
                        },
                        ..old(self)@.transaction->0
                    },
                ),
                ..old(self)@
            }),
    {
        match self.transaction.take() {
            Some(mut t) => {
                t.state = state;
                match cleanup {
                    Some(b) => {
                        t.cleanup_pending = b;
                    },
                    None => {},
                }
                self.transaction = Some(t);
            },
            None => {},
        }
    }

    fn step_staging(&mut self, event: Event) -> (r: Action)
        requires
            old(self)@.staging(),
            old(self)@.expects(event@),
        ensures
            (final(self)@, r@) == old(self)@.next_staging(event@),
    {
        match self.phase {
            Phase::JournalingStage => match event {
                Event::Failed(f) => self.finish(Err(f)),
                _ => self.go(Phase::Staging, Action::Stage),
            },
            Phase::Staging => match event {
                Event::StageFailed { failure, artifact_created } => if artifact_created {
                    self.abandon(failure)
                } else {
                    self.pending = Some(failure);
                    self.go(Phase::RemovingFailed, Action::RemoveTransaction)
                },
                _ => self.go(Phase::StagedDeadline, Action::CheckDeadline),
            },
            Phase::StagedDeadline => match event {
                Event::Deadline(true) => {
                    let failure: ContractFailure = application_cancelled(self.preview_id.as_str());
                    self.abandon(failure)
                },
                _ => {
                    self.set_state(TransactionState::Committing, None);
                    self.go(Phase::JournalingCommit, Action::WriteTransaction)
                },
            },
            Phase::CleaningFailed => match event {
                Event::Cleaned(true) => self.go(Phase::RemovingFailed, Action::RemoveTransaction),
                _ => {
                    self.set_state(TransactionState::RecoveryRequired, Some(true));
                    self.go(Phase::JournalingFailed, Action::WriteTransaction)
                },
            },
            Phase::JournalingFailed => match event {
                Event::Failed(f) => self.finish(Err(f)),
                _ => {
                    let failure: ContractFailure = recovery_required_failure(self.transaction.as_ref().unwrap());
                    self.finish(Err(failure))
                },
            },
            Phase::RemovingFailed => {
                let failure: ContractFailure = self.pending.as_ref().unwrap().copy();
                self.release(failure)
            },
            _ => match event {
                Event::Failed(f) => self.finish(Err(f)),
                _ => self.go(Phase::Committing, Action::Commit),
            },
        }
    }

    fn verify(&mut self, observed: Vec<ManifestEntry>) -> (r: Action)
        requires
            old(self)@.has_journal(),
            old(self).phase == Phase::Verifying,
        ensures
            (final(self)@, r@) == old(self)@.next_committed(EventView::Manifest(views(observed@))),
    {
        let stored: &StoredPreview = self.stored.as_ref().unwrap();
        let found: Vec<Json> = manifest_mismatches(&stored.preview.plan.intended_manifest, &observed);
        assert(array_view(found@).len() == found@.len());
        if self.committed && found.len() == 0 {
            return self.write_seen(
                Phase::JournalingApplied,
                TransactionState::CleanupPending,
                observed,
                true,
            );
        }
        self.committed = false;
        match self.transaction.take() {
            Some(mut t) => {
                t.observed_manifest = observed;
                self.transaction = Some(t);
            },
            None => {},
        }
        self.go(Phase::RollingBack, Action::Rollback)
    }

    fn step_manifest(&mut self, manifest: Vec<ManifestEntry>) -> (r: Action)
        requires
            old(self)@.underway(),
            old(self)@.expects(EventView::Manifest(views(manifest@))),
        ensures
            (final(self)@, r@) == old(self)@.next_committed(EventView::Manifest(views(manifest@))),
    {
        match self.phase {
            Phase::Verifying => self.verify(manifest),
            Phase::RollingBack => self.write_seen(
                Phase::JournalingRolledBack,
                TransactionState::CleanupPending,
                manifest,
                true,
            ),
            _ => {
                let cleanup: bool = self.transaction.as_ref().unwrap().cleanup_pending;
                self.write_seen(Phase::JournalingRecovery, TransactionState::RecoveryRequired, manifest, cleanup)
            },
        }
    }

    fn step_journaled(&mut self, now: String) -> (r: Action)
        requires
            old(self)@.underway(),
            old(self)@.expects(EventView::Journaled(now@)),
        ensures
            (final(self)@, r@) == old(self)@.next_committed(EventView::Journaled(now@)),
    {
        match self.phase {
            Phase::JournalingApplied => self.store_receipt(Phase::StoringApplied, "applied", "changed", None, now),
            Phase::JournalingRolledBack => self.store_receipt(
                Phase::StoringRolledBack,
                "rolled_back",
                "unchanged",
                Some("commit".to_owned()),
                now,
            ),
            _ => self.store_receipt(
                Phase::StoringRecovery,
                "recovery_required",
                "partial",
                Some("rollback".to_owned()),
                now,
            ),
        }
    }

    fn step_committed(&mut self, event: Event) -> (r: Action)
        requires
            old(self)@.underway(),
            old(self)@.expects(event@),
        ensures
            (final(self)@, r@) == old(self)@.next_committed(event@),
    {
        match self.phase {
            Phase::Committing => {
                match event {
                    Event::CommitFailed(i) => {
                        self.committed = false;
                        self.failed_change = Some(i);
                    },
                    _ => {
                        self.committed = true;
                        self.failed_change = None;
                    },
                }
                self.go(Phase::Verifying, Action::InspectIntended)
            },
            Phase::Verifying => match event {
                Event::Manifest(manifest) => self.step_manifest(manifest),
                _ => {
                    let nothing: Vec<ManifestEntry> = Vec::new();
                    assert(views(nothing@) =~= Seq::<ManifestView>::empty());
                    self.verify(nothing)
                },
            },
            Phase::Salvaging => match event {
                Event::Manifest(manifest) => self.step_manifest(manifest),
                _ => Action::Salvage,
            },
            Phase::RollingBack => match event {
                Event::Manifest(manifest) => self.step_manifest(manifest),
                _ => self.go(Phase::Salvaging, Action::Salvage),
            },
            Phase::JournalingApplied | Phase::JournalingRolledBack | Phase::JournalingRecovery => match event {
                Event::Failed(f) => self.finish(Err(f)),
                Event::Journaled(now) => self.step_journaled(now),
                _ => Action::WriteTransaction,
            },
            Phase::StoringRecovery => match event {
                Event::Failed(f) => self.finish(Err(f)),
                _ => {
                    let failure: ContractFailure = recovery_required_failure(self.transaction.as_ref().unwrap());
                    self.finish(Err(failure))
                },
            },
            _ => match event {
                Event::Failed(f) => self.finish(Err(f)),
                Event::Stored(r) => {
                    self.receipt = Some(r);
                    self.go(Phase::FinishCleaning, Action::CleanArtifacts)
                },
                _ => Action::ConvertToReceipt,
            },
        }
    }

    fn step_stored(&mut self, event: Event) -> (r: Action)
        requires
            !old(self)@.unreserved(),
            !old(self)@.reserved_only(),
            !old(self)@.staging(),
            !old(self)@.underway(),
            old(self)@.expects(event@),
        ensures
            (final(self)@, r@) == old(self)@.next_stored(event@),
    {
        match event {
            Event::Cleaned(ok) => {
                if !ok {
                    return self.clean_up(false);
                }
                match self.phase {
                    Phase::FinishCleaning => self.go(Phase::FinishRetiring, Action::RetirePreview),
                    Phase::FinishRetiring => self.go(Phase::FinishRemoving, Action::RemoveTransaction),
                    Phase::FinishRemoving => self.go(Phase::FinishMarking, Action::MarkCleanupComplete),
                    _ => self.clean_up(true),
                }
            },
            Event::Synchronized(ok) => {
                if ok {
                    return self.go(Phase::MarkingSynchronized, Action::MarkSynchronized);
                }
                let report: Json = application_success(self.receipt.as_ref().unwrap(), "applied");
                self.finish(Ok(report))
            },
            Event::Failed(f) => self.finish(Err(f)),
            _ => {
                match self.receipt.take() {
                    Some(mut receipt) => {
                        receipt.session_synchronized = true;
                        self.receipt = Some(receipt);
                    },
                    None => {},
                }
                let report: Json = application_success(self.receipt.as_ref().unwrap(), "applied");
                self.finish(Ok(report))
            },
        }
    }

    /// What the caller has to do next, given what the last action came to.
    pub fn step(&mut self, event: Event) -> (r: Action)
        requires
            old(self)@.expects(event@),
        ensures
            (final(self)@, r@) == old(self)@.next(event@),
    {
        match self.phase {
            Phase::Start | Phase::FirstLookUp | Phase::Reading | Phase::LookUpAfterUnknown | Phase::Locking
            | Phase::LockedLookUp | Phase::Reserving => self.step_unreserved(event),
            Phase::ReservedDeadline | Phase::Reauthorizing | Phase::Listing | Phase::Capacity | Phase::Inspecting
            | Phase::Starting | Phase::Releasing => self.step_reserved(event),
            Phase::JournalingStage | Phase::Staging | Phase::StagedDeadline | Phase::CleaningFailed
            | Phase::JournalingFailed | Phase::RemovingFailed | Phase::JournalingCommit => self.step_staging(event),
            Phase::Committing | Phase::Verifying | Phase::JournalingApplied | Phase::StoringApplied
            | Phase::RollingBack | Phase::JournalingRolledBack | Phase::StoringRolledBack | Phase::Salvaging
            | Phase::JournalingRecovery | Phase::StoringRecovery => self.step_committed(event),
            _ => self.step_stored(event),
        }
    }
}

} // verus!
