//! The records of previews, receipts and transactions.

use vstd::prelude::*;

use crate::edits::CanonicalTextEdit;
use crate::json::{Json, JsonView, array_view};
use crate::manifest::{ManifestEntry, ManifestView, PathView};
use crate::order::Key;
use crate::path::NativePath;
use crate::plan::{
    CanonicalOperation,
    CanonicalPlan,
    OperationView,
    PlanView,
    PreviewSummary,
    ProblemView,
    WorkspaceEditProblem,
};
use crate::text::{copy_opt, opt_view, views};

verus! {

/// The version in which records are written.
pub const MUTATION_STATE_VERSION: u32 = 1;

/// A preview as it is shown.
pub struct PreviewRecord {
    pub preview_id: String,
    pub workspace_uri: String,
    pub server: Option<String>,
    pub session_identity: String,
    pub position_encoding: String,
    pub expires_at: String,
    pub source: Json,
    pub summary: PreviewSummary,
    pub edit: Json,
    pub command: Option<Json>,
    pub annotations: Json,
    pub plan: CanonicalPlan,
    pub preconditions: Vec<ManifestEntry>,
    pub conflicts: Vec<WorkspaceEditProblem>,
    pub stale_reasons: Vec<Json>,
    pub diff: Option<String>,
    pub reserved: bool,
}

/// What a [`PreviewRecord`] stands for.
#[verifier::ext_equal]
pub ghost struct PreviewView {
    pub preview_id: Seq<char>,
    pub workspace_uri: Seq<char>,
    pub server: Option<Seq<char>>,
    pub session_identity: Seq<char>,
    pub position_encoding: Seq<char>,
    pub expires_at: Seq<char>,
    pub source: JsonView,
    pub summary: PreviewSummary,
    pub edit: JsonView,
    pub command: Option<JsonView>,
    pub annotations: JsonView,
    pub plan: PlanView,
    pub preconditions: Seq<ManifestView>,
    pub conflicts: Seq<ProblemView>,
    pub stale_reasons: Seq<JsonView>,
    pub diff: Option<Seq<char>>,
    pub reserved: bool,
}

impl View for PreviewRecord {
    type V = PreviewView;

    open spec fn view(&self) -> PreviewView {
        PreviewView {
            preview_id: self.preview_id@,
            workspace_uri: self.workspace_uri@,
            server: opt_view(self.server),
            session_identity: self.session_identity@,
            position_encoding: self.position_encoding@,
            expires_at: self.expires_at@,
            source: self.source@,
            summary: self.summary,
            edit: self.edit@,
            command: opt_view(self.command),
            annotations: self.annotations@,
            plan: self.plan@,
            preconditions: views(self.preconditions@),
            conflicts: views(self.conflicts@),
            stale_reasons: array_view(self.stale_reasons@),
            diff: opt_view(self.diff),
            reserved: self.reserved,
        }
    }
}

/// A preview as it is stored.
pub struct StoredPreview {
    pub format_version: u32,
    pub created_unix_seconds: i64,
    pub expires_unix_seconds: i64,
    pub workspace_path: NativePath,
    pub authorization_digest: String,
    pub recovery_manifest_digest: Option<String>,
    pub preview: PreviewRecord,
}

/// What a [`StoredPreview`] stands for.
#[verifier::ext_equal]
pub ghost struct StoredPreviewView {
    pub format_version: u32,
    pub created_unix_seconds: i64,
    pub expires_unix_seconds: i64,
    pub workspace_path: PathView,
    pub authorization_digest: Seq<char>,
    pub recovery_manifest_digest: Option<Seq<char>>,
    pub preview: PreviewView,
}

impl View for StoredPreview {
    type V = StoredPreviewView;

    open spec fn view(&self) -> StoredPreviewView {
        StoredPreviewView {
            format_version: self.format_version,
            created_unix_seconds: self.created_unix_seconds,
            expires_unix_seconds: self.expires_unix_seconds,
            workspace_path: self.workspace_path@,
            authorization_digest: self.authorization_digest@,
            recovery_manifest_digest: opt_view(self.recovery_manifest_digest),
            preview: self.preview@,
        }
    }
}

/// What became of an application or a recovery.
pub struct ReceiptRecord {
    pub receipt_id: String,
    pub kind: String,
    pub transaction_id: String,
    pub workspace_uri: String,
    pub server: Option<String>,
    pub session_identity: Option<String>,
    pub preview_id: Option<String>,
    pub linked_receipt_id: Option<String>,
    pub preauthorized: bool,
    pub started_at: String,
    pub completed_at: String,
    pub outcome: String,
    pub filesystem_state: String,
    pub summary: PreviewSummary,
    pub before_manifest: Vec<ManifestEntry>,
    pub intended_manifest: Vec<ManifestEntry>,
    pub observed_manifest: Vec<ManifestEntry>,
    pub session_synchronized: bool,
    pub cleanup_pending: bool,
    pub durability: Json,
    pub manifest_digest: String,
    pub failure_stage: Option<String>,
    pub failed_change: Option<u64>,
}

/// What a [`ReceiptRecord`] stands for.
#[verifier::ext_equal]
pub ghost struct ReceiptView {
    pub receipt_id: Seq<char>,
    pub kind: Seq<char>,
    pub transaction_id: Seq<char>,
    pub workspace_uri: Seq<char>,
    pub server: Option<Seq<char>>,
    pub session_identity: Option<Seq<char>>,
    pub preview_id: Option<Seq<char>>,
    pub linked_receipt_id: Option<Seq<char>>,
    pub preauthorized: bool,
    pub started_at: Seq<char>,
    pub completed_at: Seq<char>,
    pub outcome: Seq<char>,
    pub filesystem_state: Seq<char>,
    pub summary: PreviewSummary,
    pub before_manifest: Seq<ManifestView>,
    pub intended_manifest: Seq<ManifestView>,
    pub observed_manifest: Seq<ManifestView>,
    pub session_synchronized: bool,
    pub cleanup_pending: bool,
    pub durability: JsonView,
    pub manifest_digest: Seq<char>,
    pub failure_stage: Option<Seq<char>>,
    pub failed_change: Option<u64>,
}

impl View for ReceiptRecord {
    type V = ReceiptView;

    open spec fn view(&self) -> ReceiptView {
        ReceiptView {
            receipt_id: self.receipt_id@,
            kind: self.kind@,
            transaction_id: self.transaction_id@,
            workspace_uri: self.workspace_uri@,
            server: opt_view(self.server),
            session_identity: opt_view(self.session_identity),
            preview_id: opt_view(self.preview_id),
            linked_receipt_id: opt_view(self.linked_receipt_id),
            preauthorized: self.preauthorized,
            started_at: self.started_at@,
            completed_at: self.completed_at@,
            outcome: self.outcome@,
            filesystem_state: self.filesystem_state@,
            summary: self.summary,
            before_manifest: views(self.before_manifest@),
            intended_manifest: views(self.intended_manifest@),
            observed_manifest: views(self.observed_manifest@),
            session_synchronized: self.session_synchronized,
            cleanup_pending: self.cleanup_pending,
            durability: self.durability@,
            manifest_digest: self.manifest_digest@,
            failure_stage: opt_view(self.failure_stage),
            failed_change: self.failed_change,
        }
    }
}

/// A receipt as it is stored.
pub struct StoredReceipt {
    pub format_version: u32,
    pub completed_unix_seconds: i64,
    pub expires_unix_seconds: i64,
    pub receipt: ReceiptRecord,
}

/// What a [`StoredReceipt`] stands for.
#[verifier::ext_equal]
pub ghost struct StoredReceiptView {
    pub format_version: u32,
    pub completed_unix_seconds: i64,
    pub expires_unix_seconds: i64,
    pub receipt: ReceiptView,
}

impl View for StoredReceipt {
    type V = StoredReceiptView;

    open spec fn view(&self) -> StoredReceiptView {
        StoredReceiptView {
            format_version: self.format_version,
            completed_unix_seconds: self.completed_unix_seconds,
            expires_unix_seconds: self.expires_unix_seconds,
            receipt: self.receipt@,
        }
    }
}

/// Where a resource is kept for rollback.
pub struct BackupEntry {
    pub path: NativePath,
    pub backup_path: NativePath,
    pub existed: bool,
    pub resource_kind: String,
}

/// What a [`BackupEntry`] stands for.
#[verifier::ext_equal]
pub ghost struct BackupView {
    pub path: PathView,
    pub backup_path: PathView,
    pub existed: bool,
    pub resource_kind: Seq<char>,
}

impl View for BackupEntry {
    type V = BackupView;

    open spec fn view(&self) -> BackupView {
        BackupView {
            path: self.path@,
            backup_path: self.backup_path@,
            existed: self.existed,
            resource_kind: self.resource_kind@,
        }
    }
}

/// How far a transaction has come.
#[derive(Clone, Copy, Debug, PartialEq, Eq, Structural)]
pub enum TransactionState {
    Staged,
    Committing,
    RecoveryRequired,
    CleanupPending,
}

/// The journal of one application.
pub struct TransactionRecord {
    pub format_version: u32,
    pub transaction_id: String,
    pub preview_id: String,
    pub receipt_id: String,
    pub workspace_path: NativePath,
    pub workspace_uri: String,
    pub state: TransactionState,
    pub started_at: String,
    pub artifact_directory: NativePath,
    pub backups: Vec<BackupEntry>,
    pub operations: Vec<CanonicalOperation>,
    pub before_manifest: Vec<ManifestEntry>,
    pub intended_manifest: Vec<ManifestEntry>,
    pub observed_manifest: Vec<ManifestEntry>,
    pub manifest_digest: String,
    pub cleanup_pending: bool,
}

/// What a [`TransactionRecord`] stands for.
#[verifier::ext_equal]
pub ghost struct TransactionView {
    pub format_version: u32,
    pub transaction_id: Seq<char>,
    pub preview_id: Seq<char>,
    pub receipt_id: Seq<char>,
    pub workspace_path: PathView,
    pub workspace_uri: Seq<char>,
    pub state: TransactionState,
    pub started_at: Seq<char>,
    pub artifact_directory: PathView,
    pub backups: Seq<BackupView>,
    pub operations: Seq<OperationView>,
    pub before_manifest: Seq<ManifestView>,
    pub intended_manifest: Seq<ManifestView>,
    pub observed_manifest: Seq<ManifestView>,
    pub manifest_digest: Seq<char>,
    pub cleanup_pending: bool,
}

impl View for TransactionRecord {
    type V = TransactionView;

    open spec fn view(&self) -> TransactionView {
        TransactionView {
            format_version: self.format_version,
            transaction_id: self.transaction_id@,
            preview_id: self.preview_id@,
            receipt_id: self.receipt_id@,
            workspace_path: self.workspace_path@,
            workspace_uri: self.workspace_uri@,
            state: self.state,
            started_at: self.started_at@,
            artifact_directory: self.artifact_directory@,
            backups: views(self.backups@),
            operations: views(self.operations@),
            before_manifest: views(self.before_manifest@),
            intended_manifest: views(self.intended_manifest@),
            observed_manifest: views(self.observed_manifest@),
            manifest_digest: self.manifest_digest@,
            cleanup_pending: self.cleanup_pending,
        }
    }
}

/// Copies edits.
fn copy_edits(list: &Vec<CanonicalTextEdit>) -> (r: Vec<CanonicalTextEdit>)
    ensures
        views(r@) == views(list@),
{
    let mut r: Vec<CanonicalTextEdit> = Vec::new();
    let mut i: usize = 0;
    while i < list.len()
        invariant
            i <= list@.len(),
            r@.len() == i,
            forall|j: int| 0 <= j < i ==> (#[trigger] r@[j])@ == list@[j]@,
        decreases list.len() - i,
    {
        r.push(
            CanonicalTextEdit {
                start_byte: list[i].start_byte,
                end_byte: list[i].end_byte,
                new_text: list[i].new_text.clone(),
                annotation_id: copy_opt(&list[i].annotation_id),
            },
        );
        i += 1;
    }
    assert(views(r@) =~= views(list@));
    r
}

impl CanonicalOperation {
    /// An operation with the same view.
    pub fn copy(&self) -> (r: CanonicalOperation)
        ensures
            r@ == self@,
    {
        match self {
            CanonicalOperation::Text { index, uri, path, before_digest, after_digest, edits } =>
                CanonicalOperation::Text {
                    index: *index,
                    uri: uri.clone(),
                    path: path.duplicate(),
                    before_digest: before_digest.clone(),
                    after_digest: after_digest.clone(),
                    edits: copy_edits(edits),
                },
            CanonicalOperation::Create { index, uri, path, overwrite, ignore_if_exists } =>
                CanonicalOperation::Create {
                    index: *index,
                    uri: uri.clone(),
                    path: path.duplicate(),
                    overwrite: *overwrite,
                    ignore_if_exists: *ignore_if_exists,
                },
            CanonicalOperation::Rename { index, old_uri, new_uri, old_path, new_path, overwrite, ignore_if_exists } =>
                CanonicalOperation::Rename {
                    index: *index,
                    old_uri: old_uri.clone(),
                    new_uri: new_uri.clone(),
                    old_path: old_path.duplicate(),
                    new_path: new_path.duplicate(),
                    overwrite: *overwrite,
                    ignore_if_exists: *ignore_if_exists,
                },
            CanonicalOperation::Delete { index, uri, path, recursive, ignore_if_not_exists } =>
                CanonicalOperation::Delete {
                    index: *index,
                    uri: uri.clone(),
                    path: path.duplicate(),
                    recursive: *recursive,
                    ignore_if_not_exists: *ignore_if_not_exists,
                },
        }
    }
}

/// Copies operations.
pub fn copy_operations(list: &Vec<CanonicalOperation>) -> (r: Vec<CanonicalOperation>)
    ensures
        views(r@) == views(list@),
{
    let mut r: Vec<CanonicalOperation> = Vec::new();
    let mut i: usize = 0;
    while i < list.len()
        invariant
            i <= list@.len(),
            r@.len() == i,
            forall|j: int| 0 <= j < i ==> (#[trigger] r@[j])@ == list@[j]@,
        decreases list.len() - i,
    {
        r.push(list[i].copy());
        i += 1;
    }
    assert(views(r@) =~= views(list@));
    r
}

} // verus!
