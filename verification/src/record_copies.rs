//! Copies of records.

use vstd::prelude::*;

use crate::json::{Json, copy_items};
use crate::manifest::copy_manifest;
use crate::order::Key;
use crate::plan::{CanonicalPlan, WorkspaceEditProblem};
use crate::records::{
    BackupEntry,
    PreviewRecord,
    ReceiptRecord,
    StoredPreview,
    StoredReceipt,
    TransactionRecord,
    copy_operations,
};
use crate::text::{copy_opt, opt_view, views};

verus! {

fn copy_json(value: &Option<Json>) -> (r: Option<Json>)
    ensures
        opt_view(r) == opt_view(*value),
{
    match value {
        Some(v) => Some(v.copy()),
        None => None,
    }
}

impl WorkspaceEditProblem {
    /// A problem with the same view.
    pub fn copy(&self) -> (r: WorkspaceEditProblem)
        ensures
            r@ == self@,
    {
        WorkspaceEditProblem {
            code: self.code.clone(),
            message: self.message.clone(),
            operation_index: self.operation_index,
            path: match &self.path {
                Some(p) => Some(p.duplicate()),
                None => None,
            },
            annotation_id: copy_opt(&self.annotation_id),
            data: copy_json(&self.data),
        }
    }
}

fn copy_problems(list: &Vec<WorkspaceEditProblem>) -> (r: Vec<WorkspaceEditProblem>)
    ensures
        views(r@) == views(list@),
{
    let mut r: Vec<WorkspaceEditProblem> = Vec::new();
    let mut i: usize = 0;
    while i < list.len()
        invariant
            i <= list@.len(),
            r@.len() == i,
            forall|j: int| 0 <= j < i ==> (#[trigger] r@[j])@ == list@[j]@,
        decreases list.len() - i,
    {
        r.push(list[i].copy());
        i += 1;
    }
    assert(views(r@) =~= views(list@));
    r
}

fn copy_backups(list: &Vec<BackupEntry>) -> (r: Vec<BackupEntry>)
    ensures
        views(r@) == views(list@),
{
    let mut r: Vec<BackupEntry> = Vec::new();
    let mut i: usize = 0;
    while i < list.len()
        invariant
            i <= list@.len(),
            r@.len() == i,
            forall|j: int| 0 <= j < i ==> (#[trigger] r@[j])@ == list@[j]@,
        decreases list.len() - i,
    {
        r.push(
            BackupEntry {
                path: list[i].path.duplicate(),
                backup_path: list[i].backup_path.duplicate(),
                existed: list[i].existed,
                resource_kind: list[i].resource_kind.clone(),
            },
        );
        i += 1;
    }
    assert(views(r@) =~= views(list@));
    r
}

impl CanonicalPlan {
    /// A plan with the same view.
    pub fn copy(&self) -> (r: CanonicalPlan)
        ensures
            r@ == self@,
    {
        CanonicalPlan {
            operations: copy_operations(&self.operations),
            before_manifest: copy_manifest(&self.before_manifest),
            intended_manifest: copy_manifest(&self.intended_manifest),
        }
    }
}

impl PreviewRecord {
    /// A preview with the same view.
    pub fn copy(&self) -> (r: PreviewRecord)
        ensures
            r@ == self@,
    {
        PreviewRecord {
            preview_id: self.preview_id.clone(),
            workspace_uri: self.workspace_uri.clone(),
            server: copy_opt(&self.server),
            session_identity: self.session_identity.clone(),
            position_encoding: self.position_encoding.clone(),
            expires_at: self.expires_at.clone(),
            source: self.source.copy(),
            summary: self.summary,
            edit: self.edit.copy(),
            command: copy_json(&self.command),
            annotations: self.annotations.copy(),
            plan: self.plan.copy(),
            preconditions: copy_manifest(&self.preconditions),
            conflicts: copy_problems(&self.conflicts),
            stale_reasons: copy_items(&self.stale_reasons),
            diff: copy_opt(&self.diff),
            reserved: self.reserved,
        }
    }
}

impl StoredPreview {
    /// A stored preview with the same view.
    pub fn copy(&self) -> (r: StoredPreview)
        ensures
            r@ == self@,
    {
        StoredPreview {
            format_version: self.format_version,
            created_unix_seconds: self.created_unix_seconds,
            expires_unix_seconds: self.expires_unix_seconds,
            workspace_path: self.workspace_path.duplicate(),
            authorization_digest: self.authorization_digest.clone(),
            recovery_manifest_digest: copy_opt(&self.recovery_manifest_digest),
            preview: self.preview.copy(),
        }
    }
}

impl ReceiptRecord {
    /// A receipt with the same view.
    pub fn copy(&self) -> (r: ReceiptRecord)
        ensures
            r@ == self@,
    {
        ReceiptRecord {
            receipt_id: self.receipt_id.clone(),
            kind: self.kind.clone(),
            transaction_id: self.transaction_id.clone(),
            workspace_uri: self.workspace_uri.clone(),
            server: copy_opt(&self.server),
            session_identity: copy_opt(&self.session_identity),
            preview_id: copy_opt(&self.preview_id),
            linked_receipt_id: copy_opt(&self.linked_receipt_id),
            preauthorized: self.preauthorized,
            started_at: self.started_at.clone(),
            completed_at: self.completed_at.clone(),
            outcome: self.outcome.clone(),
            filesystem_state: self.filesystem_state.clone(),
            summary: self.summary,
            before_manifest: copy_manifest(&self.before_manifest),
            intended_manifest: copy_manifest(&self.intended_manifest),
            observed_manifest: copy_manifest(&self.observed_manifest),
            session_synchronized: self.session_synchronized,
            cleanup_pending: self.cleanup_pending,
            durability: self.durability.copy(),
            manifest_digest: self.manifest_digest.clone(),
            failure_stage: copy_opt(&self.failure_stage),
            failed_change: self.failed_change,
        }
    }
}

impl StoredReceipt {
    /// A stored receipt with the same view.
    pub fn copy(&self) -> (r: StoredReceipt)
        ensures
            r@ == self@,
    {
        StoredReceipt {
            format_version: self.format_version,
            completed_unix_seconds: self.completed_unix_seconds,
            expires_unix_seconds: self.expires_unix_seconds,
            receipt: self.receipt.copy(),
        }
    }
}

impl TransactionRecord {
    /// A journal with the same view.
    pub fn copy(&self) -> (r: TransactionRecord)
        ensures
            r@ == self@,
    {
        TransactionRecord {
            format_version: self.format_version,
            transaction_id: self.transaction_id.clone(),
            preview_id: self.preview_id.clone(),
            receipt_id: self.receipt_id.clone(),
            workspace_path: self.workspace_path.duplicate(),
            workspace_uri: self.workspace_uri.clone(),
            state: self.state,
            started_at: self.started_at.clone(),
            artifact_directory: self.artifact_directory.duplicate(),
            backups: copy_backups(&self.backups),
            operations: copy_operations(&self.operations),
            before_manifest: copy_manifest(&self.before_manifest),
            intended_manifest: copy_manifest(&self.intended_manifest),
            observed_manifest: copy_manifest(&self.observed_manifest),
            manifest_digest: self.manifest_digest.clone(),
            cleanup_pending: self.cleanup_pending,
        }
    }
}

} // verus!
