//! The reports of recoveries, and the receipts that they leave.

use vstd::prelude::*;

use crate::failure::{ContractFailure, FailureView, failed, failure};
use crate::json::{Json, JsonView, array_view, object1, object2, object3, object4, object_view, push_field, text_value};
use crate::manifest::{
    ManifestEntry,
    ManifestView,
    copy_manifest,
    manifest_digest,
    manifest_digest_of,
    manifests_json,
    manifests_to_json,
};
use crate::path::path_text;
use crate::plan::PreviewSummary;
use crate::records::{
    ReceiptRecord,
    ReceiptView,
    StoredPreview,
    StoredPreviewView,
    TransactionRecord,
    TransactionView,
};
use crate::reports::{durability_json, durability_value};
use crate::text::{copy_opt, opt_view, views};

verus! {

/// The failure of rolling back what only waits to be cleaned up.
pub open spec fn cleanup_only_failed(transaction_id: Seq<char>) -> FailureView {
    failed(
        7,
        "recovery"@,
        "recovery_not_found"@,
        "A cleanup-only transaction cannot be rolled back."@,
        "recover"@,
        "not_applicable"@,
        "never"@,
        JsonView::Object(seq![("transactionId"@, JsonView::Text(transaction_id))]),
    )
}

/// The failure of rolling back what only waits to be cleaned up.
pub fn cleanup_only_failure(transaction_id: &str) -> (r: ContractFailure)
    ensures
        r@ == cleanup_only_failed(transaction_id@),
{
    failure(
        7,
        "recovery",
        "recovery_not_found",
        "A cleanup-only transaction cannot be rolled back.",
        "recover",
        "not_applicable",
        "never",
        object1("transactionId", text_value(transaction_id)),
    )
}

/// The failure of a recovery of another manifest than the journal's.
pub open spec fn digest_mismatch_failed(
    transaction_id: Seq<char>,
    expected: Seq<char>,
    actual: Seq<char>,
) -> FailureView {
    failed(
        7,
        "recovery"@,
        "recovery_manifest_mismatch"@,
        "The supplied Recovery manifest digest does not match the journal."@,
        "recover"@,
        "not_applicable"@,
        "after_change"@,
        JsonView::Object(
            seq![
                ("actualDigest"@, JsonView::Text(actual)),
                ("expectedDigest"@, JsonView::Text(expected)),
                ("transactionId"@, JsonView::Text(transaction_id)),
            ],
        ),
    )
}

/// The failure of a recovery of another manifest than the journal's.
pub fn digest_mismatch_failure(transaction_id: &str, expected: &str, actual: &str) -> (r: ContractFailure)
    ensures
        r@ == digest_mismatch_failed(transaction_id@, expected@, actual@),
{
    failure(
        7,
        "recovery",
        "recovery_manifest_mismatch",
        "The supplied Recovery manifest digest does not match the journal.",
        "recover",
        "not_applicable",
        "after_change",
        object3(
            "actualDigest",
            text_value(actual),
            "expectedDigest",
            text_value(expected),
            "transactionId",
            text_value(transaction_id),
        ),
    )
}

/// The paths of a manifest, in JSON.
pub open spec fn paths_json(list: Seq<ManifestView>) -> JsonView {
    JsonView::Array(Seq::new(list.len(), |i: int| JsonView::Text(path_text(list[i].path))))
}

fn paths_value(list: &Vec<ManifestEntry>) -> (r: Json)
    ensures
        r@ == paths_json(views(list@)),
{
    let mut paths: Vec<Json> = Vec::new();
    let mut i: usize = 0;
    while i < list.len()
        invariant
            i <= list@.len(),
            paths@.len() == i,
            forall|j: int| 0 <= j < i ==> (#[trigger] paths@[j])@ == JsonView::Text(path_text(list@[j].path@)),
        decreases list.len() - i,
    {
        paths.push(Json::Text(list[i].path.to_text()));
        i += 1;
    }
    assert(array_view(paths@) =~= paths_json(views(list@))->Array_0);
    Json::Array(paths)
}

/// The failure of a recovery of what changed since it was recorded.
pub open spec fn conflict_failed(
    transaction_id: Seq<char>,
    recorded: Seq<ManifestView>,
    current: Seq<ManifestView>,
) -> FailureView {
    failed(
        7,
        "recovery"@,
        "recovery_conflict"@,
        "The filesystem changed after Recovery was recorded."@,
        "recover"@,
        "not_applicable"@,
        "after_change"@,
        JsonView::Object(
            seq![
                ("intended"@, manifests_json(recorded)),
                ("observed"@, manifests_json(current)),
                ("paths"@, paths_json(current)),
                ("transactionId"@, JsonView::Text(transaction_id)),
            ],
        ),
    )
}

/// The failure of a recovery of what changed since it was recorded.
pub fn conflict_failure(transaction_id: &str, recorded: &Vec<ManifestEntry>, current: &Vec<ManifestEntry>) -> (r:
    ContractFailure)
    ensures
        r@ == conflict_failed(transaction_id@, views(recorded@), views(current@)),
{
    failure(
        7,
        "recovery",
        "recovery_conflict",
        "The filesystem changed after Recovery was recorded.",
        "recover",
        "not_applicable",
        "after_change",
        object4(
            "intended",
            manifests_to_json(recorded),
            "observed",
            manifests_to_json(current),
            "paths",
            paths_value(current),
            "transactionId",
            text_value(transaction_id),
        ),
    )
}

/// The failure of a recovery that could not restore what was there.
pub open spec fn restore_failed(
    transaction_id: Seq<char>,
    stage: Seq<char>,
    intended: Seq<ManifestView>,
    observed: Seq<ManifestView>,
) -> FailureView {
    failed(
        7,
        "recovery"@,
        "recovery_failed"@,
        "Recovery rollback could not restore the recorded filesystem state."@,
        "recover"@,
        "not_applicable"@,
        "after_change"@,
        JsonView::Object(
            seq![
                ("failureStage"@, JsonView::Text(stage)),
                ("intended"@, manifests_json(intended)),
                ("observed"@, manifests_json(observed)),
                ("transactionId"@, JsonView::Text(transaction_id)),
            ],
        ),
    )
}

/// The failure of a recovery that could not restore what was there.
pub fn restore_failure(
    transaction_id: &str,
    stage: &str,
    intended: &Vec<ManifestEntry>,
    observed: &Vec<ManifestEntry>,
) -> (r: ContractFailure)
    ensures
        r@ == restore_failed(transaction_id@, stage@, views(intended@), views(observed@)),
{
    failure(
        7,
        "recovery",
        "recovery_failed",
        "Recovery rollback could not restore the recorded filesystem state.",
        "recover",
        "not_applicable",
        "after_change",
        object4(
            "failureStage",
            text_value(stage),
            "intended",
            manifests_to_json(intended),
            "observed",
            manifests_to_json(observed),
            "transactionId",
            text_value(transaction_id),
        ),
    )
}

/// The failure of a recovery whose artifacts could not be cleaned up.
pub open spec fn artifacts_failed(transaction_id: Seq<char>, stage: Seq<char>) -> FailureView {
    failed(
        7,
        "recovery"@,
        "recovery_failed"@,
        "Recovery completed but its protected artifacts could not be cleaned up."@,
        "recover"@,
        "not_applicable"@,
        "after_change"@,
        JsonView::Object(
            seq![
                ("failureStage"@, JsonView::Text(stage)),
                ("transactionId"@, JsonView::Text(transaction_id)),
            ],
        ),
    )
}

/// The failure of a recovery whose artifacts could not be cleaned up.
pub fn artifacts_failure(transaction_id: &str, stage: &str) -> (r: ContractFailure)
    ensures
        r@ == artifacts_failed(transaction_id@, stage@),
{
    failure(
        7,
        "recovery",
        "recovery_failed",
        "Recovery completed but its protected artifacts could not be cleaned up.",
        "recover",
        "not_applicable",
        "after_change",
        object2("failureStage", text_value(stage), "transactionId", text_value(transaction_id)),
    )
}

/// What a recovery leaves the files as.
pub open spec fn state_after(accept_current: bool) -> Seq<char> {
    if accept_current {
        "changed"@
    } else {
        "unchanged"@
    }
}

fn state_name(accept_current: bool) -> (r: &'static str)
    ensures
        r@ == state_after(accept_current),
{
    if accept_current {
        "changed"
    } else {
        "unchanged"
    }
}

/// What a recovery is reported to have come to.
pub open spec fn outcome_of(accept_current: bool) -> Seq<char> {
    if accept_current {
        "accepted_current"@
    } else {
        "restored"@
    }
}

fn outcome_name(accept_current: bool) -> (r: &'static str)
    ensures
        r@ == outcome_of(accept_current),
{
    if accept_current {
        "accepted_current"
    } else {
        "restored"
    }
}

/// The summary of nothing.
pub open spec fn no_changes() -> PreviewSummary {
    PreviewSummary { files_changed: 0, text_edits: 0, creates: 0, renames: 0, deletes: 0 }
}

/// The receipt of a recovery. What the receipt of the application says goes
/// before what the preview says.
pub open spec fn recovery_receipt_of(
    t: TransactionView,
    transaction_id: Seq<char>,
    receipt_id: Seq<char>,
    accept_current: bool,
    original: Option<ReceiptView>,
    pending: Option<StoredPreviewView>,
    final_manifest: Seq<ManifestView>,
    started_at: Seq<char>,
    completed_at: Seq<char>,
    directories_flush: bool,
) -> ReceiptView {
    ReceiptView {
        receipt_id,
        kind: "recovery_receipt"@,
        transaction_id,
        workspace_uri: t.workspace_uri,
        server: match (original, pending) {
            (Some(o), _) if o.server is Some => o.server,
            (_, Some(p)) => p.preview.server,
            _ => None,
        },
        session_identity: match (original, pending) {
            (Some(o), _) if o.session_identity is Some => o.session_identity,
            (_, Some(p)) => Some(p.preview.session_identity),
            _ => None,
        },
        preview_id: match original {
            Some(o) if o.preview_id is Some => o.preview_id,
            _ => Some(t.preview_id),
        },
        linked_receipt_id: match original {
            Some(o) => Some(o.receipt_id),
            None => None,
        },
        preauthorized: false,
        started_at,
        completed_at,
        outcome: outcome_of(accept_current),
        filesystem_state: state_after(accept_current),
        summary: match (original, pending) {
            (Some(o), _) => o.summary,
            (None, Some(p)) => p.preview.summary,
            (None, None) => no_changes(),
        },
        before_manifest: t.observed_manifest,
        intended_manifest: final_manifest,
        observed_manifest: final_manifest,
        session_synchronized: false,
        cleanup_pending: false,
        durability: durability_json(directories_flush),
        manifest_digest: manifest_digest_of(final_manifest),
        failure_stage: None,
        failed_change: None,
    }
}

/// The receipt of a recovery. What the receipt of the application says goes
/// before what the preview says.
pub fn recovery_receipt(
    t: &TransactionRecord,
    transaction_id: &str,
    receipt_id: &str,
    accept_current: bool,
    original: &Option<ReceiptRecord>,
    pending: &Option<StoredPreview>,
    final_manifest: &Vec<ManifestEntry>,
    started_at: String,
    completed_at: String,
    directories_flush: bool,
) -> (r: ReceiptRecord)
    ensures
        r@ == recovery_receipt_of(
            t@,
            transaction_id@,
            receipt_id@,
            accept_current,
            opt_view(*original),
            opt_view(*pending),
            views(final_manifest@),
            started_at@,
            completed_at@,
            directories_flush,
        ),
{
    let mut server: Option<String> = None;
    let mut session_identity: Option<String> = None;
    let mut preview_id: Option<String> = None;
    let mut linked: Option<String> = None;
    let mut summary = PreviewSummary { files_changed: 0, text_edits: 0, creates: 0, renames: 0, deletes: 0 };
    if let Some(p) = pending {
        server = copy_opt(&p.preview.server);
        session_identity = Some(p.preview.session_identity.clone());
        summary = p.preview.summary;
    }
    if let Some(o) = original {
        if o.server.is_some() {
            server = copy_opt(&o.server);
        }
        if o.session_identity.is_some() {
            session_identity = copy_opt(&o.session_identity);
        }
        preview_id = copy_opt(&o.preview_id);
        linked = Some(o.receipt_id.clone());
        summary = o.summary;
    }
    if preview_id.is_none() {
        preview_id = Some(t.preview_id.clone());
    }
    ReceiptRecord {
        receipt_id: receipt_id.to_owned(),
        kind: "recovery_receipt".to_owned(),
        transaction_id: transaction_id.to_owned(),
        workspace_uri: t.workspace_uri.clone(),
        server,
        session_identity,
        preview_id,
        linked_receipt_id: linked,
        preauthorized: false,
        started_at,
        completed_at,
        outcome: outcome_name(accept_current).to_owned(),
        filesystem_state: state_name(accept_current).to_owned(),
        summary,
        before_manifest: copy_manifest(&t.observed_manifest),
        intended_manifest: copy_manifest(final_manifest),
        observed_manifest: copy_manifest(final_manifest),
        session_synchronized: false,
        cleanup_pending: false,
        durability: durability_value(directories_flush),
        manifest_digest: manifest_digest(final_manifest),
        failure_stage: None,
        failed_change: None,
    }
}

/// The command of a recovery.
pub open spec fn recovery_command(accept_current: bool) -> Seq<JsonView> {
    seq![
        JsonView::Text("recovery"@),
        JsonView::Text(if accept_current { "accept-current"@ } else { "rollback"@ }),
    ]
}

/// What a recovery came to.
pub open spec fn recovery_result(
    transaction_id: Seq<char>,
    receipt_id: Seq<char>,
    accept_current: bool,
    final_manifest: Seq<ManifestView>,
) -> JsonView {
    JsonView::Object(
        seq![
            ("cleanupPending"@, JsonView::Bool(false)),
            ("filesystemState"@, JsonView::Text(state_after(accept_current))),
            ("manifestDigest"@, JsonView::Text(manifest_digest_of(final_manifest))),
            ("recoveryReceiptId"@, JsonView::Text(receipt_id)),
            ("transactionId"@, JsonView::Text(transaction_id)),
        ],
    )
}

/// The report of a recovery.
pub open spec fn recovery_report_json(
    transaction_id: Seq<char>,
    receipt_id: Seq<char>,
    accept_current: bool,
    final_manifest: Seq<ManifestView>,
) -> JsonView {
    JsonView::Object(
        seq![
            ("command"@, JsonView::Array(recovery_command(accept_current))),
            ("ok"@, JsonView::Bool(true)),
            ("outcome"@, JsonView::Text(outcome_of(accept_current))),
            ("result"@, recovery_result(transaction_id, receipt_id, accept_current, final_manifest)),
            ("schemaVersion"@, JsonView::Int(1)),
        ],
    )
}

/// The report of a recovery.
pub fn recovery_report(
    transaction_id: &str,
    receipt_id: &str,
    accept_current: bool,
    final_manifest: &Vec<ManifestEntry>,
) -> (r: Json)
    ensures
        r@ == recovery_report_json(transaction_id@, receipt_id@, accept_current, views(final_manifest@)),
{
    let mut result: Vec<(String, Json)> = Vec::new();
    assert(object_view(result@) =~= seq![]);
    push_field(&mut result, "cleanupPending", Json::Bool(false));
    push_field(&mut result, "filesystemState", text_value(state_name(accept_current)));
    push_field(&mut result, "manifestDigest", Json::Text(manifest_digest(final_manifest)));
    push_field(&mut result, "recoveryReceiptId", text_value(receipt_id));
    push_field(&mut result, "transactionId", text_value(transaction_id));
    assert(object_view(result@) =~= recovery_result(
        transaction_id@,
        receipt_id@,
        accept_current,
        views(final_manifest@),
    )->Object_0);
    let mut command: Vec<Json> = Vec::new();
    command.push(text_value("recovery"));
    command.push(text_value(if accept_current { "accept-current" } else { "rollback" }));
    assert(array_view(command@) =~= recovery_command(accept_current));
    let mut o: Vec<(String, Json)> = Vec::new();
    assert(object_view(o@) =~= seq![]);
    push_field(&mut o, "command", Json::Array(command));
    push_field(&mut o, "ok", Json::Bool(true));
    push_field(&mut o, "outcome", text_value(outcome_name(accept_current)));
    push_field(&mut o, "result", Json::Object(result));
    push_field(&mut o, "schemaVersion", Json::Unsigned(1));
    assert(object_view(o@) =~= recovery_report_json(
        transaction_id@,
        receipt_id@,
        accept_current,
        views(final_manifest@),
    )->Object_0);
    Json::Object(o)
}

} // verus!
