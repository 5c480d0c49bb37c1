//! The reports of applications and recoveries.

use vstd::prelude::*;

use crate::checks::{manifest_is_directory, records_directory};
use crate::failure::{ContractFailure, FailureView, failed, failure};
use crate::json::{
    Json,
    JsonView,
    array_view,
    object1,
    object2,
    object3,
    object4,
    object_view,
    opt_text_value,
    opt_text_view,
    push_field,
    text_value,
};
use crate::manifest::{ManifestEntry, ManifestView, manifests_json, manifests_to_json};
use crate::plan::{CanonicalOperation, CanonicalPlan, OperationView, PlanView, ProblemView, WorkspaceEditProblem};
use crate::position::PositionEncoding;
use crate::records::{ReceiptRecord, ReceiptView, TransactionRecord, TransactionView};
use crate::text::{same, views};

verus! {

/// A list of texts in JSON.
pub open spec fn texts_json(list: Seq<Seq<char>>) -> JsonView {
    JsonView::Array(Seq::new(list.len(), |i: int| JsonView::Text(list[i])))
}

/// The failure of an application whose caller gave up before anything was
/// carried out.
pub open spec fn cancelled_failure(preview_id: Seq<char>) -> FailureView {
    failed(
        6,
        "mutation"@,
        "application_cancelled"@,
        "The caller deadline expired before Application commit began."@,
        "lock_workspace"@,
        "not_applicable"@,
        "safe"@,
        JsonView::Object(seq![("previewId"@, JsonView::Text(preview_id))]),
    )
}

/// The failure of an application whose caller gave up before anything was
/// carried out.
pub fn application_cancelled(preview_id: &str) -> (r: ContractFailure)
    ensures
        r@ == cancelled_failure(preview_id@),
{
    failure(
        6,
        "mutation",
        "application_cancelled",
        "The caller deadline expired before Application commit began.",
        "lock_workspace",
        "not_applicable",
        "safe",
        object1("previewId", text_value(preview_id)),
    )
}

/// The failure of an application of a preview that no longer fits.
pub open spec fn stale_failure(
    message: Seq<char>,
    preview_id: Seq<char>,
    reasons: Seq<JsonView>,
    preconditions: Seq<ManifestView>,
) -> FailureView {
    failed(
        6,
        "mutation"@,
        "preview_stale"@,
        message,
        "reserve"@,
        "not_applicable"@,
        "after_change"@,
        JsonView::Object(
            seq![
                ("preconditions"@, manifests_json(preconditions)),
                ("previewId"@, JsonView::Text(preview_id)),
                ("reasons"@, JsonView::Array(reasons)),
            ],
        ),
    )
}

/// The failure of an application of a preview that no longer fits.
pub fn preview_stale_failure(
    message: &str,
    preview_id: &str,
    reasons: Vec<Json>,
    preconditions: &Vec<ManifestEntry>,
) -> (r: ContractFailure)
    ensures
        r@ == stale_failure(message@, preview_id@, array_view(reasons@), views(preconditions@)),
{
    failure(
        6,
        "mutation",
        "preview_stale",
        message,
        "reserve",
        "not_applicable",
        "after_change",
        object3(
            "preconditions",
            manifests_to_json(preconditions),
            "previewId",
            text_value(preview_id),
            "reasons",
            Json::Array(reasons),
        ),
    )
}

/// The failure of everything that has to wait for a recovery.
pub open spec fn recovery_failure(t: TransactionView) -> FailureView {
    failed(
        7,
        "recovery"@,
        "recovery_required"@,
        "Workspace Recovery is required before another Application can run."@,
        "recover"@,
        "not_applicable"@,
        "after_change"@,
        JsonView::Object(
            seq![
                ("intended"@, manifests_json(t.intended_manifest)),
                ("manifestDigest"@, JsonView::Text(t.manifest_digest)),
                ("observed"@, manifests_json(t.observed_manifest)),
                ("receiptId"@, JsonView::Text(t.receipt_id)),
                ("transactionId"@, JsonView::Text(t.transaction_id)),
            ],
        ),
    )
}

/// The failure of everything that has to wait for a recovery.
pub fn recovery_required_failure(t: &TransactionRecord) -> (r: ContractFailure)
    ensures
        r@ == recovery_failure(t@),
{
    let mut o: Vec<(String, Json)> = Vec::new();
    assert(object_view(o@) =~= seq![]);
    push_field(&mut o, "intended", manifests_to_json(&t.intended_manifest));
    push_field(&mut o, "manifestDigest", text_value(t.manifest_digest.as_str()));
    push_field(&mut o, "observed", manifests_to_json(&t.observed_manifest));
    push_field(&mut o, "receiptId", text_value(t.receipt_id.as_str()));
    push_field(&mut o, "transactionId", text_value(t.transaction_id.as_str()));
    assert(object_view(o@) =~= recovery_failure(t@).data->Object_0);
    failure(
        7,
        "recovery",
        "recovery_required",
        "Workspace Recovery is required before another Application can run.",
        "recover",
        "not_applicable",
        "after_change",
        Json::Object(o),
    )
}

/// The transaction that corrupt evidence names.
pub open spec fn evidence_transaction(evidence: JsonView) -> Seq<char> {
    match evidence.text_at("transactionId"@) {
        Some(id) => id,
        None => "txn_00000000000000000000000000000000"@,
    }
}

/// The transaction that corrupt evidence names.
pub fn transaction_id_from_evidence(evidence: &Json) -> (r: String)
    ensures
        r@ == evidence_transaction(evidence@),
{
    match evidence.text_at("transactionId") {
        Some(id) => id.clone(),
        None => "txn_00000000000000000000000000000000".to_owned(),
    }
}

/// A field of a value, or null.
pub open spec fn field_or_null(value: JsonView, key: Seq<char>) -> JsonView {
    match value.get(key) {
        Some(v) => v,
        None => JsonView::Null,
    }
}

/// A field of a value, or null.
pub fn copy_field(value: &Json, key: &str) -> (r: Json)
    ensures
        r@ == field_or_null(value@, key@),
{
    match value.get(key) {
        Some(v) => v.copy(),
        None => Json::Null,
    }
}

/// The failure of an application that corrupt evidence stands against.
pub open spec fn evidence_failure(evidence: JsonView) -> FailureView {
    failed(
        7,
        "recovery"@,
        "recovery_evidence_invalid"@,
        "Corrupt Recovery evidence blocks Workspace Application."@,
        "recover"@,
        "not_applicable"@,
        "never"@,
        JsonView::Object(
            seq![
                ("problems"@, field_or_null(evidence, "problems"@)),
                ("transactionId"@, JsonView::Text(evidence_transaction(evidence))),
            ],
        ),
    )
}

/// The failure of an application that corrupt evidence stands against.
pub fn evidence_invalid_failure(evidence: &Json) -> (r: ContractFailure)
    ensures
        r@ == evidence_failure(evidence@),
{
    failure(
        7,
        "recovery",
        "recovery_evidence_invalid",
        "Corrupt Recovery evidence blocks Workspace Application.",
        "recover",
        "not_applicable",
        "never",
        object2(
            "problems",
            copy_field(evidence, "problems"),
            "transactionId",
            Json::Text(transaction_id_from_evidence(evidence)),
        ),
    )
}

/// The codes of problems.
pub open spec fn problem_codes(problems: Seq<ProblemView>) -> Seq<Seq<char>> {
    Seq::new(problems.len(), |i: int| problems[i].code)
}

/// The failure of an application on a filesystem that cannot be relied on.
pub open spec fn unsupported_failure(workspace_uri: Seq<char>, problems: Seq<ProblemView>) -> FailureView {
    failed(
        3,
        "blocked"@,
        "unsupported_filesystem"@,
        "The Workspace filesystem cannot provide required Mutation safety guarantees."@,
        "validate_mutation"@,
        "not_applicable"@,
        "after_change"@,
        JsonView::Object(
            seq![
                ("missingCapabilities"@, texts_json(problem_codes(problems))),
                ("workspaceUri"@, JsonView::Text(workspace_uri)),
            ],
        ),
    )
}

/// The failure of an application on a filesystem that cannot be relied on.
pub fn unsupported_filesystem_failure(workspace_uri: &str, problems: &Vec<WorkspaceEditProblem>) -> (r: ContractFailure)
    ensures
        r@ == unsupported_failure(workspace_uri@, views(problems@)),
{
    let mut codes: Vec<Json> = Vec::new();
    let mut i: usize = 0;
    while i < problems.len()
        invariant
            i <= problems@.len(),
            codes@.len() == i,
            forall|j: int| 0 <= j < i ==> (#[trigger] codes@[j])@ == JsonView::Text(problems@[j].code@),
        decreases problems.len() - i,
    {
        codes.push(text_value(problems[i].code.as_str()));
        i += 1;
    }
    assert(array_view(codes@) =~= texts_json(problem_codes(views(problems@)))->Array_0);
    failure(
        3,
        "blocked",
        "unsupported_filesystem",
        "The Workspace filesystem cannot provide required Mutation safety guarantees.",
        "validate_mutation",
        "not_applicable",
        "after_change",
        object2("missingCapabilities", Json::Array(codes), "workspaceUri", text_value(workspace_uri)),
    )
}

/// The failure of an application that was undone.
pub open spec fn rolled_back_failure(
    preview_id: Seq<char>,
    transaction_id: Seq<char>,
    restored: Seq<ManifestView>,
) -> FailureView {
    failed(
        6,
        "mutation"@,
        "rolled_back"@,
        "The Application failed and the pre-Application filesystem state was restored."@,
        "rollback"@,
        "not_applicable"@,
        "after_change"@,
        JsonView::Object(
            seq![
                ("failureStage"@, JsonView::Text("commit"@)),
                ("manifest"@, manifests_json(restored)),
                ("previewId"@, JsonView::Text(preview_id)),
                ("receiptId"@, JsonView::Text(preview_id)),
                ("transactionId"@, JsonView::Text(transaction_id)),
            ],
        ),
    )
}

/// The failure of an application that was undone.
pub fn report_rolled_back(preview_id: &str, transaction_id: &str, restored: &Vec<ManifestEntry>) -> (r: ContractFailure)
    ensures
        r@ == rolled_back_failure(preview_id@, transaction_id@, views(restored@)),
{
    let mut o: Vec<(String, Json)> = Vec::new();
    assert(object_view(o@) =~= seq![]);
    push_field(&mut o, "failureStage", text_value("commit"));
    push_field(&mut o, "manifest", manifests_to_json(restored));
    push_field(&mut o, "previewId", text_value(preview_id));
    push_field(&mut o, "receiptId", text_value(preview_id));
    push_field(&mut o, "transactionId", text_value(transaction_id));
    assert(object_view(o@) =~= rolled_back_failure(preview_id@, transaction_id@, views(restored@)).data->Object_0);
    failure(
        6,
        "mutation",
        "rolled_back",
        "The Application failed and the pre-Application filesystem state was restored.",
        "rollback",
        "not_applicable",
        "after_change",
        Json::Object(o),
    )
}

/// The report of an application.
pub open spec fn success_json(receipt: ReceiptView, outcome: Seq<char>) -> JsonView {
    JsonView::Object(
        seq![
            ("command"@, JsonView::Array(seq![JsonView::Text("apply"@)])),
            ("ok"@, JsonView::Bool(true)),
            ("outcome"@, JsonView::Text(outcome)),
            ("result"@, success_result(receipt, outcome)),
            ("schemaVersion"@, JsonView::Int(1)),
        ],
    )
}

/// What an application came to.
pub open spec fn success_result(receipt: ReceiptView, outcome: Seq<char>) -> JsonView {
    JsonView::Object(
        seq![
            ("cleanupPending"@, JsonView::Bool(receipt.cleanup_pending)),
            (
                "durability"@,
                JsonView::Object(
                    seq![("directoryFlush"@, field_or_null(receipt.durability, "directoryFlush"@))],
                ),
            ),
            ("filesystemState"@, JsonView::Text(receipt.filesystem_state)),
            ("manifest"@, manifests_json(receipt.observed_manifest)),
            ("outcome"@, JsonView::Text(outcome)),
            ("previewId"@, opt_text_view(receipt.preview_id)),
            ("receiptId"@, JsonView::Text(receipt.receipt_id)),
            ("sessionSynchronized"@, JsonView::Bool(receipt.session_synchronized)),
            ("state"@, JsonView::Text("terminal"@)),
            ("transactionId"@, JsonView::Text(receipt.transaction_id)),
        ],
    )
}

/// The report of an application.
pub fn application_success(receipt: &ReceiptRecord, outcome: &str) -> (r: Json)
    ensures
        r@ == success_json(receipt@, outcome@),
{
    let mut result: Vec<(String, Json)> = Vec::new();
    assert(object_view(result@) =~= seq![]);
    push_field(&mut result, "cleanupPending", Json::Bool(receipt.cleanup_pending));
    push_field(
        &mut result,
        "durability",
        object1("directoryFlush", copy_field(&receipt.durability, "directoryFlush")),
    );
    push_field(&mut result, "filesystemState", text_value(receipt.filesystem_state.as_str()));
    push_field(&mut result, "manifest", manifests_to_json(&receipt.observed_manifest));
    push_field(&mut result, "outcome", text_value(outcome));
    push_field(&mut result, "previewId", opt_text_value(receipt.preview_id.as_ref()));
    push_field(&mut result, "receiptId", text_value(receipt.receipt_id.as_str()));
    push_field(&mut result, "sessionSynchronized", Json::Bool(receipt.session_synchronized));
    push_field(&mut result, "state", text_value("terminal"));
    push_field(&mut result, "transactionId", text_value(receipt.transaction_id.as_str()));
    assert(object_view(result@) =~= success_result(receipt@, outcome@)->Object_0);
    let mut command: Vec<Json> = Vec::new();
    command.push(text_value("apply"));
    assert(array_view(command@) =~= seq![JsonView::Text("apply"@)]);
    let mut o: Vec<(String, Json)> = Vec::new();
    assert(object_view(o@) =~= seq![]);
    push_field(&mut o, "command", Json::Array(command));
    push_field(&mut o, "ok", Json::Bool(true));
    push_field(&mut o, "outcome", text_value(outcome));
    push_field(&mut o, "result", Json::Object(result));
    push_field(&mut o, "schemaVersion", Json::Unsigned(1));
    assert(object_view(o@) =~= success_json(receipt@, outcome@)->Object_0);
    Json::Object(o)
}

/// How far what was written is known to last.
pub open spec fn durability_json(directories_flush: bool) -> JsonView {
    JsonView::Object(
        seq![
            (
                "directoryFlush"@,
                JsonView::Text(if directories_flush { "complete"@ } else { "unsupported"@ }),
            ),
            ("fileFlush"@, JsonView::Text("complete"@)),
        ],
    )
}

/// How far what was written is known to last.
pub fn durability_value(directories_flush: bool) -> (r: Json)
    ensures
        r@ == durability_json(directories_flush),
{
    object2(
        "directoryFlush",
        text_value(if directories_flush { "complete" } else { "unsupported" }),
        "fileFlush",
        text_value("complete"),
    )
}

/// The encoding that a preview was made with.
pub open spec fn preview_encoding(name: Seq<char>) -> PositionEncoding {
    if name == "utf-16"@ {
        PositionEncoding::Utf16
    } else {
        PositionEncoding::Utf8
    }
}

/// The encoding that a preview was made with.
pub fn parse_position_encoding(value: &str) -> (r: PositionEncoding)
    ensures
        r == preview_encoding(value@),
{
    if same(value, "utf-16") {
        PositionEncoding::Utf16
    } else {
        PositionEncoding::Utf8
    }
}

/// What a server is told of an operation on a resource.
pub open spec fn file_operation_json(plan: PlanView, op: OperationView) -> Option<JsonView> {
    match op {
        OperationView::Text { index, uri, path, before_digest, after_digest, edits } => None,
        OperationView::Create { index, uri, path, overwrite, ignore_if_exists } => Some(
            JsonView::Object(
                seq![
                    ("isDirectory"@, JsonView::Bool(records_directory(plan.intended_manifest, path))),
                    ("kind"@, JsonView::Text("create"@)),
                    ("uri"@, JsonView::Text(uri)),
                ],
            ),
        ),
        OperationView::Rename { index, old_uri, new_uri, old_path, new_path, overwrite, ignore_if_exists } => Some(
            JsonView::Object(
                seq![
                    ("isDirectory"@, JsonView::Bool(records_directory(plan.intended_manifest, new_path))),
                    ("kind"@, JsonView::Text("rename"@)),
                    ("newUri"@, JsonView::Text(new_uri)),
                    ("oldUri"@, JsonView::Text(old_uri)),
                ],
            ),
        ),
        OperationView::Delete { index, uri, path, recursive, ignore_if_not_exists } => Some(
            JsonView::Object(
                seq![
                    ("isDirectory"@, JsonView::Bool(records_directory(plan.before_manifest, path))),
                    ("kind"@, JsonView::Text("delete"@)),
                    ("uri"@, JsonView::Text(uri)),
                ],
            ),
        ),
    }
}

/// What a server is told of the operations on resources.
pub open spec fn file_operations_json(plan: PlanView, ops: Seq<OperationView>) -> Seq<JsonView>
    decreases ops.len(),
{
    if ops.len() == 0 {
        Seq::empty()
    } else {
        let rest = file_operations_json(plan, ops.drop_last());
        match file_operation_json(plan, ops.last()) {
            Some(v) => rest.push(v),
            None => rest,
        }
    }
}

/// What a server is told of the operations on resources once they are carried
/// out.
pub fn post_commit_file_operations(plan: &CanonicalPlan) -> (r: Vec<Json>)
    ensures
        array_view(r@) == file_operations_json(plan@, plan@.operations),
{
    let ghost ops = plan@.operations;
    let mut r: Vec<Json> = Vec::new();
    let mut i: usize = 0;
    assert(array_view(r@) =~= file_operations_json(plan@, ops.take(0)));
    while i < plan.operations.len()
        invariant
            ops == views(plan.operations@),
            i <= plan.operations@.len(),
            array_view(r@) == file_operations_json(plan@, ops.take(i as int)),
        decreases plan.operations.len() - i,
    {
        proof {
            assert(ops.take(i + 1).drop_last() =~= ops.take(i as int));
            assert(ops.take(i + 1).last() == plan.operations@[i as int]@);
        }
        let ghost before = r@;
        let told: Option<Json> = match &plan.operations[i] {
            CanonicalOperation::Text {
                index: _,
                uri: _,
                path: _,
                before_digest: _,
                after_digest: _,
                edits: _,
            } => None,
            CanonicalOperation::Create { index: _, uri, path, overwrite: _, ignore_if_exists: _ } => Some(
                object3(
                    "isDirectory",
                    Json::Bool(manifest_is_directory(&plan.intended_manifest, path)),
                    "kind",
                    text_value("create"),
                    "uri",
                    text_value(uri.as_str()),
                ),
            ),
            CanonicalOperation::Rename {
                index: _,
                old_uri,
                new_uri,
                old_path: _,
                new_path,
                overwrite: _,
                ignore_if_exists: _,
            } => Some(
                object4(
                    "isDirectory",
                    Json::Bool(manifest_is_directory(&plan.intended_manifest, new_path)),
                    "kind",
                    text_value("rename"),
                    "newUri",
                    text_value(new_uri.as_str()),
                    "oldUri",
                    text_value(old_uri.as_str()),
                ),
            ),
            CanonicalOperation::Delete { index: _, uri, path, recursive: _, ignore_if_not_exists: _ } => Some(
                object3(
                    "isDirectory",
                    Json::Bool(manifest_is_directory(&plan.before_manifest, path)),
                    "kind",
                    text_value("delete"),
                    "uri",
                    text_value(uri.as_str()),
                ),
            ),
        };
        match told {
            Some(v) => {
                r.push(v);
                assert(array_view(r@) =~= array_view(before).push(v@));
            },
            None => {},
        }
        i += 1;
    }
    assert(ops.take(i as int) =~= ops);
    r
}

} // verus!
