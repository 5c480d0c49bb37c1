//! How records are filed, and what is said of those that do not fit.

use vstd::prelude::*;

use crate::application::JournalView;
use crate::checks::{
    membership_unbound,
    mismatch_code,
    mismatch_json,
    preview_mismatches,
    removes_tree_at,
    same_identity,
    some_removes_tree_at,
    unbound_reports,
};
use crate::digest::hex_text;
use crate::json::{JsonView, field, lemma_field_at, lemma_field_set};
use crate::manifest::{ManifestView, PathView, ResourceKind};
use crate::path::path_text;
use crate::plan::{OperationView, PlanView};
use crate::records::{MUTATION_STATE_VERSION, TransactionView};
use crate::reports::texts_json;
use crate::resource_digests::{ExtendedAttribute, attributes_json, identity_json, metadata_json};
use crate::state_ops::{journal_listed, may_hold};
use crate::state_prune::{prune_problem, rejected, unknown_name};
use crate::store::{
    FileView,
    busy_failed,
    capacity_failed,
    file_name,
    record_path,
    state_failed,
    state_folders,
    unknown_preview,
    unknown_receipt,
    unknown_recovery,
    version_failed,
};

verus! {

proof fn lemma_names()
    ensures
        "actualDigest"@.len() == 12,
        "code"@.len() == 4,
        "current"@.len() == 7,
        "device"@.len() == 6,
        "expectedDigest"@.len() == 14,
        "extendedAttributes"@.len() == 18,
        "foundVersion"@.len() == 12,
        "gid"@.len() == 3,
        "id"@.len() == 2,
        "inode"@.len() == 5,
        "kind"@.len() == 4,
        "limit"@.len() == 5,
        "message"@.len() == 7,
        "mode"@.len() == 4,
        "osCode"@.len() == 6,
        "path"@.len() == 4,
        "previewId"@.len() == 9,
        "problems"@.len() == 8,
        "protected"@.len() == 9,
        "prunableIds"@.len() == 11,
        "recordType"@.len() == 10,
        "required"@.len() == 8,
        "supportedVersions"@.len() == 17,
        "transactionId"@.len() == 13,
        "uid"@.len() == 3,
        "actualDigest"@ != "foundVersion"@,
        "code"@ != "kind"@,
        "code"@ != "mode"@,
        "code"@ != "path"@,
        "current"@ != "message"@,
        "device"@ != "osCode"@,
        "gid"@ != "uid"@,
        "inode"@ != "limit"@,
        "kind"@ != "mode"@,
        "kind"@ != "path"@,
        "mode"@ != "path"@,
        "previewId"@ != "protected"@,
        "problems"@ != "required"@,
{
    reveal_strlit("actualDigest");
    reveal_strlit("code");
    reveal_strlit("current");
    reveal_strlit("device");
    reveal_strlit("expectedDigest");
    reveal_strlit("extendedAttributes");
    reveal_strlit("foundVersion");
    reveal_strlit("gid");
    reveal_strlit("id");
    reveal_strlit("inode");
    reveal_strlit("kind");
    reveal_strlit("limit");
    reveal_strlit("message");
    reveal_strlit("mode");
    reveal_strlit("osCode");
    reveal_strlit("path");
    reveal_strlit("previewId");
    reveal_strlit("problems");
    reveal_strlit("protected");
    reveal_strlit("prunableIds");
    reveal_strlit("recordType");
    reveal_strlit("required");
    reveal_strlit("supportedVersions");
    reveal_strlit("transactionId");
    reveal_strlit("uid");
    assert("actualDigest"@[0] == 'a' && "foundVersion"@[0] == 'f');
    assert("code"@[0] == 'c' && "kind"@[0] == 'k');
    assert("code"@[0] == 'c' && "mode"@[0] == 'm');
    assert("code"@[0] == 'c' && "path"@[0] == 'p');
    assert("current"@[0] == 'c' && "message"@[0] == 'm');
    assert("device"@[0] == 'd' && "osCode"@[0] == 'o');
    assert("gid"@[0] == 'g' && "uid"@[0] == 'u');
    assert("inode"@[0] == 'i' && "limit"@[0] == 'l');
    assert("kind"@[0] == 'k' && "mode"@[0] == 'm');
    assert("kind"@[0] == 'k' && "path"@[0] == 'p');
    assert("mode"@[0] == 'm' && "path"@[0] == 'p');
    assert("previewId"@[2] == 'e' && "protected"@[2] == 'o');
    assert("problems"@[0] == 'p' && "required"@[0] == 'r');
}

/// What no longer fits is reported with its path, with what was expected and
/// with what stands, each under its own name.
pub proof fn law_mismatches_tell_then_and_now(expected: ManifestView, actual: ManifestView, code: Seq<char>)
    ensures
        mismatch_json(expected, actual, code).get("code"@) == Some(JsonView::Text(code)),
        mismatch_json(expected, actual, code).get("path"@) == Some(JsonView::Text(path_text(expected.path))),
        expected.content_digest matches Some(d) ==> mismatch_json(expected, actual, code).get("expectedDigest"@) == Some(
            JsonView::Text(d),
        ),
        expected.content_digest is None ==> mismatch_json(expected, actual, code).get("expectedDigest"@) == Some(
            JsonView::Null,
        ),
        actual.content_digest matches Some(d) ==> mismatch_json(expected, actual, code).get("actualDigest"@) == Some(
            JsonView::Text(d),
        ),
        actual.content_digest is None ==> mismatch_json(expected, actual, code).get("actualDigest"@) == Some(
            JsonView::Null,
        ),
{
    lemma_names();
    let o = mismatch_json(expected, actual, code)->Object_0;
    lemma_field_at(o, 0, "actualDigest"@);
    lemma_field_at(o, 1, "code"@);
    lemma_field_at(o, 2, "expectedDigest"@);
    lemma_field_at(o, 4, "path"@);
}

/// The first thing that does not fit is the one that is named: existence, then
/// kind, then identity, then content, then metadata.
pub proof fn law_first_mismatch_is_named(expected: ManifestView, actual: ManifestView)
    requires
        expected.exists == actual.exists,
        expected.resource_kind == actual.resource_kind,
    ensures
        expected.identity_digest is Some && expected.identity_digest != actual.identity_digest ==> mismatch_code(
            expected,
            actual,
        ) == Some("resource_identity"@),
        expected.identity_digest == actual.identity_digest && expected.content_digest is Some
            && expected.content_digest != actual.content_digest ==> mismatch_code(expected, actual) == Some(
            "resource_content"@,
        ),
        expected.identity_digest == actual.identity_digest && expected.content_digest == actual.content_digest
            && expected.metadata_digest is Some && expected.metadata_digest != actual.metadata_digest ==> mismatch_code(
            expected,
            actual,
        ) == Some("resource_metadata"@),
{
}

/// Two records show the same file where both are there, of one kind and of one
/// identity, whichever comes first.
pub proof fn law_files_are_told_by_identity(a: ManifestView, b: ManifestView)
    ensures
        same_identity(a, b) <==> same_identity(b, a),
        a.exists ==> same_identity(a, a),
        same_identity(a, b) ==> a.exists && b.exists && a.identity_digest == b.identity_digest && a.resource_kind
            == b.resource_kind,
        a.exists && b.exists && a.resource_kind == b.resource_kind && a.identity_digest == b.identity_digest
            ==> same_identity(a, b),
{
}

/// A tree is removed by deleting it or what is above it, by renaming it away,
/// and by renaming something over it.
pub proof fn law_trees_are_removed(op: OperationView, path: PathView)
    ensures
        op matches OperationView::Delete { index, uri, path: root, recursive, ignore_if_not_exists } ==> (
        removes_tree_at(op, path) <==> root.is_prefix_of(path)),
        op matches OperationView::Rename {
            index,
            old_uri,
            new_uri,
            old_path,
            new_path,
            overwrite,
            ignore_if_exists,
        } ==> {
            &&& old_path.is_prefix_of(path) ==> removes_tree_at(op, path)
            &&& overwrite && new_path.is_prefix_of(path) ==> removes_tree_at(op, path)
            &&& !overwrite && !old_path.is_prefix_of(path) ==> !removes_tree_at(op, path)
        },
        op is Text || op is Create ==> !removes_tree_at(op, path),
{
}

/// A plan that removes a directory without knowing its members does not fit,
/// whatever stands.
pub proof fn law_unknown_members_do_not_fit(plan: PlanView, actual: Seq<ManifestView>, i: int, k: int)
    requires
        0 <= i < plan.before_manifest.len(),
        0 <= k < plan.operations.len(),
        plan.before_manifest[i].exists,
        plan.before_manifest[i].resource_kind == ResourceKind::Directory,
        plan.before_manifest[i].content_digest is None,
        removes_tree_at(plan.operations[k], plan.before_manifest[i].path),
    ensures
        preview_mismatches(plan, actual).len() > 0,
{
    assert(some_removes_tree_at(plan.operations, plan.before_manifest[i].path));
    assert(membership_unbound(plan.before_manifest[i], plan.operations));
    lemma_unbound(plan.before_manifest, plan.operations, i);
}

proof fn lemma_unbound(before: Seq<ManifestView>, ops: Seq<OperationView>, i: int)
    requires
        0 <= i < before.len(),
        membership_unbound(before[i], ops),
    ensures
        unbound_reports(before, ops).len() > 0,
    decreases before.len(),
{
    if i < before.len() - 1 {
        assert(before.drop_last()[i] == before[i]);
        lemma_unbound(before.drop_last(), ops, i);
    } else {
        assert(before.last() == before[i]);
    }
}

/// Each record has a place of its own, below the folder of its kind.
pub proof fn law_records_have_their_own_place(root: PathView, a: Seq<char>, b: Seq<char>, i: Seq<char>, j: Seq<char>)
    ensures
        record_path(root, a, i) == record_path(root, b, j) ==> a == b && i == j,
        record_path(root, a, i).drop_last() == root.push(a),
        file_name(i) == i + ".json"@,
{
    let x = record_path(root, a, i);
    let y = record_path(root, b, j);
    let n = root.len() as int;
    assert(x.drop_last() =~= root.push(a));
    assert(x[n] == a && y[n] == b);
    assert(x[n + 1] == i + ".json"@ && y[n + 1] == j + ".json"@);
    assert((i + ".json"@).take(i.len() as int) =~= i);
    assert((j + ".json"@).take(j.len() as int) =~= j);
    if x == y {
        assert(i.len() == j.len());
    }
}

/// Previews, receipts, transactions and locks are kept in folders of their own
/// below one root.
pub proof fn law_folders_lie_below_the_root(root: PathView, i: int)
    requires
        0 < i < state_folders(root).len(),
    ensures
        state_folders(root)[0] == root,
        state_folders(root)[i].drop_last() == root,
        state_folders(root).contains(root.push("previews"@)),
        state_folders(root).contains(root.push("receipts"@)),
        state_folders(root).contains(root.push("transactions"@)),
        state_folders(root).contains(root.push("locks"@)),
{
    let folders = state_folders(root);
    assert(folders[i].drop_last() =~= root);
    assert(folders[1] == root.push("previews"@));
    assert(folders[2] == root.push("receipts"@));
    assert(folders[3] == root.push("transactions"@));
    assert(folders[4] == root.push("locks"@));
}

/// A journal of the version that is read is listed as it is; any other and one
/// that cannot be read is listed as corrupt, and protected.
pub proof fn law_journals_are_listed(root: PathView, f: FileView<TransactionView>)
    ensures
        f.content matches Ok(t) ==> t.format_version == MUTATION_STATE_VERSION ==> journal_listed(root, f)
            == JournalView::Record(t),
        f.content matches Ok(t) ==> t.format_version != MUTATION_STATE_VERSION ==> journal_listed(root, f) is Corrupt,
        f.content is Err ==> journal_listed(root, f) is Corrupt,
        journal_listed(root, f) matches JournalView::Corrupt(evidence) ==> evidence.get("kind"@) == Some(
            JsonView::Text("corrupt"@),
        ) && evidence.get("protected"@) == Some(JsonView::Bool(true)) && evidence.get("path"@) == Some(
            JsonView::Text(path_text(record_path(root, "transactions"@, f.id))),
        ),
{
    lemma_names();
    if let JournalView::Corrupt(evidence) = journal_listed(root, f) {
        let o = evidence->Object_0;
        lemma_field_at(o, 0, "kind"@);
        lemma_field_at(o, 1, "path"@);
        lemma_field_at(o, 3, "protected"@);
    }
}

/// A preview may be held by the journals that name it, and by every one that
/// cannot be read.
pub proof fn law_previews_are_held_by_their_journals(t: TransactionView, evidence: JsonView, preview_id: Seq<char>)
    ensures
        may_hold(JournalView::Record(t), preview_id) <==> t.preview_id == preview_id,
        may_hold(JournalView::Corrupt(evidence), preview_id),
{
}

/// Where there is no room, it is said how much there is, how much is taken,
/// how much is needed, and what could be removed.
pub proof fn law_missing_room_is_reported(
    record_type: Seq<char>,
    limit: u64,
    current: u64,
    required: u64,
    prunable: Seq<Seq<char>>,
)
    ensures
        ({
            let f = capacity_failed(record_type, limit, current, required, prunable);
            &&& f.code == "state_capacity_exceeded"@
            &&& f.data.get("recordType"@) == Some(JsonView::Text(record_type))
            &&& f.data.get("limit"@) == Some(JsonView::Int(limit as int))
            &&& f.data.get("current"@) == Some(JsonView::Int(current as int))
            &&& f.data.get("required"@) == Some(JsonView::Int(required as int))
            &&& f.data.get("prunableIds"@) == Some(texts_json(prunable))
        }),
{
    lemma_names();
    let o = capacity_failed(record_type, limit, current, required, prunable).data->Object_0;
    lemma_field_at(o, 0, "current"@);
    lemma_field_at(o, 1, "limit"@);
    lemma_field_at(o, 2, "prunableIds"@);
    lemma_field_at(o, 3, "recordType"@);
    lemma_field_at(o, 4, "required"@);
}

/// A record that cannot be kept or read is named, with what the system says
/// where it says something.
pub proof fn law_failing_records_are_named(
    record_type: Seq<char>,
    path: Seq<char>,
    message: Seq<char>,
    code: i32,
    version: u32,
)
    ensures
        state_failed(record_type, path, message, Some(code)).data.get("osCode"@) == Some(JsonView::Int(code as int)),
        state_failed(record_type, path, message, Some(code)).data.get("path"@) == Some(JsonView::Text(path)),
        state_failed(record_type, path, message, Some(code)).data.get("recordType"@) == Some(
            JsonView::Text(record_type),
        ),
        state_failed(record_type, path, message, None).data.get("path"@) == Some(JsonView::Text(path)),
        state_failed(record_type, path, message, None).message == message,
        state_failed(record_type, path, message, None).code == "state_unavailable"@,
        version_failed(record_type, path, version).code == "stored_state_version_unsupported"@,
        version_failed(record_type, path, version).data.get("foundVersion"@) == Some(JsonView::Int(version as int)),
        version_failed(record_type, path, version).data.get("path"@) == Some(JsonView::Text(path)),
        version_failed(record_type, path, version).data.get("recordType"@) == Some(JsonView::Text(record_type)),
{
    lemma_names();
    let a = state_failed(record_type, path, message, Some(code)).data->Object_0;
    assert(a =~= seq![
        ("osCode"@, JsonView::Int(code as int)),
        ("path"@, JsonView::Text(path)),
        ("recordType"@, JsonView::Text(record_type)),
    ]);
    lemma_field_at(a, 0, "osCode"@);
    lemma_field_at(a, 1, "path"@);
    lemma_field_at(a, 2, "recordType"@);
    let b = state_failed(record_type, path, message, None).data->Object_0;
    lemma_field_at(b, 0, "path"@);
    let c = version_failed(record_type, path, version).data->Object_0;
    lemma_field_at(c, 0, "foundVersion"@);
    lemma_field_at(c, 1, "path"@);
    lemma_field_at(c, 2, "recordType"@);
}

/// What is unknown or held is named, and whether to try again is said: what is
/// held may be free later, and what is unknown stays so.
pub proof fn law_unknown_records_are_named(id: Seq<char>, stage: Seq<char>, message: Seq<char>)
    ensures
        unknown_preview(id, stage).code == "preview_unknown"@ && unknown_preview(id, stage).retry == "never"@,
        unknown_preview(id, stage).data.get("previewId"@) == Some(JsonView::Text(id)),
        unknown_receipt(id).code == "state_record_unknown"@ && unknown_receipt(id).retry == "never"@,
        unknown_receipt(id).data.get("id"@) == Some(JsonView::Text(id)),
        unknown_recovery(id).code == "recovery_not_found"@ && unknown_recovery(id).retry == "never"@,
        unknown_recovery(id).data.get("transactionId"@) == Some(JsonView::Text(id)),
        busy_failed(message, id).code == "application_busy"@ && busy_failed(message, id).retry == "safe"@,
        busy_failed(message, id).data.get("previewId"@) == Some(JsonView::Text(id)),
{
    lemma_names();
    lemma_field_at(unknown_preview(id, stage).data->Object_0, 0, "previewId"@);
    lemma_field_at(unknown_receipt(id).data->Object_0, 0, "id"@);
    lemma_field_at(unknown_recovery(id).data->Object_0, 0, "transactionId"@);
    lemma_field_at(busy_failed(message, id).data->Object_0, 0, "previewId"@);
}

/// A removal that is refused says why of each name.
pub proof fn law_refused_removals_say_why(id: Seq<char>, code: Seq<char>, message: Seq<char>, problems: Seq<JsonView>)
    ensures
        prune_problem(id, code, message).get("id"@) == Some(JsonView::Text(id)),
        prune_problem(id, code, message).get("code"@) == Some(JsonView::Text(code)),
        prune_problem(id, code, message).get("message"@) == Some(JsonView::Text(message)),
        unknown_name(id).get("id"@) == Some(JsonView::Text(id)),
        unknown_name(id).get("code"@) == Some(JsonView::Text("unknown"@)),
        rejected(problems).code == "state_prune_rejected"@,
        rejected(problems).data.get("problems"@) == Some(JsonView::Array(problems)),
{
    lemma_names();
    let o = prune_problem(id, code, message)->Object_0;
    lemma_field_at(o, 0, "code"@);
    lemma_field_at(o, 1, "id"@);
    lemma_field_at(o, 2, "message"@);
    let u = unknown_name(id)->Object_0;
    lemma_field_at(u, 0, "code"@);
    lemma_field_at(u, 1, "id"@);
    lemma_field_at(rejected(problems).data->Object_0, 0, "problems"@);
}

/// A file is told from every other by its device and its number, and its
/// metadata by its mode, its owner and its group.
pub proof fn law_files_are_told_apart(
    device: u64,
    inode: u64,
    mode: u32,
    uid: u32,
    gid: u32,
    attributes: Seq<ExtendedAttribute>,
)
    ensures
        identity_json(device, inode).get("device"@) == Some(JsonView::Int(device as int)),
        identity_json(device, inode).get("inode"@) == Some(JsonView::Int(inode as int)),
        metadata_json(mode, uid, gid, attributes).get("mode"@) == Some(JsonView::Int(mode as int)),
        metadata_json(mode, uid, gid, attributes).get("uid"@) == Some(JsonView::Int(uid as int)),
        metadata_json(mode, uid, gid, attributes).get("gid"@) == Some(JsonView::Int(gid as int)),
        metadata_json(mode, uid, gid, attributes).get("extendedAttributes"@) == Some(
            JsonView::Object(attributes_json(attributes)),
        ),
{
    lemma_names();
    lemma_field_at(identity_json(device, inode)->Object_0, 0, "device"@);
    lemma_field_at(identity_json(device, inode)->Object_0, 1, "inode"@);
    let o = metadata_json(mode, uid, gid, attributes)->Object_0;
    lemma_field_at(o, 0, "extendedAttributes"@);
    lemma_field_at(o, 1, "gid"@);
    lemma_field_at(o, 2, "mode"@);
    lemma_field_at(o, 3, "uid"@);
}

/// Each attribute of a file counts under its name with its bytes, the last of
/// a name counting.
pub proof fn law_attributes_count_by_name(list: Seq<ExtendedAttribute>, a: ExtendedAttribute, other: Seq<char>)
    ensures
        field(attributes_json(list.push(a)), a.name@) == Some(JsonView::Text(hex_text(a.bytes@))),
        other != a.name@ ==> field(attributes_json(list.push(a)), other) == field(attributes_json(list), other),
{
    assert(list.push(a).drop_last() =~= list);
    lemma_field_set(attributes_json(list), a.name@, JsonView::Text(hex_text(a.bytes@)), a.name@);
    lemma_field_set(attributes_json(list), a.name@, JsonView::Text(hex_text(a.bytes@)), other);
}

} // verus!
