//! Digests, clocks, locks and the reports on previews and receipts.

use lspctl::checks::manifest_mismatches;
use lspctl::digest::{digest_canonical_value, digest_raw_bytes};
use lspctl::edits::CanonicalTextEdit;
use lspctl::invocation::ParsedInvocation;
use lspctl::json::Json;
use lspctl::manifest::{ManifestEntry, ResourceKind, manifest_digest, missing_manifest};
use lspctl::mutation_reports::{
    FileContent, contextual_text_diff, paginate, present_edits, preview_diff, receipt_to_synchronize, recovery_status,
    synchronize_application_receipt,
};
use lspctl::path::NativePath;
use lspctl::plan::{CanonicalOperation, CanonicalPlan, PlannedWorkspaceEdit, PreviewSummary, WorkspaceEditProblem};
use lspctl::proposals::{
    PreviewRecordContext, authorization_digest, check_session, create_preview_record, invalid_workspace_edit,
    mutation_proposal, preauthorized_usage, propose_action, synchronized_document_version_preconditions,
};
use lspctl::query_inputs::{InputRead, QueryStop};
use lspctl::reports::{application_cancelled, parse_position_encoding};
use lspctl::position::PositionEncoding;
use lspctl::rollback::{CreateStep, DeleteStep, check_text_commit, create_step, delete_step};
use lspctl::staging::{check_rollback_bytes, staged_text_path, undo_resource_path};
use lspctl::timing::{
    LockAttempt, LockStep, lock_timeout, lock_workspace_for_application, now_rfc3339, parse_duration,
};
use serde_json::Value;

fn from_value(value: &Value) -> Json {
    match value {
        Value::Null => Json::Null,
        Value::Bool(b) => Json::Bool(*b),
        Value::Number(n) => match (n.as_u64(), n.as_i64()) {
            (Some(u), _) => Json::Unsigned(u),
            (None, Some(i)) => Json::Negative(i),
            (None, None) => Json::Decimal(n.to_string()),
        },
        Value::String(s) => Json::Text(s.clone()),
        Value::Array(items) => Json::Array(items.iter().map(from_value).collect()),
        Value::Object(fields) => Json::Object(fields.iter().map(|(k, v)| (k.clone(), from_value(v))).collect()),
    }
}

fn value(json: &Json) -> Value {
    match json {
        Json::Null => Value::Null,
        Json::Bool(b) => Value::from(*b),
        Json::Unsigned(n) => Value::from(*n),
        Json::Negative(n) => Value::from(*n),
        Json::Decimal(s) => serde_json::from_str(s).unwrap(),
        Json::Text(s) => Value::from(s.as_str()),
        Json::Array(items) => Value::Array(items.iter().map(value).collect()),
        Json::Object(fields) => Value::Object(fields.iter().map(|(k, v)| (k.clone(), value(v))).collect()),
    }
}

fn parsed(text: &str) -> Value {
    serde_json::from_str(text).unwrap()
}

fn json(text: &str) -> Json {
    from_value(&parsed(text))
}

fn words(list: &[&str]) -> Vec<String> {
    list.iter().map(|w| w.to_string()).collect()
}

fn path(text: &str) -> NativePath {
    let mut components = vec!["/".to_owned()];
    components.extend(text.split('/').filter(|c| !c.is_empty()).map(str::to_owned));
    NativePath { components }
}

#[test]
fn digests_are_sha256_in_hexadecimal() {
    assert_eq!(
        digest_raw_bytes(&b"abc".to_vec()),
        "sha256:ba7816bf8f01cfea414140de5dae2223b00361a396177a9cb410ff61f20015ad"
    );
    let one = digest_canonical_value("domain", &json(r#"{"b": 1, "a": [true, null]}"#));
    assert_eq!(one, digest_raw_bytes(&b"domain\0{\"a\":[true,null],\"b\":1}".to_vec()));
    assert_ne!(one, digest_canonical_value("other", &json(r#"{"b": 1, "a": [true, null]}"#)));
}

#[test]
fn moments_are_written_in_rfc3339() {
    assert_eq!(now_rfc3339(1_700_000_000, 0).as_deref(), Some("2023-11-14T22:13:20Z"));
    assert_eq!(now_rfc3339(0, 500_000_000).as_deref(), Some("1970-01-01T00:00:00.5Z"));
    assert_eq!(now_rfc3339(0, 1_000_000_000), None);
    assert_eq!(now_rfc3339(i64::MAX, 0), None);
    assert_eq!(parse_duration("1500ms"), Some(1_500));
    assert_eq!(parse_duration("2m"), Some(120_000));
    assert_eq!(parse_duration("2h"), None);
}

#[test]
fn caller_deadline_cancels_application_while_waiting_for_workspace_lock() {
    let preview_id = format!("prv_{}", "1".repeat(32));
    let step = lock_workspace_for_application(
        LockAttempt::Busy,
        10,
        lock_timeout("1s"),
        Some(10),
        "file:///workspace/",
        "1s",
        &preview_id,
    );
    match step {
        LockStep::Refuse(failure) => {
            assert_eq!(failure.code, "application_cancelled");
            assert_eq!(value(&failure.data)["previewId"], preview_id.as_str());
        }
        _ => panic!("the caller has given up"),
    }
    assert_eq!(application_cancelled(&preview_id).code, "application_cancelled");
    let waiting = |now: u128| {
        lock_workspace_for_application(LockAttempt::Busy, now, lock_timeout("1s"), None, "file:///workspace/", "1s", "prv_1")
    };
    assert!(matches!(waiting(5), LockStep::Wait(20)));
    match waiting(1_000) {
        LockStep::Refuse(failure) => assert_eq!(failure.code, "workspace_lock_timeout"),
        _ => panic!("the lock was waited for too long"),
    }
}

fn edit(start_byte: u64, end_byte: u64, new_text: &str) -> CanonicalTextEdit {
    CanonicalTextEdit { start_byte, end_byte, new_text: new_text.to_owned(), annotation_id: None }
}

#[test]
fn previews_are_shown_as_patches() {
    assert_eq!(contextual_text_diff(&path("/workspace/a.txt"), "a\nb\n", "a\nb\n"), "");
    let shown = contextual_text_diff(&path("/workspace/a.txt"), "one\ntwo\nthree\n", "one\n2\nthree\n");
    assert!(shown.starts_with("--- /workspace/a.txt\n+++ /workspace/a.txt\n"));
    assert!(shown.contains("\n-two\n+2\n three\n"));
    assert_eq!(present_edits(&b"one two".to_vec(), &vec![edit(4, 7, "2")]), Some(b"one 2".to_vec()));
    assert_eq!(present_edits(&b"one".to_vec(), &vec![edit(4, 7, "2")]), None);
    let operations = vec![CanonicalOperation::Text {
        index: 0,
        uri: "file:///workspace/a.txt".to_owned(),
        path: path("/workspace/a.txt"),
        before_digest: digest_raw_bytes(&b"one\n".to_vec()),
        after_digest: digest_raw_bytes(&b"1\n".to_vec()),
        edits: vec![edit(0, 3, "1")],
    }];
    let files = vec![FileContent { path: path("/workspace/a.txt"), bytes: b"one\n".to_vec() }];
    let patch = preview_diff(&operations, &files).unwrap();
    assert!(patch.contains("-one\n+1\n"));
}

#[test]
fn lists_are_cut_into_pages() {
    let records: Vec<Json> = (0..5).map(Json::Unsigned).collect();
    let list = ParsedInvocation {
        command: words(&["preview", "list"]),
        options: vec![("--limit".to_owned(), words(&["2"])), ("--offset".to_owned(), words(&["1"]))],
        positionals: Vec::new(),
    };
    let (shown, page) = paginate(&records, &list);
    assert_eq!(shown.iter().map(value).collect::<Vec<_>>(), [Value::from(1), Value::from(2)]);
    assert_eq!(value(&page)["nextOffset"], 3);
}

#[test]
fn receipts_are_synchronized_once() {
    let report = r#"{"outcome": "applied", "result": {"receiptId": "prv_1", "sessionSynchronized": false}}"#;
    assert_eq!(receipt_to_synchronize(&json(report)), Some("prv_1".to_owned()));
    let told = synchronize_application_receipt(json(report), &Vec::new());
    assert_eq!(value(&told)["result"]["sessionSynchronized"], true);
    assert_eq!(receipt_to_synchronize(&told), None);
    let missed = synchronize_application_receipt(json(report), &words(&["gen_1"]));
    assert_eq!(receipt_to_synchronize(&missed), Some("prv_1".to_owned()));
    assert_eq!(value(&missed)["warnings"][0]["code"], "session_synchronization_failed");
    let status = value(&recovery_status(&Vec::new(), "file:///workspace/"));
    assert_eq!(status["result"]["transactions"], parsed("[]"));
}

fn entry(text: &str, content: Option<&str>) -> ManifestEntry {
    ManifestEntry {
        path: path(text),
        exists: true,
        resource_kind: ResourceKind::File,
        identity_digest: Some("identity".to_owned()),
        content_digest: content.map(str::to_owned),
        metadata_digest: Some("metadata".to_owned()),
    }
}

#[test]
fn manifests_differ_where_their_entries_do() {
    let before = vec![entry("/workspace/a", Some("1")), missing_manifest(&path("/workspace/b"))];
    let after = vec![entry("/workspace/a", Some("2")), missing_manifest(&path("/workspace/b"))];
    assert!(manifest_mismatches(&before, &before).is_empty());
    assert_eq!(manifest_mismatches(&before, &after).len(), 1);
    assert_ne!(manifest_digest(&before), manifest_digest(&after));
    assert_eq!(manifest_digest(&before), manifest_digest(&vec![before[0].copy(), before[1].copy()]));
}

#[test]
fn steps_are_refused_where_something_stands() {
    assert_eq!(create_step(false, false, false), CreateStep::CreateNew);
    assert_eq!(create_step(true, true, false), CreateStep::Truncate);
    assert_eq!(create_step(true, false, true), CreateStep::Skip);
    assert_eq!(create_step(true, false, false), CreateStep::Refuse);
    assert_eq!(delete_step(true, true, true, false, false), DeleteStep::RefuseNotEmpty);
    assert_eq!(delete_step(true, true, true, true, false), DeleteStep::SetAside);
    assert_eq!(delete_step(false, false, false, false, true), DeleteStep::Skip);
    assert_eq!(delete_step(false, false, false, false, false), DeleteStep::RefuseMissing);
    let digest = |bytes: &[u8]| digest_raw_bytes(&bytes.to_vec());
    assert_eq!(check_text_commit(&b"a".to_vec(), &digest(b"a"), &b"b".to_vec(), &digest(b"b")), None);
    assert!(check_text_commit(&b"x".to_vec(), &digest(b"a"), &b"b".to_vec(), &digest(b"b")).is_some());
    assert!(check_text_commit(&b"a".to_vec(), &digest(b"a"), &b"x".to_vec(), &digest(b"b")).is_some());
    assert!(check_rollback_bytes(5, 5).is_none());
    assert!(check_rollback_bytes(6, 5).is_some());
    let artifacts = path("/workspace/.lspctl-txn_1");
    assert_ne!(staged_text_path(&artifacts, 0).to_text(), undo_resource_path(&artifacts, 0).to_text());
    assert_ne!(staged_text_path(&artifacts, 0).to_text(), staged_text_path(&artifacts, 1).to_text());
}

fn create(options: &[(&str, &[&str])]) -> ParsedInvocation {
    ParsedInvocation {
        command: words(&["preview", "create"]),
        options: options.iter().map(|(name, values)| (name.to_string(), words(values))).collect(),
        positionals: Vec::new(),
    }
}

#[test]
fn proposals_come_from_edits_and_actions() {
    let proposal = match mutation_proposal(&create(&[("--workspace-edit-json", &[r#"{"changes": {}}"#])]), &Vec::new()) {
        Ok(proposal) => proposal,
        Err(_) => panic!("the edit was refused"),
    };
    assert_eq!(value(&proposal.edit), parsed(r#"{"changes": {}}"#));
    match mutation_proposal(&create(&[("--workspace-edit-file", &["edit.json"])]), &Vec::new()) {
        Err(QueryStop::Input(file)) => assert_eq!(file, "edit.json"),
        _ => panic!("the file was not asked for"),
    }
    let read = vec![InputRead { path: "edit.json".to_owned(), content: Ok(r#"{"changes": {}}"#.to_owned()) }];
    assert!(mutation_proposal(&create(&[("--workspace-edit-file", &["edit.json"])]), &read).is_ok());
    let action = r#"{"title": "fix", "edit": {"changes": {}}, "command": {"command": "x", "title": "x"}}"#;
    let proposal = propose_action(json(action)).ok().unwrap();
    assert_eq!(value(&proposal.edit), parsed(r#"{"changes": {}}"#));
    assert!(proposal.command.is_some());
    let disabled = r#"{"title": "fix", "disabled": {"reason": "no"}, "edit": {"changes": {}}}"#;
    assert!(propose_action(json(disabled)).is_err());
    let without_edit = propose_action(json(r#"{"title": "fix"}"#)).ok().unwrap();
    assert_eq!(value(&without_edit.edit), parsed("{}"));
}

#[test]
fn previews_are_bound_to_what_they_were_made_for() {
    assert_ne!(authorization_digest("sid_1", None), authorization_digest("sid_1", Some(&"sha256:x".to_owned())));
    assert_ne!(authorization_digest("sid_1", None), authorization_digest("sid_2", None));
    assert!(check_session("sid_1", "sid_1", &json("{}")).is_ok());
    assert!(check_session("sid_1", "sid_2", &json("{}")).is_err());
    let known = synchronized_document_version_preconditions(&json(
        r#"{"synchronization": {"before": [{"uri": "file:///one", "version": 3, "digest": "sha256:1"}]}}"#,
    ));
    let one = known.get(&"file:///one".to_owned()).unwrap();
    assert_eq!((one.version, one.digest.as_str()), (3, "sha256:1"));
    let planned = PlannedWorkspaceEdit {
        plan: CanonicalPlan {
            operations: Vec::new(),
            before_manifest: vec![entry("/workspace/a", Some("1"))],
            intended_manifest: Vec::new(),
        },
        annotations: json("{}"),
        summary: PreviewSummary { files_changed: 1, text_edits: 2, creates: 0, renames: 0, deletes: 0 },
    };
    let usage = preauthorized_usage(&planned.plan, &vec![7]);
    assert_eq!(usage.rollback_bytes, 7);
    let record = create_preview_record(
        PreviewRecordContext {
            preview_id: "prv_1".to_owned(),
            workspace_uri: "file:///workspace/".to_owned(),
            server: Some("rust".to_owned()),
            session_identity: "sid_1".to_owned(),
            position_encoding: "utf-16".to_owned(),
            source: json("{}"),
            edit: json("{}"),
            command: None,
        },
        planned,
    );
    assert_eq!(record.preconditions.len(), 1);
    assert_eq!(record.summary.text_edits, 2);
    assert!(!record.reserved);
    let problem = WorkspaceEditProblem {
        code: "overlapping_edits".to_owned(),
        message: "Edits overlap.".to_owned(),
        operation_index: Some(0),
        path: None,
        annotation_id: None,
        data: None,
    };
    let failure = invalid_workspace_edit(&json("{}"), &vec![problem]);
    assert_eq!(value(&failure.data)["problems"][0]["code"], "overlapping_edits");
    assert_eq!(parse_position_encoding("utf-8"), PositionEncoding::Utf8);
    assert_eq!(parse_position_encoding("utf-16"), PositionEncoding::Utf16);
}

#[test]
fn decimals_are_written_as_they_are_spelled() {
    for k in 1..5_000_u32 {
        let number = f64::from(k) / 7.0 + 0.1;
        let spelled = format!("{number}");
        let written = format!("domain\0{spelled}").into_bytes();
        assert_eq!(digest_canonical_value("domain", &Json::Decimal(spelled)), digest_raw_bytes(&written), "{number}");
    }
}
