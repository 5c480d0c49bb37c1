//! What commands do step by step, and where they find what they need.

use lspctl::application::Journal;
use lspctl::apply_run::{ApplyAction, ApplyEvent, ApplyRun};
use lspctl::config_paths::{
    WorkspaceLookup, canonical_workspace, resolve_server_cwd, resolved_user_config_path, workspace_uri,
};
use lspctl::digest::digest_raw_bytes;
use lspctl::json::Json;
use lspctl::manifest::{ManifestEntry, ResourceKind, missing_manifest};
use lspctl::mutation_reports::{unchanged_application, workspace_filter};
use lspctl::owner_sessions::owner_workspace;
use lspctl::owner_start::acquire_startup_lock;
use lspctl::path::NativePath;
use lspctl::plan::{CanonicalOperation, CanonicalPlan, PlannedWorkspaceEdit, PreviewSummary, WorkspaceEditProblem};
use lspctl::preview_run::{PreviewAction, PreviewEvent, PreviewPhase, PreviewRun};
use lspctl::proposals::authorization_digest;
use lspctl::records::{PreviewRecord, ReceiptRecord, StoredPreview, StoredReceipt};
use lspctl::timing::{LockAttempt, LockStep};
use lspctl::trust_commands::lock_with_timeout;
use serde_json::Value;

fn value(json: &Json) -> Value {
    match json {
        Json::Null => Value::Null,
        Json::Bool(b) => Value::from(*b),
        Json::Unsigned(n) => Value::from(*n),
        Json::Negative(n) => Value::from(*n),
        Json::Decimal(s) => serde_json::from_str(s).unwrap(),
        Json::Text(s) => Value::from(s.as_str()),
        Json::Array(items) => Value::Array(items.iter().map(value).collect()),
        Json::Object(fields) => Value::Object(fields.iter().map(|(k, v)| (k.clone(), value(v))).collect()),
    }
}

fn parsed(text: &str) -> Value {
    serde_json::from_str(text).unwrap()
}

fn native(path: &str) -> NativePath {
    let mut components = vec!["/".to_owned()];
    components.extend(path.split('/').filter(|c| !c.is_empty()).map(str::to_owned));
    NativePath { components }
}

#[test]
fn workspaces_are_directories_with_a_uri() {
    let found = |directory: bool| WorkspaceLookup::Found { path: native("/a workspace"), directory };
    let path = canonical_workspace(found(true)).ok().unwrap();
    assert_eq!(workspace_uri(&path).ok().unwrap(), "file:///a%20workspace/");
    let relative = NativePath { components: vec!["workspace".to_owned()] };
    assert_eq!(
        workspace_uri(&relative).err().unwrap().message,
        "The Workspace path cannot be represented as a file URI."
    );
    for (lookup, message) in [
        (found(false), "The Workspace path is not a directory."),
        (WorkspaceLookup::Unresolved, "The Workspace path does not exist or cannot be resolved."),
        (WorkspaceLookup::NoCurrentDirectory, "The current directory is unavailable."),
    ] {
        let failure = canonical_workspace(lookup).err().unwrap();
        assert_eq!(failure.code, "workspace_selection_failed");
        assert_eq!(failure.message, message);
    }
    assert_eq!(workspace_filter(&Ok(native("/workspace"))).ok().unwrap(), "file:///workspace/");
    let failure = workspace_filter(&Err("no such directory".to_owned())).err().unwrap();
    assert_eq!(failure.code, "user_path_unavailable");
    assert_eq!(value(&failure.data), parsed(r#"{"kind": "workspace", "reason": "no such directory"}"#));
    assert_eq!(owner_workspace("file:///a%20workspace/").ok().unwrap().to_text(), "/a workspace");
    assert_eq!(owner_workspace("https://example.com/").err().unwrap().code, "session_selection_failed");
}

#[test]
fn the_environment_names_the_configuration() {
    let named = resolved_user_config_path(Some(native("/home/x")), Some(native("/etc"))).ok().unwrap();
    assert_eq!(named.to_text(), "/home/x/lspctl/config.toml");
    let system = resolved_user_config_path(None, Some(native("/home/y/.config/lspctl"))).ok().unwrap();
    assert_eq!(system.to_text(), "/home/y/.config/lspctl/config.toml");
    let relative = NativePath { components: vec!["x".to_owned()] };
    let failure = resolved_user_config_path(Some(relative), Some(native("/etc"))).err().unwrap();
    assert_eq!(value(&failure.data)["reason"], "XDG_CONFIG_HOME is not absolute.");
    let failure = resolved_user_config_path(None, None).err().unwrap();
    assert_eq!(failure.code, "user_path_unavailable");
    assert_eq!(resolve_server_cwd(Some(native("/x"))).ok().unwrap().to_text(), "/x");
    assert_eq!(resolve_server_cwd(None).err().unwrap().code, "server_selection_failed");
}

#[test]
fn locks_are_waited_for() {
    let user_state = Some(native("/state"));
    assert!(matches!(lock_with_timeout(LockAttempt::Taken, "", 0, 30_000, &user_state), LockStep::Hold));
    assert!(matches!(lock_with_timeout(LockAttempt::Busy, "", 29_999, 30_000, &user_state), LockStep::Wait(20)));
    match lock_with_timeout(LockAttempt::Busy, "", 30_000, 30_000, &user_state) {
        LockStep::Refuse(failure) => assert_eq!(failure.message, "The Trust state lock timed out."),
        _ => panic!("a lock was waited for too long"),
    }
    match lock_with_timeout(LockAttempt::Failed(Some(5)), "gone", 0, 30_000, &user_state) {
        LockStep::Refuse(failure) => assert_eq!(failure.message, "The Trust state lock failed: gone"),
        _ => panic!("a lock that failed was waited for"),
    }
    assert!(matches!(acquire_startup_lock(LockAttempt::Busy, "busy", 9, 10), LockStep::Wait(10)));
    match acquire_startup_lock(LockAttempt::Busy, "busy", 10, 10) {
        LockStep::Refuse(failure) => {
            assert_eq!(failure.code, "owner_unavailable");
            assert_eq!(value(&failure.data)["reason"], "busy");
        }
        _ => panic!("a lock was waited for too long"),
    }
}

fn summary() -> PreviewSummary {
    PreviewSummary { files_changed: 1, text_edits: 0, creates: 1, renames: 0, deletes: 0 }
}

fn created(path: &str) -> ManifestEntry {
    ManifestEntry {
        exists: true,
        resource_kind: ResourceKind::File,
        content_digest: Some(digest_raw_bytes(&Vec::new())),
        ..missing_manifest(&native(path))
    }
}

fn planned() -> PlannedWorkspaceEdit {
    PlannedWorkspaceEdit {
        plan: CanonicalPlan {
            operations: vec![CanonicalOperation::Create {
                index: 0,
                uri: "file:///workspace/new.rs".to_owned(),
                path: native("/workspace/new.rs"),
                overwrite: false,
                ignore_if_exists: false,
            }],
            before_manifest: vec![missing_manifest(&native("/workspace/new.rs"))],
            intended_manifest: vec![created("/workspace/new.rs")],
        },
        annotations: Json::Object(Vec::new()),
        summary: summary(),
    }
}

fn preview_run() -> PreviewRun {
    PreviewRun {
        workspace_uri: "file:///workspace/".to_owned(),
        server: "rust".to_owned(),
        session_identity: "sid_1".to_owned(),
        declaration_digest: None,
        position_encoding: "utf-8".to_owned(),
        source: Json::Object(Vec::new()),
        edit: Json::Object(Vec::new()),
        command: None,
        callback: true,
        planned: None,
        preview_id: String::new(),
        phase: PreviewPhase::Start,
    }
}

#[test]
fn previews_are_made_step_by_step() {
    let mut run = preview_run();
    assert!(matches!(run.step(PreviewEvent::Begin), PreviewAction::Plan));
    assert!(matches!(run.step(PreviewEvent::Planned(planned())), PreviewAction::Inspect));
    let missing = || vec![missing_manifest(&native("/workspace/new.rs"))];
    assert!(matches!(run.step(PreviewEvent::Inspected(missing())), PreviewAction::Name));
    assert!(matches!(run.step(PreviewEvent::Named("prv_1".to_owned())), PreviewAction::ReadJournals));
    match run.step(PreviewEvent::Journals(Vec::new())) {
        PreviewAction::Store { preview, authorization_digest: digest, recovery_digest } => {
            assert_eq!(preview.preview_id, "prv_1");
            assert_eq!(preview.server.as_deref(), Some("rust"));
            assert_eq!(preview.plan.operations.len(), 1);
            assert_eq!(preview.preconditions.len(), 1);
            assert!(!preview.reserved);
            assert_eq!(digest, authorization_digest("sid_1", None));
            assert_eq!(recovery_digest, None);
        }
        _ => panic!("a plan was not stored"),
    }
    match run.step(PreviewEvent::Stored) {
        PreviewAction::Finish(Ok(Some(id))) => assert_eq!(id, "prv_1"),
        _ => panic!("a stored preview was not reported"),
    }
}

#[test]
fn previews_are_not_made_of_what_changes_nothing_or_has_changed() {
    let mut run = preview_run();
    run.step(PreviewEvent::Begin);
    let nothing = CanonicalPlan { operations: Vec::new(), before_manifest: Vec::new(), intended_manifest: Vec::new() };
    let empty = PlannedWorkspaceEdit { plan: nothing, annotations: Json::Null, summary: summary() };
    assert!(matches!(run.step(PreviewEvent::Planned(empty)), PreviewAction::Finish(Ok(None))));

    let mut run = preview_run();
    run.step(PreviewEvent::Begin);
    run.step(PreviewEvent::Planned(planned()));
    match run.step(PreviewEvent::Inspected(vec![created("/workspace/new.rs")])) {
        PreviewAction::Finish(Err(failure)) => {
            assert_eq!(failure.code, "proposal_stale");
            assert_eq!(failure.message, "The Workspace changed while the callback was being planned.");
        }
        _ => panic!("files that changed were planned for"),
    }

    let problem = || WorkspaceEditProblem {
        code: "overlap".to_owned(),
        message: "Edits overlap.".to_owned(),
        operation_index: None,
        path: None,
        annotation_id: None,
        data: None,
    };
    let mut run = preview_run();
    run.step(PreviewEvent::Begin);
    match run.step(PreviewEvent::Invalid(vec![problem()])) {
        PreviewAction::Finish(Err(failure)) => assert_eq!(failure.code, "invalid_workspace_edit"),
        _ => panic!("an invalid edit was planned"),
    }
    let mut run = preview_run();
    run.step(PreviewEvent::Begin);
    match run.step(PreviewEvent::Unsupported(vec![problem()])) {
        PreviewAction::Finish(Err(failure)) => {
            assert_eq!(failure.code, "unsupported_filesystem");
            assert_eq!(value(&failure.data)["missingCapabilities"], parsed(r#"["overlap"]"#));
        }
        _ => panic!("a filesystem was relied on"),
    }

    let mut run = preview_run();
    run.step(PreviewEvent::Begin);
    run.step(PreviewEvent::Planned(planned()));
    run.step(PreviewEvent::Inspected(vec![missing_manifest(&native("/workspace/new.rs"))]));
    run.step(PreviewEvent::Named("prv_1".to_owned()));
    let evidence = Json::Object(vec![("problems".to_owned(), Json::Array(Vec::new()))]);
    match run.step(PreviewEvent::Journals(vec![Journal::Corrupt(evidence)])) {
        PreviewAction::Finish(Err(failure)) => assert_eq!(failure.code, "recovery_evidence_invalid"),
        _ => panic!("a preview was made over corrupt evidence"),
    }
}

fn stored_receipt(outcome: &str) -> StoredReceipt {
    StoredReceipt {
        format_version: 1,
        completed_unix_seconds: 0,
        expires_unix_seconds: 0,
        receipt: ReceiptRecord {
            receipt_id: "prv_1".to_owned(),
            kind: "application".to_owned(),
            transaction_id: "txn_1".to_owned(),
            workspace_uri: "file:///workspace/".to_owned(),
            server: Some("rust".to_owned()),
            session_identity: Some("sid_1".to_owned()),
            preview_id: Some("prv_1".to_owned()),
            linked_receipt_id: None,
            preauthorized: false,
            started_at: "2026-01-01T00:00:00Z".to_owned(),
            completed_at: "2026-01-01T00:00:01Z".to_owned(),
            outcome: outcome.to_owned(),
            filesystem_state: "changed".to_owned(),
            summary: summary(),
            before_manifest: Vec::new(),
            intended_manifest: Vec::new(),
            observed_manifest: Vec::new(),
            session_synchronized: false,
            cleanup_pending: false,
            durability: Json::Null,
            manifest_digest: "sha256:test".to_owned(),
            failure_stage: None,
            failed_change: None,
        },
    }
}

fn stored_preview() -> StoredPreview {
    let planned = planned();
    StoredPreview {
        format_version: 1,
        created_unix_seconds: 0,
        expires_unix_seconds: 0,
        workspace_path: native("/workspace"),
        authorization_digest: "sha256:test".to_owned(),
        recovery_manifest_digest: None,
        preview: PreviewRecord {
            preview_id: "prv_1".to_owned(),
            workspace_uri: "file:///workspace/".to_owned(),
            server: Some("rust".to_owned()),
            session_identity: "sid_1".to_owned(),
            position_encoding: "utf-8".to_owned(),
            expires_at: String::new(),
            source: Json::Null,
            summary: planned.summary,
            edit: Json::Null,
            command: None,
            annotations: planned.annotations,
            plan: planned.plan,
            preconditions: Vec::new(),
            conflicts: Vec::new(),
            stale_reasons: Vec::new(),
            diff: None,
            reserved: false,
        },
    }
}

fn application(synchronized: bool) -> Json {
    let result = vec![
        ("receiptId".to_owned(), Json::Text("prv_1".to_owned())),
        ("sessionSynchronized".to_owned(), Json::Bool(synchronized)),
    ];
    Json::Object(vec![("result".to_owned(), Json::Object(result))])
}

#[test]
fn applications_are_told_to_their_session() {
    let mut run = ApplyRun::new();
    assert!(matches!(run.step(ApplyEvent::Begin), ApplyAction::LookUp));
    assert!(matches!(run.step(ApplyEvent::LookedUp(None)), ApplyAction::ReadPreview));
    match run.step(ApplyEvent::Preview(stored_preview())) {
        ApplyAction::Configure(workspace) => assert_eq!(workspace.to_text(), "/workspace"),
        _ => panic!("the workspace of a preview is configured"),
    }
    assert!(matches!(run.step(ApplyEvent::Configured), ApplyAction::Apply { again: true }));
    match run.step(ApplyEvent::Applied(application(false))) {
        ApplyAction::ReadReceipt(id) => assert_eq!(id, "prv_1"),
        _ => panic!("the session does not know of the change yet"),
    }
    match run.step(ApplyEvent::Receipt(stored_receipt("applied"))) {
        ApplyAction::Refresh { workspace_uri, server, session_identity } => {
            assert_eq!(workspace_uri, "file:///workspace/");
            assert_eq!(server.as_deref(), Some("rust"));
            assert_eq!(session_identity.as_deref(), Some("sid_1"));
        }
        _ => panic!("Owners are told"),
    }
    match run.step(ApplyEvent::Refreshed(Vec::new())) {
        ApplyAction::Mark(id) => assert_eq!(id, "prv_1"),
        _ => panic!("every Owner knows"),
    }
    match run.step(ApplyEvent::Marked) {
        ApplyAction::Finish(Ok(report)) => assert_eq!(value(&report)["result"]["sessionSynchronized"], true),
        _ => panic!("the application is reported"),
    }
}

#[test]
fn applications_are_reported_once_they_are_done() {
    let mut run = ApplyRun::new();
    run.step(ApplyEvent::Begin);
    let found = ApplyEvent::LookedUp(Some(stored_receipt("applied")));
    assert!(matches!(run.step(found), ApplyAction::Apply { again: false }));
    match run.step(ApplyEvent::Applied(application(true))) {
        ApplyAction::Finish(Ok(report)) => assert_eq!(value(&report), value(&application(true))),
        _ => panic!("nothing is left to be done"),
    }

    let mut run = ApplyRun::new();
    run.step(ApplyEvent::Begin);
    let found = ApplyEvent::LookedUp(Some(stored_receipt("rolled_back")));
    assert!(matches!(run.step(found), ApplyAction::ReadPreview));
    run.step(ApplyEvent::Preview(stored_preview()));
    run.step(ApplyEvent::Configured);
    run.step(ApplyEvent::Applied(application(false)));
    run.step(ApplyEvent::Receipt(stored_receipt("applied")));
    match run.step(ApplyEvent::Refreshed(vec!["gen_1".to_owned()])) {
        ApplyAction::Finish(Ok(report)) => {
            let warning = &value(&report)["warnings"][0];
            assert_eq!(warning["code"], "session_synchronization_failed");
            assert_eq!(warning["data"]["ownerGenerations"], parsed(r#"["gen_1"]"#));
        }
        _ => panic!("an Owner did not take notice"),
    }
    assert_eq!(
        value(&unchanged_application())["result"],
        parsed(
            r#"{"state": "terminal", "outcome": "applied", "filesystemState": "unchanged",
            "sessionSynchronized": true, "cleanupPending": false, "manifest": []}"#
        )
    );
}
