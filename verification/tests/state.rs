//! The store of previews, receipts and transactions on concrete records.

use lspctl::json::Json;
use lspctl::path::NativePath;
use lspctl::plan::{CanonicalPlan, PreviewSummary};
use lspctl::records::{
    MUTATION_STATE_VERSION, PreviewRecord, ReceiptRecord, StoredPreview, TransactionRecord, TransactionState,
};
use lspctl::settings::{PreviewSettings, ReceiptSettings, default_mutation_settings};
use lspctl::state::{Change, MutationStateStore};
use lspctl::state_ops::{expired_preview_ids, preview_to_store};
use lspctl::store::{
    ReadFault, RecordFile, file_stem, identifier_from, lock_path, record_files, state_failure,
    validate_record_version,
};
use lspctl::timing::LockAttempt;
use serde_json::Value;

const NOW: i64 = 1_700_000_000;

fn value(json: &Json) -> Value {
    match json {
        Json::Null => Value::Null,
        Json::Bool(b) => Value::from(*b),
        Json::Unsigned(n) => Value::from(*n),
        Json::Negative(n) => Value::from(*n),
        Json::Decimal(s) => serde_json::from_str(s).unwrap(),
        Json::Text(s) => Value::from(s.as_str()),
        Json::Array(items) => Value::Array(items.iter().map(value).collect()),
        Json::Object(fields) => Value::Object(fields.iter().map(|(k, v)| (k.clone(), value(v))).collect()),
    }
}

fn path(components: &[&str]) -> NativePath {
    NativePath { components: components.iter().map(|c| c.to_string()).collect() }
}

fn store() -> MutationStateStore {
    MutationStateStore::open_at(path(&["/", "state"]))
}

fn texts(paths: Vec<NativePath>) -> Vec<String> {
    paths.iter().map(|path| path.to_text()).collect()
}

fn no_changes() -> PreviewSummary {
    PreviewSummary { files_changed: 0, text_edits: 0, creates: 0, renames: 0, deletes: 0 }
}

fn preview_record(id: &str) -> PreviewRecord {
    PreviewRecord {
        preview_id: id.to_owned(),
        workspace_uri: "file:///workspace/".to_owned(),
        server: None,
        session_identity: format!("sid_{}", "0".repeat(64)),
        position_encoding: "utf-8".to_owned(),
        expires_at: String::new(),
        source: Json::Object(Vec::new()),
        summary: no_changes(),
        edit: Json::Object(Vec::new()),
        command: None,
        annotations: Json::Object(Vec::new()),
        plan: CanonicalPlan { operations: Vec::new(), before_manifest: Vec::new(), intended_manifest: Vec::new() },
        preconditions: Vec::new(),
        conflicts: Vec::new(),
        stale_reasons: Vec::new(),
        diff: None,
        reserved: false,
    }
}

fn stored(id: &str, now: i64) -> StoredPreview {
    preview_to_store(preview_record(id), path(&["/", "workspace"]), "sha256:test".to_owned(), None, now, 0).unwrap()
}

fn receipt_record(id: &str) -> ReceiptRecord {
    ReceiptRecord {
        receipt_id: id.to_owned(),
        kind: "receipt".to_owned(),
        transaction_id: "txn_test".to_owned(),
        workspace_uri: "file:///workspace/".to_owned(),
        server: None,
        session_identity: None,
        preview_id: None,
        linked_receipt_id: None,
        preauthorized: false,
        started_at: "2026-01-01T00:00:00Z".to_owned(),
        completed_at: "2026-01-01T00:00:01Z".to_owned(),
        outcome: "applied".to_owned(),
        filesystem_state: "unchanged".to_owned(),
        summary: no_changes(),
        before_manifest: Vec::new(),
        intended_manifest: Vec::new(),
        observed_manifest: Vec::new(),
        session_synchronized: false,
        cleanup_pending: false,
        durability: Json::Object(Vec::new()),
        manifest_digest: "sha256:test".to_owned(),
        failure_stage: None,
        failed_change: None,
    }
}

fn limits(max_count: u64) -> PreviewSettings {
    PreviewSettings { max_count, max_total_bytes: 100_000, max_document_text_bytes: 100, max_text_bytes: 100 }
}

#[test]
fn preview_store_reserves_and_discards_exact_records() {
    let mut store = store();
    let id = store.new_preview_id().ok().unwrap();
    assert!(id.starts_with("prv_") && id.len() == 36);
    assert!(store.create_preview(stored(&id, NOW), 500, &limits(2), NOW).is_ok());
    let reserved = store.reserve_preview(&id, NOW).ok().unwrap();
    assert!(reserved.preview.reserved);
    assert!(store.discard_preview(&id, LockAttempt::Busy, NOW).is_err());
    assert!(store.discard_preview(&id, LockAttempt::Taken, NOW).is_ok());
    assert!(store.read_preview(&id, NOW).is_err());
}

#[test]
fn reserved_previews_are_owned_until_they_are_released() {
    let mut store = store();
    let (limits, _, _) = default_mutation_settings();
    assert!(store.create_preview(stored("prv_1", NOW), 500, &limits, NOW).is_ok());
    let mut reserved = store.reserve_preview("prv_1", NOW).ok().unwrap();
    match store.reserve_preview("prv_1", NOW) {
        Err(failure) => assert_eq!(failure.code, "application_busy"),
        Ok(_) => panic!("a preview was reserved twice"),
    }
    store.release_preview(&mut reserved, 500);
    assert!(!reserved.preview.reserved);
    assert!(!store.read_preview("prv_1", NOW).ok().unwrap().preview.reserved);
    assert!(store.list_transactions().is_empty());
}

#[test]
fn preview_reservation_write_failure_preserves_existing_ownership() {
    for case in ["before_commit", "after_commit", "cleanup_failure", "already_reserved"] {
        let (limits, _, _) = default_mutation_settings();
        let mut store = store();
        let id = store.new_preview_id().ok().unwrap();
        let mut on_disk = stored(&id, NOW);
        assert!(store.create_preview(on_disk.copy(), 1_000, &limits, NOW).is_ok());
        if case == "already_reserved" {
            on_disk = store.reserve_preview(&id, NOW).ok().unwrap();
        }
        let path = store.preview_path(&id).to_text();
        let failure = match store.reserve_preview(&id, NOW) {
            Err(failure) => {
                assert_eq!(case, "already_reserved", "must reject before attempting a write");
                failure
            }
            Ok(held) => {
                if case != "before_commit" {
                    on_disk = held.copy();
                    assert!(on_disk.preview.reserved);
                }
                let simulated = state_failure("preview", &path, "simulated reservation write failure", None);
                let failure = store.reserve_preview_with_writer(held, 1_000, Err(simulated)).err().unwrap();
                assert!(matches!(store.changes.last(), Some(Change::WritePreview(released)) if *released == id));
                if case == "cleanup_failure" {
                    state_failure("preview", &path, "A state record cannot be staged.", None)
                } else {
                    on_disk = store.read_preview(&id, NOW).ok().unwrap();
                    failure
                }
            }
        };
        if case == "cleanup_failure" {
            assert_ne!(failure.message, "simulated reservation write failure");
        } else if case != "already_reserved" {
            assert_eq!(failure.message, "simulated reservation write failure");
        }
        let code = if case == "already_reserved" { "application_busy" } else { "state_unavailable" };
        assert_eq!(failure.code, code);
        let owned = case == "already_reserved" || case == "cleanup_failure";
        assert_eq!(on_disk.preview.reserved, owned, "{case}");
        assert!(store.list_transactions().is_empty());
    }
}

#[test]
fn state_churn_respects_preview_and_receipt_capacity() {
    let mut store = store();
    for index in 0..2 {
        let result = store.create_preview(stored(&format!("prv_{index:032}"), NOW), 500, &limits(1), NOW);
        assert_eq!(result.is_ok(), index == 0);
        if let Err(failure) = result {
            assert_eq!(failure.code, "state_capacity_exceeded");
        }
    }
    let receipts = ReceiptSettings { max_count: 1 };
    for index in 0..2 {
        let result = store.write_receipt(receipt_record(&format!("rcp_{index:032}")), &receipts, NOW);
        assert_eq!(result.is_ok(), index == 0);
        if let Err(failure) = result {
            assert_eq!(failure.code, "state_capacity_exceeded");
        }
    }
}

#[test]
fn previews_have_room_in_bytes_too() {
    let mut store = store();
    assert!(store.create_preview(stored("prv_1", NOW), 60_000, &limits(9), NOW).is_ok());
    match store.create_preview(stored("prv_2", NOW), 60_000, &limits(9), NOW) {
        Err(failure) => assert_eq!(failure.code, "state_capacity_exceeded"),
        Ok(()) => panic!("the limit was passed"),
    }
    assert!(store.create_preview(stored("prv_2", NOW), 40_000, &limits(9), NOW).is_ok());
}

#[test]
fn explicit_prune_selects_the_complete_terminal_recovery_chain() {
    let mut store = store();
    let limits = ReceiptSettings { max_count: 4 };
    let original_id = format!("prv_{}", "1".repeat(32));
    let recovery_id = format!("rcp_{}", "2".repeat(32));

    let mut original = receipt_record(&original_id);
    original.outcome = "recovery_required".to_owned();
    original.cleanup_pending = true;
    assert!(store.write_receipt(original, &limits, NOW).is_ok());

    let mut recovery = receipt_record(&recovery_id);
    recovery.kind = "recovery_receipt".to_owned();
    recovery.outcome = "restored".to_owned();
    recovery.linked_receipt_id = Some(original_id.clone());
    assert!(store.write_receipt(recovery, &limits, NOW).is_ok());

    let removed = store.prune_state(&vec![original_id.clone()], NOW).ok().unwrap();
    assert_eq!(removed, vec![original_id.clone(), recovery_id.clone()]);
    assert!(store.read_receipt(&original_id).is_err());
    assert!(store.read_receipt(&recovery_id).is_err());
}

#[test]
fn prune_protects_a_nonterminal_recovery_chain() {
    let mut store = store();
    let limits = ReceiptSettings { max_count: 2 };
    let original_id = format!("prv_{}", "3".repeat(32));
    let mut original = receipt_record(&original_id);
    original.outcome = "recovery_required".to_owned();
    original.cleanup_pending = true;
    assert!(store.write_receipt(original, &limits, NOW).is_ok());

    let failure = match store.prune_state(&vec![original_id.clone()], NOW) {
        Err(failure) => failure,
        Ok(_) => panic!("a protected receipt was pruned"),
    };
    assert_eq!(failure.code, "state_prune_rejected");
    assert_eq!(value(&failure.data)["problems"][0]["code"], "protected");
    assert!(store.read_receipt(&original_id).is_ok());
}

#[test]
fn applied_previews_become_receipts_of_the_same_name() {
    let mut store = store();
    let (previews, receipts, _) = default_mutation_settings();
    assert!(store.create_preview(stored("prv_1", NOW), 500, &previews, NOW).is_ok());
    assert!(store.already_applied("prv_1").ok().unwrap().is_none());
    let mut receipt = receipt_record("prv_1");
    receipt.preview_id = Some("prv_1".to_owned());
    assert!(store.convert_preview_to_receipt("prv_1", receipt, &receipts, NOW).is_ok());
    assert_eq!(store.already_applied("prv_1").ok().unwrap().unwrap().receipt.receipt_id, "prv_1");
    match store.read_preview("prv_1", NOW) {
        Err(failure) => assert_eq!(failure.code, "preview_unknown"),
        Ok(_) => panic!("the preview is still there"),
    }
    assert!(store.mark_receipt_session_synchronized("prv_1").is_ok());
    assert!(store.read_receipt("prv_1").ok().unwrap().receipt.session_synchronized);
    match store.mark_receipt_session_synchronized("prv_2") {
        Err(failure) => assert_eq!(failure.code, "state_record_unknown"),
        Ok(()) => panic!("no such receipt"),
    }
}

#[test]
fn previews_expire() {
    let mut store = store();
    let (limits, _, _) = default_mutation_settings();
    let preview = stored("prv_1", NOW);
    let expires = preview.expires_unix_seconds;
    assert!(expires > NOW);
    assert_eq!(preview.format_version, MUTATION_STATE_VERSION);
    assert!(store.create_preview(preview, 500, &limits, NOW).is_ok());
    let listed = store.list_previews(NOW).ok().unwrap();
    assert_eq!(expired_preview_ids(&listed, expires - 1), Vec::<String>::new());
    assert_eq!(expired_preview_ids(&listed, expires), vec!["prv_1".to_owned()]);
    assert!(store.read_preview("prv_1", expires - 1).is_ok());
    assert!(store.read_preview("prv_1", expires).is_err());
    assert_eq!(store.list_previews(expires).ok().unwrap().len(), 0);
    assert!(matches!(store.changes.last(), Some(Change::RemovePreview(..))));
}

#[test]
fn transactions_are_journalled_and_removed() {
    let mut store = store();
    let transaction = TransactionRecord {
        format_version: MUTATION_STATE_VERSION,
        transaction_id: "txn_1".to_owned(),
        preview_id: "prv_1".to_owned(),
        receipt_id: "prv_1".to_owned(),
        workspace_path: path(&["/", "workspace"]),
        workspace_uri: "file:///workspace/".to_owned(),
        state: TransactionState::Staged,
        started_at: "2026-01-01T00:00:00Z".to_owned(),
        artifact_directory: path(&["/", "workspace", ".lspctl-txn_1"]),
        backups: Vec::new(),
        operations: Vec::new(),
        before_manifest: Vec::new(),
        intended_manifest: Vec::new(),
        observed_manifest: Vec::new(),
        manifest_digest: "sha256:test".to_owned(),
        cleanup_pending: false,
    };
    store.write_transaction(transaction);
    assert_eq!(store.list_transactions().len(), 1);
    assert_eq!(texts(store.transaction_files()), ["/state/transactions/txn_1.json"]);
    assert_eq!(store.read_transaction("txn_1").ok().unwrap().preview_id, "prv_1");
    assert_eq!(store.transaction_path("txn_1").to_text(), "/state/transactions/txn_1.json");
    store.remove_transaction("txn_1");
    match store.read_transaction("txn_1") {
        Err(failure) => assert_eq!(failure.code, "recovery_not_found"),
        Ok(_) => panic!("the journal is still there"),
    }
}

#[test]
fn unreadable_records_fail_the_reading() {
    let mut store = store();
    store.receipts.push(RecordFile { id: "rcp_1".to_owned(), bytes: 3, content: Err(ReadFault::Corrupt) });
    match store.read_receipt("rcp_1") {
        Err(failure) => assert_eq!(failure.code, "stored_state_version_unsupported"),
        Ok(_) => panic!("a corrupt receipt was read"),
    }
    assert!(validate_record_version(MUTATION_STATE_VERSION, "preview", "/state/x").is_ok());
    match validate_record_version(MUTATION_STATE_VERSION + 1, "preview", "/state/x") {
        Err(failure) => assert_eq!(failure.code, "stored_state_version_unsupported"),
        Ok(()) => panic!("an unknown version was accepted"),
    }
}

#[test]
fn identifiers_are_drawn_in_hexadecimal() {
    assert_eq!(
        identifier_from("txn_", Ok((0..16).collect())).ok(),
        Some("txn_000102030405060708090a0b0c0d0e0f".to_owned())
    );
    assert!(identifier_from("txn_", Err("no randomness".to_owned())).is_err());
    let store = store();
    let drawn = store.new_transaction_id().ok().unwrap();
    assert_eq!(drawn.len(), 36);
    assert!(drawn[4..].chars().all(|c| c.is_ascii_hexdigit() && !c.is_ascii_uppercase()));
    assert_ne!(drawn, store.new_transaction_id().ok().unwrap());
    assert!(store.new_receipt_id().ok().unwrap().starts_with("rcp_"));
}

#[test]
fn record_files_carry_their_identifier() {
    for (name, stem) in [
        ("prv_1.json", "prv_1"),
        ("a.txt", "a"),
        ("a.b.json", "a.b"),
        (".json", ".json"),
        ("..json", "."),
        ("notes", "notes"),
        ("..", ""),
    ] {
        assert_eq!(file_stem(name), stem, "{name}");
    }
    let names = ["prv_1.json", "notes.txt", "prv_2.json"].map(str::to_owned).to_vec();
    assert_eq!(record_files(&names), ["prv_1.json", "prv_2.json"]);
    let mut store = store();
    assert!(store.create_preview(stored("prv_1", NOW), 500, &limits(2), NOW).is_ok());
    assert!(store.create_preview(stored("prv_2", NOW), 500, &limits(2), NOW).is_ok());
    assert_eq!(texts(store.preview_files()), ["/state/previews/prv_1.json", "/state/previews/prv_2.json"]);
    assert!(store.write_receipt(receipt_record("rcp_1"), &ReceiptSettings { max_count: 1 }, NOW).is_ok());
    assert_eq!(texts(store.receipt_files()), ["/state/receipts/rcp_1.json"]);
    let lock = lock_path(&path(&["/", "state"]), "file:///workspace/").to_text();
    assert!(lock.starts_with("/state/"));
    assert_ne!(lock, lock_path(&path(&["/", "state"]), "file:///other/").to_text());
    assert!(MutationStateStore::open(None).is_err());
    assert!(MutationStateStore::open(Some(path(&["/", "home", "state"]))).is_ok());
}

#[test]
fn receipts_are_marked_in_the_file_that_is_asked_for() {
    let mut store = store();
    let receipts = ReceiptSettings { max_count: 4 };
    let mut record = receipt_record("rcp_y");
    record.cleanup_pending = true;
    assert!(store.write_receipt(record, &receipts, NOW).is_ok());
    store.receipts[0].id = "rcp_x".to_owned();
    assert!(store.mark_receipt_session_synchronized("rcp_x").is_ok());
    let read = store.read_receipt("rcp_x").ok().unwrap();
    assert!(read.receipt.session_synchronized && read.receipt.cleanup_pending);
    assert_eq!(read.receipt.receipt_id, "rcp_y");
    assert!(store.read_receipt("rcp_y").is_err());
    assert!(store.mark_receipt_cleanup_complete("rcp_x").is_ok());
    assert!(!store.read_receipt("rcp_x").ok().unwrap().receipt.cleanup_pending);
    assert!(store.read_receipt("rcp_y").is_err());
    let changes = store.changes.len();
    assert!(store.mark_receipt_session_synchronized("rcp_x").is_ok());
    assert!(store.mark_receipt_cleanup_complete("rcp_x").is_ok());
    assert_eq!(store.changes.len(), changes);
    assert!(store.mark_receipt_cleanup_complete("rcp_y").is_err());
    assert_eq!(store.changes.len(), changes);
}
