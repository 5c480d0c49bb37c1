//! Plans of workspace edits over a filesystem that is held in memory.

use std::collections::BTreeMap;

use lspctl::application::{Action, Application, Event, Phase};
use lspctl::checks::{manifest_mismatches, planned_backups};
use lspctl::commit_run::{Commit, CommitAction, CommitEvent};
use lspctl::digest::digest_raw_bytes;
use lspctl::edits::apply_canonical_text_edits;
use lspctl::failure::ContractFailure;
use lspctl::inspection::{Inspection, transaction_template};
use lspctl::json::Json;
use lspctl::manifest::{ManifestEntry, ResourceKind, manifest_digest, manifests_to_json};
use lspctl::order::Key;
use lspctl::path::NativePath;
use lspctl::plan::{
    CanonicalOperation, CanonicalPlan, ChildFact, DeviceFact, DirectoryFacts, DocumentVersionPrecondition, EntryFact, EntryKind,
    Measured, Observations, PlannedWorkspaceEdit, Request, ResourceFacts, WorkspaceEditProblem,
};
use lspctl::plan_edit::PlanOutcome;
use lspctl::planner::WorkspaceEditPlanner;
use lspctl::position::PositionEncoding;
use lspctl::records::{PreviewRecord, TransactionRecord, TransactionState, copy_operations};
use lspctl::recovery::{
    ReconcileStep, Recovery, RecoveryAction, RecoveryEvent, reconcile_inspected, reconcile_locked, reconcile_read,
    reconcile_written,
};
use lspctl::resource_digests::{ExtendedAttribute, identity_digest, metadata_digest, metadata_is_sparse};
use lspctl::rollback::{check_restored, plan_restoration};
use lspctl::rollback_run::{Rollback, RollbackAction, RollbackEvent};
use lspctl::settings::{MutationSettings, PreviewSettings, default_mutation_settings};
use lspctl::sorted::SortedMap;
use lspctl::stage_run::{StageAction, StageEvent, StageRun, cleanup_transaction_artifacts};
use lspctl::staging::TextInput;
use lspctl::state::MutationStateStore;
use lspctl::state_ops::preview_to_store;
use lspctl::timing::LockAttempt;
use serde_json::Value;

fn from_value(value: &Value) -> Json {
    match value {
        Value::Null => Json::Null,
        Value::Bool(b) => Json::Bool(*b),
        Value::Number(n) => match (n.as_u64(), n.as_i64()) {
            (Some(u), _) => Json::Unsigned(u),
            (None, Some(i)) => Json::Negative(i),
            (None, None) => Json::Decimal(n.to_string()),
        },
        Value::String(s) => Json::Text(s.clone()),
        Value::Array(items) => Json::Array(items.iter().map(from_value).collect()),
        Value::Object(fields) => Json::Object(fields.iter().map(|(k, v)| (k.clone(), from_value(v))).collect()),
    }
}

fn value(json: &Json) -> Value {
    match json {
        Json::Null => Value::Null,
        Json::Bool(b) => Value::from(*b),
        Json::Unsigned(n) => Value::from(*n),
        Json::Negative(n) => Value::from(*n),
        Json::Decimal(s) => serde_json::from_str(s).unwrap(),
        Json::Text(s) => Value::from(s.as_str()),
        Json::Array(items) => Value::Array(items.iter().map(value).collect()),
        Json::Object(fields) => Value::Object(fields.iter().map(|(k, v)| (k.clone(), value(v))).collect()),
    }
}

fn parsed(text: &str) -> Value {
    serde_json::from_str(text).unwrap()
}

fn json(text: &str) -> Json {
    from_value(&parsed(text))
}

enum Node {
    File(Vec<u8>),
    Directory,
    Link,
}

/// A filesystem in memory that answers what a planner asks.
struct Disk {
    nodes: BTreeMap<String, (u64, Node)>,
    next_identity: u64,
    max_entries: u64,
}

fn native(path: &str) -> NativePath {
    let mut components = vec!["/".to_owned()];
    components.extend(path.split('/').filter(|c| !c.is_empty()).map(str::to_owned));
    NativePath { components }
}

impl Disk {
    fn new() -> Disk {
        Disk { nodes: BTreeMap::new(), next_identity: 0, max_entries: 100 }.directory("/").directory("/workspace")
    }

    fn put(&mut self, path: &str, node: Node) {
        self.next_identity += 1;
        self.nodes.insert(path.to_owned(), (self.next_identity, node));
    }

    fn file(mut self, path: &str, content: &str) -> Disk {
        self.put(path, Node::File(content.as_bytes().to_vec()));
        self
    }

    fn directory(mut self, path: &str) -> Disk {
        self.put(path, Node::Directory);
        self
    }

    fn link(mut self, path: &str) -> Disk {
        self.put(path, Node::Link);
        self
    }

    fn text(&self, path: &str) -> Option<String> {
        match self.nodes.get(path) {
            Some((_, Node::File(bytes))) => Some(String::from_utf8(bytes.clone()).unwrap()),
            _ => None,
        }
    }

    fn write(&mut self, path: &str, content: Vec<u8>) {
        match self.nodes.get_mut(path) {
            Some((_, Node::File(bytes))) => *bytes = content,
            _ => self.put(path, Node::File(content)),
        }
    }

    fn tree(&self, root: &str) -> Vec<String> {
        let prefix = format!("{root}/");
        self.nodes.keys().filter(|path| *path == root || path.starts_with(&prefix)).cloned().collect()
    }

    fn remove(&mut self, root: &str) {
        for path in self.tree(root) {
            self.nodes.remove(&path);
        }
    }

    fn rename(&mut self, old: &str, new: &str) {
        self.remove(new);
        for path in self.tree(old) {
            let node = self.nodes.remove(&path).unwrap();
            self.nodes.insert(format!("{new}{}", &path[old.len()..]), node);
        }
    }

    fn kind(node: &Node) -> EntryKind {
        match node {
            Node::File(_) => EntryKind::File,
            Node::Directory => EntryKind::Directory,
            Node::Link => EntryKind::Other,
        }
    }

    fn answer(&self, request: Request, seen: &mut Observations) {
        match request {
            Request::Entry(path) => {
                let fact = match self.nodes.get(&path.to_text()) {
                    None => EntryFact::Missing,
                    Some((_, node)) => EntryFact::Present {
                        link: matches!(node, Node::Link),
                        device: Some(1),
                        kind: Self::kind(node),
                    },
                };
                seen.entries.insert(path, fact);
            }
            Request::Resource(path) => {
                let (identity, bytes) = match self.nodes.get(&path.to_text()) {
                    Some((identity, Node::File(bytes))) => (*identity, bytes.clone()),
                    Some((identity, _)) => (*identity, Vec::new()),
                    None => (0, Vec::new()),
                };
                let facts = ResourceFacts {
                    link_count: 1,
                    sparse: false,
                    content: Measured::Known(digest_raw_bytes(&bytes)),
                    identity: Measured::Known(identity_digest(1, identity)),
                    metadata: Measured::Known(metadata_digest(0o644, 0, 0, &Vec::new())),
                    length: Some(bytes.len() as u64),
                    text_length: Some(bytes.len() as u64),
                    text: Measured::Known(bytes),
                };
                seen.resources.insert(path, facts);
            }
            Request::Directory(path) => {
                let prefix = format!("{}/", path.to_text());
                let children = self
                    .nodes
                    .iter()
                    .filter_map(|(name, (_, node))| {
                        let name = name.strip_prefix(&prefix)?;
                        if name.contains('/') {
                            return None;
                        }
                        Some(ChildFact::Entry { name: name.to_owned(), kind: Measured::Known(Self::kind(node)) })
                    })
                    .collect();
                seen.directories.insert(path, DirectoryFacts { opened: Measured::Known(children) });
            }
            Request::Device(path) => {
                let device = self.nodes.get(&path.to_text()).map(|_| Some(1));
                seen.devices.insert(path, DeviceFact { device });
            }
        }
    }
}

fn nothing_seen() -> Observations {
    Observations {
        entries: SortedMap::new(),
        resources: SortedMap::new(),
        directories: SortedMap::new(),
        devices: SortedMap::new(),
    }
}

fn settings() -> (PreviewSettings, MutationSettings) {
    (
        PreviewSettings {
            max_count: 64,
            max_total_bytes: 1_000_000,
            max_document_text_bytes: 1_000_000,
            max_text_bytes: 1_000_000,
        },
        MutationSettings {
            application_lock_timeout: "1s".to_owned(),
            max_entries: 100,
            max_recursion_depth: 10,
            max_rollback_bytes: 1_000_000,
            max_staged_text_bytes: 1_000_000,
            max_preauthorized_callbacks: 64,
        },
    )
}

fn planner<'a>(
    workspace: &'a NativePath,
    encoding: PositionEncoding,
    limits: &'a (PreviewSettings, MutationSettings),
    observed: &'a Observations,
) -> WorkspaceEditPlanner<'a> {
    WorkspaceEditPlanner {
        workspace,
        position_encoding: encoding,
        preview_limits: &limits.0,
        mutation_limits: &limits.1,
        root_device: Some(1),
        fold_drive_case: false,
        observed,
    }
}

fn plan_with(
    disk: &Disk,
    encoding: PositionEncoding,
    limits: &(PreviewSettings, MutationSettings),
    edit: &str,
    preconditions: &SortedMap<String, DocumentVersionPrecondition>,
) -> Result<PlannedWorkspaceEdit, Vec<WorkspaceEditProblem>> {
    let workspace = native("/workspace");
    let edit = json(edit);
    let mut seen = nothing_seen();
    loop {
        let outcome = planner(&workspace, encoding, limits, &seen)
            .plan_workspace_edit_with_document_preconditions(&edit, preconditions);
        match outcome {
            PlanOutcome::Observe(request) => disk.answer(request, &mut seen),
            PlanOutcome::Refused(problems) => return Err(problems),
            PlanOutcome::Planned(planned) => return Ok(planned),
        }
    }
}

fn plan(disk: &Disk, encoding: PositionEncoding, edit: &str) -> Result<PlannedWorkspaceEdit, Vec<WorkspaceEditProblem>> {
    let workspace = native("/workspace");
    let (edit, limits) = (json(edit), settings());
    let mut seen = nothing_seen();
    loop {
        match planner(&workspace, encoding, &limits, &seen).plan_workspace_edit(&edit) {
            PlanOutcome::Observe(request) => disk.answer(request, &mut seen),
            PlanOutcome::Refused(problems) => return Err(problems),
            PlanOutcome::Planned(planned) => return Ok(planned),
        }
    }
}

fn planned(result: Result<PlannedWorkspaceEdit, Vec<WorkspaceEditProblem>>) -> PlannedWorkspaceEdit {
    match result {
        Ok(planned) => planned,
        Err(problems) => panic!("{}: {}", problems[0].code, problems[0].message),
    }
}

fn refused(result: Result<PlannedWorkspaceEdit, Vec<WorkspaceEditProblem>>) -> Vec<WorkspaceEditProblem> {
    match result {
        Ok(_) => panic!("the edit was planned"),
        Err(problems) => problems,
    }
}

fn has_code(problems: &[WorkspaceEditProblem], code: &str) -> bool {
    problems.iter().any(|problem| problem.code == code)
}

fn names_resource(problems: &[WorkspaceEditProblem], resource: &str) -> bool {
    problems.iter().any(|problem| problem.data.as_ref().is_some_and(|data| value(data)["resource"] == resource))
}

fn entry<'a>(manifest: &'a [ManifestEntry], path: &str) -> &'a ManifestEntry {
    manifest.iter().find(|entry| entry.path.to_text() == path).unwrap()
}

#[test]
fn plans_utf16_text_edits_and_preserves_same_position_order() {
    let disk = Disk::new().file("/workspace/main.rs", "a😀b\r\n");
    let planned = planned(plan(
        &disk,
        PositionEncoding::Utf16,
        r#"{"changes": {"file:///workspace/main.rs": [
            {"range": {"start": {"line": 0, "character": 1}, "end": {"line": 0, "character": 1}}, "newText": "x"},
            {"range": {"start": {"line": 0, "character": 1}, "end": {"line": 0, "character": 1}}, "newText": "y"}
        ]}}"#,
    ));
    match &planned.plan.operations[0] {
        CanonicalOperation::Text { after_digest, edits, .. } => {
            assert_eq!(after_digest, &digest_raw_bytes(&"axy😀b\r\n".as_bytes().to_vec()));
            assert_eq!(edits.len(), 2);
        }
        _ => panic!("no text is changed"),
    }
    assert_eq!(planned.summary.files_changed, 1);
    assert_eq!(planned.summary.text_edits, 2);
}

#[test]
fn rejects_overlap_and_workspace_escape() {
    let disk = Disk::new().file("/workspace/main.rs", "abc").file("/outside.rs", "abc");
    let problems = refused(plan(
        &disk,
        PositionEncoding::Utf8,
        r#"{"changes": {"file:///workspace/main.rs": [
            {"range": {"start": {"line": 0, "character": 0}, "end": {"line": 0, "character": 2}}, "newText": "x"},
            {"range": {"start": {"line": 0, "character": 1}, "end": {"line": 0, "character": 3}}, "newText": "y"}
        ]}}"#,
    ));
    assert!(has_code(&problems, "overlapping_edits"));
    let problems = refused(plan(&disk, PositionEncoding::Utf8, r#"{"changes": {"file:///outside.rs": []}}"#));
    assert_eq!(problems[0].code, "outside_workspace");
}

#[test]
fn rejects_unbound_versions_unknown_fields_and_dot_segments() {
    let disk = Disk::new().file("/workspace/main.rs", "abc");
    let uri = "file:///workspace/main.rs";
    let versioned = |version: i64| {
        format!(r#"{{"documentChanges": [{{"textDocument": {{"uri": "{uri}", "version": {version}}}, "edits": []}}]}}"#)
    };
    let known = |content: &[u8]| {
        let mut preconditions = SortedMap::new();
        preconditions.insert(
            uri.to_owned(),
            DocumentVersionPrecondition { version: 1, digest: digest_raw_bytes(&content.to_vec()) },
        );
        preconditions
    };
    let encoding = PositionEncoding::Utf8;
    assert_eq!(refused(plan(&disk, encoding, &versioned(1)))[0].code, "invalid_document_version");
    assert!(plan_with(&disk, encoding, &settings(), &versioned(1), &known(b"abc")).is_ok());
    assert_eq!(
        refused(plan_with(&disk, encoding, &settings(), &versioned(2), &known(b"abc")))[0].code,
        "invalid_document_version"
    );
    assert_eq!(
        refused(plan_with(&disk, encoding, &settings(), &versioned(1), &known(b"different")))[0].code,
        "invalid_document_version"
    );
    assert_eq!(
        refused(plan(&disk, encoding, r#"{"changes": {}, "unexpected": true}"#))[0].code,
        "unknown_operation"
    );
    assert_eq!(
        refused(plan(&disk, encoding, r#"{"changes": {"file:///workspace/child/../main.rs": []}}"#))[0].code,
        "path_traversal"
    );
}

#[test]
fn omits_exact_no_op_text_edits_from_the_plan() {
    let disk = Disk::new().file("/workspace/main.rs", "abc");
    let planned = planned(plan(
        &disk,
        PositionEncoding::Utf8,
        r#"{"changes": {"file:///workspace/main.rs": [
            {"range": {"start": {"line": 0, "character": 0}, "end": {"line": 0, "character": 3}}, "newText": "abc"}
        ]}}"#,
    ));
    assert!(planned.plan.operations.is_empty());
    assert_eq!(planned.summary.files_changed, 0);
}

const RENAME_OVER: &str = r#"{"documentChanges": [{
    "kind": "rename", "oldUri": "file:///workspace/source", "newUri": "file:///workspace/destination",
    "options": {"overwrite": true}
}]}"#;

#[test]
fn planner_directory_membership_covers_overwritten_destination() {
    let disk = Disk::new()
        .directory("/workspace/source")
        .file("/workspace/source/source.txt", "source")
        .directory("/workspace/destination")
        .directory("/workspace/destination/nested")
        .file("/workspace/destination/nested/destination-only.txt", "destination-only");
    let plan = planned(plan(&disk, PositionEncoding::Utf8, RENAME_OVER)).plan;
    for path in ["/workspace/destination/nested", "/workspace/destination/nested/destination-only.txt"] {
        assert!(entry(&plan.before_manifest, path).exists, "{path}");
        assert!(!entry(&plan.intended_manifest, path).exists, "{path}");
    }
    let (previews, mut mutation) = settings();
    mutation.max_entries = 4;
    let mut limits = (previews, mutation);
    let none = SortedMap::new();
    let problems = refused(plan_with(&disk, PositionEncoding::Utf8, &limits, RENAME_OVER, &none));
    assert!(names_resource(&problems, "entries"));
    limits.1.max_entries = 100;
    limits.1.max_rollback_bytes = b"source".len() as u64;
    let problems = refused(plan_with(&disk, PositionEncoding::Utf8, &limits, RENAME_OVER, &none));
    assert!(names_resource(&problems, "rollbackBytes"));
}

fn deep_disk() -> Disk {
    Disk::new()
        .directory("/workspace/source")
        .file("/workspace/source/source.txt", "source")
        .directory("/workspace/destination")
        .directory("/workspace/destination/one")
        .directory("/workspace/destination/one/two")
        .file("/workspace/destination/one/two/extra.txt", "untouched")
}

#[test]
fn directory_membership_limits_and_no_follow() {
    let disk = deep_disk();
    let mut limits = settings();
    let none = SortedMap::new();
    for (entries, depth, resource) in [(4, 10, "entries"), (100, 1, "recursionDepth")] {
        limits.1.max_entries = entries;
        limits.1.max_recursion_depth = depth;
        let problems = refused(plan_with(&disk, PositionEncoding::Utf8, &limits, RENAME_OVER, &none));
        assert!(names_resource(&problems, resource), "{resource}");
        assert_eq!(disk.text("/workspace/destination/one/two/extra.txt").as_deref(), Some("untouched"));
    }
    let ignored = RENAME_OVER.replace("overwrite", "ignoreIfExists");
    let plan = planned(plan_with(&disk, PositionEncoding::Utf8, &limits, &ignored, &none)).plan;
    assert!(plan.operations.is_empty());
    limits.1.max_recursion_depth = 10;
    limits.1.max_entries = 6;
    // The six before entries fit; the destination-only tombstones and moved target also count.
    let problems = refused(plan_with(&disk, PositionEncoding::Utf8, &limits, RENAME_OVER, &none));
    assert!(names_resource(&problems, "entries"));
    limits.1.max_entries = 100;
    let plan = planned(plan_with(&disk, PositionEncoding::Utf8, &limits, RENAME_OVER, &none)).plan;
    assert!(!plan.before_manifest.is_empty());

    let disk = deep_disk().file("/outside/sentinel", "outside").link("/workspace/destination/outside");
    let problems = refused(plan_with(&disk, PositionEncoding::Utf8, &limits, RENAME_OVER, &none));
    assert!(has_code(&problems, "symlink_or_reparse_point"));
    let workspace = native("/workspace");
    let mut seen = nothing_seen();
    let refused = loop {
        match planner(&workspace, PositionEncoding::Utf8, &limits, &seen).inspect_manifest(&plan.before_manifest) {
            Inspection::Observe(request) => disk.answer(request, &mut seen),
            Inspection::Refused(_) => break true,
            Inspection::Seen(_) => break false,
        }
    };
    assert!(refused);
    // Editing one file must not enumerate its siblings or the whole Workspace.
    assert!(
        plan_with(
            &disk,
            PositionEncoding::Utf8,
            &limits,
            r#"{"changes": {"file:///workspace/destination/one/two/extra.txt": [
                {"range": {"start": {"line": 0, "character": 0}, "end": {"line": 0, "character": 0}}, "newText": "x"}
            ]}}"#,
            &none,
        )
        .is_ok()
    );
    assert_eq!(disk.text("/outside/sentinel").as_deref(), Some("outside"));
}

#[test]
fn manifests_read_back_as_they_were_planned() {
    let disk = deep_disk();
    let limits = settings();
    let plan = planned(plan_with(&disk, PositionEncoding::Utf8, &limits, RENAME_OVER, &SortedMap::new())).plan;
    let workspace = native("/workspace");
    let mut seen = nothing_seen();
    let current = loop {
        match planner(&workspace, PositionEncoding::Utf8, &limits, &seen).inspect_manifest(&plan.before_manifest) {
            Inspection::Observe(request) => disk.answer(request, &mut seen),
            Inspection::Refused(problems) => panic!("{}", problems[0].message),
            Inspection::Seen(current) => break current,
        }
    };
    assert_eq!(current.len(), plan.before_manifest.len());
    for (seen, planned) in current.iter().zip(plan.before_manifest.iter()) {
        assert!(seen.same_entry(planned), "{}", planned.path.to_text());
    }
}

#[test]
fn creates_renames_and_deletes_are_planned_in_order() {
    let disk = Disk::new().file("/workspace/a.txt", "a").file("/workspace/b.txt", "b");
    let planned = planned(plan(
        &disk,
        PositionEncoding::Utf8,
        r#"{"documentChanges": [
            {"kind": "create", "uri": "file:///workspace/new.txt"},
            {"textDocument": {"uri": "file:///workspace/a.txt", "version": null}, "edits": [
                {"range": {"start": {"line": 0, "character": 1}, "end": {"line": 0, "character": 1}}, "newText": "!"}
            ]},
            {"kind": "rename", "oldUri": "file:///workspace/a.txt", "newUri": "file:///workspace/c.txt"},
            {"kind": "delete", "uri": "file:///workspace/b.txt"}
        ]}"#,
    ));
    assert_eq!(
        (planned.summary.creates, planned.summary.renames, planned.summary.deletes, planned.summary.text_edits),
        (1, 1, 1, 1)
    );
    let intended = &planned.plan.intended_manifest;
    assert!(entry(intended, "/workspace/new.txt").exists);
    assert!(!entry(intended, "/workspace/a.txt").exists);
    assert!(!entry(intended, "/workspace/b.txt").exists);
    assert_eq!(entry(intended, "/workspace/c.txt").content_digest, Some(digest_raw_bytes(&b"a!".to_vec())));
    assert_eq!(
        entry(&planned.plan.before_manifest, "/workspace/a.txt").content_digest,
        Some(digest_raw_bytes(&b"a".to_vec()))
    );
}

#[test]
fn what_cannot_be_changed_is_refused() {
    let disk = Disk::new()
        .file("/workspace/a.txt", "a")
        .file("/workspace/b.txt", "b")
        .directory("/workspace/full")
        .file("/workspace/full/one.txt", "1");
    for (edit, code) in [
        (r#"{"documentChanges": [{"kind": "create", "uri": "file:///workspace/a.txt"}]}"#, "target_exists"),
        (r#"{"documentChanges": [{"kind": "delete", "uri": "file:///workspace/no.txt"}]}"#, "source_missing"),
        (r#"{"documentChanges": [{"kind": "delete", "uri": "file:///workspace/full"}]}"#, "directory_not_empty"),
        (
            r#"{"documentChanges": [{"kind": "rename", "oldUri": "file:///workspace/a.txt", "newUri": "file:///workspace/b.txt"}]}"#,
            "target_exists",
        ),
        (r#"{"documentChanges": [{"kind": "chmod", "uri": "file:///workspace/a.txt"}]}"#, "unknown_operation"),
        (r#"{"changes": {"https://example.test/a.txt": []}}"#, "unsupported_uri_scheme"),
    ] {
        let problems = refused(plan(&disk, PositionEncoding::Utf8, edit));
        assert!(has_code(&problems, code), "{edit}");
    }
}

const NOW: i64 = 1_700_000_000;

fn seen_manifest(disk: &Disk, template: &Vec<ManifestEntry>) -> Vec<ManifestEntry> {
    let workspace = native("/workspace");
    let mut limits = settings();
    limits.1.max_entries = disk.max_entries;
    let mut seen = nothing_seen();
    loop {
        match planner(&workspace, PositionEncoding::Utf8, &limits, &seen).inspect_manifest(template) {
            Inspection::Observe(request) => disk.answer(request, &mut seen),
            Inspection::Refused(problems) => panic!("{}", problems[0].message),
            Inspection::Seen(current) => return current,
        }
    }
}

fn seen_path(disk: &Disk, path: &NativePath) -> ManifestEntry {
    let workspace = native("/workspace");
    let limits = settings();
    let paths = vec![path.duplicate()];
    let mut seen = nothing_seen();
    loop {
        match planner(&workspace, PositionEncoding::Utf8, &limits, &seen).inspect_manifest_paths(&paths) {
            Inspection::Observe(request) => disk.answer(request, &mut seen),
            Inspection::Refused(problems) => panic!("{}", problems[0].message),
            Inspection::Seen(mut current) => return current.remove(0),
        }
    }
}

fn seen_transaction(disk: &Disk, transaction: &TransactionRecord) -> Vec<ManifestEntry> {
    let template = transaction_template(
        &transaction.before_manifest,
        &transaction.intended_manifest,
        &transaction.observed_manifest,
    );
    seen_manifest(disk, &template)
}

fn stage(disk: &mut Disk, transaction: &TransactionRecord, limit: u64) -> Result<(), (ContractFailure, bool)> {
    let mut run = StageRun::new(transaction.copy(), limit, 1_000_000);
    let mut event = StageEvent::Begin;
    loop {
        event = match run.step(event) {
            StageAction::MakeDirectory(path) => {
                if disk.nodes.contains_key(&path.to_text()) {
                    StageEvent::Failed { os_code: Some(17) }
                } else {
                    disk.put(&path.to_text(), Node::Directory);
                    StageEvent::Done
                }
            }
            StageAction::Mark(_) | StageAction::Restrict(_) | StageAction::Flush(_) => StageEvent::Done,
            StageAction::Copy { from, to } => {
                let mut bytes = 0;
                for path in disk.tree(&from.to_text()) {
                    let place = format!("{}{}", to.to_text(), &path[from.to_text().len()..]);
                    match disk.text(&path) {
                        Some(text) => {
                            bytes += text.len() as u64;
                            disk.put(&place, Node::File(text.into_bytes()));
                        }
                        None => disk.put(&place, Node::Directory),
                    }
                }
                StageEvent::Copied(bytes)
            }
            StageAction::ReadText(path) => StageEvent::Text(match disk.text(&path.to_text()) {
                Some(text) => TextInput::Bytes(text.into_bytes()),
                None => TextInput::Unread { os_code: Some(2) },
            }),
            StageAction::WriteText { path, bytes } => {
                disk.put(&path.to_text(), Node::File(bytes));
                StageEvent::Done
            }
            StageAction::Staged => return Ok(()),
            StageAction::Unstaged { failure, artifact_created } => return Err((failure, artifact_created)),
        };
    }
}

fn commit(disk: &mut Disk, transaction: &TransactionRecord) -> Result<(), u64> {
    let mut run = Commit::new(copy_operations(&transaction.operations), transaction.artifact_directory.duplicate());
    let mut event = CommitEvent::Begin;
    loop {
        event = match run.step(event) {
            CommitAction::ReadText(path) | CommitAction::ReadStaged(path) => match disk.text(&path.to_text()) {
                Some(text) => CommitEvent::Bytes(text.into_bytes()),
                None => CommitEvent::Failed,
            },
            CommitAction::WriteText { path, bytes } => {
                disk.write(&path.to_text(), bytes);
                CommitEvent::Done
            }
            CommitAction::LookAt(path) => CommitEvent::Exists(disk.nodes.contains_key(&path.to_text())),
            CommitAction::Truncate(path) | CommitAction::Create(path) => {
                disk.write(&path.to_text(), Vec::new());
                CommitEvent::Done
            }
            CommitAction::Move { from, to } => {
                disk.rename(&from.to_text(), &to.to_text());
                CommitEvent::Done
            }
            CommitAction::LookInto(path) => {
                let stands = disk.tree(&path.to_text());
                CommitEvent::Entry {
                    exists: !stands.is_empty(),
                    directory: disk.text(&path.to_text()).is_none(),
                    has_children: stands.len() > 1,
                }
            }
            CommitAction::Committed => return Ok(()),
            CommitAction::Refused(index) => return Err(index),
        };
    }
}

fn roll_back(disk: &mut Disk, transaction: &TransactionRecord) -> Result<Vec<ManifestEntry>, String> {
    let mut run = Rollback::new(transaction.copy());
    let mut event = RollbackEvent::Begin;
    loop {
        event = match run.step(event) {
            RollbackAction::Inspect(path) => RollbackEvent::Entry(seen_path(disk, &path)),
            RollbackAction::Remove(path) | RollbackAction::Clear(path) => {
                disk.remove(&path.to_text());
                RollbackEvent::Done
            }
            RollbackAction::Move { from, to } => {
                disk.rename(&from.to_text(), &to.to_text());
                RollbackEvent::Done
            }
            RollbackAction::InspectTransaction => RollbackEvent::Manifest(seen_transaction(disk, transaction)),
            RollbackAction::Fill { backup, destination } => {
                let text = disk.text(&backup.to_text()).unwrap();
                disk.write(&destination.to_text(), text.into_bytes());
                RollbackEvent::Done
            }
            RollbackAction::Restored(manifest) => return Ok(manifest),
            RollbackAction::Stuck(reason) => return Err(reason),
        };
    }
}

fn preview(store: &mut MutationStateStore, id: &str, planned: PlannedWorkspaceEdit) {
    let (limits, _, _) = default_mutation_settings();
    let preconditions = planned.plan.before_manifest.iter().map(|entry| entry.copy()).collect();
    let record = PreviewRecord {
        preview_id: id.to_owned(),
        workspace_uri: "file:///workspace/".to_owned(),
        server: None,
        session_identity: format!("sid_{}", "0".repeat(64)),
        position_encoding: "utf-8".to_owned(),
        expires_at: String::new(),
        source: json(r#"{"kind": "test"}"#),
        summary: planned.summary,
        edit: json("{}"),
        command: None,
        annotations: planned.annotations,
        plan: planned.plan,
        preconditions,
        conflicts: Vec::new(),
        stale_reasons: Vec::new(),
        diff: None,
        reserved: false,
    };
    let stored = preview_to_store(record, native("/workspace"), "sha256:test".to_owned(), None, NOW, 0).unwrap();
    assert!(store.create_preview(stored, 1_000, &limits, NOW).is_ok());
}

/// Applies a preview step by step, with a change to the filesystem in front of
/// the check that follows the commit.
fn apply_disturbed(
    disk: &mut Disk,
    store: &mut MutationStateStore,
    id: &str,
    disturb: impl Fn(&mut Disk),
) -> Result<Value, ContractFailure> {
    apply_watched(disk, store, id, disturb, true)
}

/// Applies a preview step by step. What the commit came to can be read back, or
/// cannot.
fn apply_watched(
    disk: &mut Disk,
    store: &mut MutationStateStore,
    id: &str,
    disturb: impl Fn(&mut Disk),
    readable: bool,
) -> Result<Value, ContractFailure> {
    let (_, receipts, _) = default_mutation_settings();
    let time = "2023-11-14T22:13:20Z".to_owned();
    let mut application = Application::new(id, false, false, false, true);
    let mut event = Event::Begin;
    loop {
        event = match application.step(event) {
            Action::LookUpReceipt => match store.already_applied(id) {
                Ok(found) => Event::Receipt(found.map(|stored| stored.receipt)),
                Err(failure) => Event::Failed(failure),
            },
            Action::ReadPreview => match store.read_preview(id, NOW) {
                Ok(stored) => Event::Preview(stored),
                Err(failure) => Event::Failed(failure),
            },
            Action::LockWorkspace => Event::Done,
            Action::ReservePreview => match store.reserve_preview(id, NOW) {
                Ok(stored) => Event::Preview(stored),
                Err(failure) => Event::Failed(failure),
            },
            Action::CheckDeadline => Event::Deadline(false),
            Action::Reauthorize => Event::Reasons(Vec::new()),
            Action::ListTransactions => Event::Journals(store.list_transactions()),
            Action::EnsureReceiptCapacity => match store.ensure_receipt_capacity(&receipts, NOW) {
                Ok(()) => Event::Done,
                Err(failure) => Event::Failed(failure),
            },
            Action::InspectBefore => {
                let template = &application.stored.as_ref().unwrap().preview.plan.before_manifest;
                Event::Manifest(seen_manifest(disk, template))
            }
            Action::NewTransaction => {
                Event::Started { transaction_id: format!("txn_{}", "0".repeat(32)), started_at: time.clone() }
            }
            Action::WriteTransaction => {
                store.write_transaction(application.transaction.as_ref().unwrap().copy());
                match application.phase {
                    Phase::JournalingApplied | Phase::JournalingRolledBack | Phase::JournalingRecovery => {
                        Event::Journaled(time.clone())
                    }
                    _ => Event::Done,
                }
            }
            Action::Stage => match stage(disk, application.transaction.as_ref().unwrap(), 1_000_000) {
                Ok(()) => Event::Done,
                Err((failure, artifact_created)) => Event::StageFailed { failure, artifact_created },
            },
            Action::CleanArtifacts => {
                disk.remove(&application.transaction.as_ref().unwrap().artifact_directory.to_text());
                Event::Cleaned(true)
            }
            Action::RemoveTransaction => {
                store.remove_transaction(&application.transaction.as_ref().unwrap().transaction_id);
                if application.phase == Phase::RemovingFailed { Event::Done } else { Event::Cleaned(true) }
            }
            Action::ReleasePreview => {
                store.release_preview(application.stored.as_mut().unwrap(), 1_000);
                Event::Done
            }
            Action::Commit => {
                let committed = commit(disk, application.transaction.as_ref().unwrap());
                disturb(disk);
                match committed {
                    Ok(()) => Event::Done,
                    Err(index) => Event::CommitFailed(index),
                }
            }
            Action::InspectIntended if !readable => Event::Unsupported(Vec::new()),
            Action::InspectIntended => {
                Event::Manifest(seen_manifest(disk, &application.transaction.as_ref().unwrap().intended_manifest))
            }
            Action::Rollback => match roll_back(disk, application.transaction.as_ref().unwrap()) {
                Ok(restored) => Event::Manifest(restored),
                Err(_) => Event::RollbackFailed,
            },
            Action::Salvage => {
                Event::Manifest(seen_transaction(disk, application.transaction.as_ref().unwrap()))
            }
            Action::ConvertToReceipt => {
                let receipt = application.receipt.as_ref().unwrap().copy();
                match store.convert_preview_to_receipt(id, receipt, &receipts, NOW) {
                    Ok(stored) => Event::Stored(stored.receipt),
                    Err(failure) => Event::Failed(failure),
                }
            }
            Action::RetirePreview => {
                store.retire_preview_after_recovery(id);
                Event::Cleaned(true)
            }
            Action::MarkCleanupComplete => Event::Cleaned(store.mark_receipt_cleanup_complete(id).is_ok()),
            Action::PostCommit => Event::Synchronized(false),
            Action::MarkSynchronized => Event::Done,
            Action::Finish(result) => return result.map(|report| value(&report)),
        };
    }
}

fn apply(disk: &mut Disk, store: &mut MutationStateStore, id: &str) -> Result<Value, ContractFailure> {
    apply_disturbed(disk, store, id, |_| {})
}

const CHANGE_OLD: &str = r#"{"changes": {"file:///workspace/main.rs": [
    {"range": {"start": {"line": 0, "character": 0}, "end": {"line": 0, "character": 3}}, "newText": "new"}
]}}"#;

#[test]
fn exact_text_preview_applies_once_and_returns_same_receipt() {
    let mut disk = Disk::new().file("/workspace/main.rs", "old\n");
    let mut store = MutationStateStore::open_at(native("/state"));
    let id = store.new_preview_id().ok().unwrap();
    preview(&mut store, &id, planned(plan(&disk, PositionEncoding::Utf8, CHANGE_OLD)));
    let applied = apply(&mut disk, &mut store, &id).ok().unwrap();
    assert_eq!(disk.text("/workspace/main.rs").as_deref(), Some("new\n"));
    assert_eq!(applied["outcome"], "applied");
    let again = apply(&mut disk, &mut store, &id).ok().unwrap();
    assert_eq!(again["outcome"], "already_applied");
    assert_eq!(again["receiptId"], applied["receiptId"]);
    assert!(store.list_transactions().is_empty());
}

#[test]
fn directory_membership_rejects_added_descendant() {
    for kind in ["delete", "rename"] {
        let mut disk = Disk::new()
            .directory("/workspace/source")
            .directory("/workspace/source/nested")
            .file("/workspace/source/nested/old.txt", "previewed");
        let edit = if kind == "delete" {
            r#"{"documentChanges": [{"kind": "delete", "uri": "file:///workspace/source",
                "options": {"recursive": true}}]}"#
        } else {
            r#"{"documentChanges": [{"kind": "rename", "oldUri": "file:///workspace/source",
                "newUri": "file:///workspace/moved"}]}"#
        };
        let mut store = MutationStateStore::open_at(native("/state"));
        preview(&mut store, "prv_1", planned(plan(&disk, PositionEncoding::Utf8, edit)));
        disk = disk.file("/workspace/source/nested/added.txt", "not previewed");
        match apply(&mut disk, &mut store, "prv_1") {
            Err(failure) => assert_eq!(failure.code, "preview_stale", "{kind}"),
            Ok(_) => panic!("{kind}"),
        }
        assert_eq!(disk.text("/workspace/source/nested/old.txt").as_deref(), Some("previewed"));
        assert_eq!(disk.text("/workspace/source/nested/added.txt").as_deref(), Some("not previewed"));
        assert!(store.list_transactions().is_empty());
        assert!(store.list_receipts(NOW).ok().unwrap().is_empty());
        assert!(!store.read_preview("prv_1", NOW).ok().unwrap().preview.reserved);
    }
}

#[test]
fn directory_membership_intended_tree_matches_ordered_operations() {
    let mut disk = Disk::new()
        .directory("/workspace/source")
        .directory("/workspace/source/nested")
        .file("/workspace/source/nested/old.txt", "old")
        .file("/workspace/source/nested/keep.txt", "keep")
        .directory("/workspace/destination")
        .directory("/workspace/destination/nested")
        .file("/workspace/destination/nested/extra.txt", "extra");
    let edit = r#"{"documentChanges": [
        {"kind": "rename", "oldUri": "file:///workspace/source", "newUri": "file:///workspace/destination",
            "options": {"overwrite": true}},
        {"kind": "delete", "uri": "file:///workspace/destination/nested/old.txt"},
        {"kind": "create", "uri": "file:///workspace/destination/nested/new.txt"},
        {"kind": "rename", "oldUri": "file:///workspace/destination/nested/keep.txt",
            "newUri": "file:///workspace/destination/nested/renamed.txt"},
        {"kind": "delete", "uri": "file:///workspace/source/nested/old.txt",
            "options": {"ignoreIfNotExists": true}},
        {"kind": "rename", "oldUri": "file:///workspace/destination", "newUri": "file:///workspace/final"}
    ]}"#;
    let mut store = MutationStateStore::open_at(native("/state"));
    let ordered = planned(plan(&disk, PositionEncoding::Utf8, edit));
    assert_eq!(ordered.plan.operations.len(), 5);
    let intended: Vec<ManifestEntry> = ordered.plan.intended_manifest.iter().map(|entry| entry.copy()).collect();
    preview(&mut store, "prv_1", ordered);
    let first = apply(&mut disk, &mut store, "prv_1").ok().unwrap();
    assert_eq!(first["outcome"], "applied");
    let again = apply(&mut disk, &mut store, "prv_1").ok().unwrap();
    assert_eq!(again["outcome"], "already_applied");
    assert_eq!(disk.text("/workspace/final/nested/renamed.txt").as_deref(), Some("keep"));
    assert_eq!(disk.text("/workspace/final/nested/new.txt").as_deref(), Some(""));
    assert!(disk.tree("/workspace/final/nested/old.txt").is_empty());
    assert!(disk.tree("/workspace/final/nested/extra.txt").is_empty());
    assert!(disk.tree("/workspace/source").is_empty());
    assert!(disk.tree("/workspace/destination").is_empty());
    assert!(manifest_mismatches(&intended, &seen_manifest(&disk, &intended)).is_empty());
    for entry in intended.iter().filter(|entry| entry.resource_kind == ResourceKind::Directory) {
        assert!(entry.content_digest.is_some());
    }
    assert_eq!(store.list_receipts(NOW).ok().unwrap().len(), 1);
    assert!(store.list_transactions().is_empty());
}

fn forget_members(plan: &mut CanonicalPlan) {
    for entry in plan.before_manifest.iter_mut().chain(&mut plan.intended_manifest) {
        if entry.resource_kind == ResourceKind::Directory {
            entry.content_digest = None;
        }
    }
}

#[test]
fn directory_membership_legacy_preview_requires_recreation() {
    for kind in ["delete", "rename", "overwrite", "text"] {
        let mut disk = Disk::new()
            .directory("/workspace/source")
            .directory("/workspace/source/nested")
            .directory("/workspace/destination")
            .directory("/workspace/destination/nested")
            .file("/workspace/source/nested/old.txt", "old")
            .file("/workspace/destination/nested/extra.txt", "extra");
        let mut store = MutationStateStore::open_at(native("/state"));
        let operation = match kind {
            "text" => {
                r#"{"textDocument": {"uri": "file:///workspace/source/nested/old.txt", "version": null},
                "edits": [{"range": {"start": {"line": 0, "character": 0}, "end": {"line": 0, "character": 3}},
                    "newText": "new"}]}"#
            }
            "delete" => {
                r#"{"kind": "delete", "uri": "file:///workspace/source", "options": {"recursive": true}}"#
            }
            "overwrite" => {
                r#"{"kind": "rename", "oldUri": "file:///workspace/source",
                "newUri": "file:///workspace/destination", "options": {"overwrite": true}}"#
            }
            _ => {
                r#"{"kind": "rename", "oldUri": "file:///workspace/source", "newUri": "file:///workspace/moved",
                "options": {"overwrite": false}}"#
            }
        };
        let edit = format!(r#"{{"documentChanges": [{operation}]}}"#);
        let mut legacy = planned(plan(&disk, PositionEncoding::Utf8, &edit));
        forget_members(&mut legacy.plan);
        let immutable = canonical_plan_json(&legacy.plan);
        preview(&mut store, "prv_1", legacy);
        if kind == "text" {
            assert_eq!(apply(&mut disk, &mut store, "prv_1").ok().unwrap()["outcome"], "applied");
            assert_eq!(disk.text("/workspace/source/nested/old.txt").as_deref(), Some("new"));
        } else {
            assert_eq!(apply(&mut disk, &mut store, "prv_1").err().unwrap().code, "preview_stale", "{kind}");
            assert_eq!(disk.text("/workspace/source/nested/old.txt").as_deref(), Some("old"));
            assert_eq!(disk.text("/workspace/destination/nested/extra.txt").as_deref(), Some("extra"));
            assert!(store.list_transactions().is_empty());
            assert!(store.list_receipts(NOW).ok().unwrap().is_empty());
            let kept = store.read_preview("prv_1", NOW).ok().unwrap().preview.plan;
            assert_eq!(canonical_plan_json(&kept), immutable);
        }
    }
}

/// A plan in a form that can be compared.
fn canonical_plan_json(plan: &CanonicalPlan) -> String {
    let manifests = format!(
        "{} {}",
        value(&manifests_to_json(&plan.before_manifest)),
        value(&manifests_to_json(&plan.intended_manifest))
    );
    format!("{} {manifests}", plan.operations.len())
}

#[test]
fn application_directory_membership_covers_overwritten_destination() {
    let mut disk = Disk::new()
        .directory("/workspace/source")
        .file("/workspace/source/old.txt", "source")
        .directory("/workspace/destination")
        .directory("/workspace/destination/nested")
        .file("/workspace/destination/nested/extra.txt", "previewed");
    let edit = r#"{"documentChanges": [{"kind": "rename", "oldUri": "file:///workspace/source",
        "newUri": "file:///workspace/destination", "options": {"overwrite": true}}]}"#;
    let mut store = MutationStateStore::open_at(native("/state"));
    preview(&mut store, "prv_1", planned(plan(&disk, PositionEncoding::Utf8, edit)));
    disk.write("/workspace/destination/nested/extra.txt", b"external change".to_vec());
    assert_eq!(apply(&mut disk, &mut store, "prv_1").err().unwrap().code, "preview_stale");
    assert_eq!(disk.text("/workspace/source/old.txt").as_deref(), Some("source"));
    assert_eq!(disk.text("/workspace/destination/nested/extra.txt").as_deref(), Some("external change"));
    assert!(store.list_transactions().is_empty());
    assert!(store.list_receipts(NOW).ok().unwrap().is_empty());
}

#[test]
fn directory_membership_preserves_ignored_destination() {
    let mut disk = Disk::new()
        .directory("/workspace/source")
        .directory("/workspace/destination")
        .file("/workspace/main.txt", "old");
    for number in 0..5 {
        disk = disk.file(&format!("/workspace/destination/extra-{number}"), "untouched");
    }
    disk.max_entries = 4;
    let mut limits = settings();
    limits.1.max_entries = 4;
    let edit = r#"{"documentChanges": [
        {"kind": "rename", "oldUri": "file:///workspace/source", "newUri": "file:///workspace/destination",
            "options": {"ignoreIfExists": true}},
        {"textDocument": {"uri": "file:///workspace/main.txt", "version": null}, "edits": [{
            "range": {"start": {"line": 0, "character": 0}, "end": {"line": 0, "character": 3}},
            "newText": "new"
        }]}
    ]}"#;
    let ordered = planned(plan_with(&disk, PositionEncoding::Utf8, &limits, edit, &SortedMap::new()));
    assert_eq!(ordered.plan.operations.len(), 1);
    let mut store = MutationStateStore::open_at(native("/state"));
    preview(&mut store, "prv_1", ordered);
    assert_eq!(apply(&mut disk, &mut store, "prv_1").ok().unwrap()["outcome"], "applied");
    assert_eq!(disk.text("/workspace/main.txt").as_deref(), Some("new"));
    for number in 0..5 {
        let path = format!("/workspace/destination/extra-{number}");
        assert_eq!(disk.text(&path).as_deref(), Some("untouched"));
    }
    assert_eq!(disk.tree("/workspace/source"), ["/workspace/source"]);
    assert!(store.list_transactions().is_empty());
}

fn reconcile(disk: &Disk, store: &mut MutationStateStore, initial: TransactionRecord) -> TransactionRecord {
    let transaction_id = initial.transaction_id.clone();
    let mut step = reconcile_locked(LockAttempt::Taken, initial);
    loop {
        step = match step {
            ReconcileStep::ReadTransaction => reconcile_read(store.read_transaction(&transaction_id)),
            ReconcileStep::InspectTransaction(transaction) => {
                let seen = seen_transaction(disk, &transaction);
                reconcile_inspected(transaction, Ok(seen))
            }
            ReconcileStep::WriteTransaction(transaction) => {
                store.write_transaction(transaction.copy());
                reconcile_written(transaction, Ok(()))
            }
            ReconcileStep::Report(outcome) => return outcome.ok().unwrap().unwrap(),
        };
    }
}

#[test]
fn directory_membership_legacy_recovery_preserves_digest_vocabulary() {
    for (committed, certified) in [(false, false), (true, false), (false, true), (true, true)] {
        for accept in [false, true] {
            let mut disk = Disk::new()
                .directory("/workspace/source")
                .directory("/workspace/source/nested")
                .file("/workspace/source/nested/old.txt", "old");
            let mut store = MutationStateStore::open_at(native("/state"));
            let edit = r#"{"documentChanges": [{"kind": "rename", "oldUri": "file:///workspace/source",
                "newUri": "file:///workspace/destination"}]}"#;
            let mut plan = planned(plan(&disk, PositionEncoding::Utf8, edit)).plan;
            if !certified {
                forget_members(&mut plan);
            }
            let mut abandoned = transaction(plan);
            let id = abandoned.transaction_id.clone();
            abandoned.state = if committed { TransactionState::Committing } else { TransactionState::Staged };
            abandoned.manifest_digest = manifest_digest(&abandoned.before_manifest);
            abandoned.observed_manifest = abandoned.before_manifest.iter().map(|entry| entry.copy()).collect();
            let original_digest = abandoned.manifest_digest.clone();
            store.write_transaction(abandoned.copy());
            assert!(stage(&mut disk, &abandoned, 1_000_000).is_ok());
            if committed {
                assert_eq!(commit(&mut disk, &abandoned), Ok(()));
            }
            let reconciled = reconcile(&disk, &mut store, abandoned);
            if !committed {
                assert_eq!(reconciled.manifest_digest, original_digest);
            }
            let vocabulary_kept = |manifest: &[ManifestEntry]| {
                manifest
                    .iter()
                    .filter(|entry| entry.resource_kind == ResourceKind::Directory)
                    .all(|entry| entry.content_digest.is_some() == certified)
            };
            assert!(vocabulary_kept(&reconciled.observed_manifest));
            let digest = reconciled.manifest_digest.clone();
            if certified {
                let retained = if committed { "/workspace/destination" } else { "/workspace/source" };
                let added = format!("{retained}/nested/added.txt");
                disk.write(&added, b"external".to_vec());
                let failure = recover(&mut disk, &mut store, &id, &digest, accept).err().unwrap();
                assert_eq!(failure.code, "recovery_conflict");
                assert_eq!(disk.text(&added).as_deref(), Some("external"));
                assert_eq!(disk.text(&format!("{retained}/nested/old.txt")).as_deref(), Some("old"));
                disk.remove(&added);
            }
            let result = recover(&mut disk, &mut store, &id, &digest, accept).ok().unwrap();
            assert_eq!(result["outcome"], if accept { "accepted_current" } else { "restored" });
            let retained =
                if accept && committed { "/workspace/destination" } else { "/workspace/source" };
            assert_eq!(disk.text(&format!("{retained}/nested/old.txt")).as_deref(), Some("old"));
            let receipts = store.list_receipts(NOW).ok().unwrap();
            assert!(vocabulary_kept(&receipts[0].receipt.observed_manifest));
            assert!(store.list_transactions().is_empty());
        }
    }
}

#[test]
fn abandoned_commit_is_sealed_and_rolled_back_without_replaying_writes() {
    let mut disk = Disk::new().file("/workspace/main.rs", "old\n");
    let mut store = MutationStateStore::open_at(native("/state"));
    let longer = CHANGE_OLD.replace("\"new\"", "\"longer\"");
    let mut abandoned = transaction(planned(plan(&disk, PositionEncoding::Utf8, &longer)).plan);
    let id = abandoned.transaction_id.clone();
    abandoned.state = TransactionState::Committing;
    abandoned.manifest_digest = manifest_digest(&abandoned.before_manifest);
    abandoned.observed_manifest = abandoned.before_manifest.iter().map(|entry| entry.copy()).collect();
    store.write_transaction(abandoned.copy());
    assert!(stage(&mut disk, &abandoned, 1_000_000).is_ok());
    assert_eq!(commit(&mut disk, &abandoned), Ok(()));
    let sealed = reconcile(&disk, &mut store, abandoned);
    assert!(sealed.state == TransactionState::RecoveryRequired);
    assert_eq!(disk.text("/workspace/main.rs").as_deref(), Some("longer\n"));
    let result = recover(&mut disk, &mut store, &id, &sealed.manifest_digest, false).ok().unwrap();
    assert_eq!(result["outcome"], "restored");
    assert_eq!(disk.text("/workspace/main.rs").as_deref(), Some("old\n"));
    assert!(store.read_transaction(&id).is_err());
}

#[test]
fn staging_never_cleans_an_unowned_artifact_path() {
    let mut disk = Disk::new()
        .directory("/workspace/.lspctl-collision")
        .file("/workspace/.lspctl-collision/sentinel", "owned by the workspace");
    let empty = CanonicalPlan { operations: Vec::new(), before_manifest: Vec::new(), intended_manifest: Vec::new() };
    let mut colliding = transaction(empty);
    colliding.artifact_directory = native("/workspace/.lspctl-collision");
    let (_, artifact_created) = stage(&mut disk, &colliding, 1).err().unwrap();
    assert!(!artifact_created);
    let marker = disk.text("/workspace/.lspctl-collision/.lspctl-transaction-owner");
    assert!(cleanup_transaction_artifacts(&colliding, marker.as_ref()).is_some());
    let sentinel = disk.text("/workspace/.lspctl-collision/sentinel");
    assert_eq!(sentinel.as_deref(), Some("owned by the workspace"));
}

#[test]
fn what_differs_after_the_commit_is_rolled_back() {
    let mut disk = Disk::new().file("/workspace/main.rs", "old\n");
    let mut store = MutationStateStore::open_at(native("/state"));
    preview(&mut store, "prv_1", planned(plan(&disk, PositionEncoding::Utf8, CHANGE_OLD)));
    let failure = match apply_disturbed(&mut disk, &mut store, "prv_1", |disk| {
        disk.write("/workspace/main.rs", b"disturbed".to_vec())
    }) {
        Err(failure) => failure,
        Ok(_) => panic!("a disturbed application was reported as applied"),
    };
    assert_eq!(failure.code, "rolled_back");
    assert_eq!(disk.text("/workspace/main.rs").as_deref(), Some("old\n"));
    assert!(store.list_transactions().is_empty());
}

#[test]
fn what_cannot_be_read_back_after_the_commit_is_rolled_back() {
    let mut disk = Disk::new().file("/workspace/main.rs", "old\n");
    let mut store = MutationStateStore::open_at(native("/state"));
    preview(&mut store, "prv_1", planned(plan(&disk, PositionEncoding::Utf8, CHANGE_OLD)));
    let outcome = apply_watched(&mut disk, &mut store, "prv_1", |_| {}, false);
    assert_eq!(outcome.err().unwrap().code, "rolled_back");
    assert_eq!(disk.text("/workspace/main.rs").as_deref(), Some("old\n"));
    assert_eq!(store.read_receipt("prv_1").ok().unwrap().receipt.outcome, "rolled_back");
}

#[test]
fn documents_are_planned_in_the_order_of_their_uris() {
    let disk = Disk::new().file("/workspace/a.rs", "old\n").file("/workspace/b.rs", "old\n");
    let edits = json(
        r#"[{"range": {"start": {"line": 0, "character": 0}, "end": {"line": 0, "character": 3}}, "newText": "new"}]"#,
    );
    let changes = ["file:///workspace/b.rs", "file:///workspace/a.rs"].map(|uri| (uri.to_owned(), edits.copy()));
    let edit = Json::Object(vec![("changes".to_owned(), Json::Object(changes.into_iter().collect()))]);
    let (workspace, limits) = (native("/workspace"), settings());
    let mut seen = nothing_seen();
    let planned = loop {
        match planner(&workspace, PositionEncoding::Utf8, &limits, &seen).plan_workspace_edit(&edit) {
            PlanOutcome::Observe(request) => disk.answer(request, &mut seen),
            PlanOutcome::Refused(problems) => panic!("{}", problems[0].message),
            PlanOutcome::Planned(planned) => break planned,
        }
    };
    let paths: Vec<String> = planned
        .plan
        .operations
        .iter()
        .map(|operation| match operation {
            CanonicalOperation::Text { path, .. } => path.to_text(),
            _ => panic!("only texts are edited"),
        })
        .collect();
    assert_eq!(paths, ["/workspace/a.rs", "/workspace/b.rs"]);
}

#[test]
fn what_cannot_be_rolled_back_is_left_for_recovery() {
    let mut disk = Disk::new().file("/workspace/main.rs", "old\n");
    let mut store = MutationStateStore::open_at(native("/state"));
    preview(&mut store, "prv_1", planned(plan(&disk, PositionEncoding::Utf8, CHANGE_OLD)));
    let failure = match apply_disturbed(&mut disk, &mut store, "prv_1", |disk| {
        disk.remove("/workspace/main.rs");
        disk.write("/workspace/main.rs", b"disturbed".to_vec())
    }) {
        Err(failure) => failure,
        Ok(_) => panic!("a disturbed application was reported as applied"),
    };
    assert_eq!(failure.code, "recovery_required");
    assert_eq!(store.list_transactions().len(), 1);
    assert_eq!(store.read_receipt("prv_1").ok().unwrap().receipt.outcome, "recovery_required");

    let transaction_id = format!("txn_{}", "0".repeat(32));
    let transaction = store.read_transaction(&transaction_id).ok().unwrap();
    match recover(&mut disk, &mut store, &transaction_id, "sha256:other", true) {
        Err(failure) => assert_eq!(failure.code, "recovery_manifest_mismatch"),
        Ok(_) => panic!("a stale digest was accepted"),
    }
    let digest = transaction.manifest_digest.clone();
    let accepted = recover(&mut disk, &mut store, &transaction_id, &digest, true).ok().unwrap();
    assert_eq!(accepted["outcome"], "accepted_current");
    assert_eq!(disk.text("/workspace/main.rs").as_deref(), Some("disturbed"));
    assert!(store.list_transactions().is_empty());
}

fn recover(
    disk: &mut Disk,
    store: &mut MutationStateStore,
    transaction_id: &str,
    digest: &str,
    accept_current: bool,
) -> Result<Value, ContractFailure> {
    let (_, receipts, _) = default_mutation_settings();
    let mut recovery = Recovery::new(transaction_id, digest, accept_current, true);
    let mut event = RecoveryEvent::Begin;
    loop {
        event = match recovery.step(event) {
            RecoveryAction::ReadTransaction => match store.read_transaction(transaction_id) {
                Ok(transaction) => RecoveryEvent::Transaction(transaction),
                Err(failure) => RecoveryEvent::Failed(failure),
            },
            RecoveryAction::LockWorkspace => RecoveryEvent::Done,
            RecoveryAction::EnsureReceiptCapacity => match store.ensure_receipt_capacity(&receipts, NOW) {
                Ok(()) => RecoveryEvent::Done,
                Err(failure) => RecoveryEvent::Failed(failure),
            },
            RecoveryAction::InspectTransaction => {
                RecoveryEvent::Manifest(seen_transaction(disk, recovery.transaction.as_ref().unwrap()))
            }
            RecoveryAction::Salvage => {
                let transaction = recovery.transaction.as_ref().unwrap();
                RecoveryEvent::Manifest(seen_manifest(disk, &transaction.before_manifest))
            }
            RecoveryAction::Rollback => {
                let transaction = recovery.transaction.as_ref().unwrap();
                match roll_back(disk, transaction) {
                    Ok(_) => RecoveryEvent::Done,
                    Err(stage) => RecoveryEvent::RollbackFailed {
                        stage,
                        observed: seen_manifest(disk, &transaction.before_manifest),
                    },
                }
            }
            RecoveryAction::NewReceiptId => RecoveryEvent::Named(format!("rcp_{}", "0".repeat(32))),
            RecoveryAction::ReadReceipt => {
                let id = &recovery.transaction.as_ref().unwrap().receipt_id;
                RecoveryEvent::Receipt(store.read_receipt(id).ok().map(|stored| stored.receipt))
            }
            RecoveryAction::ReadPreview => {
                let id = recovery.transaction.as_ref().unwrap().preview_id.clone();
                RecoveryEvent::Preview(store.read_preview(&id, NOW).ok())
            }
            RecoveryAction::ReadClock => RecoveryEvent::Clock {
                started_at: "2023-11-14T22:13:20Z".to_owned(),
                completed_at: "2023-11-14T22:13:21Z".to_owned(),
            },
            RecoveryAction::WriteReceipt(receipt) => match store.write_receipt(receipt, &receipts, NOW) {
                Ok(_) => RecoveryEvent::Done,
                Err(failure) => RecoveryEvent::Failed(failure),
            },
            RecoveryAction::RetirePreview => {
                let id = recovery.transaction.as_ref().unwrap().preview_id.clone();
                store.retire_preview_after_recovery(&id);
                RecoveryEvent::Done
            }
            RecoveryAction::CleanArtifacts => {
                disk.remove(&recovery.transaction.as_ref().unwrap().artifact_directory.to_text());
                RecoveryEvent::Done
            }
            RecoveryAction::RemoveTransaction => {
                store.remove_transaction(transaction_id);
                RecoveryEvent::Done
            }
            RecoveryAction::Finish(result) => return result.map(|report| value(&report)),
        };
    }
}

#[test]
fn restoration_names_what_is_put_back_and_what_is_removed() {
    let mut disk = Disk::new().file("/workspace/a.txt", "a");
    let before = planned(plan(
        &disk,
        PositionEncoding::Utf8,
        r#"{"documentChanges": [
            {"textDocument": {"uri": "file:///workspace/a.txt", "version": null}, "edits": [
                {"range": {"start": {"line": 0, "character": 1}, "end": {"line": 0, "character": 1}}, "newText": "!"}
            ]},
            {"kind": "create", "uri": "file:///workspace/b.txt"}
        ]}"#,
    ))
    .plan
    .before_manifest;
    disk.write("/workspace/a.txt", b"a!".to_vec());
    disk.write("/workspace/b.txt", Vec::new());
    let current = seen_manifest(&disk, &before);
    assert!(check_restored(&before, &before).is_ok());
    assert!(check_restored(&before, &current).is_err());
    let backups = planned_backups(&before, &native("/workspace/.lspctl-txn_1"));
    let restoration = plan_restoration(&before, &current, &backups).ok().unwrap();
    let restored: Vec<String> = restoration.restore.iter().map(|(_, path)| path.to_text()).collect();
    let removed: Vec<String> = restoration.remove.iter().map(|path| path.to_text()).collect();
    assert_eq!(restored, ["/workspace/a.txt"]);
    assert_eq!(removed, ["/workspace/b.txt"]);
}

#[test]
fn edits_are_applied_to_the_bytes_they_name() {
    let planned = planned(plan(
        &Disk::new().file("/workspace/main.rs", "one two"),
        PositionEncoding::Utf8,
        r#"{"changes": {"file:///workspace/main.rs": [
            {"range": {"start": {"line": 0, "character": 4}, "end": {"line": 0, "character": 7}}, "newText": "2"},
            {"range": {"start": {"line": 0, "character": 0}, "end": {"line": 0, "character": 3}}, "newText": "1"}
        ]}}"#,
    ));
    match &planned.plan.operations[0] {
        CanonicalOperation::Text { edits, .. } => {
            assert_eq!(apply_canonical_text_edits(&b"one two".to_vec(), edits), Ok(b"1 2".to_vec()));
            assert!(apply_canonical_text_edits(&b"one".to_vec(), edits).is_err());
        }
        _ => panic!("no text is changed"),
    }
}

#[test]
fn resources_are_told_apart_by_their_digests() {
    let attribute = |bytes: &[u8]| vec![ExtendedAttribute { name: "user.note".to_owned(), bytes: bytes.to_vec() }];
    let digest = metadata_digest(0o644, 1, 2, &attribute(b"x"));
    assert_eq!(digest, metadata_digest(0o644, 1, 2, &attribute(b"x")));
    assert_ne!(digest, metadata_digest(0o600, 1, 2, &attribute(b"x")));
    assert_ne!(digest, metadata_digest(0o644, 1, 2, &attribute(b"y")));
    assert_ne!(identity_digest(1, 2), identity_digest(2, 1));
}

fn transaction(plan: CanonicalPlan) -> TransactionRecord {
    let artifact_directory = native("/workspace/.lspctl-txn_00000000000000000000000000000000");
    TransactionRecord {
        format_version: 1,
        transaction_id: format!("txn_{}", "0".repeat(32)),
        preview_id: format!("prv_{}", "0".repeat(32)),
        receipt_id: format!("prv_{}", "0".repeat(32)),
        workspace_path: native("/workspace"),
        workspace_uri: "file:///workspace/".to_owned(),
        state: TransactionState::Staged,
        started_at: "2023-11-14T22:13:20Z".to_owned(),
        backups: planned_backups(&plan.before_manifest, &artifact_directory),
        artifact_directory,
        operations: plan.operations,
        before_manifest: plan.before_manifest,
        intended_manifest: plan.intended_manifest,
        observed_manifest: Vec::new(),
        manifest_digest: String::new(),
        cleanup_pending: false,
    }
}

#[test]
fn rollback_restores_resource_identities_after_rename_delete_and_create() {
    let mut disk = Disk::new()
        .file("/workspace/source.txt", "source")
        .file("/workspace/destination.txt", "destination")
        .file("/workspace/deleted.txt", "deleted");
    let identities: Vec<u64> = ["source", "destination", "deleted"]
        .iter()
        .map(|name| disk.nodes[&format!("/workspace/{name}.txt")].0)
        .collect();
    let plan = planned(plan(
        &disk,
        PositionEncoding::Utf8,
        r#"{"documentChanges": [
            {"kind": "rename", "oldUri": "file:///workspace/source.txt",
                "newUri": "file:///workspace/destination.txt", "options": {"overwrite": true}},
            {"kind": "delete", "uri": "file:///workspace/deleted.txt"},
            {"kind": "create", "uri": "file:///workspace/created.txt"}
        ]}"#,
    ))
    .plan;
    let transaction = transaction(plan);
    assert!(stage(&mut disk, &transaction, 1_000_000).is_ok());
    assert_eq!(commit(&mut disk, &transaction), Ok(()));
    assert_eq!(disk.text("/workspace/destination.txt").as_deref(), Some("source"));
    assert_eq!(disk.text("/workspace/deleted.txt"), None);
    assert_eq!(disk.text("/workspace/created.txt").as_deref(), Some(""));
    let restored = roll_back(&mut disk, &transaction).unwrap();
    assert!(check_restored(&transaction.before_manifest, &restored).is_ok());
    for (name, identity) in ["source", "destination", "deleted"].iter().zip(identities) {
        let path = format!("/workspace/{name}.txt");
        assert_eq!(disk.text(&path).as_deref(), Some(*name));
        assert_eq!(disk.nodes[&path].0, identity);
    }
    assert_eq!(disk.text("/workspace/created.txt"), None);
}

#[test]
fn text_output_is_complete_private_staging_before_commit() {
    let mut disk = Disk::new().file("/workspace/main.rs", "old\n");
    let longer = CHANGE_OLD.replace("\"new\"", "\"longer\"");
    let plan = planned(plan(&disk, PositionEncoding::Utf8, &longer)).plan;
    let transaction = transaction(plan);
    assert!(stage(&mut disk, &transaction, 1_000_000).is_ok());
    assert_eq!(disk.text("/workspace/main.rs").as_deref(), Some("old\n"));
    let staged = format!("{}/text-0", transaction.artifact_directory.to_text());
    assert_eq!(disk.text(&staged).as_deref(), Some("longer\n"));
    assert_eq!(commit(&mut disk, &transaction), Ok(()));
    assert_eq!(disk.text("/workspace/main.rs").as_deref(), Some("longer\n"));
}

#[test]
fn commits_stop_where_the_filesystem_has_changed() {
    let mut disk = Disk::new().file("/workspace/main.rs", "old\n");
    let plan = planned(plan(&disk, PositionEncoding::Utf8, CHANGE_OLD)).plan;
    let transaction = transaction(plan);
    assert!(stage(&mut disk, &transaction, 1_000_000).is_ok());
    disk.write("/workspace/main.rs", b"changed".to_vec());
    assert_eq!(commit(&mut disk, &transaction), Err(0));
    assert_eq!(disk.text("/workspace/main.rs").as_deref(), Some("changed"));
}

#[test]
fn staging_keeps_within_its_limits() {
    let mut disk = Disk::new().file("/workspace/main.rs", "old\n");
    let plan = planned(plan(&disk, PositionEncoding::Utf8, CHANGE_OLD)).plan;
    let transaction = transaction(plan);
    let (failure, artifact_created) = stage(&mut disk, &transaction, 3).err().unwrap();
    assert_eq!(failure.code, "resource_limit_exceeded");
    assert!(artifact_created);
    let mut run = StageRun::new(transaction.copy(), 3, 3);
    assert!(matches!(run.step(StageEvent::Begin), StageAction::MakeDirectory(_)));
    match run.step(StageEvent::Failed { os_code: Some(17) }) {
        StageAction::Unstaged { failure, artifact_created } => {
            assert_eq!(value(&failure.data)["osCode"], 17);
            assert!(!artifact_created);
        }
        _ => panic!("the directory could not be made"),
    }
}

#[test]
fn files_with_holes_take_less_room_than_their_length() {
    assert!(!metadata_is_sparse(0, 0));
    assert!(metadata_is_sparse(1, 0));
    assert!(!metadata_is_sparse(512, 1));
    assert!(metadata_is_sparse(513, 1));
    assert!(!metadata_is_sparse(u64::MAX, u64::MAX));
}
