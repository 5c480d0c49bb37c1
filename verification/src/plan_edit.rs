//! Planning a whole workspace edit.

use vstd::prelude::*;

use crate::edit_syntax::{keys_problem, validate_object_keys};
use crate::json::{Json, JsonView, array_view, empty_object, field, find_field, object_view};
use crate::manifest::{ManifestEntry, ManifestView, PathView, ResourceKind, missing_at, missing_manifest};
use crate::order::{Key, Order, text_order, text_precedes};
use crate::path::{NativePath, parent_of};
use crate::plan::{
    CanonicalPlan,
    DocumentVersionPrecondition,
    Draft,
    DraftView,
    OperationView,
    PlanView,
    PlannedWorkspaceEdit,
    PreconditionView,
    PreviewSummary,
    ProblemView,
    Request,
    RequestView,
    Stop,
    StopView,
    VirtualWorkspace,
    WorkspaceEditProblem,
    WorkspaceView,
    plain_problem,
    problem,
};
use crate::plan_steps::{refused};
use crate::plan_tree::{existing_children, kids};
use crate::planner::{
    WorkspaceEditPlanner,
    directory_membership_digest,
    limit_data,
    limit_value,
    membership_digest,
};
use crate::ranking::{Ranked, rank, ranked};
use crate::sorted::{SortedMap, listing};
use crate::text::{opt_ref_view, opt_view, same, views};
use crate::uri::{drive_alias, windows_file_uri_drive_alias};

verus! {

/// The edits of a document, by its URI.
pub struct DocumentEdits {
    pub uri: String,
    pub edits: Json,
}

impl View for DocumentEdits {
    type V = (Seq<char>, JsonView);

    open spec fn view(&self) -> (Seq<char>, JsonView) {
        (self.uri@, self.edits@)
    }
}

/// Documents are planned in the order of their URIs.
impl Ranked for DocumentEdits {
    open spec fn before(a: (Seq<char>, JsonView), b: (Seq<char>, JsonView)) -> bool {
        text_precedes(a.0, b.0)
    }

    proof fn lemma_not_before(a: (Seq<char>, JsonView), b: (Seq<char>, JsonView), c: (Seq<char>, JsonView)) {
        <String as Ranked>::lemma_not_before(a.0, b.0, c.0);
    }

    proof fn lemma_one_way(a: (Seq<char>, JsonView), b: (Seq<char>, JsonView)) {
        <String as Ranked>::lemma_one_way(a.0, b.0);
    }

    fn comes_before(&self, other: &Self) -> (r: bool) {
        match text_order(self.uri.as_str(), other.uri.as_str()) {
            Order::Less => true,
            _ => false,
        }
    }
}

/// The documents of `changes`, in the order of their URIs.
fn sorted_documents(changes: &Vec<(String, Json)>) -> (r: Vec<DocumentEdits>)
    ensures
        views(r@) == ranked::<DocumentEdits>(object_view(changes@)),
{
    let ghost all = object_view(changes@);
    let mut list: Vec<DocumentEdits> = Vec::new();
    let mut i: usize = 0;
    assert(views(list@) =~= all.take(0));
    while i < changes.len()
        invariant
            i <= changes@.len(),
            all == object_view(changes@),
            views(list@) == all.take(i as int),
        decreases changes.len() - i,
    {
        let ghost before = views(list@);
        list.push(DocumentEdits { uri: changes[i].0.clone(), edits: changes[i].1.copy() });
        assert(views(list@) =~= before.push(all[i as int]));
        assert(all.take(i + 1) =~= before.push(all[i as int]));
        i += 1;
    }
    assert(all.take(i as int) =~= all);
    rank(list)
}

/// What planning comes to.
pub enum PlanOutcome {
    /// More of the filesystem has to be observed first.
    Observe(Request),
    Refused(Vec<WorkspaceEditProblem>),
    Planned(PlannedWorkspaceEdit),
}

/// What a [`PlannedWorkspaceEdit`] stands for.
#[verifier::ext_equal]
pub ghost struct PlannedView {
    pub plan: PlanView,
    pub annotations: JsonView,
    pub summary: PreviewSummary,
}

impl View for PlannedWorkspaceEdit {
    type V = PlannedView;

    open spec fn view(&self) -> PlannedView {
        PlannedView { plan: self.plan@, annotations: self.annotations@, summary: self.summary }
    }
}

/// What a [`PlanOutcome`] stands for.
pub ghost enum OutcomeView {
    Observe(RequestView),
    Refused(Seq<ProblemView>),
    Planned(PlannedView),
}

impl View for PlanOutcome {
    type V = OutcomeView;

    open spec fn view(&self) -> OutcomeView {
        match self {
            PlanOutcome::Observe(r) => OutcomeView::Observe(r@),
            PlanOutcome::Refused(p) => OutcomeView::Refused(views(p@)),
            PlanOutcome::Planned(p) => OutcomeView::Planned(p@),
        }
    }
}

/// The draft of nothing.
pub open spec fn empty_draft() -> DraftView {
    DraftView {
        workspace: WorkspaceView {
            entries: Map::empty(),
            before: Map::empty(),
            affected: Set::empty(),
            rollback_bytes: 0,
        },
        operations: Seq::empty(),
        summary: PreviewSummary { files_changed: 0, text_edits: 0, creates: 0, renames: 0, deletes: 0 },
        new_text_bytes: 0,
        problems: Seq::empty(),
    }
}

fn new_draft() -> (r: Draft)
    ensures
        r@ == empty_draft(),
{
    let r = Draft {
        workspace: VirtualWorkspace {
            entries: SortedMap::new(),
            before: SortedMap::new(),
            affected: SortedMap::new(),
            rollback_bytes: 0,
        },
        operations: Vec::new(),
        summary: PreviewSummary { files_changed: 0, text_edits: 0, creates: 0, renames: 0, deletes: 0 },
        new_text_bytes: 0,
        problems: Vec::new(),
    };
    assert(views(r.operations@) =~= Seq::<OperationView>::empty());
    assert(views(r.problems@) =~= Seq::<ProblemView>::empty());
    assert(r.workspace.affected@.dom() =~= Set::<PathView>::empty());
    r
}

/// A list of one problem.
fn one_problem(p: WorkspaceEditProblem) -> (r: PlanOutcome)
    ensures
        r@ == OutcomeView::Refused(seq![p@]),
{
    let mut list: Vec<WorkspaceEditProblem> = Vec::new();
    list.push(p);
    assert(views(list@) =~= seq![p@]);
    PlanOutcome::Refused(list)
}

/// The first document, from the `i`th key on, that is known under another
/// case of its drive letter in the given version.
pub open spec fn alias_from(
    preconditions: Map<Seq<char>, PreconditionView>,
    keys: Seq<Seq<char>>,
    i: int,
    uri: Seq<char>,
    version: i64,
) -> Option<PreconditionView>
    decreases keys.len() - i,
{
    if i >= keys.len() {
        None
    } else if drive_alias(keys[i], uri) && preconditions[keys[i]].version == version {
        Some(preconditions[keys[i]])
    } else {
        alias_from(preconditions, keys, i + 1, uri, version)
    }
}

/// The known content of a document in a version.
pub open spec fn precondition_of(
    preconditions: Map<Seq<char>, PreconditionView>,
    uri: Seq<char>,
    version: i64,
    fold_drive_case: bool,
) -> Option<PreconditionView> {
    if preconditions.dom().contains(uri) {
        if preconditions[uri].version == version {
            Some(preconditions[uri])
        } else {
            None
        }
    } else if fold_drive_case {
        alias_from(preconditions, listing::<String>(preconditions.dom()), 0, uri, version)
    } else {
        None
    }
}

/// The known content of a document in a version.
pub fn document_version_precondition<'p>(
    preconditions: &'p SortedMap<String, DocumentVersionPrecondition>,
    uri: &String,
    version: i64,
    fold_drive_case: bool,
) -> (r: Option<&'p DocumentVersionPrecondition>)
    ensures
        opt_ref_view(r) == precondition_of(preconditions@, uri@, version, fold_drive_case),
{
    match preconditions.get(uri) {
        Some(known) => {
            return if known.version == version {
                Some(known)
            } else {
                None
            };
        },
        None => {},
    }
    if !fold_drive_case {
        return None;
    }
    let n: usize = preconditions.len();
    let ghost keys = preconditions.keys();
    let mut i: usize = 0;
    while i < n
        invariant
            n == preconditions.keys().len(),
            keys == preconditions.keys(),
            keys == listing::<String>(preconditions@.dom()),
            !preconditions@.dom().contains(uri@),
            fold_drive_case,
            i <= n,
            alias_from(preconditions@, keys, 0, uri@, version) == alias_from(
                preconditions@,
                keys,
                i as int,
                uri@,
                version,
            ),
        decreases n - i,
    {
        let known_uri: &String = preconditions.key_at(i);
        let known: &DocumentVersionPrecondition = preconditions.value_at(i);
        if windows_file_uri_drive_alias(known_uri.as_str(), uri.as_str()) && known.version == version {
            return Some(known);
        }
        i += 1;
    }
    None
}

/// The children of a directory that exist in a workspace.
pub open spec fn children_in(ws: WorkspaceView, directory: PathView) -> Map<Seq<char>, ResourceKind> {
    Map::new(
        |name: Seq<char>|
            parent_of(directory.push(name)) == Some(directory) && ws.entries.dom().contains(directory.push(name))
                && ws.entries[directory.push(name)].manifest.exists,
        |name: Seq<char>| ws.entries[directory.push(name)].manifest.resource_kind,
    )
}

/// What is intended to stand at a path.
pub open spec fn intended_at(ws: WorkspaceView, path: PathView) -> ManifestView {
    let entry = if ws.entries.dom().contains(path) { ws.entries[path].manifest } else { missing_at(path) };
    if entry.resource_kind == ResourceKind::Directory {
        ManifestView { content_digest: Some(membership_digest(children_in(ws, path))), ..entry }
    } else {
        entry
    }
}

/// The children of a directory that exist in a workspace.
fn child_kinds(ws: &VirtualWorkspace, directory: &NativePath) -> (r: SortedMap<String, ResourceKind>)
    ensures
        r@ == children_in(ws@, directory@),
{
    let paths: Vec<NativePath> = existing_children(ws, directory);
    let n: usize = ws.entries.len();
    let ghost listed = kids(ws@, directory@);
    let ghost all = crate::plan_tree::known_paths(ws@);
    let ghost test = crate::plan_tree::child_of(ws@, directory@);
    proof {
        broadcast use vstd::seq_lib::group_filter_ensures;

        assert forall|i: int| 0 <= i < listed.len() implies #[trigger] all.contains(listed[i]) && test(listed[i]) by {
            assert(listed.contains(listed[i]));
        }
        assert forall|p: PathView| ws@.entries.dom().contains(p) && test(p) implies #[trigger] listed.contains(p) by {
            assert(all.contains(p));
            let x = all.index_of(p);
            assert(all[x] == p);
        }
    }
    let mut r: SortedMap<String, ResourceKind> = SortedMap::new();
    let mut i: usize = 0;
    while i < paths.len()
        invariant
            listed == views(paths@),
            test == crate::plan_tree::child_of(ws@, directory@),
            i <= paths@.len(),
            forall|j: int| 0 <= j < listed.len() ==> test(#[trigger] listed[j]) && ws@.entries.dom().contains(listed[j]),
            forall|name: Seq<char>| #[trigger]
                r@.dom().contains(name) <==> exists|j: int| 0 <= j < i && #[trigger] listed[j] == directory@.push(name),
            forall|name: Seq<char>| #[trigger]
                r@.dom().contains(name) ==> r@[name] == ws@.entries[directory@.push(name)].manifest.resource_kind,
        decreases paths.len() - i,
    {
        let ghost before = r@;
        let ghost p = listed[i as int];
        assert(p == paths@[i as int]@);
        assert(p =~= directory@.push(p.last()));
        let name: String = paths[i].last_name();
        match ws.entries.get(&paths[i]) {
            Some(state) => {
                r.insert(name, state.manifest.resource_kind);
            },
            None => {},
        }
        proof {
            assert(r@ == before.insert(p.last(), ws@.entries[p].manifest.resource_kind));
            assert forall|name: Seq<char>| #[trigger] r@.dom().contains(name) <==> exists|j: int|
                0 <= j < i + 1 && #[trigger] listed[j] == directory@.push(name) by {
                if before.dom().contains(name) {
                    let j = choose|j: int| 0 <= j < i && #[trigger] listed[j] == directory@.push(name);
                    assert(0 <= j < i + 1 && listed[j] == directory@.push(name));
                }
                if name == p.last() {
                    assert(listed[i as int] == directory@.push(name));
                }
                if exists|j: int| 0 <= j < i + 1 && #[trigger] listed[j] == directory@.push(name) {
                    let j = choose|j: int| 0 <= j < i + 1 && #[trigger] listed[j] == directory@.push(name);
                    if j == i {
                        assert(directory@.push(name).last() == name);
                    } else {
                        assert(before.dom().contains(name));
                    }
                }
            }
        }
        i += 1;
    }
    proof {
        assert forall|name: Seq<char>| r@.dom().contains(name) <==> #[trigger] children_in(ws@, directory@).dom().contains(
            name,
        ) by {
            let p = directory@.push(name);
            if children_in(ws@, directory@).dom().contains(name) {
                assert(test(p));
                assert(listed.contains(p));
                let j = listed.index_of(p);
                assert(listed[j] == directory@.push(name));
            }
        }
        assert(r@ =~= children_in(ws@, directory@));
    }
    r
}

fn intended_entry(ws: &VirtualWorkspace, path: &NativePath) -> (r: ManifestEntry)
    ensures
        r@ == intended_at(ws@, path@),
{
    let mut entry: ManifestEntry = match ws.entries.get(path) {
        Some(state) => state.manifest.copy(),
        None => missing_manifest(path),
    };
    if entry.resource_kind == ResourceKind::Directory {
        let children: SortedMap<String, ResourceKind> = child_kinds(ws, path);
        entry.content_digest = Some(directory_membership_digest(&children));
    }
    entry
}

/// The fields of a workspace edit.
pub open spec fn workspace_edit_keys() -> Seq<Seq<char>> {
    seq!["changes"@, "documentChanges"@, "changeAnnotations"@]
}

/// The problem of an edit of the wrong shape.
pub open spec fn shape_problem(code: Seq<char>, message: Seq<char>, index: Option<u64>) -> ProblemView {
    plain_problem(code, message, index, None, None)
}

/// Whether an optional value is there and not null.
pub open spec fn given(v: Option<JsonView>) -> bool {
    v is Some && !(v->0 is Null)
}

/// The manifests before the plan, in the order of their paths.
pub open spec fn manifest_in_order(before: Map<PathView, ManifestView>) -> Seq<ManifestView> {
    let paths = listing::<NativePath>(before.dom());
    Seq::new(paths.len(), |i: int| before[paths[i]])
}

/// The manifests that the plan intends, in the order of their paths.
pub open spec fn intended_in_order(ws: WorkspaceView) -> Seq<ManifestView> {
    let paths = listing::<NativePath>(ws.affected);
    Seq::new(paths.len(), |i: int| intended_at(ws, paths[i]))
}

/// How many of the first `n` affected paths change.
pub open spec fn changed_count(ws: WorkspaceView, paths: Seq<PathView>, n: int) -> nat
    decreases n,
{
    if n <= 0 {
        0
    } else {
        let p = paths[n - 1];
        changed_count(ws, paths, n - 1) + if ws.before.dom().contains(p) && ws.before[p] == intended_at(ws, p) {
            0nat
        } else {
            1nat
        }
    }
}

/// The limits that a draft exceeds.
pub open spec fn limit_problems(
    d: DraftView,
    max_entries: u64,
    max_rollback_bytes: u64,
    max_text: u64,
) -> Seq<ProblemView> {
    let count = listing::<NativePath>(d.workspace.affected).len();
    let exceeded = |message: Seq<char>, data: JsonView|
        plain_problem("resource_limit_exceeded"@, message, None, None, Some(data));
    let entries = if count > max_entries {
        seq![
            exceeded(
                "The Mutation affects too many filesystem entries."@,
                limit_data("entries"@, max_entries as int, count as int),
            ),
        ]
    } else {
        Seq::empty()
    };
    let rollback = if d.workspace.rollback_bytes > max_rollback_bytes {
        seq![
            exceeded(
                "The Mutation needs too much rollback storage."@,
                limit_data("rollbackBytes"@, max_rollback_bytes as int, d.workspace.rollback_bytes as int),
            ),
        ]
    } else {
        Seq::empty()
    };
    let text = if d.new_text_bytes > max_text {
        seq![
            exceeded(
                "The Mutation contains too much replacement text."@,
                limit_data("stagedTextBytes"@, max_text as int, d.new_text_bytes as int),
            ),
        ]
    } else {
        Seq::empty()
    };
    entries + rollback + text
}

impl<'a> WorkspaceEditPlanner<'a> {
    /// The most replacement text that a plan may hold.
    pub open spec fn text_limit(&self) -> u64 {
        if self.preview_limits.max_text_bytes < self.mutation_limits.max_staged_text_bytes {
            self.preview_limits.max_text_bytes
        } else {
            self.mutation_limits.max_staged_text_bytes
        }
    }

    /// The draft after one entry of `documentChanges`.
    pub open spec fn change_planned(
        &self,
        d: DraftView,
        index: u64,
        change: JsonView,
        annotations: Seq<(Seq<char>, JsonView)>,
        preconditions: Map<Seq<char>, PreconditionView>,
    ) -> (DraftView, Option<RequestView>) {
        match change {
            JsonView::Object(o) => match field(o, "textDocument"@) {
                Some(document) => self.document_planned(d, index, o, document, annotations, preconditions),
                None => {
                    let kind = match field(o, "kind"@) {
                        Some(v) => v.as_text(),
                        None => None,
                    };
                    if kind == Some("create"@) {
                        self.create_planned(d, index, o, annotations)
                    } else if kind == Some("rename"@) {
                        self.rename_planned(d, index, o, annotations)
                    } else if kind == Some("delete"@) {
                        self.delete_planned(d, index, o, annotations)
                    } else {
                        refused(
                            d,
                            plain_problem(
                                "unknown_operation"@,
                                "The documentChanges operation kind is unsupported."@,
                                Some(index),
                                None,
                                Some(change),
                            ),
                        )
                    }
                },
            },
            _ => refused(
                d,
                shape_problem("unknown_operation"@, "A documentChanges entry must be an object."@, Some(index)),
            ),
        }
    }

    /// The draft after the edits of a document that may name its version.
    pub open spec fn document_planned(
        &self,
        d: DraftView,
        index: u64,
        o: Seq<(Seq<char>, JsonView)>,
        document: JsonView,
        annotations: Seq<(Seq<char>, JsonView)>,
        preconditions: Map<Seq<char>, PreconditionView>,
    ) -> (DraftView, Option<RequestView>) {
        match keys_problem(o, seq!["textDocument"@, "edits"@], Some(index)) {
            Some(p) => refused(d, p),
            None => match document {
                JsonView::Object(t) => match keys_problem(t, seq!["uri"@, "version"@], Some(index)) {
                    Some(p) => refused(d, p),
                    None => match document.text_at("uri"@) {
                        None => refused(
                            d,
                            shape_problem(
                                "malformed_uri"@,
                                "TextDocumentEdit is missing a string uri."@,
                                Some(index),
                            ),
                        ),
                        Some(uri) => {
                            let version = field(t, "version"@);
                            let known = if given(version) && version->0.as_i64() is Some {
                                precondition_of(
                                    preconditions,
                                    uri,
                                    version->0.as_i64()->0 as i64,
                                    self.fold_drive_case,
                                )
                            } else {
                                None
                            };
                            if given(version) && known is None {
                                refused(
                                    d,
                                    shape_problem(
                                        "invalid_document_version"@,
                                        "A local Workspace Edit cannot prove the originating Document version."@,
                                        Some(index),
                                    ),
                                )
                            } else {
                                self.text_planned(
                                    d,
                                    index,
                                    uri,
                                    match field(o, "edits"@) {
                                        Some(edits) => edits,
                                        None => JsonView::Null,
                                    },
                                    annotations,
                                    match known {
                                        Some(k) => Some(k.digest),
                                        None => None,
                                    },
                                )
                            }
                        },
                    },
                },
                _ => refused(
                    d,
                    shape_problem(
                        "unknown_operation"@,
                        "TextDocumentEdit.textDocument must be an object."@,
                        Some(index),
                    ),
                ),
            },
        }
    }

    fn plan_document(
        &self,
        draft: &mut Draft,
        index: u64,
        o: &Vec<(String, Json)>,
        document: &Json,
        annotations: &Vec<(String, Json)>,
        preconditions: &SortedMap<String, DocumentVersionPrecondition>,
    ) -> (r: Option<Request>)
        ensures
            (final(draft)@, opt_view(r)) == self.document_planned(
                old(draft)@,
                index,
                object_view(o@),
                document@,
                object_view(annotations@),
                preconditions@,
            ),
    {
        let allowed: Vec<&str> = vec!["textDocument", "edits"];
        assert(views(allowed@) =~= seq!["textDocument"@, "edits"@]);
        match validate_object_keys(o, &allowed, Some(index)) {
            Some(p) => {
                return draft.refuse(p);
            },
            None => {},
        }
        let t: &Vec<(String, Json)> = match document {
            Json::Object(t) => t,
            _ => {
                return draft.refuse(
                    problem(
                        "unknown_operation",
                        "TextDocumentEdit.textDocument must be an object.",
                        Some(index),
                        None,
                        None,
                    ),
                );
            },
        };
        let allowed: Vec<&str> = vec!["uri", "version"];
        assert(views(allowed@) =~= seq!["uri"@, "version"@]);
        match validate_object_keys(t, &allowed, Some(index)) {
            Some(p) => {
                return draft.refuse(p);
            },
            None => {},
        }
        let uri: &String = match document.text_at("uri") {
            Some(uri) => uri,
            None => {
                return draft.refuse(
                    problem(
                        "malformed_uri",
                        "TextDocumentEdit is missing a string uri.",
                        Some(index),
                        None,
                        None,
                    ),
                );
            },
        };
        let null: Json = Json::Null;
        let edits: &Json = match find_field(o, "edits") {
            Some(edits) => edits,
            None => &null,
        };
        let mut expected: Option<&String> = None;
        match find_field(t, "version") {
            Some(version) => {
                if !version.is_null() {
                    let known: Option<&DocumentVersionPrecondition> = match version.as_i64() {
                        Some(n) => document_version_precondition(preconditions, uri, n, self.fold_drive_case),
                        None => None,
                    };
                    match known {
                        Some(k) => {
                            expected = Some(&k.digest);
                        },
                        None => {
                            return draft.refuse(
                                problem(
                                    "invalid_document_version",
                                    "A local Workspace Edit cannot prove the originating Document version.",
                                    Some(index),
                                    None,
                                    None,
                                ),
                            );
                        },
                    }
                }
            },
            None => {},
        }
        self.plan_text_operation(draft, index, uri.as_str(), edits, annotations, expected)
    }

    /// Plans one entry of `documentChanges`.
    pub fn plan_change(
        &self,
        draft: &mut Draft,
        index: u64,
        change: &Json,
        annotations: &Vec<(String, Json)>,
        preconditions: &SortedMap<String, DocumentVersionPrecondition>,
    ) -> (r: Option<Request>)
        ensures
            (final(draft)@, opt_view(r)) == self.change_planned(
                old(draft)@,
                index,
                change@,
                object_view(annotations@),
                preconditions@,
            ),
    {
        let o: &Vec<(String, Json)> = match change {
            Json::Object(o) => o,
            _ => {
                return draft.refuse(
                    problem(
                        "unknown_operation",
                        "A documentChanges entry must be an object.",
                        Some(index),
                        None,
                        None,
                    ),
                );
            },
        };
        match find_field(o, "textDocument") {
            Some(document) => {
                return self.plan_document(draft, index, o, document, annotations, preconditions);
            },
            None => {},
        }
        let kind: Option<&String> = match find_field(o, "kind") {
            Some(v) => v.as_str(),
            None => None,
        };
        match kind {
            Some(kind) => {
                if same(kind.as_str(), "create") {
                    return self.plan_create_operation(draft, index, o, annotations);
                }
                if same(kind.as_str(), "rename") {
                    return self.plan_rename_operation(draft, index, o, annotations);
                }
                if same(kind.as_str(), "delete") {
                    return self.plan_delete_operation(draft, index, o, annotations);
                }
            },
            None => {},
        }
        draft.refuse(
            problem(
                "unknown_operation",
                "The documentChanges operation kind is unsupported.",
                Some(index),
                None,
                Some(change.copy()),
            ),
        )
    }

    /// The draft after the entries of `documentChanges` from the `i`th on.
    pub open spec fn changes_planned(
        &self,
        d: DraftView,
        changes: Seq<JsonView>,
        i: int,
        annotations: Seq<(Seq<char>, JsonView)>,
        preconditions: Map<Seq<char>, PreconditionView>,
    ) -> (DraftView, Option<RequestView>)
        decreases changes.len() - i,
    {
        if i >= changes.len() {
            (d, None)
        } else {
            match self.change_planned(d, i as u64, changes[i], annotations, preconditions) {
                (next, Some(request)) => (next, Some(request)),
                (next, None) => self.changes_planned(next, changes, i + 1, annotations, preconditions),
            }
        }
    }

    /// The draft after the documents of `changes` from the `i`th on.
    pub open spec fn documents_planned(
        &self,
        d: DraftView,
        changes: Seq<(Seq<char>, JsonView)>,
        i: int,
        annotations: Seq<(Seq<char>, JsonView)>,
    ) -> (DraftView, Option<RequestView>)
        decreases changes.len() - i,
    {
        if i >= changes.len() {
            (d, None)
        } else {
            match self.text_planned(d, i as u64, changes[i].0, changes[i].1, annotations, None) {
                (next, Some(request)) => (next, Some(request)),
                (next, None) => self.documents_planned(next, changes, i + 1, annotations),
            }
        }
    }

    /// The manifests before the plan with those of the paths from the `i`th on.
    pub open spec fn before_completed(
        &self,
        before: Map<PathView, ManifestView>,
        paths: Seq<PathView>,
        i: int,
    ) -> Result<Map<PathView, ManifestView>, StopView>
        decreases paths.len() - i,
    {
        if i >= paths.len() {
            Ok(before)
        } else if before.dom().contains(paths[i]) {
            self.before_completed(before, paths, i + 1)
        } else {
            match self.inspected(paths[i], 0, false) {
                Err(stop) => Err(stop),
                Ok(state) => self.before_completed(before.insert(paths[i], state.manifest), paths, i + 1),
            }
        }
    }

    /// What a draft comes to.
    pub open spec fn concluded(&self, d: DraftView, annotations: JsonView) -> OutcomeView {
        let problems = d.problems + limit_problems(
            d,
            self.mutation_limits.max_entries,
            self.mutation_limits.max_rollback_bytes,
            self.text_limit(),
        );
        if problems.len() > 0 {
            OutcomeView::Refused(problems)
        } else {
            let paths = listing::<NativePath>(d.workspace.affected);
            match self.before_completed(d.workspace.before, paths, 0) {
                Err(StopView::Problem(p)) => OutcomeView::Refused(seq![p]),
                Err(StopView::Observe(r)) => OutcomeView::Observe(r),
                Ok(before) => {
                    let ws = WorkspaceView { before, ..d.workspace };
                    OutcomeView::Planned(
                        PlannedView {
                            plan: PlanView {
                                operations: d.operations,
                                before_manifest: manifest_in_order(before),
                                intended_manifest: intended_in_order(ws),
                            },
                            annotations,
                            summary: PreviewSummary {
                                files_changed: changed_count(ws, paths, paths.len() as int) as u64,
                                ..d.summary
                            },
                        },
                    )
                },
            }
        }
    }

    fn push_limit_problems(&self, draft: &mut Draft)
        ensures
            final(draft)@ == (DraftView {
                problems: old(draft)@.problems + limit_problems(
                    old(draft)@,
                    self.mutation_limits.max_entries,
                    self.mutation_limits.max_rollback_bytes,
                    self.text_limit(),
                ),
                ..old(draft)@
            }),
    {
        let ghost start = draft@;
        let count: usize = draft.workspace.affected.len();
        if count as u64 > self.mutation_limits.max_entries {
            draft.push_problem(
                problem(
                    "resource_limit_exceeded",
                    "The Mutation affects too many filesystem entries.",
                    None,
                    None,
                    Some(limit_value("entries", self.mutation_limits.max_entries, count as u64)),
                ),
            );
        }
        let rollback: u64 = draft.workspace.rollback_bytes;
        if rollback > self.mutation_limits.max_rollback_bytes {
            draft.push_problem(
                problem(
                    "resource_limit_exceeded",
                    "The Mutation needs too much rollback storage.",
                    None,
                    None,
                    Some(limit_value("rollbackBytes", self.mutation_limits.max_rollback_bytes, rollback)),
                ),
            );
        }
        let limit: u64 = if self.preview_limits.max_text_bytes < self.mutation_limits.max_staged_text_bytes {
            self.preview_limits.max_text_bytes
        } else {
            self.mutation_limits.max_staged_text_bytes
        };
        let total: u64 = draft.new_text_bytes;
        if total > limit {
            draft.push_problem(
                problem(
                    "resource_limit_exceeded",
                    "The Mutation contains too much replacement text.",
                    None,
                    None,
                    Some(limit_value("stagedTextBytes", limit, total)),
                ),
            );
        }
        assert(draft@.problems =~= start.problems + limit_problems(
            start,
            self.mutation_limits.max_entries,
            self.mutation_limits.max_rollback_bytes,
            self.text_limit(),
        ));
    }

    fn complete_before(&self, draft: &mut Draft) -> (r: Option<Stop>)
        ensures
            match r {
                None => final(draft)@ == (DraftView {
                    workspace: WorkspaceView {
                        before: final(draft)@.workspace.before,
                        ..old(draft)@.workspace
                    },
                    ..old(draft)@
                }) && self.before_completed(
                    old(draft)@.workspace.before,
                    listing::<NativePath>(old(draft)@.workspace.affected),
                    0,
                ) == Ok::<Map<PathView, ManifestView>, StopView>(final(draft)@.workspace.before),
                Some(stop) => self.before_completed(
                    old(draft)@.workspace.before,
                    listing::<NativePath>(old(draft)@.workspace.affected),
                    0,
                ) == Err::<Map<PathView, ManifestView>, StopView>(stop@),
            },
    {
        let n: usize = draft.workspace.affected.len();
        let ghost start = draft@;
        let ghost paths = draft.workspace.affected.keys();
        let mut i: usize = 0;
        while i < n
            invariant
                start == old(draft)@,
                n == draft.workspace.affected.keys().len(),
                paths == draft.workspace.affected.keys(),
                paths == listing::<NativePath>(start.workspace.affected),
                i <= n,
                draft@ == (DraftView {
                    workspace: WorkspaceView { before: draft@.workspace.before, ..start.workspace },
                    ..start
                }),
                self.before_completed(start.workspace.before, paths, 0) == self.before_completed(
                    draft@.workspace.before,
                    paths,
                    i as int,
                ),
            decreases n - i,
        {
            let path: NativePath = draft.workspace.affected.key_at(i).duplicate();
            if !draft.workspace.before.contains_key(&path) {
                match self.inspect_resource(&path, 0, false) {
                    Ok(state) => {
                        draft.workspace.before.insert(path, state.manifest);
                    },
                    Err(stop) => {
                        return Some(stop);
                    },
                }
            }
            i += 1;
        }
        None
    }

    /// Turns a draft into a plan, or says what stands against it.
    pub fn conclude(&self, draft: Draft, annotations: Json) -> (r: PlanOutcome)
        ensures
            r@ == self.concluded(draft@, annotations@),
    {
        let mut draft: Draft = draft;
        let ghost start = draft@;
        self.push_limit_problems(&mut draft);
        assert(draft@.problems.len() == draft.problems@.len());
        if draft.problems.len() > 0 {
            return PlanOutcome::Refused(draft.problems);
        }
        assert(draft@.problems =~= start.problems);
        match self.complete_before(&mut draft) {
            Some(Stop::Problem(p)) => {
                return one_problem(p);
            },
            Some(Stop::Observe(request)) => {
                return PlanOutcome::Observe(request);
            },
            None => {},
        }
        let ghost ws = draft@.workspace;
        let ghost paths = listing::<NativePath>(ws.affected);
        let mut before_manifest: Vec<ManifestEntry> = Vec::new();
        let n: usize = draft.workspace.before.len();
        let ghost ordered = manifest_in_order(ws.before);
        let mut i: usize = 0;
        assert(views(before_manifest@) =~= ordered.take(0));
        while i < n
            invariant
                n == draft.workspace.before.keys().len(),
                draft.workspace.before.keys() == listing::<NativePath>(draft.workspace.before@.dom()),
                ws == draft@.workspace,
                ordered == manifest_in_order(ws.before),
                i <= n,
                views(before_manifest@) =~= ordered.take(i as int),
            decreases n - i,
        {
            let ghost sofar = before_manifest@;
            before_manifest.push(draft.workspace.before.value_at(i).copy());
            assert(ordered.take(i + 1) =~= ordered.take(i as int).push(ordered[i as int]));
            assert(views(before_manifest@) =~= views(sofar).push(ordered[i as int]));
            i += 1;
        }
        assert(ordered.take(i as int) =~= ordered);
        let mut intended_manifest: Vec<ManifestEntry> = Vec::new();
        let mut changed: u64 = 0;
        let m: usize = draft.workspace.affected.len();
        let ghost intended = intended_in_order(ws);
        let mut k: usize = 0;
        assert(views(intended_manifest@) =~= intended.take(0));
        while k < m
            invariant
                m == draft.workspace.affected.keys().len(),
                draft.workspace.affected.keys() == paths,
                paths == listing::<NativePath>(ws.affected),
                ws == draft@.workspace,
                intended == intended_in_order(ws),
                k <= m,
                changed <= k,
                changed == changed_count(ws, paths, k as int),
                views(intended_manifest@) =~= intended.take(k as int),
            decreases m - k,
        {
            let path: &NativePath = draft.workspace.affected.key_at(k);
            let entry: ManifestEntry = intended_entry(&draft.workspace, path);
            let unchanged: bool = match draft.workspace.before.get(path) {
                Some(before) => before.same_entry(&entry),
                None => false,
            };
            if !unchanged {
                changed += 1;
            }
            let ghost sofar = intended_manifest@;
            intended_manifest.push(entry);
            assert(intended.take(k + 1) =~= intended.take(k as int).push(intended[k as int]));
            assert(views(intended_manifest@) =~= views(sofar).push(intended[k as int]));
            k += 1;
        }
        assert(intended.take(k as int) =~= intended);
        let mut summary: PreviewSummary = draft.summary;
        summary.files_changed = changed;
        PlanOutcome::Planned(
            PlannedWorkspaceEdit {
                plan: CanonicalPlan { operations: draft.operations, before_manifest, intended_manifest },
                annotations,
                summary,
            },
        )
    }

    /// What a workspace edit comes to.
    pub open spec fn edit_planned(
        &self,
        edit: JsonView,
        preconditions: Map<Seq<char>, PreconditionView>,
    ) -> OutcomeView {
        match edit {
            JsonView::Object(o) => match keys_problem(o, workspace_edit_keys(), None) {
                Some(p) => OutcomeView::Refused(seq![p]),
                None => {
                    let annotations = match field(o, "changeAnnotations"@) {
                        Some(v) => v,
                        None => JsonView::Object(seq![]),
                    };
                    let changes = field(o, "changes"@);
                    let document_changes = field(o, "documentChanges"@);
                    match annotations {
                        JsonView::Object(notes) => if given(changes) && given(document_changes) {
                            OutcomeView::Refused(
                                seq![
                                    shape_problem(
                                        "both_changes_and_document_changes"@,
                                        "WorkspaceEdit cannot contain both changes and documentChanges."@,
                                        None,
                                    ),
                                ],
                            )
                        } else if given(changes) {
                            match changes->0 {
                                JsonView::Object(c) => self.folded(
                                    self.documents_planned(empty_draft(), ranked::<DocumentEdits>(c), 0, notes),
                                    annotations,
                                ),
                                _ => OutcomeView::Refused(
                                    seq![
                                        shape_problem(
                                            "unknown_operation"@,
                                            "WorkspaceEdit.changes must be an object."@,
                                            None,
                                        ),
                                    ],
                                ),
                            }
                        } else if given(document_changes) {
                            match document_changes->0 {
                                JsonView::Array(c) => self.folded(
                                    self.changes_planned(empty_draft(), c, 0, notes, preconditions),
                                    annotations,
                                ),
                                _ => OutcomeView::Refused(
                                    seq![
                                        shape_problem(
                                            "unknown_operation"@,
                                            "WorkspaceEdit.documentChanges must be an array."@,
                                            None,
                                        ),
                                    ],
                                ),
                            }
                        } else {
                            self.concluded(empty_draft(), annotations)
                        },
                        _ => OutcomeView::Refused(
                            seq![
                                shape_problem(
                                    "missing_annotation"@,
                                    "changeAnnotations must be an object."@,
                                    None,
                                ),
                            ],
                        ),
                    }
                },
            },
            _ => OutcomeView::Refused(
                seq![shape_problem("unknown_operation"@, "WorkspaceEdit must be a JSON object."@, None)],
            ),
        }
    }

    /// What the operations of an edit come to.
    pub open spec fn folded(&self, step: (DraftView, Option<RequestView>), annotations: JsonView) -> OutcomeView {
        match step.1 {
            Some(request) => OutcomeView::Observe(request),
            None => self.concluded(step.0, annotations),
        }
    }

    /// Plans a workspace edit without known document versions.
    pub fn plan_workspace_edit(&self, edit: &Json) -> (r: PlanOutcome)
        ensures
            r@ == self.edit_planned(edit@, Map::empty()),
    {
        let preconditions: SortedMap<String, DocumentVersionPrecondition> = SortedMap::new();
        self.plan_workspace_edit_with_document_preconditions(edit, &preconditions)
    }

    /// Plans a workspace edit. Where an edit names a document version, that
    /// version must be among the preconditions with the content that the
    /// document has.
    pub fn plan_workspace_edit_with_document_preconditions(
        &self,
        edit: &Json,
        preconditions: &SortedMap<String, DocumentVersionPrecondition>,
    ) -> (r: PlanOutcome)
        ensures
            r@ == self.edit_planned(edit@, preconditions@),
    {
        let o: &Vec<(String, Json)> = match edit {
            Json::Object(o) => o,
            _ => {
                return one_problem(
                    problem("unknown_operation", "WorkspaceEdit must be a JSON object.", None, None, None),
                );
            },
        };
        let allowed: Vec<&str> = vec!["changes", "documentChanges", "changeAnnotations"];
        assert(views(allowed@) =~= workspace_edit_keys());
        match validate_object_keys(o, &allowed, None) {
            Some(p) => {
                return one_problem(p);
            },
            None => {},
        }
        let annotations: Json = match find_field(o, "changeAnnotations") {
            Some(v) => v.copy(),
            None => empty_object(),
        };
        let notes: &Vec<(String, Json)> = match &annotations {
            Json::Object(notes) => notes,
            _ => {
                return one_problem(
                    problem("missing_annotation", "changeAnnotations must be an object.", None, None, None),
                );
            },
        };
        let changes: Option<&Json> = match find_field(o, "changes") {
            Some(v) => if v.is_null() {
                None
            } else {
                Some(v)
            },
            None => None,
        };
        let document_changes: Option<&Json> = match find_field(o, "documentChanges") {
            Some(v) => if v.is_null() {
                None
            } else {
                Some(v)
            },
            None => None,
        };
        let mut draft: Draft = new_draft();
        match (changes, document_changes) {
            (Some(_), Some(_)) => {
                return one_problem(
                    problem(
                        "both_changes_and_document_changes",
                        "WorkspaceEdit cannot contain both changes and documentChanges.",
                        None,
                        None,
                        None,
                    ),
                );
            },
            (Some(changes), None) => {
                let c: &Vec<(String, Json)> = match changes {
                    Json::Object(c) => c,
                    _ => {
                        return one_problem(
                            problem(
                                "unknown_operation",
                                "WorkspaceEdit.changes must be an object.",
                                None,
                                None,
                                None,
                            ),
                        );
                    },
                };
                match self.plan_documents(&mut draft, &sorted_documents(c), notes) {
                    Some(request) => {
                        return PlanOutcome::Observe(request);
                    },
                    None => {},
                }
            },
            (None, Some(changes)) => {
                let c: &Vec<Json> = match changes {
                    Json::Array(c) => c,
                    _ => {
                        return one_problem(
                            problem(
                                "unknown_operation",
                                "WorkspaceEdit.documentChanges must be an array.",
                                None,
                                None,
                                None,
                            ),
                        );
                    },
                };
                match self.plan_changes(&mut draft, c, notes, preconditions) {
                    Some(request) => {
                        return PlanOutcome::Observe(request);
                    },
                    None => {},
                }
            },
            (None, None) => {},
        }
        self.conclude(draft, annotations)
    }

    fn plan_documents(
        &self,
        draft: &mut Draft,
        changes: &Vec<DocumentEdits>,
        annotations: &Vec<(String, Json)>,
    ) -> (r: Option<Request>)
        ensures
            (final(draft)@, opt_view(r)) == self.documents_planned(
                old(draft)@,
                views(changes@),
                0,
                object_view(annotations@),
            ),
    {
        let ghost all = views(changes@);
        let ghost start = draft@;
        let mut i: usize = 0;
        while i < changes.len()
            invariant
                start == old(draft)@,
                all == views(changes@),
                i <= changes@.len(),
                self.documents_planned(start, all, 0, object_view(annotations@)) == self.documents_planned(
                    draft@,
                    all,
                    i as int,
                    object_view(annotations@),
                ),
            decreases changes.len() - i,
        {
            assert(all[i as int] == changes@[i as int]@);
            match self.plan_text_operation(
                draft,
                i as u64,
                changes[i].uri.as_str(),
                &changes[i].edits,
                annotations,
                None,
            ) {
                Some(request) => {
                    return Some(request);
                },
                None => {},
            }
            i += 1;
        }
        None
    }

    fn plan_changes(
        &self,
        draft: &mut Draft,
        changes: &Vec<Json>,
        annotations: &Vec<(String, Json)>,
        preconditions: &SortedMap<String, DocumentVersionPrecondition>,
    ) -> (r: Option<Request>)
        ensures
            (final(draft)@, opt_view(r)) == self.changes_planned(
                old(draft)@,
                array_view(changes@),
                0,
                object_view(annotations@),
                preconditions@,
            ),
    {
        let ghost all = array_view(changes@);
        let ghost start = draft@;
        let mut i: usize = 0;
        while i < changes.len()
            invariant
                start == old(draft)@,
                all == array_view(changes@),
                i <= changes@.len(),
                self.changes_planned(start, all, 0, object_view(annotations@), preconditions@) == self.changes_planned(
                    draft@,
                    all,
                    i as int,
                    object_view(annotations@),
                    preconditions@,
                ),
            decreases changes.len() - i,
        {
            assert(all[i as int] == changes@[i as int]@);
            match self.plan_change(draft, i as u64, &changes[i], annotations, preconditions) {
                Some(request) => {
                    return Some(request);
                },
                None => {},
            }
            i += 1;
        }
        None
    }
}

} // verus!
