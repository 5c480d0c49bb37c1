//! Plans: what a workspace edit will do to the files of a workspace, and what
//! was observed of them when it was made.

use vstd::prelude::*;

use crate::edits::{CanonicalTextEdit, EditView};
use crate::json::{Json, JsonView};
use crate::manifest::{ManifestEntry, ManifestView, PathView, missing_at, missing_manifest};
use crate::order::Key;
use crate::path::NativePath;
use crate::sorted::SortedMap;
use crate::text::{opt_ref_view, opt_view, views};

verus! {

/// Why a workspace edit is refused.
pub struct WorkspaceEditProblem {
    pub code: String,
    pub message: String,
    pub operation_index: Option<u64>,
    pub path: Option<NativePath>,
    pub annotation_id: Option<String>,
    pub data: Option<Json>,
}

/// What a [`WorkspaceEditProblem`] stands for.
#[verifier::ext_equal]
pub ghost struct ProblemView {
    pub code: Seq<char>,
    pub message: Seq<char>,
    pub operation_index: Option<u64>,
    pub path: Option<PathView>,
    pub annotation_id: Option<Seq<char>>,
    pub data: Option<JsonView>,
}

impl View for WorkspaceEditProblem {
    type V = ProblemView;

    open spec fn view(&self) -> ProblemView {
        ProblemView {
            code: self.code@,
            message: self.message@,
            operation_index: self.operation_index,
            path: opt_view(self.path),
            annotation_id: opt_view(self.annotation_id),
            data: opt_view(self.data),
        }
    }
}

/// A problem without an annotation.
pub open spec fn plain_problem(
    code: Seq<char>,
    message: Seq<char>,
    operation_index: Option<u64>,
    path: Option<PathView>,
    data: Option<JsonView>,
) -> ProblemView {
    ProblemView { code, message, operation_index, path, annotation_id: None, data }
}

/// A problem without an annotation.
pub fn problem(
    code: &str,
    message: &str,
    operation_index: Option<u64>,
    path: Option<&NativePath>,
    data: Option<Json>,
) -> (r: WorkspaceEditProblem)
    ensures
        r@ == plain_problem(code@, message@, operation_index, opt_ref_view(path), opt_view(data)),
{
    WorkspaceEditProblem {
        code: code.to_owned(),
        message: message.to_owned(),
        operation_index,
        path: match path {
            Some(p) => Some(p.duplicate()),
            None => None,
        },
        annotation_id: None,
        data,
    }
}

/// One step of a plan.
pub enum CanonicalOperation {
    Text {
        index: u64,
        uri: String,
        path: NativePath,
        before_digest: String,
        after_digest: String,
        edits: Vec<CanonicalTextEdit>,
    },
    Create { index: u64, uri: String, path: NativePath, overwrite: bool, ignore_if_exists: bool },
    Rename {
        index: u64,
        old_uri: String,
        new_uri: String,
        old_path: NativePath,
        new_path: NativePath,
        overwrite: bool,
        ignore_if_exists: bool,
    },
    Delete { index: u64, uri: String, path: NativePath, recursive: bool, ignore_if_not_exists: bool },
}

/// What a [`CanonicalOperation`] stands for.
#[verifier::ext_equal]
pub ghost enum OperationView {
    Text {
        index: u64,
        uri: Seq<char>,
        path: PathView,
        before_digest: Seq<char>,
        after_digest: Seq<char>,
        edits: Seq<EditView>,
    },
    Create { index: u64, uri: Seq<char>, path: PathView, overwrite: bool, ignore_if_exists: bool },
    Rename {
        index: u64,
        old_uri: Seq<char>,
        new_uri: Seq<char>,
        old_path: PathView,
        new_path: PathView,
        overwrite: bool,
        ignore_if_exists: bool,
    },
    Delete { index: u64, uri: Seq<char>, path: PathView, recursive: bool, ignore_if_not_exists: bool },
}

impl View for CanonicalOperation {
    type V = OperationView;

    open spec fn view(&self) -> OperationView {
        match self {
            CanonicalOperation::Text { index, uri, path, before_digest, after_digest, edits } => OperationView::Text {
                index: *index,
                uri: uri@,
                path: path@,
                before_digest: before_digest@,
                after_digest: after_digest@,
                edits: views(edits@),
            },
            CanonicalOperation::Create { index, uri, path, overwrite, ignore_if_exists } => OperationView::Create {
                index: *index,
                uri: uri@,
                path: path@,
                overwrite: *overwrite,
                ignore_if_exists: *ignore_if_exists,
            },
            CanonicalOperation::Rename { index, old_uri, new_uri, old_path, new_path, overwrite, ignore_if_exists } =>
                OperationView::Rename {
                    index: *index,
                    old_uri: old_uri@,
                    new_uri: new_uri@,
                    old_path: old_path@,
                    new_path: new_path@,
                    overwrite: *overwrite,
                    ignore_if_exists: *ignore_if_exists,
                },
            CanonicalOperation::Delete { index, uri, path, recursive, ignore_if_not_exists } => OperationView::Delete {
                index: *index,
                uri: uri@,
                path: path@,
                recursive: *recursive,
                ignore_if_not_exists: *ignore_if_not_exists,
            },
        }
    }
}

/// The steps of a plan, and the manifests before and after them.
pub struct CanonicalPlan {
    pub operations: Vec<CanonicalOperation>,
    pub before_manifest: Vec<ManifestEntry>,
    pub intended_manifest: Vec<ManifestEntry>,
}

/// What a [`CanonicalPlan`] stands for.
#[verifier::ext_equal]
pub ghost struct PlanView {
    pub operations: Seq<OperationView>,
    pub before_manifest: Seq<ManifestView>,
    pub intended_manifest: Seq<ManifestView>,
}

impl View for CanonicalPlan {
    type V = PlanView;

    open spec fn view(&self) -> PlanView {
        PlanView {
            operations: views(self.operations@),
            before_manifest: views(self.before_manifest@),
            intended_manifest: views(self.intended_manifest@),
        }
    }
}

/// How much a plan does.
#[derive(Clone, Copy, Debug, PartialEq, Eq, Structural)]
pub struct PreviewSummary {
    pub files_changed: u64,
    pub text_edits: u64,
    pub creates: u64,
    pub renames: u64,
    pub deletes: u64,
}

/// A plan with the annotations of its edit and a summary.
pub struct PlannedWorkspaceEdit {
    pub plan: CanonicalPlan,
    pub annotations: Json,
    pub summary: PreviewSummary,
}

/// The content that a document had in the version that an edit was made for.
pub struct DocumentVersionPrecondition {
    pub version: i64,
    pub digest: String,
}

/// What a [`DocumentVersionPrecondition`] stands for.
#[verifier::ext_equal]
pub ghost struct PreconditionView {
    pub version: i64,
    pub digest: Seq<char>,
}

impl View for DocumentVersionPrecondition {
    type V = PreconditionView;

    open spec fn view(&self) -> PreconditionView {
        PreconditionView { version: self.version, digest: self.digest@ }
    }
}

/// The state of a resource while an edit is planned.
pub struct ResourceState {
    pub manifest: ManifestEntry,
    pub text: Option<Vec<u8>>,
}

/// What a [`ResourceState`] stands for.
#[verifier::ext_equal]
pub ghost struct StateView {
    pub manifest: ManifestView,
    pub text: Option<Seq<u8>>,
}

impl View for ResourceState {
    type V = StateView;

    open spec fn view(&self) -> StateView {
        StateView { manifest: self.manifest@, text: opt_view(self.text) }
    }
}

/// Copies bytes.
pub fn copy_bytes(bytes: &Vec<u8>) -> (r: Vec<u8>)
    ensures
        r@ == bytes@,
{
    let mut r: Vec<u8> = Vec::new();
    crate::digest::extend(&mut r, bytes.as_slice());
    assert(r@ =~= bytes@);
    r
}

impl ResourceState {
    /// A state with the same view.
    pub fn copy(&self) -> (r: ResourceState)
        ensures
            r@ == self@,
    {
        ResourceState {
            manifest: self.manifest.copy(),
            text: match &self.text {
                Some(bytes) => Some(copy_bytes(bytes)),
                None => None,
            },
        }
    }
}

/// The state of a path at which nothing stands.
pub open spec fn missing_state(path: PathView) -> StateView {
    StateView { manifest: missing_at(path), text: None }
}

/// The state of a path at which nothing stands.
pub fn missing_resource(path: &NativePath) -> (r: ResourceState)
    ensures
        r@ == missing_state(path@),
{
    ResourceState { manifest: missing_manifest(path), text: None }
}

/// What kind of entry the filesystem shows.
#[derive(Clone, Copy, Debug, PartialEq, Eq, Structural)]
pub enum EntryKind {
    File,
    Directory,
    Other,
}

/// What the filesystem shows at a path, without following links.
pub enum EntryFact {
    Missing,
    Unavailable { reason: String },
    Present { link: bool, device: Option<u64>, kind: EntryKind },
}

/// What an [`EntryFact`] stands for.
pub ghost enum EntryFactView {
    Missing,
    Unavailable { reason: Seq<char> },
    Present { link: bool, device: Option<u64>, kind: EntryKind },
}

impl View for EntryFact {
    type V = EntryFactView;

    open spec fn view(&self) -> EntryFactView {
        match self {
            EntryFact::Missing => EntryFactView::Missing,
            EntryFact::Unavailable { reason } => EntryFactView::Unavailable { reason: reason@ },
            EntryFact::Present { link, device, kind } => EntryFactView::Present {
                link: *link,
                device: *device,
                kind: *kind,
            },
        }
    }
}

/// Why a resource could not be inspected.
pub struct Fault {
    pub code: String,
    pub message: String,
    pub data: Option<Json>,
}

/// What a [`Fault`] stands for.
#[verifier::ext_equal]
pub ghost struct FaultView {
    pub code: Seq<char>,
    pub message: Seq<char>,
    pub data: Option<JsonView>,
}

impl View for Fault {
    type V = FaultView;

    open spec fn view(&self) -> FaultView {
        FaultView { code: self.code@, message: self.message@, data: opt_view(self.data) }
    }
}

/// The problem of a fault at a path.
pub open spec fn fault_problem(fault: FaultView, index: u64, path: PathView) -> ProblemView {
    plain_problem(fault.code, fault.message, Some(index), Some(path), fault.data)
}

impl Fault {
    /// The problem of a fault at a path.
    pub fn to_problem(&self, index: u64, path: &NativePath) -> (r: WorkspaceEditProblem)
        ensures
            r@ == fault_problem(self@, index, path@),
    {
        let data: Option<Json> = match &self.data {
            Some(d) => Some(d.copy()),
            None => None,
        };
        problem(self.code.as_str(), self.message.as_str(), Some(index), Some(path), data)
    }
}

/// What was measured, or why it was not.
pub enum Measured<T> {
    Known(T),
    Failed(Fault),
}

/// What a [`Measured`] stands for.
pub ghost enum MeasuredView<T> {
    Known(T),
    Failed(FaultView),
}

impl<T: View> View for Measured<T> {
    type V = MeasuredView<T::V>;

    open spec fn view(&self) -> MeasuredView<T::V> {
        match self {
            Measured::Known(t) => MeasuredView::Known(t@),
            Measured::Failed(f) => MeasuredView::Failed(f@),
        }
    }
}

/// What was measured of a resource that stands at a path and is no link.
pub struct ResourceFacts {
    pub link_count: u64,
    pub sparse: bool,
    /// The digest of a file's content.
    pub content: Measured<String>,
    pub identity: Measured<String>,
    pub metadata: Measured<String>,
    /// The length of the resource, where it is known.
    pub length: Option<u64>,
    /// The length of a text as it was opened, where it could be.
    pub text_length: Option<u64>,
    pub text: Measured<Vec<u8>>,
}

/// What a [`ResourceFacts`] stands for.
#[verifier::ext_equal]
pub ghost struct FactsView {
    pub link_count: u64,
    pub sparse: bool,
    pub content: MeasuredView<Seq<char>>,
    pub identity: MeasuredView<Seq<char>>,
    pub metadata: MeasuredView<Seq<char>>,
    pub length: Option<u64>,
    pub text_length: Option<u64>,
    pub text: MeasuredView<Seq<u8>>,
}

impl View for ResourceFacts {
    type V = FactsView;

    open spec fn view(&self) -> FactsView {
        FactsView {
            link_count: self.link_count,
            sparse: self.sparse,
            content: self.content@,
            identity: self.identity@,
            metadata: self.metadata@,
            length: self.length,
            text_length: self.text_length,
            text: self.text@,
        }
    }
}

/// One entry of a directory as it was listed.
pub enum ChildFact {
    Unreadable(Fault),
    /// The entry's name is no Unicode text.
    NotUnicode,
    Entry { name: String, kind: Measured<EntryKind> },
}

/// What a [`ChildFact`] stands for.
pub ghost enum ChildFactView {
    Unreadable(FaultView),
    NotUnicode,
    Entry { name: Seq<char>, kind: MeasuredView<EntryKind> },
}

impl View for EntryKind {
    type V = EntryKind;

    open spec fn view(&self) -> EntryKind {
        *self
    }
}

impl View for ChildFact {
    type V = ChildFactView;

    open spec fn view(&self) -> ChildFactView {
        match self {
            ChildFact::Unreadable(f) => ChildFactView::Unreadable(f@),
            ChildFact::NotUnicode => ChildFactView::NotUnicode,
            ChildFact::Entry { name, kind } => ChildFactView::Entry { name: name@, kind: kind@ },
        }
    }
}

/// The entries of a directory in the order in which they were listed, or why
/// it could not be opened.
pub struct DirectoryFacts {
    pub opened: Measured<Vec<ChildFact>>,
}

impl View for DirectoryFacts {
    type V = MeasuredView<Seq<ChildFactView>>;

    open spec fn view(&self) -> MeasuredView<Seq<ChildFactView>> {
        match self.opened {
            Measured::Known(list) => MeasuredView::Known(views(list@)),
            Measured::Failed(f) => MeasuredView::Failed(f@),
        }
    }
}

/// The device that a path leads to when links are followed; none where
/// nothing stands there.
pub struct DeviceFact {
    pub device: Option<Option<u64>>,
}

impl View for DeviceFact {
    type V = Option<Option<u64>>;

    open spec fn view(&self) -> Option<Option<u64>> {
        self.device
    }
}

/// What has been observed of the filesystem.
pub struct Observations {
    pub entries: SortedMap<NativePath, EntryFact>,
    pub resources: SortedMap<NativePath, ResourceFacts>,
    pub directories: SortedMap<NativePath, DirectoryFacts>,
    pub devices: SortedMap<NativePath, DeviceFact>,
}

/// What [`Observations`] stand for.
#[verifier::ext_equal]
pub ghost struct ObservationsView {
    pub entries: Map<PathView, EntryFactView>,
    pub resources: Map<PathView, FactsView>,
    pub directories: Map<PathView, MeasuredView<Seq<ChildFactView>>>,
    pub devices: Map<PathView, Option<Option<u64>>>,
}

impl View for Observations {
    type V = ObservationsView;

    open spec fn view(&self) -> ObservationsView {
        ObservationsView {
            entries: self.entries@,
            resources: self.resources@,
            directories: self.directories@,
            devices: self.devices@,
        }
    }
}

/// What has to be observed before planning can go on.
pub enum Request {
    Entry(NativePath),
    Resource(NativePath),
    Directory(NativePath),
    Device(NativePath),
}

/// What a [`Request`] stands for.
pub ghost enum RequestView {
    Entry(PathView),
    Resource(PathView),
    Directory(PathView),
    Device(PathView),
}

impl View for Request {
    type V = RequestView;

    open spec fn view(&self) -> RequestView {
        match self {
            Request::Entry(p) => RequestView::Entry(p@),
            Request::Resource(p) => RequestView::Resource(p@),
            Request::Directory(p) => RequestView::Directory(p@),
            Request::Device(p) => RequestView::Device(p@),
        }
    }
}

/// Why a step of planning does not go on.
pub enum Stop {
    Problem(WorkspaceEditProblem),
    Observe(Request),
}

/// What a [`Stop`] stands for.
pub ghost enum StopView {
    Problem(ProblemView),
    Observe(RequestView),
}

impl View for Stop {
    type V = StopView;

    open spec fn view(&self) -> StopView {
        match self {
            Stop::Problem(p) => StopView::Problem(p@),
            Stop::Observe(r) => StopView::Observe(r@),
        }
    }
}

/// The workspace as the steps planned so far leave it.
pub struct VirtualWorkspace {
    pub entries: SortedMap<NativePath, ResourceState>,
    pub before: SortedMap<NativePath, ManifestEntry>,
    pub affected: SortedMap<NativePath, ()>,
    pub rollback_bytes: u64,
}

/// What a [`VirtualWorkspace`] stands for.
#[verifier::ext_equal]
pub ghost struct WorkspaceView {
    pub entries: Map<PathView, StateView>,
    pub before: Map<PathView, ManifestView>,
    pub affected: Set<PathView>,
    pub rollback_bytes: u64,
}

impl View for VirtualWorkspace {
    type V = WorkspaceView;

    open spec fn view(&self) -> WorkspaceView {
        WorkspaceView {
            entries: self.entries@,
            before: self.before@,
            affected: self.affected@.dom(),
            rollback_bytes: self.rollback_bytes,
        }
    }
}

/// What planning has come to so far.
pub struct Draft {
    pub workspace: VirtualWorkspace,
    pub operations: Vec<CanonicalOperation>,
    pub summary: PreviewSummary,
    pub new_text_bytes: u64,
    pub problems: Vec<WorkspaceEditProblem>,
}

/// What a [`Draft`] stands for.
#[verifier::ext_equal]
pub ghost struct DraftView {
    pub workspace: WorkspaceView,
    pub operations: Seq<OperationView>,
    pub summary: PreviewSummary,
    pub new_text_bytes: u64,
    pub problems: Seq<ProblemView>,
}

impl View for Draft {
    type V = DraftView;

    open spec fn view(&self) -> DraftView {
        DraftView {
            workspace: self.workspace@,
            operations: views(self.operations@),
            summary: self.summary,
            new_text_bytes: self.new_text_bytes,
            problems: views(self.problems@),
        }
    }
}

impl DraftView {
    /// The draft with one more problem.
    pub open spec fn with_problem(self, p: ProblemView) -> DraftView {
        DraftView { problems: self.problems.push(p), ..self }
    }
}

impl Draft {
    /// Records a problem.
    pub fn push_problem(&mut self, p: WorkspaceEditProblem)
        ensures
            final(self)@ == old(self)@.with_problem(p@),
    {
        let ghost before = self.problems@;
        self.problems.push(p);
        assert(views(self.problems@) =~= views(before).push(p@));
    }

    /// Records an operation.
    pub fn push_operation(&mut self, o: CanonicalOperation)
        ensures
            final(self)@ == (DraftView { operations: old(self)@.operations.push(o@), ..old(self)@ }),
    {
        let ghost before = self.operations@;
        self.operations.push(o);
        assert(views(self.operations@) =~= views(before).push(o@));
    }
}

} // verus!
