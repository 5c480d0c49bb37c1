//! Planning: from a workspace edit and what was observed of the filesystem to
//! an exact, ordered plan.

use vstd::prelude::*;

use crate::digest::{canonical_digest, digest_canonical_value};
use crate::json::{Json, JsonView, object1, object3, object_view, push_field, text_value};
use crate::manifest::{ManifestEntry, ManifestView, PathView, ResourceKind, kind_name, kind_text};
use crate::order::Key;
use crate::path::{NativePath, beneath, lexically_beneath};
use crate::plan::{
    ChildFact,
    ChildFactView,
    EntryFact,
    EntryFactView,
    EntryKind,
    FactsView,
    Measured,
    MeasuredView,
    Observations,
    ProblemView,
    Request,
    RequestView,
    ResourceFacts,
    ResourceState,
    StateView,
    Stop,
    StopView,
    VirtualWorkspace,
    WorkspaceEditProblem,
    WorkspaceView,
    copy_bytes,
    fault_problem,
    missing_resource,
    missing_state,
    plain_problem,
    problem,
};
use crate::position::PositionEncoding;
use crate::settings::{MutationSettings, PreviewSettings};
use crate::sorted::{SortedMap, listing};
use crate::text::{opt_view, same, views};
use crate::uri::{
    UriPath,
    UriPathView,
    has_dot_segment,
    path_of_uri,
    scheme_of_uri,
    uri_contains_path_traversal,
    uri_file_path,
    uri_scheme,
};

verus! {

/// What planning works from: the workspace, its limits, and what was observed.
pub struct WorkspaceEditPlanner<'a> {
    pub workspace: &'a NativePath,
    pub position_encoding: PositionEncoding,
    pub preview_limits: &'a PreviewSettings,
    pub mutation_limits: &'a MutationSettings,
    pub root_device: Option<u64>,
    /// Whether file URIs that differ in the case of their drive letter alone
    /// name one document.
    pub fold_drive_case: bool,
    pub observed: &'a Observations,
}

/// A problem that names the URI at fault.
pub open spec fn uri_problem(code: Seq<char>, message: Seq<char>, index: u64, raw: Seq<char>) -> ProblemView {
    plain_problem(code, message, Some(index), None, Some(JsonView::Object(seq![("uri"@, JsonView::Text(raw))])))
}

fn refuse_uri(code: &str, message: &str, index: u64, raw: &str) -> (r: Stop)
    ensures
        r@ == StopView::Problem(uri_problem(code@, message@, index, raw@)),
{
    Stop::Problem(problem(code, message, Some(index), None, Some(object1("uri", text_value(raw)))))
}

/// A problem with a path and no data.
pub open spec fn path_problem(code: Seq<char>, message: Seq<char>, index: u64, path: PathView) -> ProblemView {
    plain_problem(code, message, Some(index), Some(path), None)
}

fn refuse_path(code: &str, message: &str, index: u64, path: &NativePath) -> (r: WorkspaceEditProblem)
    ensures
        r@ == path_problem(code@, message@, index, path@),
{
    problem(code, message, Some(index), Some(path), None)
}

/// The data of a problem about a limit.
pub open spec fn limit_data(resource: Seq<char>, limit: int, observed: int) -> JsonView {
    JsonView::Object(
        seq![
            ("limit"@, JsonView::Int(limit)),
            ("observed"@, JsonView::Int(observed)),
            ("resource"@, JsonView::Text(resource)),
        ],
    )
}

/// The data of a problem about a limit.
pub fn limit_value(resource: &str, limit: u64, observed: u64) -> (r: Json)
    ensures
        r@ == limit_data(resource@, limit as int, observed as int),
{
    object3("limit", Json::Unsigned(limit), "observed", Json::Unsigned(observed), "resource", text_value(resource))
}

/// The data of a problem with a reason from outside.
pub open spec fn reason_data(reason: Seq<char>) -> JsonView {
    JsonView::Object(seq![("reason"@, JsonView::Text(reason))])
}

/// The name and kind of each child of a directory, as an object.
pub open spec fn membership(children: Map<Seq<char>, ResourceKind>) -> JsonView {
    let names = listing::<String>(children.dom());
    JsonView::Object(Seq::new(names.len(), |i: int| (names[i], JsonView::Text(kind_text(children[names[i]])))))
}

/// The digest of which children a directory has.
pub open spec fn membership_digest(children: Map<Seq<char>, ResourceKind>) -> Seq<char> {
    canonical_digest("lspctl-directory-membership-v1"@, membership(children))
}

/// The digest of which children a directory has.
pub fn directory_membership_digest(children: &SortedMap<String, ResourceKind>) -> (r: String)
    ensures
        r@ == membership_digest(children@),
{
    let n: usize = children.len();
    let mut o: Vec<(String, Json)> = Vec::new();
    let ghost names = listing::<String>(children@.dom());
    let ghost fields = membership(children@)->Object_0;
    let mut i: usize = 0;
    assert(object_view(o@) =~= fields.take(0));
    while i < n
        invariant
            n == children.keys().len(),
            children.keys() == names,
            names == listing::<String>(children@.dom()),
            fields == membership(children@)->Object_0,
            fields.len() == n,
            i <= n,
            object_view(o@) =~= fields.take(i as int),
        decreases n - i,
    {
        let name: &String = children.key_at(i);
        let kind: &ResourceKind = children.value_at(i);
        push_field(&mut o, name.as_str(), text_value(kind_name(*kind)));
        assert(fields.take(i + 1) =~= fields.take(i as int).push(fields[i as int]));
        i += 1;
    }
    assert(fields.take(i as int) =~= fields);
    digest_canonical_value("lspctl-directory-membership-v1", &Json::Object(o))
}

impl<'a> WorkspaceEditPlanner<'a> {
    /// The problem, or the missing observation, with the components of `path`
    /// from the `n`th on: none may be a link or lie on another device.
    pub open spec fn ancestors_from(&self, path: PathView, n: int, index: u64) -> Option<StopView>
        decreases path.len() + 1 - n,
    {
        if n > path.len() {
            None
        } else {
            let current = path.take(n);
            if !self.observed@.entries.dom().contains(current) {
                Some(StopView::Observe(RequestView::Entry(current)))
            } else {
                match self.observed@.entries[current] {
                    EntryFactView::Missing => None,
                    EntryFactView::Unavailable { reason } => Some(
                        StopView::Problem(
                            plain_problem(
                                "filesystem_capability_unavailable"@,
                                "A Mutation path cannot be inspected."@,
                                Some(index),
                                Some(current),
                                Some(reason_data(reason)),
                            ),
                        ),
                    ),
                    EntryFactView::Present { link, device, kind } => if link {
                        Some(
                            StopView::Problem(
                                path_problem(
                                    "symlink_or_reparse_point"@,
                                    "Mutation paths cannot traverse symlinks or reparse points."@,
                                    index,
                                    current,
                                ),
                            ),
                        )
                    } else if device != self.root_device {
                        Some(
                            StopView::Problem(
                                path_problem(
                                    "volume_boundary"@,
                                    "Mutation paths cannot cross a nested filesystem volume."@,
                                    index,
                                    current,
                                ),
                            ),
                        )
                    } else {
                        self.ancestors_from(path, n + 1, index)
                    },
                }
            }
        }
    }

    /// What stands against the way from the workspace to `path`.
    pub open spec fn ancestors_stop(&self, path: PathView, index: u64) -> Option<StopView> {
        if !self.workspace@.is_prefix_of(path) {
            Some(
                StopView::Problem(
                    path_problem(
                        "outside_workspace"@,
                        "The Mutation path is outside the Workspace."@,
                        index,
                        path,
                    ),
                ),
            )
        } else {
            self.ancestors_from(path, self.workspace@.len() as int + 1, index)
        }
    }

    /// Checks that no component of `path` below the workspace is a link or lies
    /// on another device.
    pub fn validate_existing_ancestors(&self, path: &NativePath, index: u64) -> (r: Option<Stop>)
        ensures
            opt_view(r) == self.ancestors_stop(path@, index),
    {
        if !path.starts_with(self.workspace) {
            return Some(
                Stop::Problem(
                    refuse_path(
                        "outside_workspace",
                        "The Mutation path is outside the Workspace.",
                        index,
                        path,
                    ),
                ),
            );
        }
        let mut n: usize = self.workspace.components.len();
        while n < path.components.len()
            invariant
                self.workspace@.len() <= n <= path@.len(),
                self.workspace@.is_prefix_of(path@),
                self.ancestors_stop(path@, index) == self.ancestors_from(path@, n + 1, index),
            decreases path.components.len() - n,
        {
            n += 1;
            let current: NativePath = path.ancestor(n);
            match self.observed.entries.get(&current) {
                None => {
                    return Some(Stop::Observe(Request::Entry(current)));
                },
                Some(EntryFact::Missing) => {
                    return None;
                },
                Some(EntryFact::Unavailable { reason }) => {
                    return Some(
                        Stop::Problem(
                            problem(
                                "filesystem_capability_unavailable",
                                "A Mutation path cannot be inspected.",
                                Some(index),
                                Some(&current),
                                Some(object1("reason", text_value(reason.as_str()))),
                            ),
                        ),
                    );
                },
                Some(EntryFact::Present { link, device, kind: _ }) => {
                    if *link {
                        return Some(
                            Stop::Problem(
                                refuse_path(
                                    "symlink_or_reparse_point",
                                    "Mutation paths cannot traverse symlinks or reparse points.",
                                    index,
                                    &current,
                                ),
                            ),
                        );
                    }
                    if !same_device(*device, self.root_device) {
                        return Some(
                            Stop::Problem(
                                refuse_path(
                                    "volume_boundary",
                                    "Mutation paths cannot cross a nested filesystem volume.",
                                    index,
                                    &current,
                                ),
                            ),
                        );
                    }
                },
            }
        }
        None
    }

    /// The path that a URI names, if it may be mutated.
    pub open spec fn file_path(&self, raw: Seq<char>, index: u64) -> Result<PathView, StopView> {
        if has_dot_segment(raw) {
            Err(
                StopView::Problem(
                    uri_problem("path_traversal"@, "Mutation URIs cannot contain dot path segments."@, index, raw),
                ),
            )
        } else {
            match scheme_of_uri(raw) {
                None => Err(
                    StopView::Problem(
                        uri_problem("malformed_uri"@, "The operation URI is malformed."@, index, raw),
                    ),
                ),
                Some(scheme) => if scheme != "file"@ {
                    Err(
                        StopView::Problem(
                            uri_problem(
                                "unsupported_uri_scheme"@,
                                "Mutation supports only file: URIs."@,
                                index,
                                raw,
                            ),
                        ),
                    )
                } else {
                    match path_of_uri(raw) {
                        UriPathView::Unconvertible => Err(
                            StopView::Problem(
                                uri_problem(
                                    "malformed_uri"@,
                                    "The file URI cannot be converted to a native path."@,
                                    index,
                                    raw,
                                ),
                            ),
                        ),
                        UriPathView::NotUnicode => Err(
                            StopView::Problem(
                                uri_problem(
                                    "malformed_uri"@,
                                    "Mutation paths must be representable as UTF-8 JSON strings."@,
                                    index,
                                    raw,
                                ),
                            ),
                        ),
                        UriPathView::Path(path) => self.mutable_path(path, index),
                    }
                },
            }
        }
    }

    /// The path itself, if it may be mutated.
    pub open spec fn mutable_path(&self, path: PathView, index: u64) -> Result<PathView, StopView> {
        if path == self.workspace@ {
            Err(
                StopView::Problem(
                    path_problem(
                        "workspace_root_mutation"@,
                        "The Workspace root cannot be mutated."@,
                        index,
                        path,
                    ),
                ),
            )
        } else if !beneath(self.workspace@, path) {
            Err(
                StopView::Problem(
                    path_problem(
                        "outside_workspace"@,
                        "The Mutation path is outside the Workspace."@,
                        index,
                        path,
                    ),
                ),
            )
        } else {
            match self.ancestors_stop(path, index) {
                Some(stop) => Err(stop),
                None => Ok(path),
            }
        }
    }

    /// Checks that a path may be mutated.
    pub fn require_mutable_path(&self, path: NativePath, index: u64) -> (r: Result<NativePath, Stop>)
        ensures
            match r {
                Ok(p) => self.mutable_path(path@, index) == Ok::<PathView, StopView>(p@),
                Err(s) => self.mutable_path(path@, index) == Err::<PathView, StopView>(s@),
            },
    {
        if path.same_path(self.workspace) {
            return Err(
                Stop::Problem(
                    refuse_path(
                        "workspace_root_mutation",
                        "The Workspace root cannot be mutated.",
                        index,
                        &path,
                    ),
                ),
            );
        }
        if !lexically_beneath(self.workspace, &path) {
            return Err(
                Stop::Problem(
                    refuse_path(
                        "outside_workspace",
                        "The Mutation path is outside the Workspace.",
                        index,
                        &path,
                    ),
                ),
            );
        }
        match self.validate_existing_ancestors(&path, index) {
            Some(stop) => Err(stop),
            None => Ok(path),
        }
    }

    /// The path that a URI names, if it may be mutated.
    pub fn path_from_file_uri(&self, raw: &str, index: u64) -> (r: Result<NativePath, Stop>)
        ensures
            match r {
                Ok(p) => self.file_path(raw@, index) == Ok::<PathView, StopView>(p@),
                Err(s) => self.file_path(raw@, index) == Err::<PathView, StopView>(s@),
            },
    {
        if uri_contains_path_traversal(raw) {
            return Err(
                refuse_uri("path_traversal", "Mutation URIs cannot contain dot path segments.", index, raw),
            );
        }
        match uri_scheme(raw) {
            None => {
                return Err(refuse_uri("malformed_uri", "The operation URI is malformed.", index, raw));
            },
            Some(scheme) => {
                if !same(scheme.as_str(), "file") {
                    return Err(
                        refuse_uri("unsupported_uri_scheme", "Mutation supports only file: URIs.", index, raw),
                    );
                }
            },
        }
        match uri_file_path(raw) {
            UriPath::Unconvertible => Err(
                refuse_uri("malformed_uri", "The file URI cannot be converted to a native path.", index, raw),
            ),
            UriPath::NotUnicode => Err(
                refuse_uri(
                    "malformed_uri",
                    "Mutation paths must be representable as UTF-8 JSON strings.",
                    index,
                    raw,
                ),
            ),
            UriPath::Path(path) => self.require_mutable_path(path, index),
        }
    }

    /// The text of a resource, unless it is longer than a document may be.
    pub open spec fn document_text(&self, facts: FactsView, path: PathView, index: u64) -> Result<Seq<u8>, StopView> {
        let limit = self.preview_limits.max_document_text_bytes;
        if facts.text_length is Some && facts.text_length->0 > limit {
            Err(
                StopView::Problem(
                    plain_problem(
                        "resource_limit_exceeded"@,
                        "A text Document exceeds the configured Preview limit."@,
                        Some(index),
                        Some(path),
                        Some(limit_data("documentTextBytes"@, limit as int, facts.text_length->0 as int)),
                    ),
                ),
            )
        } else {
            match facts.text {
                MeasuredView::Known(bytes) => Ok(bytes),
                MeasuredView::Failed(fault) => Err(StopView::Problem(fault_problem(fault, index, path))),
            }
        }
    }

    /// The text of a resource, unless it is longer than a document may be.
    pub fn read_text_file(&self, facts: &ResourceFacts, path: &NativePath, index: u64) -> (r: Result<Vec<u8>, Stop>)
        ensures
            match r {
                Ok(bytes) => self.document_text(facts@, path@, index) == Ok::<Seq<u8>, StopView>(bytes@),
                Err(s) => self.document_text(facts@, path@, index) == Err::<Seq<u8>, StopView>(s@),
            },
    {
        let limit: u64 = self.preview_limits.max_document_text_bytes;
        match facts.text_length {
            Some(length) => {
                if length > limit {
                    return Err(
                        Stop::Problem(
                            problem(
                                "resource_limit_exceeded",
                                "A text Document exceeds the configured Preview limit.",
                                Some(index),
                                Some(path),
                                Some(limit_value("documentTextBytes", limit, length)),
                            ),
                        ),
                    );
                }
            },
            None => {},
        }
        match &facts.text {
            Measured::Known(bytes) => Ok(copy_bytes(bytes)),
            Measured::Failed(fault) => Err(Stop::Problem(fault.to_problem(index, path))),
        }
    }

    /// The state of a resource of known kind from what was measured of it.
    pub open spec fn measured_state(
        &self,
        facts: FactsView,
        is_file: bool,
        path: PathView,
        index: u64,
        load_text: bool,
    ) -> Result<StateView, StopView> {
        if is_file && facts.link_count > 1 {
            Err(
                StopView::Problem(
                    path_problem(
                        "hard_link"@,
                        "Regular files with multiple hard links are unsupported."@,
                        index,
                        path,
                    ),
                ),
            )
        } else if is_file && facts.sparse {
            Err(
                StopView::Problem(
                    path_problem(
                        "sparse_file_unsupported"@,
                        "Sparse files are unsupported Mutation resources."@,
                        index,
                        path,
                    ),
                ),
            )
        } else if is_file && facts.content is Failed {
            Err(StopView::Problem(fault_problem(facts.content->Failed_0, index, path)))
        } else if load_text && self.document_text(facts, path, index) is Err {
            Err(self.document_text(facts, path, index)->Err_0)
        } else if facts.identity is Failed {
            Err(StopView::Problem(fault_problem(facts.identity->Failed_0, index, path)))
        } else if facts.metadata is Failed {
            Err(StopView::Problem(fault_problem(facts.metadata->Failed_0, index, path)))
        } else {
            Ok(
                StateView {
                    manifest: ManifestView {
                        path,
                        exists: true,
                        resource_kind: if is_file { ResourceKind::File } else { ResourceKind::Directory },
                        identity_digest: Some(facts.identity->Known_0),
                        content_digest: if is_file { Some(facts.content->Known_0) } else { None },
                        metadata_digest: Some(facts.metadata->Known_0),
                    },
                    text: if load_text { Some(self.document_text(facts, path, index)->Ok_0) } else { None },
                },
            )
        }
    }

    fn measured_resource(
        &self,
        facts: &ResourceFacts,
        is_file: bool,
        path: &NativePath,
        index: u64,
        load_text: bool,
    ) -> (r: Result<ResourceState, Stop>)
        ensures
            match r {
                Ok(state) => self.measured_state(facts@, is_file, path@, index, load_text) == Ok::<StateView, StopView>(
                    state@,
                ),
                Err(s) => self.measured_state(facts@, is_file, path@, index, load_text) == Err::<StateView, StopView>(
                    s@,
                ),
            },
    {
        if is_file && facts.link_count > 1 {
            return Err(
                Stop::Problem(
                    refuse_path(
                        "hard_link",
                        "Regular files with multiple hard links are unsupported.",
                        index,
                        path,
                    ),
                ),
            );
        }
        if is_file && facts.sparse {
            return Err(
                Stop::Problem(
                    refuse_path(
                        "sparse_file_unsupported",
                        "Sparse files are unsupported Mutation resources.",
                        index,
                        path,
                    ),
                ),
            );
        }
        let content_digest: Option<String> = if is_file {
            match &facts.content {
                Measured::Known(digest) => Some(digest.clone()),
                Measured::Failed(fault) => {
                    return Err(Stop::Problem(fault.to_problem(index, path)));
                },
            }
        } else {
            None
        };
        let text: Option<Vec<u8>> = if load_text {
            match self.read_text_file(facts, path, index) {
                Ok(bytes) => Some(bytes),
                Err(stop) => {
                    return Err(stop);
                },
            }
        } else {
            None
        };
        let identity: String = match &facts.identity {
            Measured::Known(digest) => digest.clone(),
            Measured::Failed(fault) => {
                return Err(Stop::Problem(fault.to_problem(index, path)));
            },
        };
        let metadata: String = match &facts.metadata {
            Measured::Known(digest) => digest.clone(),
            Measured::Failed(fault) => {
                return Err(Stop::Problem(fault.to_problem(index, path)));
            },
        };
        Ok(
            ResourceState {
                manifest: ManifestEntry {
                    path: path.duplicate(),
                    exists: true,
                    resource_kind: if is_file { ResourceKind::File } else { ResourceKind::Directory },
                    identity_digest: Some(identity),
                    content_digest,
                    metadata_digest: Some(metadata),
                },
                text,
            },
        )
    }

    /// The state of the resource that the filesystem shows at `path`.
    pub open spec fn inspected(&self, path: PathView, index: u64, load_text: bool) -> Result<StateView, StopView> {
        if !self.observed@.entries.dom().contains(path) {
            Err(StopView::Observe(RequestView::Entry(path)))
        } else {
            match self.observed@.entries[path] {
                EntryFactView::Missing => Ok(missing_state(path)),
                EntryFactView::Unavailable { reason } => Err(
                    StopView::Problem(
                        plain_problem(
                            "filesystem_capability_unavailable"@,
                            "A filesystem resource cannot be inspected."@,
                            Some(index),
                            Some(path),
                            Some(reason_data(reason)),
                        ),
                    ),
                ),
                EntryFactView::Present { link, device, kind } => if link {
                    Err(
                        StopView::Problem(
                            path_problem(
                                "symlink_or_reparse_point"@,
                                "Symlinks and reparse points are unsupported Mutation resources."@,
                                index,
                                path,
                            ),
                        ),
                    )
                } else if kind is Other {
                    Err(
                        StopView::Problem(
                            path_problem(
                                "unsupported_resource_kind"@,
                                "The Mutation resource is not a regular file or directory."@,
                                index,
                                path,
                            ),
                        ),
                    )
                } else if !self.observed@.resources.dom().contains(path) {
                    Err(StopView::Observe(RequestView::Resource(path)))
                } else {
                    self.measured_state(self.observed@.resources[path], kind is File, path, index, load_text)
                },
            }
        }
    }

    /// The state of the resource that the filesystem shows at `path`.
    pub fn inspect_resource(&self, path: &NativePath, index: u64, load_text: bool) -> (r: Result<ResourceState, Stop>)
        ensures
            match r {
                Ok(state) => self.inspected(path@, index, load_text) == Ok::<StateView, StopView>(state@),
                Err(s) => self.inspected(path@, index, load_text) == Err::<StateView, StopView>(s@),
            },
    {
        match self.observed.entries.get(path) {
            None => Err(Stop::Observe(Request::Entry(path.duplicate()))),
            Some(EntryFact::Missing) => Ok(missing_resource(path)),
            Some(EntryFact::Unavailable { reason }) => Err(
                Stop::Problem(
                    problem(
                        "filesystem_capability_unavailable",
                        "A filesystem resource cannot be inspected.",
                        Some(index),
                        Some(path),
                        Some(object1("reason", text_value(reason.as_str()))),
                    ),
                ),
            ),
            Some(EntryFact::Present { link, device: _, kind }) => {
                if *link {
                    return Err(
                        Stop::Problem(
                            refuse_path(
                                "symlink_or_reparse_point",
                                "Symlinks and reparse points are unsupported Mutation resources.",
                                index,
                                path,
                            ),
                        ),
                    );
                }
                if matches!(kind, EntryKind::Other) {
                    return Err(
                        Stop::Problem(
                            refuse_path(
                                "unsupported_resource_kind",
                                "The Mutation resource is not a regular file or directory.",
                                index,
                                path,
                            ),
                        ),
                    );
                }
                match self.observed.resources.get(path) {
                    None => Err(Stop::Observe(Request::Resource(path.duplicate()))),
                    Some(facts) => self.measured_resource(
                        facts,
                        matches!(kind, EntryKind::File),
                        path,
                        index,
                        load_text,
                    ),
                }
            },
        }
    }

    /// How many bytes it takes to keep a resource for rollback.
    pub open spec fn rollback_cost(&self, path: PathView, kind: ResourceKind) -> u64 {
        if kind == ResourceKind::File {
            if self.observed@.resources.dom().contains(path) && self.observed@.resources[path].length is Some {
                self.observed@.resources[path].length->0
            } else {
                u64::MAX
            }
        } else {
            0
        }
    }

    /// How many bytes it takes to keep a resource for rollback.
    pub fn resource_rollback_bytes(&self, path: &NativePath, kind: ResourceKind) -> (r: u64)
        ensures
            r == self.rollback_cost(path@, kind),
    {
        if kind == ResourceKind::File {
            match self.observed.resources.get(path) {
                Some(facts) => match facts.length {
                    Some(length) => length,
                    None => u64::MAX,
                },
                None => u64::MAX,
            }
        } else {
            0
        }
    }

    /// The workspace with the resource at `path` taken up, and what stood
    /// against that.
    pub open spec fn loaded(&self, ws: WorkspaceView, path: PathView, index: u64, load_text: bool) -> (
        WorkspaceView,
        Option<StopView>,
    ) {
        if ws.entries.dom().contains(path) {
            let state = ws.entries[path];
            if load_text && state.text is None && state.manifest.exists && state.manifest.resource_kind
                == ResourceKind::File {
                if !self.observed@.resources.dom().contains(path) {
                    (ws, Some(StopView::Observe(RequestView::Resource(path))))
                } else {
                    match self.document_text(self.observed@.resources[path], path, index) {
                        Ok(bytes) => (
                            WorkspaceView {
                                entries: ws.entries.insert(path, StateView { text: Some(bytes), ..state }),
                                ..ws
                            },
                            None,
                        ),
                        Err(stop) => (ws, Some(stop)),
                    }
                }
            } else {
                (ws, None)
            }
        } else if gone_above(ws, path) {
            (taken_up(ws, path, missing_state(path), 0), None)
        } else {
            match self.inspected(path, index, load_text) {
                Ok(state) => (
                    taken_up(
                        ws,
                        path,
                        state,
                        if state.manifest.exists { self.rollback_cost(path, state.manifest.resource_kind) } else { 0 },
                    ),
                    None,
                ),
                Err(stop) => (ws, Some(stop)),
            }
        }
    }

    /// Takes up the resource at `path` into the workspace.
    pub fn load_exact_resource(&self, ws: &mut VirtualWorkspace, path: &NativePath, index: u64, load_text: bool) -> (r:
        Option<Stop>)
        ensures
            (final(ws)@, opt_view(r)) == self.loaded(old(ws)@, path@, index, load_text),
            r is None ==> final(ws)@.entries.dom().contains(path@),
    {
        match ws.entries.get(path) {
            Some(state) => {
                if load_text && state.text.is_none() && state.manifest.exists && state.manifest.resource_kind
                    == ResourceKind::File {
                    match self.observed.resources.get(path) {
                        None => {
                            return Some(Stop::Observe(Request::Resource(path.duplicate())));
                        },
                        Some(facts) => {
                            match self.read_text_file(facts, path, index) {
                                Ok(bytes) => {
                                    let next: ResourceState = ResourceState {
                                        manifest: state.manifest.copy(),
                                        text: Some(bytes),
                                    };
                                    ws.entries.insert(path.duplicate(), next);
                                },
                                Err(stop) => {
                                    return Some(stop);
                                },
                            }
                        },
                    }
                }
                return None;
            },
            None => {},
        }
        let state: ResourceState = if missing_above(ws, path) {
            missing_resource(path)
        } else {
            match self.inspect_resource(path, index, load_text) {
                Ok(state) => state,
                Err(stop) => {
                    return Some(stop);
                },
            }
        };
        if state.manifest.exists {
            let cost: u64 = self.resource_rollback_bytes(path, state.manifest.resource_kind);
            ws.rollback_bytes = ws.rollback_bytes.saturating_add(cost);
        }
        ws.before.insert(path.duplicate(), state.manifest.copy());
        ws.entries.insert(path.duplicate(), state);
        None
    }

    /// The children that a listing shows, from the `i`th entry on, added to `found`.
    pub open spec fn children_from(
        &self,
        list: Seq<ChildFactView>,
        i: int,
        found: Map<Seq<char>, ResourceKind>,
        path: PathView,
        index: u64,
    ) -> Result<Map<Seq<char>, ResourceKind>, StopView>
        decreases list.len() - i,
    {
        if i >= list.len() {
            Ok(found)
        } else {
            match list[i] {
                ChildFactView::Unreadable(fault) => Err(StopView::Problem(fault_problem(fault, index, path))),
                ChildFactView::NotUnicode => Err(
                    StopView::Problem(
                        path_problem(
                            "unsupported_resource_kind"@,
                            "Directory child names must be representable as UTF-8 JSON strings."@,
                            index,
                            path,
                        ),
                    ),
                ),
                ChildFactView::Entry { name, kind } => match self.ancestors_stop(path.push(name), index) {
                    Some(stop) => Err(stop),
                    None => match kind {
                        MeasuredView::Failed(fault) => Err(StopView::Problem(fault_problem(fault, index, path))),
                        MeasuredView::Known(EntryKind::Other) => Err(
                            StopView::Problem(
                                path_problem(
                                    "unsupported_resource_kind"@,
                                    "The Mutation resource is not a regular file or directory."@,
                                    index,
                                    path.push(name),
                                ),
                            ),
                        ),
                        MeasuredView::Known(known) => {
                            let next = found.insert(
                                name,
                                if known is File { ResourceKind::File } else { ResourceKind::Directory },
                            );
                            let count = listing::<String>(next.dom()).len();
                            if count >= self.mutation_limits.max_entries {
                                Err(
                                    StopView::Problem(
                                        plain_problem(
                                            "resource_limit_exceeded"@,
                                            "A directory has too many entries."@,
                                            Some(index),
                                            Some(path),
                                            Some(
                                                limit_data(
                                                    "entries"@,
                                                    self.mutation_limits.max_entries as int,
                                                    saturating_sum(count as int, 1) as int,
                                                ),
                                            ),
                                        ),
                                    ),
                                )
                            } else {
                                self.children_from(list, i + 1, next, path, index)
                            }
                        },
                    },
                },
            }
        }
    }

    /// The children that the filesystem shows of a directory.
    pub open spec fn children_seen(&self, path: PathView, index: u64) -> Result<
        Map<Seq<char>, ResourceKind>,
        StopView,
    > {
        match self.ancestors_stop(path, index) {
            Some(stop) => Err(stop),
            None => if !self.observed@.directories.dom().contains(path) {
                Err(StopView::Observe(RequestView::Directory(path)))
            } else {
                match self.observed@.directories[path] {
                    MeasuredView::Failed(fault) => Err(StopView::Problem(fault_problem(fault, index, path))),
                    MeasuredView::Known(list) => self.children_from(list, 0, Map::empty(), path, index),
                }
            },
        }
    }

    /// The children that the filesystem shows of a directory.
    pub fn directory_children(&self, path: &NativePath, index: u64) -> (r: Result<
        SortedMap<String, ResourceKind>,
        Stop,
    >)
        ensures
            match r {
                Ok(children) => self.children_seen(path@, index) == Ok::<Map<Seq<char>, ResourceKind>, StopView>(
                    children@,
                ),
                Err(s) => self.children_seen(path@, index) == Err::<Map<Seq<char>, ResourceKind>, StopView>(s@),
            },
    {
        match self.validate_existing_ancestors(path, index) {
            Some(stop) => {
                return Err(stop);
            },
            None => {},
        }
        let list: &Vec<ChildFact> = match self.observed.directories.get(path) {
            None => {
                return Err(Stop::Observe(Request::Directory(path.duplicate())));
            },
            Some(facts) => match &facts.opened {
                Measured::Failed(fault) => {
                    return Err(Stop::Problem(fault.to_problem(index, path)));
                },
                Measured::Known(list) => list,
            },
        };
        let ghost all = views(list@);
        let mut found: SortedMap<String, ResourceKind> = SortedMap::new();
        let mut i: usize = 0;
        while i < list.len()
            invariant
                all == views(list@),
                i <= list@.len(),
                self.children_seen(path@, index) == self.children_from(all, i as int, found@, path@, index),
            decreases list.len() - i,
        {
            assert(all[i as int] == list@[i as int]@);
            match &list[i] {
                ChildFact::Unreadable(fault) => {
                    return Err(Stop::Problem(fault.to_problem(index, path)));
                },
                ChildFact::NotUnicode => {
                    return Err(
                        Stop::Problem(
                            refuse_path(
                                "unsupported_resource_kind",
                                "Directory child names must be representable as UTF-8 JSON strings.",
                                index,
                                path,
                            ),
                        ),
                    );
                },
                ChildFact::Entry { name, kind } => {
                    let child: NativePath = path.join(name.as_str());
                    match self.validate_existing_ancestors(&child, index) {
                        Some(stop) => {
                            return Err(stop);
                        },
                        None => {},
                    }
                    let known: ResourceKind = match kind {
                        Measured::Failed(fault) => {
                            return Err(Stop::Problem(fault.to_problem(index, path)));
                        },
                        Measured::Known(EntryKind::File) => ResourceKind::File,
                        Measured::Known(EntryKind::Directory) => ResourceKind::Directory,
                        Measured::Known(EntryKind::Other) => {
                            return Err(
                                Stop::Problem(
                                    refuse_path(
                                        "unsupported_resource_kind",
                                        "The Mutation resource is not a regular file or directory.",
                                        index,
                                        &child,
                                    ),
                                ),
                            );
                        },
                    };
                    found.insert(name.clone(), known);
                    let count: usize = found.len();
                    if count as u64 >= self.mutation_limits.max_entries {
                        let observed: u64 = (count as u64).saturating_add(1);
                        return Err(
                            Stop::Problem(
                                problem(
                                    "resource_limit_exceeded",
                                    "A directory has too many entries.",
                                    Some(index),
                                    Some(path),
                                    Some(limit_value("entries", self.mutation_limits.max_entries, observed)),
                                ),
                            ),
                        );
                    }
                },
            }
            i += 1;
        }
        Ok(found)
    }
}

/// Whether some directory above `path` is known to be missing.
pub open spec fn gone_above(ws: WorkspaceView, path: PathView) -> bool {
    exists|n: int|
        1 <= n < path.len() && ws.entries.dom().contains(#[trigger] path.take(n))
            && !ws.entries[path.take(n)].manifest.exists
}

/// The workspace with a resource taken up.
pub open spec fn taken_up(ws: WorkspaceView, path: PathView, state: StateView, cost: u64) -> WorkspaceView {
    WorkspaceView {
        entries: ws.entries.insert(path, state),
        before: ws.before.insert(path, state.manifest),
        affected: ws.affected,
        rollback_bytes: saturating_sum(ws.rollback_bytes as int, cost as int),
    }
}

/// The sum of two counts, no more than 64 bits can hold.
pub open spec fn saturating_sum(a: int, b: int) -> u64 {
    if a + b > u64::MAX {
        u64::MAX
    } else {
        (a + b) as u64
    }
}

fn missing_above(ws: &VirtualWorkspace, path: &NativePath) -> (r: bool)
    ensures
        r == gone_above(ws@, path@),
{
    let mut n: usize = 1;
    while n < path.components.len()
        invariant
            1 <= n,
            forall|m: int|
                1 <= m < n && m < path@.len() ==> !(ws@.entries.dom().contains(#[trigger] path@.take(m))
                    && !ws@.entries[path@.take(m)].manifest.exists),
        decreases path.components.len() - n,
    {
        let above: NativePath = path.ancestor(n);
        match ws.entries.get(&above) {
            Some(state) => {
                if !state.manifest.exists {
                    return true;
                }
            },
            None => {},
        }
        n += 1;
    }
    false
}

/// Whether two devices are the same.
pub fn same_device(a: Option<u64>, b: Option<u64>) -> (r: bool)
    ensures
        r == (a == b),
{
    match (a, b) {
        (Some(x), Some(y)) => x == y,
        (None, None) => true,
        _ => false,
    }
}

} // verus!
