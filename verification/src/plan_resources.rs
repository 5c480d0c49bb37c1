//! Planning the creation, renaming and deletion of resources.

use vstd::prelude::*;

use crate::digest::{digest_raw_bytes, digest_text};
use crate::edit_syntax::{
    annotation_problem,
    flag,
    operation_problem,
    option_bool,
    validate_annotation,
    validate_resource_operation,
};
use crate::json::{Json, JsonView, field, find_field, object_view};
use crate::manifest::{ManifestView, PathView, ResourceKind};
use crate::order::Key;
use crate::path::NativePath;
use crate::plan::{
    CanonicalOperation,
    Draft,
    DraftView,
    OperationView,
    PreviewSummary,
    ProblemView,
    Request,
    RequestView,
    ResourceState,
    StateView,
    WorkspaceEditProblem,
    WorkspaceView,
    missing_resource,
    missing_state,
    plain_problem,
    problem,
};
use crate::plan_steps::{halted, refused};
use crate::plan_tree::{
    delete_tree,
    deleted_entries,
    existing_in_tree,
    existing_paths_in_tree,
    known_paths,
    move_tree,
    moved_entries,
    touched_by_delete,
    touched_by_move,
};
use crate::planner::{WorkspaceEditPlanner, path_problem, same_device, saturating_sum};
use crate::text::{opt_ref_view, opt_view, views};

verus! {

/// The text of a field of an operation.
pub open spec fn text_field(o: Seq<(Seq<char>, JsonView)>, key: Seq<char>) -> Option<Seq<char>> {
    match field(o, key) {
        Some(v) => v.as_text(),
        None => None,
    }
}

fn find_text<'a>(o: &'a Vec<(String, Json)>, key: &str) -> (r: Option<&'a String>)
    ensures
        opt_ref_view(r) == text_field(object_view(o@), key@),
{
    match find_field(o, key) {
        Some(v) => v.as_str(),
        None => None,
    }
}

/// The fields and options of a resource operation that has `fields` beside
/// its kind, options and annotation.
pub open spec fn operation_syntax(
    o: Seq<(Seq<char>, JsonView)>,
    allowed: Seq<Seq<char>>,
    allowed_options: Seq<Seq<char>>,
    annotations: Seq<(Seq<char>, JsonView)>,
    index: u64,
) -> Option<ProblemView> {
    match operation_problem(o, allowed, allowed_options, index) {
        Some(p) => Some(p),
        None => annotation_problem(o, annotations, index),
    }
}

fn check_syntax(
    o: &Vec<(String, Json)>,
    allowed: &Vec<&str>,
    allowed_options: &Vec<&str>,
    annotations: &Vec<(String, Json)>,
    index: u64,
) -> (r: Option<WorkspaceEditProblem>)
    ensures
        opt_view(r) == operation_syntax(
            object_view(o@),
            views(allowed@),
            views(allowed_options@),
            object_view(annotations@),
            index,
        ),
{
    match validate_resource_operation(o, allowed, allowed_options, index) {
        Some(p) => Some(p),
        None => validate_annotation(o, annotations, index),
    }
}

/// The fields of a creation or deletion.
pub open spec fn single_keys() -> Seq<Seq<char>> {
    seq!["kind"@, "uri"@, "options"@, "annotationId"@]
}

/// The fields of a renaming.
pub open spec fn rename_keys() -> Seq<Seq<char>> {
    seq!["kind"@, "oldUri"@, "newUri"@, "options"@, "annotationId"@]
}

/// The options of a creation or renaming.
pub open spec fn placing_options() -> Seq<Seq<char>> {
    seq!["overwrite"@, "ignoreIfExists"@]
}

/// The options of a deletion.
pub open spec fn deleting_options() -> Seq<Seq<char>> {
    seq!["recursive"@, "ignoreIfNotExists"@]
}

/// The draft with an empty file at `path`.
pub open spec fn file_created(
    d: DraftView,
    index: u64,
    uri: Seq<char>,
    path: PathView,
    overwrite: bool,
    ignore_if_exists: bool,
) -> DraftView {
    let current = d.workspace.entries[path];
    let base = if current.manifest.exists { current } else { missing_state(path) };
    let empty = Seq::<u8>::empty();
    DraftView {
        workspace: WorkspaceView {
            entries: d.workspace.entries.insert(
                path,
                StateView {
                    manifest: ManifestView {
                        exists: true,
                        resource_kind: ResourceKind::File,
                        content_digest: Some(digest_text(empty)),
                        ..base.manifest
                    },
                    text: Some(empty),
                },
            ),
            affected: d.workspace.affected.insert(path),
            ..d.workspace
        },
        summary: PreviewSummary { creates: saturating_sum(d.summary.creates as int, 1), ..d.summary },
        operations: d.operations.push(OperationView::Create { index, uri, path, overwrite, ignore_if_exists }),
        ..d
    }
}

/// The draft with the tree at `old_path` moved to `new_path`.
pub open spec fn tree_renamed(
    d: DraftView,
    index: u64,
    old_uri: Seq<char>,
    new_uri: Seq<char>,
    old_path: PathView,
    new_path: PathView,
    overwrite: bool,
    ignore_if_exists: bool,
) -> DraftView {
    DraftView {
        workspace: WorkspaceView {
            entries: moved_entries(d.workspace.entries, old_path, new_path),
            affected: d.workspace.affected.union(touched_by_move(d.workspace.entries, old_path, new_path)),
            ..d.workspace
        },
        summary: PreviewSummary { renames: saturating_sum(d.summary.renames as int, 1), ..d.summary },
        operations: d.operations.push(
            OperationView::Rename { index, old_uri, new_uri, old_path, new_path, overwrite, ignore_if_exists },
        ),
        ..d
    }
}

/// The draft with what exists in the tree at `path` deleted.
pub open spec fn tree_deleted(
    d: DraftView,
    index: u64,
    uri: Seq<char>,
    path: PathView,
    recursive: bool,
    ignore_if_not_exists: bool,
) -> DraftView {
    DraftView {
        workspace: WorkspaceView {
            entries: deleted_entries(d.workspace.entries, path),
            affected: d.workspace.affected.union(touched_by_delete(d.workspace.entries, path)),
            ..d.workspace
        },
        summary: PreviewSummary { deletes: saturating_sum(d.summary.deletes as int, 1), ..d.summary },
        operations: d.operations.push(
            OperationView::Delete { index, uri, path, recursive, ignore_if_not_exists },
        ),
        ..d
    }
}

impl<'a> WorkspaceEditPlanner<'a> {
    /// The draft after a creation.
    pub open spec fn create_planned(
        &self,
        d: DraftView,
        index: u64,
        o: Seq<(Seq<char>, JsonView)>,
        annotations: Seq<(Seq<char>, JsonView)>,
    ) -> (DraftView, Option<RequestView>) {
        match operation_syntax(o, single_keys(), placing_options(), annotations, index) {
            Some(p) => refused(d, p),
            None => match text_field(o, "uri"@) {
                None => refused(
                    d,
                    plain_problem("malformed_uri"@, "CreateFile is missing uri."@, Some(index), None, None),
                ),
                Some(uri) => match self.file_path(uri, index) {
                    Err(stop) => halted(d, d.workspace, stop),
                    Ok(path) => match self.loaded(d.workspace, path, index, false) {
                        (ws, Some(stop)) => halted(d, ws, stop),
                        (ws, None) => self.create_at(
                            DraftView { workspace: ws, ..d },
                            index,
                            uri,
                            path,
                            flag(o, "overwrite"@),
                            flag(o, "ignoreIfExists"@),
                        ),
                    },
                },
            },
        }
    }

    /// The draft after a creation at a path that has been taken up.
    pub open spec fn create_at(
        &self,
        d: DraftView,
        index: u64,
        uri: Seq<char>,
        path: PathView,
        overwrite: bool,
        ignore_if_exists: bool,
    ) -> (DraftView, Option<RequestView>) {
        let current = d.workspace.entries[path];
        if current.manifest.exists && !overwrite {
            if ignore_if_exists {
                (d, None)
            } else {
                refused(d, path_problem("target_exists"@, "CreateFile target already exists."@, index, path))
            }
        } else if current.manifest.exists && current.manifest.resource_kind != ResourceKind::File {
            refused(
                d,
                path_problem(
                    "resource_kind_mismatch"@,
                    "CreateFile overwrite requires a regular file target."@,
                    index,
                    path,
                ),
            )
        } else if !current.manifest.exists && self.parent_stop(d.workspace, path, index) is Some {
            halted(d, d.workspace, self.parent_stop(d.workspace, path, index)->0)
        } else {
            (file_created(d, index, uri, path, overwrite, ignore_if_exists), None)
        }
    }

    fn place_file(
        &self,
        draft: &mut Draft,
        index: u64,
        uri: &str,
        path: &NativePath,
        overwrite: bool,
        ignore_if_exists: bool,
    ) -> (r: Option<Request>)
        requires
            old(draft)@.workspace.entries.dom().contains(path@),
        ensures
            (final(draft)@, opt_view(r)) == self.create_at(
                old(draft)@,
                index,
                uri@,
                path@,
                overwrite,
                ignore_if_exists,
            ),
    {
        let current: ResourceState = match draft.workspace.entries.get(path) {
            Some(state) => state.copy(),
            None => missing_resource(path),
        };
        if current.manifest.exists && !overwrite {
            if ignore_if_exists {
                return None;
            }
            return draft.refuse(
                problem(
                    "target_exists",
                    "CreateFile target already exists.",
                    Some(index),
                    Some(path),
                    None,
                ),
            );
        }
        if current.manifest.exists && current.manifest.resource_kind != ResourceKind::File {
            return draft.refuse(
                problem(
                    "resource_kind_mismatch",
                    "CreateFile overwrite requires a regular file target.",
                    Some(index),
                    Some(path),
                    None,
                ),
            );
        }
        if !current.manifest.exists {
            match self.require_existing_parent(&draft.workspace, path, index) {
                Some(stop) => {
                    return draft.halt(stop);
                },
                None => {},
            }
        }
        let mut next: ResourceState = if current.manifest.exists { current } else { missing_resource(path) };
        let empty: Vec<u8> = Vec::new();
        assert(empty@ =~= Seq::<u8>::empty());
        next.manifest.exists = true;
        next.manifest.resource_kind = ResourceKind::File;
        next.manifest.content_digest = Some(digest_raw_bytes(&empty));
        next.text = Some(empty);
        draft.workspace.entries.insert(path.duplicate(), next);
        let ghost affected = draft.workspace.affected@.dom();
        draft.workspace.affected.insert(path.duplicate(), ());
        assert(draft.workspace.affected@.dom() =~= affected.insert(path@));
        draft.summary.creates = draft.summary.creates.saturating_add(1);
        draft.push_operation(
            CanonicalOperation::Create {
                index,
                uri: uri.to_owned(),
                path: path.duplicate(),
                overwrite,
                ignore_if_exists,
            },
        );
        None
    }

    /// Plans a creation.
    pub fn plan_create_operation(
        &self,
        draft: &mut Draft,
        index: u64,
        operation: &Vec<(String, Json)>,
        annotations: &Vec<(String, Json)>,
    ) -> (r: Option<Request>)
        ensures
            (final(draft)@, opt_view(r)) == self.create_planned(
                old(draft)@,
                index,
                object_view(operation@),
                object_view(annotations@),
            ),
    {
        let allowed: Vec<&str> = vec!["kind", "uri", "options", "annotationId"];
        let allowed_options: Vec<&str> = vec!["overwrite", "ignoreIfExists"];
        assert(views(allowed@) =~= single_keys());
        assert(views(allowed_options@) =~= placing_options());
        match check_syntax(operation, &allowed, &allowed_options, annotations, index) {
            Some(p) => {
                return draft.refuse(p);
            },
            None => {},
        }
        let uri: &String = match find_text(operation, "uri") {
            Some(uri) => uri,
            None => {
                return draft.refuse(
                    problem("malformed_uri", "CreateFile is missing uri.", Some(index), None, None),
                );
            },
        };
        let path: NativePath = match self.path_from_file_uri(uri.as_str(), index) {
            Ok(path) => path,
            Err(stop) => {
                return draft.halt(stop);
            },
        };
        match self.load_exact_resource(&mut draft.workspace, &path, index, false) {
            Some(stop) => {
                return draft.halt(stop);
            },
            None => {},
        }
        self.place_file(
            draft,
            index,
            uri.as_str(),
            &path,
            option_bool(operation, "overwrite"),
            option_bool(operation, "ignoreIfExists"),
        )
    }

    /// The draft after a renaming.
    pub open spec fn rename_planned(
        &self,
        d: DraftView,
        index: u64,
        o: Seq<(Seq<char>, JsonView)>,
        annotations: Seq<(Seq<char>, JsonView)>,
    ) -> (DraftView, Option<RequestView>) {
        match operation_syntax(o, rename_keys(), placing_options(), annotations, index) {
            Some(p) => refused(d, p),
            None => match (text_field(o, "oldUri"@), text_field(o, "newUri"@)) {
                (Some(old_uri), Some(new_uri)) => match self.file_path(old_uri, index) {
                    Err(stop) => halted(d, d.workspace, stop),
                    Ok(old_path) => match self.file_path(new_uri, index) {
                        Err(stop) => halted(d, d.workspace, stop),
                        Ok(new_path) => self.rename_paths(
                            d,
                            index,
                            old_uri,
                            new_uri,
                            old_path,
                            new_path,
                            flag(o, "overwrite"@),
                            flag(o, "ignoreIfExists"@),
                        ),
                    },
                },
                _ => refused(
                    d,
                    plain_problem("malformed_uri"@, "RenameFile requires oldUri and newUri."@, Some(index), None, None),
                ),
            },
        }
    }

    /// The draft after a renaming between two paths.
    pub open spec fn rename_paths(
        &self,
        d: DraftView,
        index: u64,
        old_uri: Seq<char>,
        new_uri: Seq<char>,
        old_path: PathView,
        new_path: PathView,
        overwrite: bool,
        ignore_if_exists: bool,
    ) -> (DraftView, Option<RequestView>) {
        if old_path == new_path {
            refused(
                d,
                path_problem(
                    "resource_alias"@,
                    "RenameFile source and destination identify the same path."@,
                    index,
                    old_path,
                ),
            )
        } else if new_path.is_prefix_of(old_path) || old_path.is_prefix_of(new_path) {
            refused(
                d,
                path_problem(
                    "ambiguous_path_sequence"@,
                    "RenameFile cannot move a path into its own ancestor or descendant."@,
                    index,
                    old_path,
                ),
            )
        } else {
            match self.whole_tree_loaded(d.workspace, old_path, index) {
                (ws, Some(stop)) => halted(d, ws, stop),
                (ws, None) => match self.loaded(ws, new_path, index, false) {
                    (ws, Some(stop)) => halted(d, ws, stop),
                    (ws, None) => self.rename_loaded(
                        DraftView { workspace: ws, ..d },
                        index,
                        old_uri,
                        new_uri,
                        old_path,
                        new_path,
                        overwrite,
                        ignore_if_exists,
                    ),
                },
            }
        }
    }

    /// The draft after a renaming between two paths that have been taken up.
    pub open spec fn rename_loaded(
        &self,
        d: DraftView,
        index: u64,
        old_uri: Seq<char>,
        new_uri: Seq<char>,
        old_path: PathView,
        new_path: PathView,
        overwrite: bool,
        ignore_if_exists: bool,
    ) -> (DraftView, Option<RequestView>) {
        let source = d.workspace.entries[old_path].manifest;
        let destination = d.workspace.entries[new_path].manifest;
        if !source.exists {
            refused(d, path_problem("source_missing"@, "RenameFile source does not exist."@, index, old_path))
        } else if destination.exists && !overwrite {
            if ignore_if_exists {
                (d, None)
            } else {
                refused(
                    d,
                    path_problem("target_exists"@, "RenameFile destination already exists."@, index, new_path),
                )
            }
        } else if destination.exists && destination.resource_kind != source.resource_kind {
            refused(
                d,
                path_problem(
                    "resource_kind_mismatch"@,
                    "RenameFile overwrite requires matching resource kinds."@,
                    index,
                    new_path,
                ),
            )
        } else {
            let (ws, stop) = if destination.resource_kind == ResourceKind::Directory {
                self.whole_tree_loaded(d.workspace, new_path, index)
            } else {
                (d.workspace, None)
            };
            let d = DraftView { workspace: ws, ..d };
            if stop is Some {
                halted(d, ws, stop->0)
            } else if self.parent_stop(ws, new_path, index) is Some {
                halted(d, ws, self.parent_stop(ws, new_path, index)->0)
            } else {
                match self.nearest_device(old_path) {
                    Err(request) => (d, Some(request)),
                    Ok(old_device) => match self.nearest_device(new_path) {
                        Err(request) => (d, Some(request)),
                        Ok(new_device) => if old_device != new_device {
                            refused(
                                d,
                                path_problem(
                                    "cross_volume_rename"@,
                                    "RenameFile cannot cross filesystem volumes."@,
                                    index,
                                    new_path,
                                ),
                            )
                        } else {
                            (
                                tree_renamed(
                                    d,
                                    index,
                                    old_uri,
                                    new_uri,
                                    old_path,
                                    new_path,
                                    overwrite,
                                    ignore_if_exists,
                                ),
                                None,
                            )
                        },
                    },
                }
            }
        }
    }

    fn rename_tree(
        &self,
        draft: &mut Draft,
        index: u64,
        old_uri: &str,
        new_uri: &str,
        old_path: &NativePath,
        new_path: &NativePath,
        overwrite: bool,
        ignore_if_exists: bool,
    ) -> (r: Option<Request>)
        requires
            old(draft)@.workspace.entries.dom().contains(old_path@),
            old(draft)@.workspace.entries.dom().contains(new_path@),
            !old_path@.is_prefix_of(new_path@),
            !new_path@.is_prefix_of(old_path@),
        ensures
            (final(draft)@, opt_view(r)) == self.rename_loaded(
                old(draft)@,
                index,
                old_uri@,
                new_uri@,
                old_path@,
                new_path@,
                overwrite,
                ignore_if_exists,
            ),
    {
        let source: ResourceState = match draft.workspace.entries.get(old_path) {
            Some(state) => state.copy(),
            None => missing_resource(old_path),
        };
        let destination: ResourceState = match draft.workspace.entries.get(new_path) {
            Some(state) => state.copy(),
            None => missing_resource(new_path),
        };
        if !source.manifest.exists {
            return draft.refuse(
                problem(
                    "source_missing",
                    "RenameFile source does not exist.",
                    Some(index),
                    Some(old_path),
                    None,
                ),
            );
        }
        if destination.manifest.exists && !overwrite {
            if ignore_if_exists {
                return None;
            }
            return draft.refuse(
                problem(
                    "target_exists",
                    "RenameFile destination already exists.",
                    Some(index),
                    Some(new_path),
                    None,
                ),
            );
        }
        if destination.manifest.exists && destination.manifest.resource_kind != source.manifest.resource_kind {
            return draft.refuse(
                problem(
                    "resource_kind_mismatch",
                    "RenameFile overwrite requires matching resource kinds.",
                    Some(index),
                    Some(new_path),
                    None,
                ),
            );
        }
        if destination.manifest.resource_kind == ResourceKind::Directory {
            match self.load_resource_tree(&mut draft.workspace, new_path, index) {
                Some(stop) => {
                    return draft.halt(stop);
                },
                None => {},
            }
        }
        match self.require_existing_parent(&draft.workspace, new_path, index) {
            Some(stop) => {
                return draft.halt(stop);
            },
            None => {},
        }
        let old_device: Option<u64> = match self.nearest_existing_device(old_path) {
            Ok(device) => device,
            Err(request) => {
                return Some(request);
            },
        };
        let new_device: Option<u64> = match self.nearest_existing_device(new_path) {
            Ok(device) => device,
            Err(request) => {
                return Some(request);
            },
        };
        if !same_device(old_device, new_device) {
            return draft.refuse(
                problem(
                    "cross_volume_rename",
                    "RenameFile cannot cross filesystem volumes.",
                    Some(index),
                    Some(new_path),
                    None,
                ),
            );
        }
        move_tree(&mut draft.workspace, old_path, new_path);
        draft.summary.renames = draft.summary.renames.saturating_add(1);
        draft.push_operation(
            CanonicalOperation::Rename {
                index,
                old_uri: old_uri.to_owned(),
                new_uri: new_uri.to_owned(),
                old_path: old_path.duplicate(),
                new_path: new_path.duplicate(),
                overwrite,
                ignore_if_exists,
            },
        );
        None
    }

    /// Plans a renaming.
    pub fn plan_rename_operation(
        &self,
        draft: &mut Draft,
        index: u64,
        operation: &Vec<(String, Json)>,
        annotations: &Vec<(String, Json)>,
    ) -> (r: Option<Request>)
        ensures
            (final(draft)@, opt_view(r)) == self.rename_planned(
                old(draft)@,
                index,
                object_view(operation@),
                object_view(annotations@),
            ),
    {
        let allowed: Vec<&str> = vec!["kind", "oldUri", "newUri", "options", "annotationId"];
        let allowed_options: Vec<&str> = vec!["overwrite", "ignoreIfExists"];
        assert(views(allowed@) =~= rename_keys());
        assert(views(allowed_options@) =~= placing_options());
        match check_syntax(operation, &allowed, &allowed_options, annotations, index) {
            Some(p) => {
                return draft.refuse(p);
            },
            None => {},
        }
        let (old_uri, new_uri) = match (find_text(operation, "oldUri"), find_text(operation, "newUri")) {
            (Some(old_uri), Some(new_uri)) => (old_uri, new_uri),
            _ => {
                return draft.refuse(
                    problem("malformed_uri", "RenameFile requires oldUri and newUri.", Some(index), None, None),
                );
            },
        };
        let old_path: NativePath = match self.path_from_file_uri(old_uri.as_str(), index) {
            Ok(path) => path,
            Err(stop) => {
                return draft.halt(stop);
            },
        };
        let new_path: NativePath = match self.path_from_file_uri(new_uri.as_str(), index) {
            Ok(path) => path,
            Err(stop) => {
                return draft.halt(stop);
            },
        };
        if old_path.same_path(&new_path) {
            return draft.refuse(
                problem(
                    "resource_alias",
                    "RenameFile source and destination identify the same path.",
                    Some(index),
                    Some(&old_path),
                    None,
                ),
            );
        }
        if old_path.starts_with(&new_path) || new_path.starts_with(&old_path) {
            return draft.refuse(
                problem(
                    "ambiguous_path_sequence",
                    "RenameFile cannot move a path into its own ancestor or descendant.",
                    Some(index),
                    Some(&old_path),
                    None,
                ),
            );
        }
        match self.load_resource_tree(&mut draft.workspace, &old_path, index) {
            Some(stop) => {
                return draft.halt(stop);
            },
            None => {},
        }
        match self.load_exact_resource(&mut draft.workspace, &new_path, index, false) {
            Some(stop) => {
                return draft.halt(stop);
            },
            None => {},
        }
        self.rename_tree(
            draft,
            index,
            old_uri.as_str(),
            new_uri.as_str(),
            &old_path,
            &new_path,
            option_bool(operation, "overwrite"),
            option_bool(operation, "ignoreIfExists"),
        )
    }

    /// The draft after a deletion.
    pub open spec fn delete_planned(
        &self,
        d: DraftView,
        index: u64,
        o: Seq<(Seq<char>, JsonView)>,
        annotations: Seq<(Seq<char>, JsonView)>,
    ) -> (DraftView, Option<RequestView>) {
        match operation_syntax(o, single_keys(), deleting_options(), annotations, index) {
            Some(p) => refused(d, p),
            None => match text_field(o, "uri"@) {
                None => refused(
                    d,
                    plain_problem("malformed_uri"@, "DeleteFile is missing uri."@, Some(index), None, None),
                ),
                Some(uri) => match self.file_path(uri, index) {
                    Err(stop) => halted(d, d.workspace, stop),
                    Ok(path) => match self.whole_tree_loaded(d.workspace, path, index) {
                        (ws, Some(stop)) => halted(d, ws, stop),
                        (ws, None) => delete_loaded(
                            DraftView { workspace: ws, ..d },
                            index,
                            uri,
                            path,
                            flag(o, "recursive"@),
                            flag(o, "ignoreIfNotExists"@),
                        ),
                    },
                },
            },
        }
    }

    /// Plans a deletion.
    pub fn plan_delete_operation(
        &self,
        draft: &mut Draft,
        index: u64,
        operation: &Vec<(String, Json)>,
        annotations: &Vec<(String, Json)>,
    ) -> (r: Option<Request>)
        ensures
            (final(draft)@, opt_view(r)) == self.delete_planned(
                old(draft)@,
                index,
                object_view(operation@),
                object_view(annotations@),
            ),
    {
        let allowed: Vec<&str> = vec!["kind", "uri", "options", "annotationId"];
        let allowed_options: Vec<&str> = vec!["recursive", "ignoreIfNotExists"];
        assert(views(allowed@) =~= single_keys());
        assert(views(allowed_options@) =~= deleting_options());
        match check_syntax(operation, &allowed, &allowed_options, annotations, index) {
            Some(p) => {
                return draft.refuse(p);
            },
            None => {},
        }
        let uri: &String = match find_text(operation, "uri") {
            Some(uri) => uri,
            None => {
                return draft.refuse(
                    problem("malformed_uri", "DeleteFile is missing uri.", Some(index), None, None),
                );
            },
        };
        let path: NativePath = match self.path_from_file_uri(uri.as_str(), index) {
            Ok(path) => path,
            Err(stop) => {
                return draft.halt(stop);
            },
        };
        match self.load_resource_tree(&mut draft.workspace, &path, index) {
            Some(stop) => {
                return draft.halt(stop);
            },
            None => {},
        }
        let recursive: bool = option_bool(operation, "recursive");
        let ignore_if_not_exists: bool = option_bool(operation, "ignoreIfNotExists");
        let source: ResourceState = match draft.workspace.entries.get(&path) {
            Some(state) => state.copy(),
            None => missing_resource(&path),
        };
        if !source.manifest.exists {
            if ignore_if_not_exists {
                return None;
            }
            return draft.refuse(
                problem(
                    "source_missing",
                    "DeleteFile target does not exist.",
                    Some(index),
                    Some(&path),
                    None,
                ),
            );
        }
        let subtree: Vec<NativePath> = existing_paths_in_tree(&draft.workspace, &path);
        assert(views(subtree@).len() == subtree@.len());
        if source.manifest.resource_kind == ResourceKind::Directory && subtree.len() > 1 && !recursive {
            return draft.refuse(
                problem(
                    "directory_not_empty",
                    "Deleting a non-empty directory requires recursive=true.",
                    Some(index),
                    Some(&path),
                    None,
                ),
            );
        }
        delete_tree(&mut draft.workspace, &path);
        draft.summary.deletes = draft.summary.deletes.saturating_add(1);
        draft.push_operation(
            CanonicalOperation::Delete { index, uri: uri.clone(), path, recursive, ignore_if_not_exists },
        );
        None
    }
}

/// The draft after a deletion of a tree that has been taken up.
pub open spec fn delete_loaded(
    d: DraftView,
    index: u64,
    uri: Seq<char>,
    path: PathView,
    recursive: bool,
    ignore_if_not_exists: bool,
) -> (DraftView, Option<RequestView>) {
    let source = d.workspace.entries[path].manifest;
    let subtree = known_paths(d.workspace).filter(existing_in_tree(d.workspace, path));
    if !source.exists {
        if ignore_if_not_exists {
            (d, None)
        } else {
            refused(d, path_problem("source_missing"@, "DeleteFile target does not exist."@, index, path))
        }
    } else if source.resource_kind == ResourceKind::Directory && subtree.len() > 1 && !recursive {
        refused(
            d,
            path_problem(
                "directory_not_empty"@,
                "Deleting a non-empty directory requires recursive=true."@,
                index,
                path,
            ),
        )
    } else {
        (tree_deleted(d, index, uri, path, recursive, ignore_if_not_exists), None)
    }
}

} // verus!
