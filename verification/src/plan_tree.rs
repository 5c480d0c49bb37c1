//! Planning on trees of resources: taking up whole directories, and what
//! moving and deleting them does to the workspace.

use vstd::prelude::*;

use crate::manifest::{ManifestEntry, ManifestView, PathView, ResourceKind};
use crate::order::Key;
use crate::path::{NativePath, parent_of, rebased};
use crate::plan::{
    EntryFact,
    EntryFactView,
    EntryKind,
    Request,
    RequestView,
    ResourceState,
    StateView,
    Stop,
    StopView,
    VirtualWorkspace,
    WorkspaceView,
    missing_resource,
    missing_state,
    plain_problem,
    problem,
};
use crate::planner::{
    WorkspaceEditPlanner,
    directory_membership_digest,
    limit_data,
    limit_value,
    membership_digest,
    path_problem,
    saturating_sum,
};
use crate::sorted::{SortedMap, listing};
use crate::text::{opt_view, views};

verus! {

/// One more item decides one more place of a filtered list.
pub proof fn lemma_filter_take<A>(s: Seq<A>, p: spec_fn(A) -> bool, i: int)
    requires
        0 <= i < s.len(),
    ensures
        s.take(i + 1).filter(p) == if p(s[i]) { s.take(i).filter(p).push(s[i]) } else { s.take(i).filter(p) },
{
    reveal(Seq::filter);
    assert(s.take(i + 1).drop_last() =~= s.take(i));
}

/// The existing resources directly in a directory.
pub open spec fn child_of(ws: WorkspaceView, directory: PathView) -> spec_fn(PathView) -> bool {
    |p: PathView| parent_of(p) == Some(directory) && ws.entries[p].manifest.exists
}

/// The paths in ascending order that a workspace knows.
pub open spec fn known_paths(ws: WorkspaceView) -> Seq<PathView> {
    listing::<NativePath>(ws.entries.dom())
}

/// The known existing children of a directory, in ascending order.
pub open spec fn kids(ws: WorkspaceView, directory: PathView) -> Seq<PathView> {
    known_paths(ws).filter(child_of(ws, directory))
}

/// The directories among known paths.
pub open spec fn directory_in(ws: WorkspaceView) -> spec_fn(PathView) -> bool {
    |p: PathView| ws.entries[p].manifest.resource_kind == ResourceKind::Directory
}

/// The known existing directories directly in a directory.
pub open spec fn kid_directories(ws: WorkspaceView, directory: PathView) -> Seq<PathView> {
    kids(ws, directory).filter(directory_in(ws))
}

/// The known resources in the tree at a path.
pub open spec fn in_tree(root: PathView) -> spec_fn(PathView) -> bool {
    |p: PathView| root.is_prefix_of(p)
}

/// The known existing resources in the tree at a path.
pub open spec fn existing_in_tree(ws: WorkspaceView, root: PathView) -> spec_fn(PathView) -> bool {
    |p: PathView| root.is_prefix_of(p) && ws.entries[p].manifest.exists
}

/// The workspace with the membership of a directory recorded.
pub open spec fn with_membership(ws: WorkspaceView, directory: PathView, digest: Seq<char>) -> WorkspaceView {
    let state = ws.entries[directory];
    WorkspaceView {
        before: if ws.before.dom().contains(directory) {
            ws.before.insert(directory, ManifestView { content_digest: Some(digest), ..ws.before[directory] })
        } else {
            ws.before
        },
        entries: ws.entries.insert(
            directory,
            StateView { manifest: ManifestView { content_digest: Some(digest), ..state.manifest }, ..state },
        ),
        ..ws
    }
}

/// The entries after the tree at `old_root` has moved to `new_root`: what was
/// there is gone, and what stood in the old tree stands at the same place in
/// the new one.
pub open spec fn moved_entries(
    entries: Map<PathView, StateView>,
    old_root: PathView,
    new_root: PathView,
) -> Map<PathView, StateView> {
    Map::new(
        |p: PathView|
            entries.dom().contains(p) || (new_root.is_prefix_of(p) && entries.dom().contains(
                rebased(p, new_root, old_root),
            )),
        |p: PathView|
            if new_root.is_prefix_of(p) && entries.dom().contains(rebased(p, new_root, old_root)) {
                relocated(entries[rebased(p, new_root, old_root)], p)
            } else if new_root.is_prefix_of(p) || old_root.is_prefix_of(p) {
                missing_state(p)
            } else {
                entries[p]
            },
    )
}

/// A state under another path.
pub open spec fn relocated(state: StateView, path: PathView) -> StateView {
    StateView { manifest: ManifestView { path, ..state.manifest }, ..state }
}

/// The paths that a move touches.
pub open spec fn touched_by_move(
    entries: Map<PathView, StateView>,
    old_root: PathView,
    new_root: PathView,
) -> Set<PathView> {
    Set::new(
        |p: PathView|
            (entries.dom().contains(p) && (old_root.is_prefix_of(p) || new_root.is_prefix_of(p))) || (
            new_root.is_prefix_of(p) && entries.dom().contains(rebased(p, new_root, old_root))),
    )
}

/// The entries after everything that exists in the tree at `root` is deleted.
pub open spec fn deleted_entries(entries: Map<PathView, StateView>, root: PathView) -> Map<PathView, StateView> {
    Map::new(
        |p: PathView| entries.dom().contains(p),
        |p: PathView|
            if root.is_prefix_of(p) && entries[p].manifest.exists {
                missing_state(p)
            } else {
                entries[p]
            },
    )
}

/// The paths that a deletion touches.
pub open spec fn touched_by_delete(entries: Map<PathView, StateView>, root: PathView) -> Set<PathView> {
    Set::new(|p: PathView| entries.dom().contains(p) && root.is_prefix_of(p) && entries[p].manifest.exists)
}

/// The known existing children of a directory.
pub fn existing_children(ws: &VirtualWorkspace, directory: &NativePath) -> (r: Vec<NativePath>)
    ensures
        views(r@) == kids(ws@, directory@),
        forall|i: int| 0 <= i < r@.len() ==> ws@.entries.dom().contains(#[trigger] r@[i]@),
{
    let n: usize = ws.entries.len();
    let ghost keys = known_paths(ws@);
    let ghost p = child_of(ws@, directory@);
    let mut r: Vec<NativePath> = Vec::new();
    let mut i: usize = 0;
    reveal(Seq::filter);
    assert(views(r@) =~= keys.take(0).filter(p));
    while i < n
        invariant
            n == ws.entries.keys().len(),
            ws.entries.listed(),
            keys == ws.entries.keys(),
            p == child_of(ws@, directory@),
            i <= n,
            views(r@) == keys.take(i as int).filter(p),
            forall|j: int| 0 <= j < r@.len() ==> ws@.entries.dom().contains(#[trigger] r@[j]@),
        decreases n - i,
    {
        let path: &NativePath = ws.entries.key_at(i);
        let state: &ResourceState = ws.entries.value_at(i);
        let ghost before = r@;
        proof { lemma_filter_take(keys, p, i as int); }
        if path.has_parent(directory) && state.manifest.exists {
            let copy: NativePath = path.duplicate();
            r.push(copy);
            assert(views(r@) =~= views(before).push(path@));
        }
        i += 1;
    }
    assert(keys.take(i as int) =~= keys);
    r
}

/// The directories among paths that a workspace knows.
pub fn directories_among(ws: &VirtualWorkspace, paths: &Vec<NativePath>) -> (r: Vec<NativePath>)
    requires
        forall|i: int| 0 <= i < paths@.len() ==> ws@.entries.dom().contains(#[trigger] paths@[i]@),
    ensures
        views(r@) == views(paths@).filter(directory_in(ws@)),
        forall|i: int| 0 <= i < r@.len() ==> ws@.entries.dom().contains(#[trigger] r@[i]@),
{
    let ghost all = views(paths@);
    let ghost p = directory_in(ws@);
    let mut r: Vec<NativePath> = Vec::new();
    let mut i: usize = 0;
    reveal(Seq::filter);
    assert(views(r@) =~= all.take(0).filter(p));
    while i < paths.len()
        invariant
            all == views(paths@),
            p == directory_in(ws@),
            i <= paths@.len(),
            views(r@) == all.take(i as int).filter(p),
            forall|j: int| 0 <= j < paths@.len() ==> ws@.entries.dom().contains(#[trigger] paths@[j]@),
            forall|j: int| 0 <= j < r@.len() ==> ws@.entries.dom().contains(#[trigger] r@[j]@),
        decreases paths.len() - i,
    {
        let ghost before = r@;
        proof { lemma_filter_take(all, p, i as int); }
        assert(all[i as int] == paths@[i as int]@);
        match ws.entries.get(&paths[i]) {
            Some(state) => {
                if state.manifest.resource_kind == ResourceKind::Directory {
                    let copy: NativePath = paths[i].duplicate();
                    r.push(copy);
                    assert(views(r@) =~= views(before).push(all[i as int]));
                }
            },
            None => {},
        }
        i += 1;
    }
    assert(all.take(i as int) =~= all);
    r
}

impl<'a> WorkspaceEditPlanner<'a> {
    /// The workspace with the named children of a directory taken up, from the
    /// `i`th on.
    pub open spec fn children_loaded(
        &self,
        ws: WorkspaceView,
        directory: PathView,
        names: Seq<Seq<char>>,
        i: int,
        index: u64,
    ) -> (WorkspaceView, Option<StopView>)
        decreases names.len() - i,
    {
        if i >= names.len() {
            (ws, None)
        } else {
            match self.loaded(ws, directory.push(names[i]), index, false) {
                (next, Some(stop)) => (next, Some(stop)),
                (next, None) => self.children_loaded(next, directory, names, i + 1, index),
            }
        }
    }

    /// The workspace with a directory's children taken up, if they were not.
    pub open spec fn directory_opened(&self, ws: WorkspaceView, directory: PathView, index: u64) -> (
        WorkspaceView,
        Option<StopView>,
    ) {
        if ws.entries[directory].manifest.content_digest is Some {
            (ws, None)
        } else {
            match self.children_seen(directory, index) {
                Err(stop) => (ws, Some(stop)),
                Ok(children) => self.children_loaded(
                    with_membership(ws, directory, membership_digest(children)),
                    directory,
                    listing::<String>(children.dom()),
                    0,
                    index,
                ),
            }
        }
    }

    /// The workspace with the tree at a directory taken up. `depth` is how far
    /// the directory lies below the one that the operation names.
    pub open spec fn tree_loaded(&self, ws: WorkspaceView, directory: PathView, depth: nat, index: u64) -> (
        WorkspaceView,
        Option<StopView>,
    )
        decreases self.mutation_limits.max_recursion_depth + 1 - depth, 1nat, 0nat,
    {
        if depth > self.mutation_limits.max_recursion_depth {
            (
                ws,
                Some(
                    StopView::Problem(
                        plain_problem(
                            "resource_limit_exceeded"@,
                            "A recursive operation exceeds the configured depth."@,
                            Some(index),
                            Some(directory),
                            Some(
                                limit_data(
                                    "recursionDepth"@,
                                    self.mutation_limits.max_recursion_depth as int,
                                    saturating_sum(depth as int, 0) as int,
                                ),
                            ),
                        ),
                    ),
                ),
            )
        } else {
            match self.directory_opened(ws, directory, index) {
                (next, Some(stop)) => (next, Some(stop)),
                (next, None) => if kids(next, directory).len() > 0 && known_paths(next).len()
                    > self.mutation_limits.max_entries {
                    (
                        next,
                        Some(
                            StopView::Problem(
                                plain_problem(
                                    "resource_limit_exceeded"@,
                                    "A recursive operation affects too many entries."@,
                                    Some(index),
                                    Some(directory),
                                    Some(
                                        limit_data(
                                            "entries"@,
                                            self.mutation_limits.max_entries as int,
                                            known_paths(next).len() as int,
                                        ),
                                    ),
                                ),
                            ),
                        ),
                    )
                } else {
                    let directories = kid_directories(next, directory);
                    self.subtrees_loaded(next, directories, directories.len(), depth, index)
                },
            }
        }
    }

    /// The workspace with the trees at the first `k` directories taken up, the
    /// last of them first.
    pub open spec fn subtrees_loaded(
        &self,
        ws: WorkspaceView,
        directories: Seq<PathView>,
        k: nat,
        depth: nat,
        index: u64,
    ) -> (WorkspaceView, Option<StopView>)
        decreases self.mutation_limits.max_recursion_depth + 1 - depth, 0nat, k,
    {
        if k == 0 || depth > self.mutation_limits.max_recursion_depth {
            (ws, None)
        } else {
            match self.tree_loaded(ws, directories[k - 1], depth + 1, index) {
                (next, Some(stop)) => (next, Some(stop)),
                (next, None) => self.subtrees_loaded(next, directories, (k - 1) as nat, depth, index),
            }
        }
    }

    /// The workspace with the resource at `path` taken up, and with it what a
    /// directory holds.
    pub open spec fn whole_tree_loaded(&self, ws: WorkspaceView, path: PathView, index: u64) -> (
        WorkspaceView,
        Option<StopView>,
    ) {
        match self.loaded(ws, path, index, false) {
            (next, Some(stop)) => (next, Some(stop)),
            (next, None) => if next.entries[path].manifest.resource_kind != ResourceKind::Directory {
                (next, None)
            } else {
                self.tree_loaded(next, path, 0, index)
            },
        }
    }

    /// Taking up resources forgets none.
    proof fn lemma_loaded_keeps(&self, ws: WorkspaceView, path: PathView, index: u64, load_text: bool)
        ensures
            ws.entries.dom().subset_of(self.loaded(ws, path, index, load_text).0.entries.dom()),
    {
    }

    fn load_children(&self, ws: &mut VirtualWorkspace, directory: &NativePath, index: u64) -> (r: Option<Stop>)
        requires
            old(ws)@.entries.dom().contains(directory@),
        ensures
            (final(ws)@, opt_view(r)) == self.directory_opened(old(ws)@, directory@, index),
            old(ws)@.entries.dom().subset_of(final(ws)@.entries.dom()),
    {
        let state: &ResourceState = match ws.entries.get(directory) {
            Some(state) => state,
            None => {
                return None;
            },
        };
        if state.manifest.content_digest.is_some() {
            return None;
        }
        let mut next: ResourceState = state.copy();
        let children: SortedMap<String, ResourceKind> = match self.directory_children(directory, index) {
            Ok(children) => children,
            Err(stop) => {
                return Some(stop);
            },
        };
        let digest: String = directory_membership_digest(&children);
        let updated: Option<ManifestEntry> = match ws.before.get(directory) {
            Some(entry) => {
                let mut entry: ManifestEntry = entry.copy();
                entry.content_digest = Some(digest.clone());
                Some(entry)
            },
            None => None,
        };
        match updated {
            Some(entry) => {
                ws.before.insert(directory.duplicate(), entry);
            },
            None => {},
        }
        next.manifest.content_digest = Some(digest);
        ws.entries.insert(directory.duplicate(), next);
        let ghost names = listing::<String>(children@.dom());
        let ghost start = ws@;
        assert(start == with_membership(old(ws)@, directory@, membership_digest(children@)));
        let n: usize = children.len();
        let mut i: usize = 0;
        while i < n
            invariant
                n == children.keys().len(),
                names == children.keys(),
                i <= n,
                self.children_loaded(start, directory@, names, 0, index) == self.children_loaded(
                    ws@,
                    directory@,
                    names,
                    i as int,
                    index,
                ),
                self.directory_opened(old(ws)@, directory@, index) == self.children_loaded(
                    start,
                    directory@,
                    names,
                    0,
                    index,
                ),
                old(ws)@.entries.dom().subset_of(ws@.entries.dom()),
            decreases n - i,
        {
            let child: NativePath = directory.join(children.key_at(i).as_str());
            let ghost before = ws@;
            match self.load_exact_resource(ws, &child, index, false) {
                Some(stop) => {
                    proof { self.lemma_loaded_keeps(before, child@, index, false); }
                    return Some(stop);
                },
                None => {
                    proof { self.lemma_loaded_keeps(before, child@, index, false); }
                },
            }
            i += 1;
        }
        None
    }

    fn load_tree(&self, ws: &mut VirtualWorkspace, directory: &NativePath, depth: u128, index: u64) -> (r: Option<Stop>)
        requires
            old(ws)@.entries.dom().contains(directory@),
            depth <= self.mutation_limits.max_recursion_depth + 1,
        ensures
            (final(ws)@, opt_view(r)) == self.tree_loaded(old(ws)@, directory@, depth as nat, index),
            old(ws)@.entries.dom().subset_of(final(ws)@.entries.dom()),
        decreases self.mutation_limits.max_recursion_depth + 1 - depth, 1nat, 0nat,
    {
        let limit: u64 = self.mutation_limits.max_recursion_depth;
        if depth > limit as u128 {
            let observed: u64 = if depth > u64::MAX as u128 { u64::MAX } else { depth as u64 };
            return Some(
                Stop::Problem(
                    problem(
                        "resource_limit_exceeded",
                        "A recursive operation exceeds the configured depth.",
                        Some(index),
                        Some(directory),
                        Some(limit_value("recursionDepth", limit, observed)),
                    ),
                ),
            );
        }
        match self.load_children(ws, directory, index) {
            Some(stop) => {
                return Some(stop);
            },
            None => {},
        }
        let children: Vec<NativePath> = existing_children(ws, directory);
        let known: usize = ws.entries.len();
        assert(views(children@).len() == children@.len());
        if children.len() > 0 && known as u64 > self.mutation_limits.max_entries {
            return Some(
                Stop::Problem(
                    problem(
                        "resource_limit_exceeded",
                        "A recursive operation affects too many entries.",
                        Some(index),
                        Some(directory),
                        Some(limit_value("entries", self.mutation_limits.max_entries, known as u64)),
                    ),
                ),
            );
        }
        let directories: Vec<NativePath> = directories_among(ws, &children);
        assert(views(directories@).len() == directories@.len());
        self.load_subtrees(ws, &directories, directories.len(), depth, index)
    }

    fn load_subtrees(
        &self,
        ws: &mut VirtualWorkspace,
        directories: &Vec<NativePath>,
        k: usize,
        depth: u128,
        index: u64,
    ) -> (r: Option<Stop>)
        requires
            k <= directories@.len(),
            depth <= self.mutation_limits.max_recursion_depth,
            forall|i: int| 0 <= i < directories@.len() ==> old(ws)@.entries.dom().contains(#[trigger] directories@[i]@),
        ensures
            (final(ws)@, opt_view(r)) == self.subtrees_loaded(
                old(ws)@,
                views(directories@),
                k as nat,
                depth as nat,
                index,
            ),
            old(ws)@.entries.dom().subset_of(final(ws)@.entries.dom()),
        decreases self.mutation_limits.max_recursion_depth + 1 - depth, 0nat, k,
    {
        if k == 0 {
            return None;
        }
        assert(views(directories@)[k - 1] == directories@[k - 1]@);
        match self.load_tree(ws, &directories[k - 1], depth + 1, index) {
            Some(stop) => Some(stop),
            None => self.load_subtrees(ws, directories, k - 1, depth, index),
        }
    }

    /// Takes up the resource at `path`, and with it what a directory holds.
    pub fn load_resource_tree(&self, ws: &mut VirtualWorkspace, path: &NativePath, index: u64) -> (r: Option<Stop>)
        ensures
            (final(ws)@, opt_view(r)) == self.whole_tree_loaded(old(ws)@, path@, index),
            r is None ==> final(ws)@.entries.dom().contains(path@),
            old(ws)@.entries.dom().subset_of(final(ws)@.entries.dom()),
    {
        proof { self.lemma_loaded_keeps(ws@, path@, index, false); }
        match self.load_exact_resource(ws, path, index, false) {
            Some(stop) => {
                return Some(stop);
            },
            None => {},
        }
        match ws.entries.get(path) {
            Some(state) => {
                if state.manifest.resource_kind != ResourceKind::Directory {
                    return None;
                }
            },
            None => {},
        }
        self.load_tree(ws, path, 0, index)
    }

    /// What stands against the directory above `path`.
    pub open spec fn parent_stop(&self, ws: WorkspaceView, path: PathView, index: u64) -> Option<StopView> {
        let parent = match parent_of(path) {
            Some(p) => p,
            None => self.workspace@,
        };
        let not_directory = Some(
            StopView::Problem(
                path_problem("parent_missing"@, "The operation parent is not a directory."@, index, parent),
            ),
        );
        if ws.entries.dom().contains(parent) {
            if ws.entries[parent].manifest.resource_kind == ResourceKind::Directory {
                None
            } else {
                not_directory
            }
        } else if !self.observed@.entries.dom().contains(parent) {
            Some(StopView::Observe(RequestView::Entry(parent)))
        } else {
            match self.observed@.entries[parent] {
                EntryFactView::Present { link, device, kind } => if kind is Directory {
                    None
                } else {
                    not_directory
                },
                _ => Some(
                    StopView::Problem(
                        path_problem(
                            "parent_missing"@,
                            "The operation parent directory does not exist."@,
                            index,
                            parent,
                        ),
                    ),
                ),
            }
        }
    }

    /// Checks that a directory stands above `path`.
    pub fn require_existing_parent(&self, ws: &VirtualWorkspace, path: &NativePath, index: u64) -> (r: Option<Stop>)
        ensures
            opt_view(r) == self.parent_stop(ws@, path@, index),
    {
        let parent: NativePath = match path.parent() {
            Some(p) => p,
            None => self.workspace.duplicate(),
        };
        match ws.entries.get(&parent) {
            Some(state) => {
                return if state.manifest.resource_kind == ResourceKind::Directory {
                    None
                } else {
                    Some(
                        Stop::Problem(
                            problem(
                                "parent_missing",
                                "The operation parent is not a directory.",
                                Some(index),
                                Some(&parent),
                                None,
                            ),
                        ),
                    )
                };
            },
            None => {},
        }
        match self.observed.entries.get(&parent) {
            None => Some(Stop::Observe(Request::Entry(parent))),
            Some(EntryFact::Present { link: _, device: _, kind }) => {
                if matches!(kind, EntryKind::Directory) {
                    None
                } else {
                    Some(
                        Stop::Problem(
                            problem(
                                "parent_missing",
                                "The operation parent is not a directory.",
                                Some(index),
                                Some(&parent),
                                None,
                            ),
                        ),
                    )
                }
            },
            _ => Some(
                Stop::Problem(
                    problem(
                        "parent_missing",
                        "The operation parent directory does not exist.",
                        Some(index),
                        Some(&parent),
                        None,
                    ),
                ),
            ),
        }
    }

    /// The device of the nearest existing path at or above `path`.
    pub open spec fn nearest_device(&self, path: PathView) -> Result<Option<u64>, RequestView>
        decreases path.len(),
    {
        if !self.observed@.devices.dom().contains(path) {
            Err(RequestView::Device(path))
        } else {
            match self.observed@.devices[path] {
                Some(device) => Ok(device),
                None => if path.len() >= 2 {
                    self.nearest_device(path.drop_last())
                } else {
                    Ok(None)
                },
            }
        }
    }

    /// The device of the nearest existing path at or above `path`.
    pub fn nearest_existing_device(&self, path: &NativePath) -> (r: Result<Option<u64>, Request>)
        ensures
            match r {
                Ok(device) => self.nearest_device(path@) == Ok::<Option<u64>, RequestView>(device),
                Err(request) => self.nearest_device(path@) == Err::<Option<u64>, RequestView>(request@),
            },
    {
        let mut current: NativePath = path.duplicate();
        loop
            invariant
                self.nearest_device(path@) == self.nearest_device(current@),
            decreases current@.len(),
        {
            match self.observed.devices.get(&current) {
                None => {
                    return Err(Request::Device(current));
                },
                Some(fact) => {
                    match fact.device {
                        Some(device) => {
                            return Ok(device);
                        },
                        None => {},
                    }
                },
            }
            match current.parent() {
                Some(parent) => {
                    current = parent;
                },
                None => {
                    return Ok(None);
                },
            }
        }
    }
}

/// The known paths in the tree at `root`, in ascending order.
fn paths_in_tree(ws: &VirtualWorkspace, root: &NativePath, only_existing: bool) -> (r: Vec<NativePath>)
    ensures
        !only_existing ==> views(r@) == known_paths(ws@).filter(in_tree(root@)),
        only_existing ==> views(r@) == known_paths(ws@).filter(existing_in_tree(ws@, root@)),
        forall|i: int|
            0 <= i < r@.len() ==> root@.is_prefix_of(#[trigger] r@[i]@) && ws@.entries.dom().contains(r@[i]@) && (
            only_existing ==> ws@.entries[r@[i]@].manifest.exists),
        forall|p: PathView|
            ws@.entries.dom().contains(p) && root@.is_prefix_of(p) && (only_existing
                ==> ws@.entries[p].manifest.exists) ==> #[trigger] views(r@).contains(p),
{
    let n: usize = ws.entries.len();
    let ghost keys = known_paths(ws@);
    let ghost f = if only_existing { existing_in_tree(ws@, root@) } else { in_tree(root@) };
    let mut r: Vec<NativePath> = Vec::new();
    let mut i: usize = 0;
    reveal(Seq::filter);
    assert(views(r@) =~= keys.take(0).filter(f));
    while i < n
        invariant
            n == ws.entries.keys().len(),
            ws.entries.listed(),
            keys == ws.entries.keys(),
            f == if only_existing { existing_in_tree(ws@, root@) } else { in_tree(root@) },
            i <= n,
            views(r@) == keys.take(i as int).filter(f),
            forall|j: int|
                0 <= j < r@.len() ==> root@.is_prefix_of(#[trigger] r@[j]@) && ws@.entries.dom().contains(r@[j]@) && (
                only_existing ==> ws@.entries[r@[j]@].manifest.exists),
            forall|j: int| 0 <= j < i && f(#[trigger] keys[j]) ==> views(r@).contains(keys[j]),
        decreases n - i,
    {
        let path: &NativePath = ws.entries.key_at(i);
        let state: &ResourceState = ws.entries.value_at(i);
        let ghost before = r@;
        proof { lemma_filter_take(keys, f, i as int); }
        if path.starts_with(root) && (!only_existing || state.manifest.exists) {
            let copy: NativePath = path.duplicate();
            r.push(copy);
            assert(views(r@) =~= views(before).push(path@));
            proof {
                assert(views(r@)[before.len() as int] == keys[i as int]);
                assert forall|j: int| 0 <= j < i + 1 && f(#[trigger] keys[j]) implies views(r@).contains(keys[j]) by {
                    if j < i {
                        let x = views(before).index_of(keys[j]);
                        assert(views(before).contains(keys[j]));
                        assert(views(r@)[x] == keys[j]);
                    }
                }
            }
        }
        i += 1;
    }
    assert(keys.take(i as int) =~= keys);
    proof {
        assert forall|p: PathView|
            ws@.entries.dom().contains(p) && root@.is_prefix_of(p) && (only_existing
                ==> ws@.entries[p].manifest.exists) implies #[trigger] views(r@).contains(p) by {
            assert(keys.contains(p));
            let j = keys.index_of(p);
            assert(keys[j] == p);
            assert(f(keys[j]));
        }
    }
    r
}

/// The existing resources in the tree at `root`.
pub fn existing_paths_in_tree(ws: &VirtualWorkspace, root: &NativePath) -> (r: Vec<NativePath>)
    ensures
        views(r@) == known_paths(ws@).filter(existing_in_tree(ws@, root@)),
        forall|i: int|
            0 <= i < r@.len() ==> root@.is_prefix_of(#[trigger] r@[i]@) && ws@.entries.dom().contains(r@[i]@)
                && ws@.entries[r@[i]@].manifest.exists,
        forall|p: PathView|
            ws@.entries.dom().contains(p) && root@.is_prefix_of(p) && ws@.entries[p].manifest.exists
                ==> #[trigger] views(r@).contains(p),
{
    paths_in_tree(ws, root, true)
}

/// Marks what exists in the tree at `root` as deleted.
pub fn delete_tree(ws: &mut VirtualWorkspace, root: &NativePath)
    ensures
        final(ws)@ == (WorkspaceView {
            entries: deleted_entries(old(ws)@.entries, root@),
            affected: old(ws)@.affected.union(touched_by_delete(old(ws)@.entries, root@)),
            ..old(ws)@
        }),
{
    let paths: Vec<NativePath> = paths_in_tree(ws, root, true);
    let ghost start = ws@;
    let mut i: usize = 0;
    while i < paths.len()
        invariant
            start == old(ws)@,
            i <= paths@.len(),
            ws@.before == start.before,
            ws@.rollback_bytes == start.rollback_bytes,
            ws@.entries.dom() == start.entries.dom(),
            forall|j: int|
                0 <= j < paths@.len() ==> root@.is_prefix_of(#[trigger] paths@[j]@) && start.entries.dom().contains(
                    paths@[j]@,
                ) && start.entries[paths@[j]@].manifest.exists,
            forall|p: PathView| #[trigger]
                start.entries.dom().contains(p) ==> ws@.entries[p] == if views(paths@).take(i as int).contains(p) {
                    missing_state(p)
                } else {
                    start.entries[p]
                },
            forall|p: PathView| #[trigger]
                ws@.affected.contains(p) <==> start.affected.contains(p) || views(paths@).take(i as int).contains(p),
        decreases paths.len() - i,
    {
        let ghost before = ws@;
        let ghost done = views(paths@).take(i as int);
        let ghost target = paths@[i as int]@;
        ws.entries.insert(paths[i].duplicate(), missing_resource(&paths[i]));
        ws.affected.insert(paths[i].duplicate(), ());
        proof {
            let more = views(paths@).take(i + 1);
            assert(more =~= done.push(target));
            assert forall|p: PathView| more.contains(p) <==> done.contains(p) || p == target by {
                if done.contains(p) {
                    let x = done.index_of(p);
                    assert(more[x] == p);
                }
                if p == target {
                    assert(more[i as int] == p);
                }
                if more.contains(p) {
                    let x = more.index_of(p);
                    assert(more[x] == p);
                    if x < i {
                        assert(done[x] == p);
                    }
                }
            }
            assert(ws@.entries.dom() =~= start.entries.dom());
            assert(ws@.affected =~= before.affected.insert(target));
        }
        i += 1;
    }
    proof {
        assert(views(paths@).take(i as int) =~= views(paths@));
        assert forall|p: PathView| views(paths@).contains(p) implies root@.is_prefix_of(p)
            && #[trigger] start.entries.dom().contains(p) && start.entries[p].manifest.exists by {
            let x = views(paths@).index_of(p);
            assert(views(paths@)[x] == p);
            assert(paths@[x]@ == p);
        }
        assert(ws@.entries =~= deleted_entries(start.entries, root@));
        assert(ws@.affected =~= start.affected.union(touched_by_delete(start.entries, root@)));
    }
}

proof fn lemma_rebase_back(p: PathView, from: PathView, to: PathView)
    requires
        from.is_prefix_of(p),
    ensures
        to.is_prefix_of(rebased(p, from, to)),
        rebased(rebased(p, from, to), to, from) == p,
{
    let q = rebased(p, from, to);
    assert(q.subrange(0, to.len() as int) =~= to);
    assert(q.skip(to.len() as int) =~= p.skip(from.len() as int));
    assert(p.subrange(0, from.len() as int) =~= from);
    assert(rebased(q, to, from) =~= p);
}

pub proof fn lemma_disjoint_trees(a: PathView, b: PathView, p: PathView)
    requires
        !a.is_prefix_of(b),
        !b.is_prefix_of(a),
        a.is_prefix_of(p),
    ensures
        !b.is_prefix_of(p),
{
    if b.is_prefix_of(p) {
        if a.len() <= b.len() {
            assert(b.subrange(0, a.len() as int) =~= a) by {
                assert forall|i: int| 0 <= i < a.len() implies b[i] == a[i] by {
                    assert(p.subrange(0, a.len() as int)[i] == p[i]);
                    assert(p.subrange(0, b.len() as int)[i] == p[i]);
                }
            }
        } else {
            assert(a.subrange(0, b.len() as int) =~= b) by {
                assert forall|i: int| 0 <= i < b.len() implies b[i] == a[i] by {
                    assert(p.subrange(0, a.len() as int)[i] == p[i]);
                    assert(p.subrange(0, b.len() as int)[i] == p[i]);
                }
            }
        }
    }
}

/// Marks everything known in the tree at `root` as missing.
fn clear_tree(ws: &mut VirtualWorkspace, root: &NativePath)
    ensures
        final(ws)@.before == old(ws)@.before,
        final(ws)@.rollback_bytes == old(ws)@.rollback_bytes,
        final(ws)@.entries.dom() == old(ws)@.entries.dom(),
        forall|p: PathView| #[trigger]
            old(ws)@.entries.dom().contains(p) ==> final(ws)@.entries[p] == if root@.is_prefix_of(p) {
                missing_state(p)
            } else {
                old(ws)@.entries[p]
            },
        forall|p: PathView| #[trigger]
            final(ws)@.affected.contains(p) <==> old(ws)@.affected.contains(p) || (old(ws)@.entries.dom().contains(p)
                && root@.is_prefix_of(p)),
{
    let paths: Vec<NativePath> = paths_in_tree(ws, root, false);
    let ghost start = ws@;
    let mut i: usize = 0;
    while i < paths.len()
        invariant
            start == old(ws)@,
            i <= paths@.len(),
            ws@.before == start.before,
            ws@.rollback_bytes == start.rollback_bytes,
            ws@.entries.dom() == start.entries.dom(),
            forall|j: int|
                0 <= j < paths@.len() ==> root@.is_prefix_of(#[trigger] paths@[j]@) && start.entries.dom().contains(
                    paths@[j]@,
                ),
            forall|p: PathView| #[trigger]
                start.entries.dom().contains(p) ==> ws@.entries[p] == if views(paths@).take(i as int).contains(p) {
                    missing_state(p)
                } else {
                    start.entries[p]
                },
            forall|p: PathView| #[trigger]
                ws@.affected.contains(p) <==> start.affected.contains(p) || views(paths@).take(i as int).contains(p),
        decreases paths.len() - i,
    {
        let ghost before = ws@;
        let ghost done = views(paths@).take(i as int);
        let ghost target = paths@[i as int]@;
        ws.entries.insert(paths[i].duplicate(), missing_resource(&paths[i]));
        ws.affected.insert(paths[i].duplicate(), ());
        proof {
            let more = views(paths@).take(i + 1);
            assert(more =~= done.push(target));
            assert forall|p: PathView| more.contains(p) <==> done.contains(p) || p == target by {
                if done.contains(p) {
                    let x = done.index_of(p);
                    assert(more[x] == p);
                }
                if p == target {
                    assert(more[i as int] == p);
                }
                if more.contains(p) {
                    let x = more.index_of(p);
                    assert(more[x] == p);
                    if x < i {
                        assert(done[x] == p);
                    }
                }
            }
            assert(ws@.entries.dom() =~= start.entries.dom());
            assert(ws@.affected =~= before.affected.insert(target));
        }
        i += 1;
    }
    proof {
        assert(views(paths@).take(i as int) =~= views(paths@));
        assert forall|p: PathView| views(paths@).contains(p) implies root@.is_prefix_of(p)
            && #[trigger] start.entries.dom().contains(p) by {
            let x = views(paths@).index_of(p);
            assert(views(paths@)[x] == p);
            assert(paths@[x]@ == p);
        }
    }
}

/// Moves the tree at `old_root` to `new_root`, over what stands there.
pub fn move_tree(ws: &mut VirtualWorkspace, old_root: &NativePath, new_root: &NativePath)
    requires
        !old_root@.is_prefix_of(new_root@),
        !new_root@.is_prefix_of(old_root@),
    ensures
        final(ws)@ == (WorkspaceView {
            entries: moved_entries(old(ws)@.entries, old_root@, new_root@),
            affected: old(ws)@.affected.union(touched_by_move(old(ws)@.entries, old_root@, new_root@)),
            ..old(ws)@
        }),
{
    let ghost start = ws@;
    let ghost a = old_root@;
    let ghost b = new_root@;
    let moved: Vec<NativePath> = paths_in_tree(ws, old_root, false);
    let ghost paths = views(moved@);
    let mut states: Vec<ResourceState> = Vec::new();
    let mut i: usize = 0;
    while i < moved.len()
        invariant
            start == ws@,
            i <= moved@.len(),
            states@.len() == i,
            forall|j: int| 0 <= j < moved@.len() ==> start.entries.dom().contains(#[trigger] moved@[j]@),
            forall|j: int| 0 <= j < i ==> #[trigger] states@[j]@ == start.entries[moved@[j]@],
        decreases moved.len() - i,
    {
        match ws.entries.get(&moved[i]) {
            Some(state) => {
                states.push(state.copy());
            },
            None => {
                states.push(missing_resource(&moved[i]));
            },
        }
        i += 1;
    }
    clear_tree(ws, new_root);
    clear_tree(ws, old_root);
    let ghost cleared = ws@;
    let mut k: usize = 0;
    while k < moved.len()
        invariant
            k <= moved@.len(),
            states@.len() == moved@.len(),
            paths == views(moved@),
            a == old_root@,
            b == new_root@,
            ws@.before == start.before,
            ws@.rollback_bytes == start.rollback_bytes,
            forall|j: int|
                0 <= j < moved@.len() ==> a.is_prefix_of(#[trigger] moved@[j]@) && start.entries.dom().contains(
                    moved@[j]@,
                ),
            forall|j: int| 0 <= j < moved@.len() ==> #[trigger] states@[j]@ == start.entries[moved@[j]@],
            forall|p: PathView| #[trigger]
                ws@.entries.dom().contains(p) <==> cleared.entries.dom().contains(p) || (b.is_prefix_of(p)
                    && paths.take(k as int).contains(rebased(p, b, a))),
            forall|p: PathView| #[trigger]
                ws@.entries.dom().contains(p) ==> ws@.entries[p] == if b.is_prefix_of(p) && paths.take(
                    k as int,
                ).contains(rebased(p, b, a)) {
                    relocated(start.entries[rebased(p, b, a)], p)
                } else {
                    cleared.entries[p]
                },
            forall|p: PathView| #[trigger]
                ws@.affected.contains(p) <==> cleared.affected.contains(p) || (b.is_prefix_of(p) && paths.take(
                    k as int,
                ).contains(rebased(p, b, a))),
        decreases moved.len() - k,
    {
        let ghost before = ws@;
        let ghost done = paths.take(k as int);
        let ghost source = moved@[k as int]@;
        let target: NativePath = moved[k].rebase(old_root, new_root);
        let mut state: ResourceState = states[k].copy();
        state.manifest.path = target.duplicate();
        assert(state@ == relocated(start.entries[source], target@));
        ws.entries.insert(target.duplicate(), state);
        ws.affected.insert(target.duplicate(), ());
        proof {
            lemma_rebase_back(source, a, b);
            let more = paths.take(k + 1);
            assert(more =~= done.push(source));
            assert forall|p: PathView| more.contains(p) <==> done.contains(p) || p == source by {
                if done.contains(p) {
                    let x = done.index_of(p);
                    assert(more[x] == p);
                }
                if p == source {
                    assert(more[k as int] == p);
                }
                if more.contains(p) {
                    let x = more.index_of(p);
                    assert(more[x] == p);
                    if x < k {
                        assert(done[x] == p);
                    }
                }
            }
            assert forall|p: PathView| b.is_prefix_of(p) implies (rebased(p, b, a) == source <==> p == target@) by {
                lemma_rebase_back(p, b, a);
            }
            assert(ws@.affected =~= before.affected.insert(target@));
            assert(ws@.entries.dom() =~= before.entries.dom().insert(target@));
            assert forall|p: PathView| #[trigger] ws@.entries.dom().contains(p) <==> cleared.entries.dom().contains(p)
                || (b.is_prefix_of(p) && more.contains(rebased(p, b, a))) by {
                assert(ws@.entries.dom().contains(p) <==> before.entries.dom().contains(p) || p == target@);
            }
            assert forall|p: PathView| #[trigger] ws@.affected.contains(p) <==> cleared.affected.contains(p) || (
            b.is_prefix_of(p) && more.contains(rebased(p, b, a))) by {
                assert(ws@.affected.contains(p) <==> before.affected.contains(p) || p == target@);
            }
        }
        k += 1;
    }
    proof {
        assert(paths.take(k as int) =~= paths);
        assert forall|p: PathView| paths.contains(p) implies a.is_prefix_of(p) && #[trigger] start.entries.dom().contains(
            p,
        ) by {
            let x = paths.index_of(p);
            assert(paths[x] == p);
            assert(moved@[x]@ == p);
        }
        assert forall|p: PathView| b.is_prefix_of(p) implies (paths.contains(rebased(p, b, a))
            <==> start.entries.dom().contains(rebased(p, b, a))) by {
            lemma_rebase_back(p, b, a);
        }
        assert(ws@.entries =~= moved_entries(start.entries, a, b));
        assert(ws@.affected =~= start.affected.union(touched_by_move(start.entries, a, b)));
    }
}

/// After a move, nothing is left in the old tree, and what stood in it stands
/// at the same place in the new one.
pub proof fn law_move_relocates(entries: Map<PathView, StateView>, old_root: PathView, new_root: PathView, p: PathView)
    requires
        !old_root.is_prefix_of(new_root),
        !new_root.is_prefix_of(old_root),
        old_root.is_prefix_of(p),
        entries.dom().contains(p),
    ensures
        moved_entries(entries, old_root, new_root)[p] == missing_state(p),
        moved_entries(entries, old_root, new_root).dom().contains(rebased(p, old_root, new_root)),
        moved_entries(entries, old_root, new_root)[rebased(p, old_root, new_root)] == relocated(
            entries[p],
            rebased(p, old_root, new_root),
        ),
{
    lemma_rebase_back(p, old_root, new_root);
    lemma_disjoint_trees(old_root, new_root, p);
}

/// A move leaves alone what lies in neither tree.
pub proof fn law_move_leaves_the_rest(
    entries: Map<PathView, StateView>,
    old_root: PathView,
    new_root: PathView,
    p: PathView,
)
    requires
        !old_root.is_prefix_of(p),
        !new_root.is_prefix_of(p),
        entries.dom().contains(p),
    ensures
        moved_entries(entries, old_root, new_root)[p] == entries[p],
        !touched_by_move(entries, old_root, new_root).contains(p),
{
}

/// After a deletion nothing in the tree exists.
pub proof fn law_delete_leaves_nothing(entries: Map<PathView, StateView>, root: PathView, p: PathView)
    requires
        root.is_prefix_of(p),
        entries.dom().contains(p),
    ensures
        !deleted_entries(entries, root)[p].manifest.exists,
{
}

} // verus!
