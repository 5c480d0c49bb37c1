//! Reading manifests back from what was observed of the filesystem.

use vstd::prelude::*;

use crate::digest::{digest_raw_bytes, digest_text};
use crate::manifest::{ManifestEntry, ManifestView, PathView, ResourceKind, missing_at, missing_manifest};
use crate::order::{
    Key,
    Order,
    lemma_texts_irreflexive,
    lemma_texts_total,
    lemma_texts_transitive,
    texts_precede,
};
use crate::path::NativePath;
use crate::plan::{EntryKind, ProblemView, Request, RequestView, Stop, StopView, WorkspaceEditProblem};
use crate::planner::{WorkspaceEditPlanner, directory_membership_digest, membership_digest};
use crate::ranking::{Ranked, insert_ranked, law_ranked, rank, ranked};
use crate::sorted::{SortedMap, listing};
use crate::text::{opt_view, views};

verus! {

/// What reading a manifest back comes to.
pub enum Inspection {
    /// More of the filesystem has to be observed first.
    Observe(Request),
    Refused(Vec<WorkspaceEditProblem>),
    Seen(Vec<ManifestEntry>),
}

/// What an [`Inspection`] stands for.
pub ghost enum InspectionView {
    Observe(RequestView),
    Refused(Seq<ProblemView>),
    Seen(Seq<ManifestView>),
}

impl View for Inspection {
    type V = InspectionView;

    open spec fn view(&self) -> InspectionView {
        match self {
            Inspection::Observe(r) => InspectionView::Observe(r@),
            Inspection::Refused(p) => InspectionView::Refused(views(p@)),
            Inspection::Seen(m) => InspectionView::Seen(views(m@)),
        }
    }
}

/// The records of a manifest stand in the order of their paths.
impl Ranked for ManifestEntry {
    open spec fn before(a: ManifestView, b: ManifestView) -> bool {
        texts_precede(a.path, b.path)
    }

    proof fn lemma_not_before(a: ManifestView, b: ManifestView, c: ManifestView) {
        assert(!Self::before(b, a) && !Self::before(c, b));
        if texts_precede(c.path, a.path) {
            lemma_texts_total(b.path, a.path);
            lemma_texts_total(c.path, b.path);
            if b.path != a.path && c.path != b.path {
                lemma_texts_transitive(b.path, c.path, a.path);
            }
        }
    }

    proof fn lemma_one_way(a: ManifestView, b: ManifestView) {
        if texts_precede(b.path, a.path) {
            lemma_texts_transitive(a.path, b.path, a.path);
            lemma_texts_irreflexive(a.path);
        }
    }

    fn comes_before(&self, other: &Self) -> (r: bool) {
        match self.path.order(&other.path) {
            Order::Less => true,
            _ => false,
        }
    }
}

/// Sorting a manifest keeps each record and puts them in the order of their
/// paths.
pub proof fn law_sorting_manifests(s: Seq<ManifestView>)
    ensures
        ranked::<ManifestEntry>(s).to_multiset() == s.to_multiset(),
        forall|i: int, j: int|
            0 <= i < j < ranked::<ManifestEntry>(s).len() ==> !texts_precede(
                (#[trigger] ranked::<ManifestEntry>(s)[j]).path,
                (#[trigger] ranked::<ManifestEntry>(s)[i]).path,
            ),
{
    law_ranked::<ManifestEntry>(s);
    let r = ranked::<ManifestEntry>(s);
    assert forall|i: int, j: int| 0 <= i < j < r.len() implies !texts_precede(
        (#[trigger] r[j]).path,
        (#[trigger] r[i]).path,
    ) by {
        assert(!ManifestEntry::before(r[j], r[i]));
    }
}

/// Whether a template records which children a directory has.
pub open spec fn certified(template: Seq<ManifestView>, path: PathView) -> bool {
    exists|i: int|
        0 <= i < template.len() && (#[trigger] template[i]).resource_kind == ResourceKind::Directory
            && template[i].content_digest is Some && template[i].path == path
}

fn is_certified(template: &Vec<ManifestEntry>, path: &NativePath) -> (r: bool)
    ensures
        r == certified(views(template@), path@),
{
    let ghost all = views(template@);
    let mut i: usize = 0;
    while i < template.len()
        invariant
            all == views(template@),
            i <= template@.len(),
            forall|j: int|
                0 <= j < i ==> !((#[trigger] all[j]).resource_kind == ResourceKind::Directory
                    && all[j].content_digest is Some && all[j].path == path@),
        decreases template.len() - i,
    {
        assert(all[i as int] == template@[i as int]@);
        if template[i].resource_kind == ResourceKind::Directory && template[i].content_digest.is_some()
            && template[i].path.same_path(path) {
            return true;
        }
        i += 1;
    }
    false
}

/// The paths of a manifest.
pub open spec fn manifest_paths(list: Seq<ManifestView>) -> Seq<PathView> {
    Seq::new(list.len(), |i: int| list[i].path)
}

impl<'a> WorkspaceEditPlanner<'a> {
    /// What the filesystem shows at a path.
    pub open spec fn entry_seen(&self, path: PathView) -> Result<ManifestView, StopView> {
        match self.ancestors_stop(path, 0) {
            Some(stop) => Err(stop),
            None => match self.inspected(path, 0, false) {
                Err(stop) => Err(stop),
                Ok(state) => Ok(state.manifest),
            },
        }
    }

    fn inspect_entry(&self, path: &NativePath) -> (r: Result<ManifestEntry, Stop>)
        ensures
            match r {
                Ok(entry) => self.entry_seen(path@) == Ok::<ManifestView, StopView>(entry@),
                Err(stop) => self.entry_seen(path@) == Err::<ManifestView, StopView>(stop@),
            },
    {
        match self.validate_existing_ancestors(path, 0) {
            Some(stop) => {
                return Err(stop);
            },
            None => {},
        }
        match self.inspect_resource(path, 0, false) {
            Ok(state) => Ok(state.manifest),
            Err(stop) => Err(stop),
        }
    }

    /// The first path among the first `n` that has not been observed.
    pub open spec fn unobserved(&self, paths: Seq<PathView>, n: int) -> Option<RequestView>
        decreases n,
    {
        if n <= 0 {
            None
        } else {
            match self.unobserved(paths, n - 1) {
                Some(r) => Some(r),
                None => match self.entry_seen(paths[n - 1]) {
                    Err(StopView::Observe(r)) => Some(r),
                    _ => None,
                },
            }
        }
    }

    /// The records of the first `n` paths that could be read.
    pub open spec fn entries_seen(&self, paths: Seq<PathView>, n: int) -> Seq<ManifestView>
        decreases n,
    {
        if n <= 0 {
            Seq::empty()
        } else {
            match self.entry_seen(paths[n - 1]) {
                Ok(entry) => self.entries_seen(paths, n - 1).push(entry),
                Err(_) => self.entries_seen(paths, n - 1),
            }
        }
    }

    /// The problems with the first `n` paths.
    pub open spec fn entries_refused(&self, paths: Seq<PathView>, n: int) -> Seq<ProblemView>
        decreases n,
    {
        if n <= 0 {
            Seq::empty()
        } else {
            match self.entry_seen(paths[n - 1]) {
                Err(StopView::Problem(p)) => self.entries_refused(paths, n - 1).push(p),
                _ => self.entries_refused(paths, n - 1),
            }
        }
    }

    /// What reading back the records of paths comes to.
    pub open spec fn paths_seen(&self, paths: Seq<PathView>) -> InspectionView {
        let n = paths.len() as int;
        match self.unobserved(paths, n) {
            Some(r) => InspectionView::Observe(r),
            None => if self.entries_refused(paths, n).len() > 0 {
                InspectionView::Refused(self.entries_refused(paths, n))
            } else {
                InspectionView::Seen(ranked::<ManifestEntry>(self.entries_seen(paths, n)))
            },
        }
    }

    proof fn lemma_unobserved_stays(&self, paths: Seq<PathView>, m: int, n: int)
        requires
            m <= n,
            self.unobserved(paths, m) is Some,
        ensures
            self.unobserved(paths, n) == self.unobserved(paths, m),
        decreases n - m,
    {
        if m < n {
            self.lemma_unobserved_stays(paths, m, n - 1);
            if n <= 0 {
                assert(self.unobserved(paths, m) is None);
            }
        }
    }

    /// Reads back the records of paths, in the order of the paths.
    pub fn inspect_manifest_paths(&self, paths: &Vec<NativePath>) -> (r: Inspection)
        ensures
            r@ == self.paths_seen(views(paths@)),
    {
        let ghost all = views(paths@);
        let mut seen: Vec<ManifestEntry> = Vec::new();
        let mut problems: Vec<WorkspaceEditProblem> = Vec::new();
        let mut i: usize = 0;
        assert(views(seen@) =~= ranked::<ManifestEntry>(self.entries_seen(all, 0)));
        assert(views(problems@) =~= self.entries_refused(all, 0));
        while i < paths.len()
            invariant
                all == views(paths@),
                i <= paths@.len(),
                self.unobserved(all, i as int) is None,
                views(seen@) == ranked::<ManifestEntry>(self.entries_seen(all, i as int)),
                views(problems@) == self.entries_refused(all, i as int),
            decreases paths.len() - i,
        {
            assert(all[i as int] == paths@[i as int]@);
            match self.inspect_entry(&paths[i]) {
                Ok(entry) => {
                    let ghost sofar = self.entries_seen(all, i as int);
                    assert(sofar.push(entry@).drop_last() =~= sofar);
                    insert_ranked(&mut seen, entry);
                },
                Err(Stop::Problem(p)) => {
                    let ghost before = problems@;
                    problems.push(p);
                    assert(views(problems@) =~= views(before).push(p@));
                },
                Err(Stop::Observe(request)) => {
                    proof {
                        assert(self.unobserved(all, i + 1) == Some(request@));
                        self.lemma_unobserved_stays(all, i + 1, all.len() as int);
                    }
                    return Inspection::Observe(request);
                },
            }
            i += 1;
        }
        assert(views(problems@).len() == problems@.len());
        if problems.len() > 0 {
            Inspection::Refused(problems)
        } else {
            Inspection::Seen(seen)
        }
    }

    /// Records from the `i`th on with the children of certified directories.
    pub open spec fn memberships_seen(&self, list: Seq<ManifestView>, i: int, template: Seq<ManifestView>) -> Result<
        Seq<ManifestView>,
        StopView,
    >
        decreases list.len() - i,
    {
        if i < 0 || i >= list.len() {
            Ok(list)
        } else if list[i].resource_kind == ResourceKind::Directory && certified(template, list[i].path) {
            match self.children_seen(list[i].path, 0) {
                Err(stop) => Err(stop),
                Ok(children) => self.memberships_seen(
                    list.update(i, ManifestView { content_digest: Some(membership_digest(children)), ..list[i] }),
                    i + 1,
                    template,
                ),
            }
        } else {
            self.memberships_seen(list, i + 1, template)
        }
    }

    /// What reading a manifest back comes to. The children of a directory are
    /// read only where the template records them.
    pub open spec fn manifest_seen(&self, template: Seq<ManifestView>) -> InspectionView {
        match self.paths_seen(manifest_paths(template)) {
            InspectionView::Seen(list) => match self.memberships_seen(list, 0, template) {
                Ok(complete) => InspectionView::Seen(complete),
                Err(StopView::Problem(p)) => InspectionView::Refused(seq![p]),
                Err(StopView::Observe(r)) => InspectionView::Observe(r),
            },
            other => other,
        }
    }

    /// Reads a manifest back.
    pub fn inspect_manifest(&self, template: &Vec<ManifestEntry>) -> (r: Inspection)
        ensures
            r@ == self.manifest_seen(views(template@)),
    {
        let ghost wanted = views(template@);
        let mut paths: Vec<NativePath> = Vec::new();
        let mut k: usize = 0;
        while k < template.len()
            invariant
                k <= template@.len(),
                paths@.len() == k,
                forall|j: int| 0 <= j < k ==> (#[trigger] paths@[j])@ == template@[j].path@,
            decreases template.len() - k,
        {
            let copy: NativePath = template[k].path.duplicate();
            paths.push(copy);
            k += 1;
        }
        assert(views(paths@) =~= manifest_paths(wanted));
        let mut list: Vec<ManifestEntry> = match self.inspect_manifest_paths(&paths) {
            Inspection::Seen(list) => list,
            other => {
                return other;
            },
        };
        let ghost start = views(list@);
        let mut i: usize = 0;
        while i < list.len()
            invariant
                wanted == views(template@),
                i <= list@.len(),
                self.paths_seen(manifest_paths(wanted)) == InspectionView::Seen(start),
                self.memberships_seen(start, 0, wanted) == self.memberships_seen(views(list@), i as int, wanted),
            decreases list.len() - i,
        {
            let ghost sofar = views(list@);
            assert(sofar[i as int] == list@[i as int]@);
            if list[i].resource_kind == ResourceKind::Directory && is_certified(template, &list[i].path) {
                match self.directory_children(&list[i].path, 0) {
                    Ok(children) => {
                        let mut entry: ManifestEntry = list[i].copy();
                        entry.content_digest = Some(directory_membership_digest(&children));
                        list.set(i, entry);
                        assert(views(list@) =~= sofar.update(i as int, entry@));
                    },
                    Err(Stop::Problem(p)) => {
                        let mut problems: Vec<WorkspaceEditProblem> = Vec::new();
                        problems.push(p);
                        assert(views(problems@) =~= seq![p@]);
                        return Inspection::Refused(problems);
                    },
                    Err(Stop::Observe(request)) => {
                        return Inspection::Observe(request);
                    },
                }
            }
            i += 1;
        }
        Inspection::Seen(list)
    }

    /// The path below the workspace.
    pub open spec fn below_workspace(&self, path: PathView) -> Option<Seq<Seq<char>>> {
        if self.workspace@.is_prefix_of(path) {
            Some(path.skip(self.workspace@.len() as int))
        } else {
            None
        }
    }

    /// The components of a path below the workspace.
    pub fn relative_path(&self, path: &NativePath) -> (r: Result<Vec<String>, String>)
        ensures
            match r {
                Ok(components) => self.below_workspace(path@) == Some(views(components@)),
                Err(reason) => self.below_workspace(path@) is None && reason@
                    == "A canonical operation path escaped the Workspace capability."@,
            },
    {
        if !path.starts_with(self.workspace) {
            return Err("A canonical operation path escaped the Workspace capability.".to_owned());
        }
        let from: usize = self.workspace.components.len();
        let mut components: Vec<String> = Vec::new();
        let mut i: usize = from;
        while i < path.components.len()
            invariant
                from <= i <= path@.len(),
                components@.len() == i - from,
                forall|j: int| 0 <= j < i - from ==> (#[trigger] components@[j])@ == path@[from + j],
            decreases path.components.len() - i,
        {
            components.push(path.components[i].clone());
            i += 1;
        }
        assert(views(components@) =~= path@.skip(from as int));
        Ok(components)
    }
}

/// What is recorded of a path that is read as far as it can be.
pub open spec fn best_effort_at(path: PathView, kind: Option<EntryKind>, content: Option<Seq<u8>>) -> ManifestView {
    match kind {
        Some(EntryKind::File) => ManifestView {
            path,
            exists: true,
            resource_kind: ResourceKind::File,
            identity_digest: None,
            content_digest: match content {
                Some(bytes) => Some(digest_text(bytes)),
                None => None,
            },
            metadata_digest: None,
        },
        Some(EntryKind::Directory) => ManifestView {
            exists: true,
            resource_kind: ResourceKind::Directory,
            ..missing_at(path)
        },
        _ => missing_at(path),
    }
}

/// What is recorded of a path that is read as far as it can be.
pub fn inspect_path_best_effort(path: &NativePath, kind: Option<EntryKind>, content: Option<Vec<u8>>) -> (r:
    ManifestEntry)
    ensures
        r@ == best_effort_at(path@, kind, opt_view(content)),
{
    let mut entry: ManifestEntry = missing_manifest(path);
    match kind {
        Some(EntryKind::File) => {
            entry.exists = true;
            entry.resource_kind = ResourceKind::File;
            entry.content_digest = match content {
                Some(bytes) => Some(digest_raw_bytes(&bytes)),
                None => None,
            };
        },
        Some(EntryKind::Directory) => {
            entry.exists = true;
            entry.resource_kind = ResourceKind::Directory;
        },
        _ => {},
    }
    entry
}

/// Records in the order of their paths.
pub fn inspect_paths_best_effort(entries: Vec<ManifestEntry>) -> (r: Vec<ManifestEntry>)
    ensures
        views(r@) == ranked::<ManifestEntry>(views(entries@)),
{
    rank(entries)
}

/// The records by their paths; a later record of a path takes the place of an
/// earlier one.
pub open spec fn by_path(list: Seq<ManifestView>) -> Map<PathView, ManifestView>
    decreases list.len(),
{
    if list.len() == 0 {
        Map::empty()
    } else {
        by_path(list.drop_last()).insert(list.last().path, list.last())
    }
}

/// The records with those of directories whose children are recorded put in
/// the place of the records of the same paths.
pub open spec fn with_certificates(base: Map<PathView, ManifestView>, list: Seq<ManifestView>) -> Map<
    PathView,
    ManifestView,
>
    decreases list.len(),
{
    if list.len() == 0 {
        base
    } else {
        let rest = with_certificates(base, list.drop_last());
        let entry = list.last();
        if entry.resource_kind == ResourceKind::Directory && entry.content_digest is Some && rest.dom().contains(
            entry.path,
        ) {
            rest.insert(entry.path, entry)
        } else {
            rest
        }
    }
}

/// The manifest that a transaction is held against.
pub open spec fn template_of(
    before: Seq<ManifestView>,
    intended: Seq<ManifestView>,
    observed: Seq<ManifestView>,
) -> Seq<ManifestView> {
    let chosen = with_certificates(by_path(before + intended), before + intended + observed);
    let paths = listing::<NativePath>(chosen.dom());
    Seq::new(paths.len(), |i: int| chosen[paths[i]])
}

fn collect_by_path(map: &mut SortedMap<NativePath, ManifestEntry>, list: &Vec<ManifestEntry>, before: Ghost<
    Seq<ManifestView>,
>)
    requires
        old(map)@ == by_path(before@),
    ensures
        final(map)@ == by_path(before@ + views(list@)),
{
    let ghost all = views(list@);
    let mut i: usize = 0;
    assert(before@ + all.take(0) =~= before@);
    while i < list.len()
        invariant
            all == views(list@),
            i <= list@.len(),
            map@ == by_path(before@ + all.take(i as int)),
        decreases list.len() - i,
    {
        proof {
            let more = before@ + all.take(i + 1);
            assert(more.drop_last() =~= before@ + all.take(i as int));
            assert(more.last() == list@[i as int]@);
        }
        map.insert(list[i].path.duplicate(), list[i].copy());
        i += 1;
    }
    assert(all.take(i as int) =~= all);
}

fn put_certificates(
    map: &mut SortedMap<NativePath, ManifestEntry>,
    list: &Vec<ManifestEntry>,
    base: Ghost<Map<PathView, ManifestView>>,
    before: Ghost<Seq<ManifestView>>,
)
    requires
        old(map)@ == with_certificates(base@, before@),
    ensures
        final(map)@ == with_certificates(base@, before@ + views(list@)),
{
    let ghost all = views(list@);
    let mut i: usize = 0;
    assert(before@ + all.take(0) =~= before@);
    while i < list.len()
        invariant
            all == views(list@),
            i <= list@.len(),
            map@ == with_certificates(base@, before@ + all.take(i as int)),
        decreases list.len() - i,
    {
        proof {
            let more = before@ + all.take(i + 1);
            assert(more.drop_last() =~= before@ + all.take(i as int));
            assert(more.last() == list@[i as int]@);
        }
        if list[i].resource_kind == ResourceKind::Directory && list[i].content_digest.is_some() && map.contains_key(
            &list[i].path,
        ) {
            map.insert(list[i].path.duplicate(), list[i].copy());
        }
        i += 1;
    }
    assert(all.take(i as int) =~= all);
}

/// The manifest that a transaction is held against: for each path what it
/// intends there, else what was there before; and where the children of a
/// directory are recorded, that record.
pub fn transaction_template(
    before: &Vec<ManifestEntry>,
    intended: &Vec<ManifestEntry>,
    observed: &Vec<ManifestEntry>,
) -> (r: Vec<ManifestEntry>)
    ensures
        views(r@) == template_of(views(before@), views(intended@), views(observed@)),
{
    let ghost b = views(before@);
    let ghost n = views(intended@);
    let ghost o = views(observed@);
    let mut map: SortedMap<NativePath, ManifestEntry> = SortedMap::new();
    collect_by_path(&mut map, before, Ghost(Seq::empty()));
    assert(Seq::<ManifestView>::empty() + b =~= b);
    collect_by_path(&mut map, intended, Ghost(b));
    let ghost base = map@;
    put_certificates(&mut map, before, Ghost(base), Ghost(Seq::empty()));
    put_certificates(&mut map, intended, Ghost(base), Ghost(b));
    put_certificates(&mut map, observed, Ghost(base), Ghost(b + n));
    let count: usize = map.len();
    let ghost wanted = template_of(b, n, o);
    let mut r: Vec<ManifestEntry> = Vec::new();
    let mut i: usize = 0;
    assert(views(r@) =~= wanted.take(0));
    while i < count
        invariant
            count == map.keys().len(),
            map.keys() == listing::<NativePath>(map@.dom()),
            map@ == with_certificates(by_path(b + n), b + n + o),
            wanted == template_of(b, n, o),
            i <= count,
            views(r@) =~= wanted.take(i as int),
        decreases count - i,
    {
        let ghost sofar = r@;
        r.push(map.value_at(i).copy());
        assert(wanted.take(i + 1) =~= wanted.take(i as int).push(wanted[i as int]));
        assert(views(r@) =~= views(sofar).push(wanted[i as int]));
        i += 1;
    }
    assert(wanted.take(i as int) =~= wanted);
    r
}

} // verus!
