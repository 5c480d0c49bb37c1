//! What is looked at before a change is planned, and what stands in its way.

use vstd::prelude::*;

use crate::manifest::{PathView, ResourceKind};
use crate::path::parent_of;
use crate::plan::{
    ChildFactView,
    EntryFactView,
    EntryKind,
    FactsView,
    MeasuredView,
    RequestView,
    StopView,
    WorkspaceView,
};
use crate::planner::WorkspaceEditPlanner;
use crate::uri::{has_dot_segment, scheme_of_uri};

verus! {

impl<'a> WorkspaceEditPlanner<'a> {
    proof fn lemma_ancestors(&self, path: PathView, n: int, k: int, index: u64)
        requires
            0 <= n <= k <= path.len(),
            self.ancestors_from(path, n, index) is None,
            forall|j: int|
                n <= j < k ==> self.observed@.entries.dom().contains(#[trigger] path.take(j))
                    && !(self.observed@.entries[path.take(j)] is Missing),
        ensures
            self.observed@.entries.dom().contains(path.take(k)),
            self.observed@.entries[path.take(k)] matches EntryFactView::Present { link, device, kind } ==> !link
                && device == self.root_device,
            !(self.observed@.entries[path.take(k)] is Unavailable),
        decreases k - n,
    {
        if n < k {
            assert(self.observed@.entries.dom().contains(path.take(n)));
            self.lemma_ancestors(path, n + 1, k, index);
        }
    }

    /// A path that nothing stands in the way of lies in the workspace, and as
    /// far as it is there, it goes through no link and stays on the volume of
    /// the workspace.
    pub proof fn law_no_links_are_followed(&self, path: PathView, k: int, index: u64)
        requires
            self.ancestors_stop(path, index) is None,
            self.workspace@.len() < k <= path.len(),
            forall|j: int|
                self.workspace@.len() < j < k ==> self.observed@.entries.dom().contains(#[trigger] path.take(j))
                    && !(self.observed@.entries[path.take(j)] is Missing),
        ensures
            self.workspace@.is_prefix_of(path),
            self.observed@.entries.dom().contains(path.take(k)),
            self.observed@.entries[path.take(k)] matches EntryFactView::Present { link, device, kind } ==> !link
                && device == self.root_device,
            !(self.observed@.entries[path.take(k)] is Unavailable),
    {
        self.lemma_ancestors(path, self.workspace@.len() as int + 1, k, index);
    }

    /// A link, another volume and what cannot be looked at are each refused
    /// under their own name, and what was not looked at yet is asked for.
    pub proof fn law_obstacles_are_named(&self, path: PathView, n: int, index: u64)
        requires
            0 <= n <= path.len(),
        ensures
            ({
                let here = path.take(n);
                let stop = self.ancestors_from(path, n, index);
                &&& !self.observed@.entries.dom().contains(here) ==> stop == Some(
                    StopView::Observe(RequestView::Entry(here)),
                )
                &&& self.observed@.entries.dom().contains(here) ==> match self.observed@.entries[here] {
                    EntryFactView::Missing => stop is None,
                    EntryFactView::Unavailable { reason } => stop matches Some(StopView::Problem(p)) && p.code
                        == "filesystem_capability_unavailable"@ && p.path == Some(here),
                    EntryFactView::Present { link, device, kind } => {
                        &&& link ==> (stop matches Some(StopView::Problem(p)) && p.code == "symlink_or_reparse_point"@
                            && p.path == Some(here))
                        &&& !link && device != self.root_device ==> (stop matches Some(StopView::Problem(p)) && p.code
                            == "volume_boundary"@ && p.path == Some(here))
                    },
                }
            }),
    {
    }

    /// A URI with a dot for a name, of another scheme, or of a path outside the
    /// workspace is refused; so is the workspace itself.
    pub proof fn law_only_files_of_the_workspace_are_changed(&self, raw: Seq<char>, path: PathView, index: u64)
        ensures
            has_dot_segment(raw) ==> (self.file_path(raw, index) matches Err(StopView::Problem(p)) && p.code
                == "path_traversal"@),
            !has_dot_segment(raw) && scheme_of_uri(raw) is None ==> (self.file_path(raw, index) matches Err(
                StopView::Problem(p),
            ) && p.code == "malformed_uri"@),
            !has_dot_segment(raw) && scheme_of_uri(raw) is Some && scheme_of_uri(raw)->0 != "file"@ ==> (
            self.file_path(raw, index) matches Err(StopView::Problem(p)) && p.code == "unsupported_uri_scheme"@),
            self.mutable_path(self.workspace@, index) matches Err(StopView::Problem(p)) && p.code
                == "workspace_root_mutation"@,
            !self.workspace@.is_prefix_of(path) ==> (self.mutable_path(path, index) matches Err(StopView::Problem(p))
                && p.code == "outside_workspace"@),
            self.mutable_path(path, index) matches Ok(p) ==> p == path && self.workspace@.is_prefix_of(path) && path
                != self.workspace@,
    {
        if !self.workspace@.is_prefix_of(path) {
            if path == self.workspace@ {
                assert(path =~= self.workspace@.subrange(0, self.workspace@.len() as int));
            }
        }
    }

    /// A file is taken as measured: with its identity, its metadata and its
    /// content, unless it has several names or holes, or something of it could
    /// not be measured.
    pub proof fn law_measured_files_are_recorded(&self, facts: FactsView, path: PathView, index: u64)
        ensures
            facts.link_count <= 1 && !facts.sparse && facts.content is Known && facts.identity is Known
                && facts.metadata is Known <==> self.measured_state(facts, true, path, index, false) is Ok,
            self.measured_state(facts, true, path, index, false) matches Ok(s) ==> {
                &&& s.manifest.path == path
                &&& s.manifest.exists
                &&& s.manifest.resource_kind == ResourceKind::File
                &&& s.manifest.content_digest == Some(facts.content->Known_0)
                &&& s.manifest.identity_digest == Some(facts.identity->Known_0)
                &&& s.manifest.metadata_digest == Some(facts.metadata->Known_0)
                &&& s.text is None
            },
            facts.link_count > 1 ==> (self.measured_state(facts, true, path, index, false) matches Err(
                StopView::Problem(p),
            ) && p.code == "hard_link"@),
            facts.link_count <= 1 && facts.sparse ==> (self.measured_state(
                facts,
                true,
                path,
                index,
                false,
            ) matches Err(StopView::Problem(p)) && p.code == "sparse_file_unsupported"@),
            self.measured_state(facts, true, path, index, true) matches Ok(s) ==> s.text is Some && facts.text
                == MeasuredView::<Seq<u8>>::Known(s.text->0) && (facts.text_length is Some ==> facts.text_length->0
                <= self.preview_limits.max_document_text_bytes),
    {
    }

    /// A directory is taken as measured, with its identity and its metadata and
    /// without content of its own.
    pub proof fn law_measured_directories_are_recorded(&self, facts: FactsView, path: PathView, index: u64)
        ensures
            facts.identity is Known && facts.metadata is Known <==> self.measured_state(
                facts,
                false,
                path,
                index,
                false,
            ) is Ok,
            self.measured_state(facts, false, path, index, false) matches Ok(s) ==> {
                &&& s.manifest.path == path
                &&& s.manifest.exists
                &&& s.manifest.resource_kind == ResourceKind::Directory
                &&& s.manifest.content_digest is None
                &&& s.manifest.identity_digest == Some(facts.identity->Known_0)
                &&& s.manifest.metadata_digest == Some(facts.metadata->Known_0)
            },
    {
    }

    /// What is not there is recorded as missing; a link and what is neither a
    /// file nor a directory are refused.
    pub proof fn law_what_is_found_is_recorded(&self, path: PathView, index: u64, load_text: bool)
        requires
            self.observed@.entries.dom().contains(path),
        ensures
            self.observed@.entries[path] is Missing ==> (self.inspected(path, index, load_text) matches Ok(s)
                && !s.manifest.exists && s.manifest.path == path && s.manifest.resource_kind == ResourceKind::Missing
                && s.text is None),
            self.observed@.entries[path] matches EntryFactView::Present { link, device, kind } ==> {
                &&& link ==> (self.inspected(path, index, load_text) matches Err(StopView::Problem(p)) && p.code
                    == "symlink_or_reparse_point"@)
                &&& !link && kind is Other ==> (self.inspected(path, index, load_text) matches Err(
                    StopView::Problem(p),
                ) && p.code == "unsupported_resource_kind"@)
                &&& !link && kind is File && self.observed@.resources.dom().contains(path) ==> self.inspected(
                    path,
                    index,
                    load_text,
                ) == self.measured_state(self.observed@.resources[path], true, path, index, load_text)
                &&& !link && kind is Directory && self.observed@.resources.dom().contains(path) ==> self.inspected(
                    path,
                    index,
                    load_text,
                ) == self.measured_state(self.observed@.resources[path], false, path, index, load_text)
            },
    {
    }

    /// Taking a path up adds it to what is known, keeps what was known of every
    /// other path, and records how it was before; what is known already stays
    /// as it was planned, but for its text.
    pub proof fn law_taking_up_keeps_what_is_known(
        &self,
        ws: WorkspaceView,
        path: PathView,
        other: PathView,
        index: u64,
        load_text: bool,
    )
        requires
            self.loaded(ws, path, index, load_text).1 is None,
        ensures
            ({
                let next = self.loaded(ws, path, index, load_text).0;
                &&& next.entries.dom().contains(path)
                &&& other != path ==> next.entries.dom().contains(other) == ws.entries.dom().contains(other)
                &&& other != path && ws.entries.dom().contains(other) ==> next.entries[other] == ws.entries[other]
                &&& ws.entries.dom().contains(path) ==> next.entries[path].manifest == ws.entries[path].manifest
                    && next.before == ws.before && next.rollback_bytes == ws.rollback_bytes
                &&& !ws.entries.dom().contains(path) ==> next.before.dom().contains(path) && next.before[path]
                    == next.entries[path].manifest && next.rollback_bytes >= ws.rollback_bytes
                &&& next.affected == ws.affected
            }),
    {
    }

    /// What lies below a place that is gone is gone too.
    pub proof fn law_below_what_is_gone_nothing_is(
        &self,
        ws: WorkspaceView,
        path: PathView,
        n: int,
        index: u64,
        load_text: bool,
    )
        requires
            !ws.entries.dom().contains(path),
            1 <= n < path.len(),
            ws.entries.dom().contains(path.take(n)),
            !ws.entries[path.take(n)].manifest.exists,
        ensures
            self.loaded(ws, path, index, load_text).1 is None,
            !self.loaded(ws, path, index, load_text).0.entries[path].manifest.exists,
            self.loaded(ws, path, index, load_text).0.rollback_bytes == ws.rollback_bytes,
    {
        assert(crate::planner::gone_above(ws, path));
    }

    /// The members of a directory are those that are listed, each by what it
    /// is, and there are fewer of them than the limit allows.
    pub proof fn law_members_are_those_listed(
        &self,
        list: Seq<ChildFactView>,
        i: int,
        found: Map<Seq<char>, ResourceKind>,
        path: PathView,
        index: u64,
        members: Map<Seq<char>, ResourceKind>,
        name: Seq<char>,
    )
        requires
            0 <= i <= list.len(),
            self.children_from(list, i, found, path, index) == Ok::<Map<Seq<char>, ResourceKind>, StopView>(members),
        ensures
            members.dom().contains(name) <==> found.dom().contains(name) || exists|j: int|
                i <= j < list.len() && ((#[trigger] list[j]) matches ChildFactView::Entry { name: n, kind } && n
                    == name),
            forall|j: int|
                i <= j < list.len() ==> ((#[trigger] list[j]) matches ChildFactView::Entry { name: n, kind } && (
                kind matches MeasuredView::Known(k) && !(k is Other))),
        decreases list.len() - i,
    {
        if i < list.len() {
            if let ChildFactView::Entry { name: n, kind } = list[i] {
                if let MeasuredView::Known(known) = kind {
                    let next = found.insert(
                        n,
                        if known is File {
                            ResourceKind::File
                        } else {
                            ResourceKind::Directory
                        },
                    );
                    self.law_members_are_those_listed(list, i + 1, next, path, index, members, name);
                    if found.dom().contains(name) {
                        assert(next.dom().contains(name));
                    }
                    if n == name {
                        assert(next.dom().contains(name));
                    }
                }
            }
        }
    }

    /// The last member that is listed counts by what it is: a file as a file
    /// and a directory as a directory.
    pub proof fn law_members_are_what_they_are(
        &self,
        list: Seq<ChildFactView>,
        name: Seq<char>,
        kind: EntryKind,
        path: PathView,
        index: u64,
        found: Map<Seq<char>, ResourceKind>,
        members: Map<Seq<char>, ResourceKind>,
    )
        requires
            list == seq![ChildFactView::Entry { name, kind: MeasuredView::Known(kind) }],
            self.children_from(list, 0, found, path, index) == Ok::<Map<Seq<char>, ResourceKind>, StopView>(members),
        ensures
            kind is File ==> members[name] == ResourceKind::File,
            kind is Directory ==> members[name] == ResourceKind::Directory,
            !(kind is Other),
    {
        reveal_with_fuel(WorkspaceEditPlanner::children_from, 2);
    }

    /// A file is put only where its parent is a directory, as it is planned or
    /// else as it was found.
    pub proof fn law_parents_are_directories(&self, ws: WorkspaceView, path: PathView, parent: PathView, index: u64)
        requires
            parent_of(path) == Some(parent),
        ensures
            ws.entries.dom().contains(parent) ==> (self.parent_stop(ws, path, index) is None
                <==> ws.entries[parent].manifest.resource_kind == ResourceKind::Directory),
            !ws.entries.dom().contains(parent) && self.observed@.entries.dom().contains(parent) ==> (
            self.parent_stop(ws, path, index) is None <==> (
            self.observed@.entries[parent] matches EntryFactView::Present { link, device, kind } && kind is Directory)),
            self.parent_stop(ws, path, index) matches Some(StopView::Problem(p)) ==> p.code == "parent_missing"@
                && p.path == Some(parent),
    {
    }
}

} // verus!
