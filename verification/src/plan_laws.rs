//! What holds of every plan.

use vstd::prelude::*;
use vstd::utf8::{decode_utf8, valid_utf8};

use crate::digest::digest_text;
use crate::edits::{edited, edits_in_order};
use crate::json::JsonView;
use crate::manifest::PathView;
use crate::path::beneath;
use crate::plan::{DraftView, OperationView, PreconditionView};
use crate::plan_edit::{DocumentEdits, OutcomeView, empty_draft};
use crate::plan_steps::{edits_apart, law_accepted_edits_apply, law_edits_clash_where_they_meet};
use crate::planner::WorkspaceEditPlanner;
use crate::position::byte_len;
use crate::ranking::ranked;

verus! {

/// Whether a path lies in the tree at `root`, below the root itself.
pub open spec fn strictly_inside(root: PathView, path: PathView) -> bool {
    beneath(root, path) && path != root
}

/// Whether an operation touches only paths below `root`.
pub open spec fn operation_inside(root: PathView, op: OperationView) -> bool {
    match op {
        OperationView::Text { index, uri, path, before_digest, after_digest, edits } => strictly_inside(root, path),
        OperationView::Create { index, uri, path, overwrite, ignore_if_exists } => strictly_inside(root, path),
        OperationView::Rename { index, old_uri, new_uri, old_path, new_path, overwrite, ignore_if_exists } => {
            &&& strictly_inside(root, old_path)
            &&& strictly_inside(root, new_path)
            &&& !old_path.is_prefix_of(new_path)
            &&& !new_path.is_prefix_of(old_path)
        },
        OperationView::Delete { index, uri, path, recursive, ignore_if_not_exists } => strictly_inside(root, path),
    }
}

/// Whether operations touch only paths below `root`.
pub open spec fn all_inside(root: PathView, ops: Seq<OperationView>) -> bool {
    forall|i: int| 0 <= i < ops.len() ==> operation_inside(root, #[trigger] ops[i])
}

/// Whether no text operation leaves a text as it was.
pub open spec fn no_idle_text(ops: Seq<OperationView>) -> bool {
    forall|i: int|
        0 <= i < ops.len() ==> (#[trigger] ops[i] matches OperationView::Text {
            index,
            uri,
            path,
            before_digest,
            after_digest,
            edits,
        } ==> before_digest != after_digest)
}

/// What holds of the operations of every draft.
pub open spec fn sound_operations(root: PathView, ops: Seq<OperationView>) -> bool {
    all_inside(root, ops) && no_idle_text(ops)
}

impl<'a> WorkspaceEditPlanner<'a> {
    proof fn lemma_text_sound(
        &self,
        d: DraftView,
        index: u64,
        uri: Seq<char>,
        edits: JsonView,
        annotations: Seq<(Seq<char>, JsonView)>,
        expected_digest: Option<Seq<char>>,
    )
        requires
            sound_operations(self.workspace@, d.operations),
        ensures
            sound_operations(
                self.workspace@,
                self.text_planned(d, index, uri, edits, annotations, expected_digest).0.operations,
            ),
    {
    }

    proof fn lemma_create_sound(
        &self,
        d: DraftView,
        index: u64,
        o: Seq<(Seq<char>, JsonView)>,
        annotations: Seq<(Seq<char>, JsonView)>,
    )
        requires
            sound_operations(self.workspace@, d.operations),
        ensures
            sound_operations(self.workspace@, self.create_planned(d, index, o, annotations).0.operations),
    {
    }

    proof fn lemma_rename_sound(
        &self,
        d: DraftView,
        index: u64,
        o: Seq<(Seq<char>, JsonView)>,
        annotations: Seq<(Seq<char>, JsonView)>,
    )
        requires
            sound_operations(self.workspace@, d.operations),
        ensures
            sound_operations(self.workspace@, self.rename_planned(d, index, o, annotations).0.operations),
    {
    }

    proof fn lemma_delete_sound(
        &self,
        d: DraftView,
        index: u64,
        o: Seq<(Seq<char>, JsonView)>,
        annotations: Seq<(Seq<char>, JsonView)>,
    )
        requires
            sound_operations(self.workspace@, d.operations),
        ensures
            sound_operations(self.workspace@, self.delete_planned(d, index, o, annotations).0.operations),
    {
    }

    proof fn lemma_change_sound(
        &self,
        d: DraftView,
        index: u64,
        change: JsonView,
        annotations: Seq<(Seq<char>, JsonView)>,
        preconditions: Map<Seq<char>, PreconditionView>,
    )
        requires
            sound_operations(self.workspace@, d.operations),
        ensures
            sound_operations(
                self.workspace@,
                self.change_planned(d, index, change, annotations, preconditions).0.operations,
            ),
    {
        if let JsonView::Object(o) = change {
            self.lemma_create_sound(d, index, o, annotations);
            self.lemma_rename_sound(d, index, o, annotations);
            self.lemma_delete_sound(d, index, o, annotations);
            if let Some(document) = crate::json::field(o, "textDocument"@) {
                assert forall|uri: Seq<char>, edits: JsonView, expected: Option<Seq<char>>| sound_operations(
                    self.workspace@,
                    (#[trigger] self.text_planned(d, index, uri, edits, annotations, expected)).0.operations,
                ) by {
                    self.lemma_text_sound(d, index, uri, edits, annotations, expected);
                }
            }
        }
    }

    proof fn lemma_changes_sound(
        &self,
        d: DraftView,
        changes: Seq<JsonView>,
        i: int,
        annotations: Seq<(Seq<char>, JsonView)>,
        preconditions: Map<Seq<char>, PreconditionView>,
    )
        requires
            sound_operations(self.workspace@, d.operations),
        ensures
            sound_operations(
                self.workspace@,
                self.changes_planned(d, changes, i, annotations, preconditions).0.operations,
            ),
        decreases changes.len() - i,
    {
        if i < changes.len() {
            self.lemma_change_sound(d, i as u64, changes[i], annotations, preconditions);
            let (next, request) = self.change_planned(d, i as u64, changes[i], annotations, preconditions);
            if request is None {
                self.lemma_changes_sound(next, changes, i + 1, annotations, preconditions);
            }
        }
    }

    proof fn lemma_documents_sound(
        &self,
        d: DraftView,
        changes: Seq<(Seq<char>, JsonView)>,
        i: int,
        annotations: Seq<(Seq<char>, JsonView)>,
    )
        requires
            sound_operations(self.workspace@, d.operations),
        ensures
            sound_operations(self.workspace@, self.documents_planned(d, changes, i, annotations).0.operations),
        decreases changes.len() - i,
    {
        if i < changes.len() {
            self.lemma_text_sound(d, i as u64, changes[i].0, changes[i].1, annotations, None);
            let (next, request) = self.text_planned(d, i as u64, changes[i].0, changes[i].1, annotations, None);
            if request is None {
                self.lemma_documents_sound(next, changes, i + 1, annotations);
            }
        }
    }

    /// Every operation of a plan touches only paths below the workspace root;
    /// no renaming moves a tree into itself; and no text operation leaves the
    /// digest of its text as it was.
    pub proof fn law_plan_stays_inside(&self, edit: JsonView, preconditions: Map<Seq<char>, PreconditionView>)
        ensures
            self.edit_planned(edit, preconditions) matches OutcomeView::Planned(p) ==> all_inside(
                self.workspace@,
                p.plan.operations,
            ) && no_idle_text(p.plan.operations),
    {
        if let JsonView::Object(o) = edit {
            let notes = match crate::json::field(o, "changeAnnotations"@) {
                Some(JsonView::Object(notes)) => notes,
                _ => seq![],
            };
            if let Some(JsonView::Object(c)) = crate::json::field(o, "changes"@) {
                self.lemma_documents_sound(empty_draft(), ranked::<DocumentEdits>(c), 0, notes);
            }
            if let Some(JsonView::Array(c)) = crate::json::field(o, "documentChanges"@) {
                self.lemma_changes_sound(empty_draft(), c, 0, notes, preconditions);
            }
        }
    }

    /// What a plan touches stays within the limits on entries.
    pub proof fn law_plan_keeps_limits(&self, d: DraftView, annotations: JsonView)
        ensures
            self.concluded(d, annotations) matches OutcomeView::Planned(p) ==> {
                &&& d.problems.len() == 0
                &&& p.plan.intended_manifest.len() <= self.mutation_limits.max_entries
                &&& d.workspace.rollback_bytes <= self.mutation_limits.max_rollback_bytes
                &&& d.new_text_bytes <= self.mutation_limits.max_staged_text_bytes
                &&& d.new_text_bytes <= self.preview_limits.max_text_bytes
            },
    {
    }

    /// The edits of a document are refused as overlapping exactly where two of
    /// those that could be read meet: neither ends where the other starts or
    /// before, or they start at one place without both only putting text in.
    /// Edits that follow one another without a gap are not refused, and add no
    /// problem of their own.
    pub proof fn law_only_overlapping_edits_are_refused(
        &self,
        d: DraftView,
        index: u64,
        uri: Seq<char>,
        path: PathView,
        bytes: Seq<u8>,
        raw: Seq<JsonView>,
        annotations: Seq<(Seq<char>, JsonView)>,
    )
        ensures
            ({
                let read = self.edits_read(decode_utf8(bytes), raw, raw.len() as int, annotations, index, path);
                let bad = self.edits_refused(decode_utf8(bytes), raw, raw.len() as int, annotations, index, path);
                let planned = self.edits_planned(d, index, uri, path, bytes, raw, annotations);
                &&& (forall|i: int, j: int|
                    0 <= i < j < read.len() ==> edits_apart((#[trigger] read[i]).edit, (#[trigger] read[j]).edit))
                    ==> planned.problems == d.problems + bad
                &&& (exists|i: int, j: int|
                    0 <= i < j < read.len() && !edits_apart((#[trigger] read[i]).edit, (#[trigger] read[j]).edit))
                    ==> planned.operations == d.operations && planned.workspace == d.workspace
                    && planned.problems.len() == d.problems.len() + bad.len() + 1 && planned.problems.last().code
                    == "overlapping_edits"@ && planned.problems.last().operation_index == Some(index)
            }),
    {
        let text = decode_utf8(bytes);
        let read = self.edits_read(text, raw, raw.len() as int, annotations, index, path);
        self.lemma_edits_read_within(text, raw, raw.len() as int, annotations, index, path);
        law_edits_clash_where_they_meet(read, byte_len(text));
    }

    /// A text operation that planning adds can be carried out on the text that
    /// it was planned for, and gives the digest that the plan records.
    pub proof fn law_planned_text_applies(
        &self,
        d: DraftView,
        index: u64,
        uri: Seq<char>,
        path: PathView,
        bytes: Seq<u8>,
        raw: Seq<JsonView>,
        annotations: Seq<(Seq<char>, JsonView)>,
    )
        requires
            valid_utf8(bytes),
            self.edits_planned(d, index, uri, path, bytes, raw, annotations).operations != d.operations,
        ensures
            self.edits_planned(d, index, uri, path, bytes, raw, annotations).operations.last() matches OperationView::Text {
                index: i,
                uri: u,
                path: p,
                before_digest,
                after_digest,
                edits,
            } && p == path && edits_in_order(bytes.len(), edits, 0, 0) && after_digest == digest_text(
                edited(bytes, edits, 0, 0),
            ),
    {
        let text = decode_utf8(bytes);
        let read = self.edits_read(text, raw, raw.len() as int, annotations, index, path);
        self.lemma_edits_read_within(text, raw, raw.len() as int, annotations, index, path);
        vstd::utf8::decode_utf8_encode_utf8(bytes);
        assert(byte_len(text) == bytes.len());
        law_accepted_edits_apply(read, bytes.len());
    }
}

} // verus!
