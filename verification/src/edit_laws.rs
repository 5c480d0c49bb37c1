//! What the operations of an edit do to a workspace.

use vstd::prelude::*;
use vstd::utf8::{decode_utf8, encode_utf8};

use crate::digest::digest_text;
use crate::edit_syntax::parsed_edit;
use crate::edits::{EditView, edited, edits_in_order};
use crate::json::{JsonView, lemma_field_at};
use crate::manifest::{PathView, ResourceKind};
use crate::path::rebased;
use crate::plan::{DraftView, OperationView, PreconditionView, WorkspaceView};
use crate::plan_edit::{OutcomeView, empty_draft};
use crate::plan_resources::delete_loaded;
use crate::plan_steps::{
    all_edits_apart,
    edits_of,
    edits_sorted,
    law_edits_clash_where_they_meet,
    operation_refused,
};
use crate::plan_tree::{existing_in_tree, known_paths, law_move_relocates};
use crate::planner::WorkspaceEditPlanner;
use crate::position::{PositionEncoding, byte_len, position_offset};
use crate::rollback::{CreateStep, DeleteStep, RenameStep, create_choice, delete_choice, rename_choice};
use crate::uri::{UriPathView, path_of_uri, scheme_of_uri};

verus! {

/// Whether a value is a position of the protocol that stands at an offset of a
/// text.
pub open spec fn stands_at(place: Option<JsonView>, text: Seq<char>, encoding: PositionEncoding, offset: nat) -> bool {
    place is Some && (place->0.get("line"@) matches Some(JsonView::Int(l)) && place->0.get(
        "character"@,
    ) matches Some(JsonView::Int(c)) && 0 <= l <= u32::MAX && 0 <= c <= u32::MAX && position_offset(
        text,
        l as nat,
        c as nat,
        encoding,
    ) == Some(offset))
}

/// An edit that is read puts in the text that it names, from where its range
/// starts to where its range ends, under the annotation that it names, which
/// the edit of the workspace explains.
pub proof fn law_edits_are_read_as_sent(
    text: Seq<char>,
    edit: JsonView,
    annotations: Seq<(Seq<char>, JsonView)>,
    encoding: PositionEncoding,
    index: u64,
    path: PathView,
    ordinal: nat,
)
    ensures
        parsed_edit(text, edit, annotations, encoding, index, path, ordinal) matches Ok(p) ==> {
            &&& edit.get("newText"@) == Some(JsonView::Text(p.edit.new_text))
            &&& edit.get("range"@) is Some && stands_at(
                edit.get("range"@)->0.get("start"@),
                text,
                encoding,
                p.edit.start,
            ) && stands_at(edit.get("range"@)->0.get("end"@), text, encoding, p.edit.end)
            &&& p.edit.start <= p.edit.end
            &&& p.edit.annotation_id == edit.text_at("annotationId"@)
            &&& p.edit.annotation_id matches Some(id) ==> JsonView::Object(annotations).get(id) is Some
            &&& p.ordinal == ordinal
            &&& edit.get("snippet"@) is None && edit.get("insertTextFormat"@) is None
        },
{
}

/// A plain edit is read wherever its range lies in the text and does not end
/// before it starts.
pub proof fn law_plain_edits_are_read(
    text: Seq<char>,
    new_text: Seq<char>,
    range: JsonView,
    annotations: Seq<(Seq<char>, JsonView)>,
    encoding: PositionEncoding,
    index: u64,
    path: PathView,
    ordinal: nat,
    start: nat,
    end: nat,
)
    requires
        range is Object,
        stands_at(range.get("start"@), text, encoding, start),
        stands_at(range.get("end"@), text, encoding, end),
    ensures
        ({
            let edit = JsonView::Object(seq![("newText"@, JsonView::Text(new_text)), ("range"@, range)]);
            let r = parsed_edit(text, edit, annotations, encoding, index, path, ordinal);
            &&& r is Ok <==> start <= end
            &&& r matches Err(p) ==> p.code == "invalid_range"@
        }),
{
    let o = seq![("newText"@, JsonView::Text(new_text)), ("range"@, range)];
    reveal_strlit("newText");
    reveal_strlit("range");
    reveal_strlit("annotationId");
    reveal_strlit("insertTextFormat");
    reveal_strlit("snippet");
    assert("newText"@.len() == 7 && "range"@.len() == 5 && "annotationId"@.len() == 12);
    assert("insertTextFormat"@.len() == 16 && "snippet"@.len() == 7);
    assert("newText"@[0] == 'n' && "snippet"@[0] == 's');
    lemma_field_at(o, 0, "newText"@);
    lemma_field_at(o, 1, "range"@);
    crate::json::lemma_field_missing(o, "annotationId"@);
    crate::json::lemma_field_missing(o, "insertTextFormat"@);
    crate::json::lemma_field_missing(o, "snippet"@);
    let keys = crate::edit_syntax::edit_keys();
    assert(keys[0] == "range"@ && keys[1] == "newText"@);
    assert(o.drop_first() =~= seq![("range"@, range)]);
    assert(o.drop_first().drop_first() =~= Seq::<(Seq<char>, JsonView)>::empty());
    assert(keys.contains("range"@) && keys.contains("newText"@));
    assert(crate::edit_syntax::first_unknown(Seq::<(Seq<char>, JsonView)>::empty(), keys) is None);
    assert(crate::edit_syntax::first_unknown(o.drop_first(), keys) is None);
    assert(crate::edit_syntax::first_unknown(o, keys) is None);
}

proof fn lemma_last_edit(before: Seq<u8>, edits: Seq<EditView>, last: EditView, from: int, cursor: nat)
    requires
        0 <= from <= edits.len(),
        cursor <= before.len(),
        edits_in_order(before.len(), edits.push(last), from, cursor),
    ensures
        edits_in_order(last.start, edits, from, cursor),
        edited(before, edits.push(last), from, cursor) == edited(before.take(last.start as int), edits, from, cursor)
            + encode_utf8(last.new_text) + before.skip(last.end as int),
    decreases edits.len() - from,
{
    let all = edits.push(last);
    let front = before.take(last.start as int);
    if from < edits.len() {
        assert(all[from] == edits[from]);
        lemma_last_edit(before, edits, last, from + 1, edits[from].end);
        lemma_reaches(before.len(), all, from + 1, edits[from].end);
        assert(front.subrange(cursor as int, edits[from].start as int) =~= before.subrange(
            cursor as int,
            edits[from].start as int,
        ));
        let part = before.subrange(cursor as int, edits[from].start as int) + encode_utf8(edits[from].new_text);
        assert(part + (edited(front, edits, from + 1, edits[from].end) + encode_utf8(last.new_text) + before.skip(
            last.end as int,
        )) =~= part + edited(front, edits, from + 1, edits[from].end) + encode_utf8(last.new_text) + before.skip(
            last.end as int,
        ));
    } else {
        assert(all[from] == last);
        assert(edited(before, all, from + 1, last.end) == before.skip(last.end as int));
        assert(front.skip(cursor as int) =~= before.subrange(cursor as int, last.start as int));
    }
}

proof fn lemma_reaches(length: nat, edits: Seq<EditView>, from: int, cursor: nat)
    requires
        0 <= from < edits.len(),
        edits_in_order(length, edits, from, cursor),
    ensures
        cursor <= edits.last().start <= length,
    decreases edits.len() - from,
{
    if from + 1 < edits.len() {
        lemma_reaches(length, edits, from + 1, edits[from].end);
    }
}

/// The last of some edits puts its text in the place of its range, behind what
/// the others make of the text before that range; what follows the range
/// follows the text.
pub proof fn law_edits_replace_their_ranges(before: Seq<u8>, edits: Seq<EditView>, last: EditView)
    requires
        edits_in_order(before.len(), edits.push(last), 0, 0),
    ensures
        edits_in_order(last.start, edits, 0, 0),
        edited(before, edits.push(last), 0, 0) == edited(before.take(last.start as int), edits, 0, 0) + encode_utf8(
            last.new_text,
        ) + before.skip(last.end as int),
{
    lemma_last_edit(before, edits, last, 0, 0);
}

/// Whether operations are what they were, or hold one more, of the given place.
pub open spec fn one_more(before: Seq<OperationView>, after: Seq<OperationView>, index: u64) -> bool {
    after == before || after.len() == before.len() + 1 && after.drop_last() == before
        && crate::commit_run::operation_index(after.last()) == index
}

/// Whether everything but one path is in one workspace as in another.
pub open spec fn same_but_at(a: WorkspaceView, b: WorkspaceView, path: PathView) -> bool {
    forall|q: PathView|
        q != path && a.entries.dom().contains(q) ==> #[trigger] b.entries.dom().contains(q) && b.entries[q]
            == a.entries[q]
}

impl<'a> WorkspaceEditPlanner<'a> {
    /// Edits of a document that leave each other alone are planned in the order
    /// of their ranges wherever they change the text, and the workspace then
    /// holds the text that they make; where they change nothing, nothing is
    /// planned.
    pub proof fn law_changed_texts_are_planned(
        &self,
        d: DraftView,
        index: u64,
        uri: Seq<char>,
        path: PathView,
        bytes: Seq<u8>,
        raw: Seq<JsonView>,
        annotations: Seq<(Seq<char>, JsonView)>,
        before: Seq<char>,
    )
        requires
            d.workspace.entries.dom().contains(path),
            d.workspace.entries[path].manifest.content_digest == Some(before),
            self.edits_refused(decode_utf8(bytes), raw, raw.len() as int, annotations, index, path).len() == 0,
            all_edits_apart(self.edits_read(decode_utf8(bytes), raw, raw.len() as int, annotations, index, path)),
            forall|i: int| 0 <= i < d.problems.len() ==> (#[trigger] d.problems[i]).operation_index != Some(index),
        ensures
            ({
                let sorted = edits_of(
                    edits_sorted(self.edits_read(decode_utf8(bytes), raw, raw.len() as int, annotations, index, path)),
                );
                let after = edited(bytes, sorted, 0, 0);
                let r = self.edits_planned(d, index, uri, path, bytes, raw, annotations);
                &&& r.problems == d.problems
                &&& same_but_at(d.workspace, r.workspace, path)
                &&& digest_text(after) == before ==> r.operations == d.operations && r.workspace == d.workspace
                &&& digest_text(after) != before ==> {
                    &&& r.operations == d.operations.push(
                        OperationView::Text {
                            index,
                            uri,
                            path,
                            before_digest: before,
                            after_digest: digest_text(after),
                            edits: sorted,
                        },
                    )
                    &&& r.workspace.entries[path].text == Some(after)
                    &&& r.workspace.entries[path].manifest.content_digest == Some(digest_text(after))
                    &&& r.workspace.entries[path].manifest.exists == d.workspace.entries[path].manifest.exists
                    &&& r.workspace.affected == d.workspace.affected.insert(path)
                }
            }),
    {
        let text = decode_utf8(bytes);
        let read = self.edits_read(text, raw, raw.len() as int, annotations, index, path);
        let bad = self.edits_refused(text, raw, raw.len() as int, annotations, index, path);
        self.lemma_edits_read_within(text, raw, raw.len() as int, annotations, index, path);
        law_edits_clash_where_they_meet(read, byte_len(text));
        assert(d.problems + bad =~= d.problems);
        assert(!operation_refused(d.problems, index));
    }

    /// The path of an operation is the native path of its URI, which names a
    /// file in the workspace.
    pub proof fn law_paths_are_those_of_the_uris(&self, uri: Seq<char>, index: u64)
        ensures
            self.file_path(uri, index) matches Ok(path) ==> path_of_uri(uri) == UriPathView::Path(path) && scheme_of_uri(
                uri,
            ) == Some("file"@) && path != self.workspace@ && crate::path::beneath(self.workspace@, path),
    {
    }

    /// What a creation does at a path: an empty file where nothing is or where a
    /// file may be overwritten; nothing where what is there is to be ignored;
    /// and a refusal otherwise. It plans what an application can carry out.
    pub proof fn law_creations_make_empty_files(
        &self,
        d: DraftView,
        index: u64,
        uri: Seq<char>,
        path: PathView,
        overwrite: bool,
        ignore: bool,
    )
        requires
            self.parent_stop(d.workspace, path, index) is None,
        ensures
            ({
                let there = d.workspace.entries[path].manifest;
                let r = self.create_at(d, index, uri, path, overwrite, ignore);
                let made = !there.exists || overwrite && there.resource_kind == ResourceKind::File;
                &&& r.1 is None
                &&& same_but_at(d.workspace, r.0.workspace, path)
                &&& made ==> {
                    let now = r.0.workspace.entries[path];
                    &&& r.0.problems == d.problems
                    &&& r.0.operations == d.operations.push(
                        OperationView::Create { index, uri, path, overwrite, ignore_if_exists: ignore },
                    )
                    &&& now.manifest.exists && now.manifest.resource_kind == ResourceKind::File
                    &&& now.text matches Some(text) && text.len() == 0 && now.manifest.content_digest == Some(
                        digest_text(text),
                    )
                    &&& r.0.workspace.affected.contains(path)
                    &&& r.0.summary.creates >= d.summary.creates
                    &&& create_choice(there.exists, overwrite, ignore) is CreateNew || create_choice(
                        there.exists,
                        overwrite,
                        ignore,
                    ) is Truncate
                }
                &&& there.exists && !overwrite && ignore ==> r.0 == d
                &&& there.exists && !overwrite && !ignore ==> r.0.operations == d.operations && r.0.problems.len()
                    == d.problems.len() + 1 && r.0.problems.last().code == "target_exists"@
                &&& there.exists && overwrite && there.resource_kind != ResourceKind::File ==> r.0.operations
                    == d.operations && r.0.problems.len() == d.problems.len() + 1 && r.0.problems.last().code
                    == "resource_kind_mismatch"@
            }),
    {
        assert(CreateStep::CreateNew is CreateNew);
    }

    /// An operation that a creation adds is one of the file that it names, with
    /// the options that it gives.
    pub proof fn law_creations_are_planned_as_asked(
        &self,
        d: DraftView,
        index: u64,
        o: Seq<(Seq<char>, JsonView)>,
        annotations: Seq<(Seq<char>, JsonView)>,
    )
        ensures
            ({
                let r = self.create_planned(d, index, o, annotations).0;
                let options = match JsonView::Object(o).get("options"@) {
                    Some(v) => v,
                    None => JsonView::Null,
                };
                r.operations != d.operations ==> r.operations.len() == d.operations.len() + 1 && (r.operations.last() matches OperationView::Create {
                    index: i,
                    uri,
                    path,
                    overwrite,
                    ignore_if_exists,
                } && i == index && JsonView::Object(o).get("uri"@) == Some(JsonView::Text(uri)) && path_of_uri(uri)
                    == UriPathView::Path(path) && overwrite == (options.get("overwrite"@) == Some(JsonView::Bool(true)))
                    && ignore_if_exists == (options.get("ignoreIfExists"@) == Some(JsonView::Bool(true))))
            }),
    {
    }

    /// An operation that a renaming adds moves what its old URI names to where
    /// its new URI names, with the options that it gives; what stood in the old
    /// tree then stands in the new one, and is gone from the old one.
    pub proof fn law_renamings_are_planned_as_asked(
        &self,
        d: DraftView,
        index: u64,
        o: Seq<(Seq<char>, JsonView)>,
        annotations: Seq<(Seq<char>, JsonView)>,
    )
        ensures
            ({
                let r = self.rename_planned(d, index, o, annotations).0;
                let options = match JsonView::Object(o).get("options"@) {
                    Some(v) => v,
                    None => JsonView::Null,
                };
                r.operations != d.operations ==> r.operations.len() == d.operations.len() + 1 && (r.operations.last() matches OperationView::Rename {
                    index: i,
                    old_uri,
                    new_uri,
                    old_path,
                    new_path,
                    overwrite,
                    ignore_if_exists,
                } && i == index && JsonView::Object(o).get("oldUri"@) == Some(JsonView::Text(old_uri))
                    && JsonView::Object(o).get("newUri"@) == Some(JsonView::Text(new_uri)) && path_of_uri(old_uri)
                    == UriPathView::Path(old_path) && path_of_uri(new_uri) == UriPathView::Path(new_path) && overwrite
                    == (options.get("overwrite"@) == Some(JsonView::Bool(true))) && ignore_if_exists == (options.get(
                    "ignoreIfExists"@,
                ) == Some(JsonView::Bool(true))))
            }),
    {
    }

    /// What a renaming does between two paths of which both are known: where the
    /// source is there and the destination is free, the source moves; a
    /// destination that is there is overwritten, left alone or refused as the
    /// options say; and a source that is not there is refused.
    pub proof fn law_renamings_move_trees(
        &self,
        d: DraftView,
        index: u64,
        old_uri: Seq<char>,
        new_uri: Seq<char>,
        old_path: PathView,
        new_path: PathView,
        overwrite: bool,
        ignore: bool,
    )
        requires
            d.workspace.entries.dom().contains(old_path),
            !old_path.is_prefix_of(new_path),
            !new_path.is_prefix_of(old_path),
        ensures
            ({
                let source = d.workspace.entries[old_path].manifest;
                let destination = d.workspace.entries[new_path].manifest;
                let r = self.rename_loaded(d, index, old_uri, new_uri, old_path, new_path, overwrite, ignore);
                &&& !source.exists ==> r.0.operations == d.operations && r.0.problems.last().code == "source_missing"@
                    && r.0.problems.len() == d.problems.len() + 1
                &&& source.exists && destination.exists && !overwrite && ignore ==> r == (
                    d,
                    None::<crate::plan::RequestView>,
                )
                &&& source.exists && destination.exists && !overwrite && !ignore ==> r.0.operations == d.operations
                    && r.0.problems.last().code == "target_exists"@ && r.0.problems.len() == d.problems.len() + 1
                &&& source.exists && destination.exists && overwrite && destination.resource_kind
                    != source.resource_kind ==> r.0.operations == d.operations && r.0.problems.last().code
                    == "resource_kind_mismatch"@
                &&& r.0.operations != d.operations ==> {
                    &&& source.exists && (destination.exists ==> overwrite)
                    &&& r.0.operations == d.operations.push(
                        OperationView::Rename {
                            index,
                            old_uri,
                            new_uri,
                            old_path,
                            new_path,
                            overwrite,
                            ignore_if_exists: ignore,
                        },
                    )
                    &&& r.0.problems == d.problems
                    &&& rename_choice(destination.exists, overwrite, ignore) is Move || rename_choice(
                        destination.exists,
                        overwrite,
                        ignore,
                    ) is SetAsideAndMove
                }
                &&& r.0.operations != d.operations && destination.resource_kind != ResourceKind::Directory ==> {
                    &&& !r.0.workspace.entries[old_path].manifest.exists
                    &&& r.0.workspace.entries[new_path].manifest.exists
                    &&& r.0.workspace.entries[new_path].text == d.workspace.entries[old_path].text
                    &&& r.0.workspace.entries[new_path].manifest.content_digest == source.content_digest
                    &&& r.0.workspace.entries[new_path].manifest.resource_kind == source.resource_kind
                    &&& r.0.workspace.entries[new_path].manifest.path == new_path
                }
            }),
    {
        assert(RenameStep::Move is Move);
        law_move_relocates(d.workspace.entries, old_path, new_path, old_path);
        assert(rebased(old_path, old_path, new_path) =~= new_path);
    }

    /// An operation that a deletion adds is one of the file that it names, with
    /// the options that it gives.
    pub proof fn law_deletions_are_planned_as_asked(
        &self,
        d: DraftView,
        index: u64,
        o: Seq<(Seq<char>, JsonView)>,
        annotations: Seq<(Seq<char>, JsonView)>,
    )
        ensures
            ({
                let r = self.delete_planned(d, index, o, annotations).0;
                let options = match JsonView::Object(o).get("options"@) {
                    Some(v) => v,
                    None => JsonView::Null,
                };
                r.operations != d.operations ==> r.operations.len() == d.operations.len() + 1 && (r.operations.last() matches OperationView::Delete {
                    index: i,
                    uri,
                    path,
                    recursive,
                    ignore_if_not_exists,
                } && i == index && JsonView::Object(o).get("uri"@) == Some(JsonView::Text(uri)) && path_of_uri(uri)
                    == UriPathView::Path(path) && recursive == (options.get("recursive"@) == Some(JsonView::Bool(true)))
                    && ignore_if_not_exists == (options.get("ignoreIfNotExists"@) == Some(JsonView::Bool(true))))
            }),
    {
    }

    proof fn lemma_text_adds(
        &self,
        d: DraftView,
        index: u64,
        uri: Seq<char>,
        edits: JsonView,
        annotations: Seq<(Seq<char>, JsonView)>,
        expected: Option<Seq<char>>,
    )
        ensures
            one_more(d.operations, self.text_planned(d, index, uri, edits, annotations, expected).0.operations, index),
            self.text_planned(d, index, uri, edits, annotations, expected).0.operations != d.operations ==> self.text_planned(d, index, uri, edits, annotations, expected).0.operations.last() is Text,
    {
        let r = self.text_planned(d, index, uri, edits, annotations, expected).0;
        if r.operations != d.operations {
            assert(r.operations.drop_last() =~= d.operations);
        }
    }

    proof fn lemma_document_adds(
        &self,
        d: DraftView,
        index: u64,
        o: Seq<(Seq<char>, JsonView)>,
        document: JsonView,
        annotations: Seq<(Seq<char>, JsonView)>,
        preconditions: Map<Seq<char>, PreconditionView>,
    )
        ensures
            one_more(d.operations, self.document_planned(d, index, o, document, annotations, preconditions).0.operations, index),
            self.document_planned(d, index, o, document, annotations, preconditions).0.operations != d.operations ==> self.document_planned(d, index, o, document, annotations, preconditions).0.operations.last() is Text,
    {
        assert forall|uri: Seq<char>, edits: JsonView, expected: Option<Seq<char>>|
            ({
                let r = #[trigger] self.text_planned(d, index, uri, edits, annotations, expected);
                one_more(d.operations, r.0.operations, index) && (r.0.operations != d.operations
                    ==> r.0.operations.last() is Text)
            }) by {
            self.lemma_text_adds(d, index, uri, edits, annotations, expected);
        }
    }

    proof fn lemma_create_adds(
        &self,
        d: DraftView,
        index: u64,
        o: Seq<(Seq<char>, JsonView)>,
        annotations: Seq<(Seq<char>, JsonView)>,
    )
        ensures
            one_more(d.operations, self.create_planned(d, index, o, annotations).0.operations, index),
            self.create_planned(d, index, o, annotations).0.operations != d.operations ==> self.create_planned(d, index, o, annotations).0.operations.last() is Create,
    {
        let r = self.create_planned(d, index, o, annotations).0;
        if r.operations != d.operations {
            assert(r.operations.drop_last() =~= d.operations);
        }
    }

    proof fn lemma_rename_adds(
        &self,
        d: DraftView,
        index: u64,
        o: Seq<(Seq<char>, JsonView)>,
        annotations: Seq<(Seq<char>, JsonView)>,
    )
        ensures
            one_more(d.operations, self.rename_planned(d, index, o, annotations).0.operations, index),
            self.rename_planned(d, index, o, annotations).0.operations != d.operations ==> self.rename_planned(d, index, o, annotations).0.operations.last() is Rename,
    {
        let r = self.rename_planned(d, index, o, annotations).0;
        if r.operations != d.operations {
            assert(r.operations.drop_last() =~= d.operations);
        }
    }

    proof fn lemma_delete_adds(
        &self,
        d: DraftView,
        index: u64,
        o: Seq<(Seq<char>, JsonView)>,
        annotations: Seq<(Seq<char>, JsonView)>,
    )
        ensures
            one_more(d.operations, self.delete_planned(d, index, o, annotations).0.operations, index),
            self.delete_planned(d, index, o, annotations).0.operations != d.operations ==> self.delete_planned(d, index, o, annotations).0.operations.last() is Delete,
    {
        let r = self.delete_planned(d, index, o, annotations).0;
        if r.operations != d.operations {
            assert(r.operations.drop_last() =~= d.operations);
        }
    }

    /// Each entry of an edit adds at most one operation, of the kind that it
    /// names and under its place; an entry of another kind adds none and is
    /// refused.
    pub proof fn law_changes_are_planned_by_kind(
        &self,
        d: DraftView,
        index: u64,
        o: Seq<(Seq<char>, JsonView)>,
        annotations: Seq<(Seq<char>, JsonView)>,
        preconditions: Map<Seq<char>, PreconditionView>,
    )
        ensures
            ({
                let change = JsonView::Object(o);
                let r = self.change_planned(d, index, change, annotations, preconditions).0;
                let kind = change.get("kind"@);
                &&& r.operations == d.operations || r.operations.drop_last() == d.operations && r.operations.len()
                    == d.operations.len() + 1
                &&& r.operations != d.operations ==> crate::commit_run::operation_index(r.operations.last()) == index
                &&& change.get("textDocument"@) is Some && r.operations != d.operations ==> r.operations.last() is Text
                &&& change.get("textDocument"@) is None && r.operations != d.operations ==> {
                    &&& r.operations.last() is Create ==> kind == Some(JsonView::Text("create"@))
                    &&& r.operations.last() is Rename ==> kind == Some(JsonView::Text("rename"@))
                    &&& r.operations.last() is Delete ==> kind == Some(JsonView::Text("delete"@))
                    &&& !(r.operations.last() is Text)
                }
                &&& change.get("textDocument"@) is None && kind != Some(JsonView::Text("create"@)) && kind != Some(
                    JsonView::Text("rename"@),
                ) && kind != Some(JsonView::Text("delete"@)) ==> r.operations == d.operations && r.problems.len()
                    == d.problems.len() + 1 && r.problems.last().code == "unknown_operation"@
            }),
    {
        let change = JsonView::Object(o);
        let kind = change.get("kind"@);
        reveal_strlit("create");
        reveal_strlit("rename");
        reveal_strlit("delete");
        assert("create"@[0] == 'c' && "rename"@[0] == 'r' && "delete"@[0] == 'd');
        if change.get("textDocument"@) is Some {
            let document = change.get("textDocument"@)->0;
            self.lemma_document_adds(d, index, o, document, annotations, preconditions);
        } else if kind == Some(JsonView::Text("create"@)) {
            self.lemma_create_adds(d, index, o, annotations);
        } else if kind == Some(JsonView::Text("rename"@)) {
            self.lemma_rename_adds(d, index, o, annotations);
        } else if kind == Some(JsonView::Text("delete"@)) {
            self.lemma_delete_adds(d, index, o, annotations);
        }
    }

    /// An edit of a document in a version is planned only where that version is
    /// known, with the content that the document still has.
    pub proof fn law_stale_versions_are_refused(
        &self,
        d: DraftView,
        index: u64,
        o: Seq<(Seq<char>, JsonView)>,
        annotations: Seq<(Seq<char>, JsonView)>,
        preconditions: Map<Seq<char>, PreconditionView>,
        uri: Seq<char>,
        version: int,
    )
        requires
            JsonView::Object(o).get("textDocument"@) is Some,
            JsonView::Object(o).get("textDocument"@)->0.get("uri"@) == Some(JsonView::Text(uri)),
            JsonView::Object(o).get("textDocument"@)->0.get("version"@) == Some(JsonView::Int(version)),
            !self.fold_drive_case,
        ensures
            ({
                let r = self.change_planned(d, index, JsonView::Object(o), annotations, preconditions).0;
                r.operations != d.operations ==> preconditions.dom().contains(uri) && preconditions[uri].version
                    == version && i64::MIN <= version <= i64::MAX && r.operations.last() is Text
                    && r.workspace.before.dom().contains(r.operations.last()->Text_path)
                    && r.workspace.before[r.operations.last()->Text_path].content_digest == Some(
                    preconditions[uri].digest,
                )
            }),
    {
    }

    /// A draft without problems becomes a plan wherever it keeps to the limits
    /// and everything that it touches was seen; the plan holds the draft's
    /// operations.
    pub proof fn law_drafts_within_limits_become_plans(&self, d: DraftView, annotations: JsonView)
        ensures
            ({
                let touched = crate::sorted::listing::<crate::path::NativePath>(d.workspace.affected);
                let within = touched.len() <= self.mutation_limits.max_entries && d.workspace.rollback_bytes
                    <= self.mutation_limits.max_rollback_bytes && d.new_text_bytes
                    <= self.mutation_limits.max_staged_text_bytes && d.new_text_bytes
                    <= self.preview_limits.max_text_bytes;
                let outcome = self.concluded(d, annotations);
                &&& d.problems.len() > 0 || !within ==> outcome is Refused
                &&& d.problems.len() == 0 && within && self.before_completed(d.workspace.before, touched, 0) is Ok
                    ==> outcome is Planned && outcome->Planned_0.plan.operations == d.operations
                    && outcome->Planned_0.annotations == annotations
                    && outcome->Planned_0.plan.intended_manifest.len() == touched.len()
            }),
    {
    }

    /// An edit that says nothing plans nothing.
    pub proof fn law_empty_edits_plan_nothing(&self, preconditions: Map<Seq<char>, PreconditionView>)
        ensures
            self.edit_planned(JsonView::Object(seq![]), preconditions) matches OutcomeView::Planned(p)
                ==> p.plan.operations.len() == 0 && p.summary.creates == 0 && p.summary.deletes == 0
                && p.summary.renames == 0 && p.summary.text_edits == 0,
    {
        assert(empty_draft().operations.len() == 0);
    }
}

/// What a deletion does at a path whose tree is known: what is there goes, with
/// everything below it; a directory that holds something only where that is
/// asked for; and what is not there is ignored or refused as the options say.
pub proof fn law_deletions_remove_trees(
    d: DraftView,
    index: u64,
    uri: Seq<char>,
    path: PathView,
    recursive: bool,
    ignore: bool,
    other: PathView,
)
    ensures
        ({
            let source = d.workspace.entries[path].manifest;
            let held = known_paths(d.workspace).filter(existing_in_tree(d.workspace, path)).len() > 1;
            let directory = source.resource_kind == ResourceKind::Directory;
            let r = delete_loaded(d, index, uri, path, recursive, ignore);
            &&& r.1 is None
            &&& !source.exists && ignore ==> r.0 == d
            &&& !source.exists && !ignore ==> r.0.operations == d.operations && r.0.problems.len() == d.problems.len()
                + 1 && r.0.problems.last().code == "source_missing"@
            &&& source.exists && directory && held && !recursive ==> r.0.operations == d.operations
                && r.0.problems.len() == d.problems.len() + 1 && r.0.problems.last().code == "directory_not_empty"@
            &&& source.exists && (!directory || !held || recursive) ==> {
                &&& r.0.problems == d.problems
                &&& r.0.operations == d.operations.push(
                    OperationView::Delete { index, uri, path, recursive, ignore_if_not_exists: ignore },
                )
                &&& d.workspace.entries.dom().contains(other) && path.is_prefix_of(other)
                    ==> !r.0.workspace.entries[other].manifest.exists
                &&& d.workspace.entries.dom().contains(other) && !path.is_prefix_of(other)
                    ==> r.0.workspace.entries[other] == d.workspace.entries[other]
                &&& delete_choice(true, directory, held, recursive, ignore) is SetAside
            }
        }),
{
    assert(DeleteStep::SetAside is SetAside);
}

} // verus!
