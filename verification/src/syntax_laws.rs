//! Which edits are accepted as they are written, and what a plan records.

use vstd::prelude::*;

use crate::edit_syntax::{
    annotation_problem,
    edit_range,
    first_non_boolean,
    first_unknown,
    flag,
    keys_problem,
    operation_problem,
    parsed_edit,
    position_of,
};
use crate::json::{JsonView, field, lemma_field_at};
use crate::manifest::{ManifestView, PathView, ResourceKind};
use crate::path::NativePath;
use crate::plan::{PreconditionView, ProblemView, WorkspaceView};
use crate::plan_edit::{changed_count, intended_at, intended_in_order, manifest_in_order, precondition_of};
use crate::position::{PositionEncoding, position_offset};
use crate::sorted::{lemma_listing_exists, listing, lists_keys};

verus! {

/// Whether every field has a name that is allowed.
pub open spec fn all_allowed(o: Seq<(Seq<char>, JsonView)>, allowed: Seq<Seq<char>>) -> bool {
    forall|i: int| 0 <= i < o.len() ==> allowed.contains((#[trigger] o[i]).0)
}

/// Whether every value is true or false.
pub open spec fn all_boolean(o: Seq<(Seq<char>, JsonView)>) -> bool {
    forall|i: int| 0 <= i < o.len() ==> (#[trigger] o[i]).1 is Bool
}

proof fn lemma_first_unknown(o: Seq<(Seq<char>, JsonView)>, allowed: Seq<Seq<char>>)
    ensures
        first_unknown(o, allowed) is None <==> all_allowed(o, allowed),
        first_unknown(o, allowed) matches Some(key) ==> !allowed.contains(key) && exists|i: int|
            0 <= i < o.len() && (#[trigger] o[i]).0 == key && all_allowed(o.take(i), allowed),
    decreases o.len(),
{
    if o.len() > 0 {
        let rest = o.drop_first();
        lemma_first_unknown(rest, allowed);
        if !allowed.contains(o[0].0) {
            assert(all_allowed(o.take(0), allowed));
        } else if first_unknown(rest, allowed) is Some {
            let key = first_unknown(rest, allowed)->0;
            let i = choose|i: int|
                0 <= i < rest.len() && (#[trigger] rest[i]).0 == key && all_allowed(rest.take(i), allowed);
            assert(o[i + 1] == rest[i]);
            assert forall|k: int| 0 <= k < o.take(i + 1).len() implies allowed.contains(
                (#[trigger] o.take(i + 1)[k]).0,
            ) by {
                if k > 0 {
                    assert(rest.take(i)[k - 1] == o.take(i + 1)[k]);
                }
            }
            assert(!all_allowed(o, allowed)) by {
                assert(!allowed.contains(o[i + 1].0));
            }
        } else {
            assert forall|k: int| 0 <= k < o.len() implies allowed.contains((#[trigger] o[k]).0) by {
                if k > 0 {
                    assert(rest[k - 1] == o[k]);
                }
            }
        }
    }
}

/// An object is accepted exactly where every field is known; else the first
/// that is not is named.
pub proof fn law_unknown_fields_are_refused(o: Seq<(Seq<char>, JsonView)>, allowed: Seq<Seq<char>>, index: Option<u64>)
    ensures
        keys_problem(o, allowed, index) is None <==> all_allowed(o, allowed),
        keys_problem(o, allowed, index) matches Some(p) ==> p.code == "unknown_operation"@ && p.operation_index == index
            && (p.data matches Some(data) && (data.get("field"@) matches Some(JsonView::Text(key))
            && !allowed.contains(key) && exists|i: int|
            0 <= i < o.len() && (#[trigger] o[i]).0 == key && all_allowed(o.take(i), allowed))),
{
    lemma_first_unknown(o, allowed);
    if let Some(p) = keys_problem(o, allowed, index) {
        lemma_field_at(p.data->0->Object_0, 0, "field"@);
    }
}

proof fn lemma_first_non_boolean(o: Seq<(Seq<char>, JsonView)>)
    ensures
        first_non_boolean(o) is None <==> all_boolean(o),
    decreases o.len(),
{
    if o.len() > 0 {
        let rest = o.drop_first();
        lemma_first_non_boolean(rest);
        if o[0].1 is Bool {
            if all_boolean(rest) {
                assert forall|k: int| 0 <= k < o.len() implies (#[trigger] o[k]).1 is Bool by {
                    if k > 0 {
                        assert(rest[k - 1] == o[k]);
                    }
                }
            } else {
                let k = choose|k: int| 0 <= k < rest.len() && !((#[trigger] rest[k]).1 is Bool);
                assert(!(o[k + 1].1 is Bool));
            }
        }
    }
}

/// An operation on a file is accepted exactly where its fields are known and
/// its options, if any, are known and each true or false.
pub proof fn law_operations_are_accepted(
    o: Seq<(Seq<char>, JsonView)>,
    allowed: Seq<Seq<char>>,
    allowed_options: Seq<Seq<char>>,
    index: u64,
)
    ensures
        operation_problem(o, allowed, allowed_options, index) is None <==> all_allowed(o, allowed) && (field(
            o,
            "options"@,
        ) is None || field(o, "options"@) == Some(JsonView::Null) || (field(
            o,
            "options"@,
        ) matches Some(JsonView::Object(options)) && all_allowed(options, allowed_options) && all_boolean(options))),
        operation_problem(o, allowed, allowed_options, index) matches Some(p) ==> p.code == "unknown_operation"@
            && p.operation_index == Some(index),
{
    lemma_first_unknown(o, allowed);
    if let Some(JsonView::Object(options)) = field(o, "options"@) {
        lemma_first_unknown(options, allowed_options);
        lemma_first_non_boolean(options);
    }
}

/// An option is set exactly where it is given as true.
pub proof fn law_options_are_set_where_true(o: Seq<(Seq<char>, JsonView)>, options: JsonView, name: Seq<char>)
    ensures
        field(o, "options"@) is None ==> !flag(o, name),
        field(o, "options"@) == Some(options) ==> (flag(o, name) <==> options.get(name) == Some(JsonView::Bool(true))),
{
}

/// An operation may refer only to an annotation that is there.
pub proof fn law_annotations_have_to_be_there(
    o: Seq<(Seq<char>, JsonView)>,
    annotations: Seq<(Seq<char>, JsonView)>,
    index: u64,
    id: Seq<char>,
)
    ensures
        field(o, "annotationId"@) is None ==> annotation_problem(o, annotations, index) is None,
        field(o, "annotationId"@) == Some(JsonView::Text(id)) ==> (annotation_problem(o, annotations, index) is None
            <==> field(annotations, id) is Some),
        annotation_problem(o, annotations, index) matches Some(p) ==> p.code == "missing_annotation"@,
{
}

/// A position is read as its line and its character, where both are numbers
/// that a position can have.
pub proof fn law_positions_are_read(value: JsonView, line: int, character: int)
    ensures
        value.get("line"@) == Some(JsonView::Int(line)) && value.get("character"@) == Some(JsonView::Int(character))
            && 0 <= line <= u32::MAX && 0 <= character <= u32::MAX ==> position_of(Some(value)) == Some(
            (line as nat, character as nat),
        ),
        value.get("line"@) == Some(JsonView::Int(line)) && (line < 0 || line > u32::MAX) ==> position_of(Some(value))
            is None,
        value.get("character"@) == Some(JsonView::Int(character)) && (character < 0 || character > u32::MAX)
            ==> position_of(Some(value)) is None,
        value.get("line"@) is None || value.get("character"@) is None ==> position_of(Some(value)) is None,
        position_of(None) is None,
{
}

/// A range goes from the offset of its start to that of its end, and one that
/// ends before it starts is refused.
pub proof fn law_ranges_are_read(
    text: Seq<char>,
    range: JsonView,
    encoding: PositionEncoding,
    index: u64,
    path: PathView,
    start: (nat, nat),
    end: (nat, nat),
)
    requires
        position_of(range.get("start"@)) == Some(start),
        position_of(range.get("end"@)) == Some(end),
    ensures
        ({
            let from = position_offset(text, start.0, start.1, encoding);
            let to = position_offset(text, end.0, end.1, encoding);
            &&& from is Some && to is Some && from->0 <= to->0 ==> edit_range(text, range, encoding, index, path) == Ok::<
                (nat, nat),
                ProblemView,
            >((from->0, to->0))
            &&& from is None || to is None || to->0 < from->0 ==> (edit_range(
                text,
                range,
                encoding,
                index,
                path,
            ) matches Err(p) && p.code == "invalid_range"@ && p.path == Some(path))
        }),
{
}

/// An edit with a snippet is refused, and so is what is no object or has no
/// text to put in.
pub proof fn law_snippets_are_refused(
    text: Seq<char>,
    edit: JsonView,
    annotations: Seq<(Seq<char>, JsonView)>,
    encoding: PositionEncoding,
    index: u64,
    path: PathView,
    ordinal: nat,
)
    ensures
        edit.get("snippet"@) is Some || edit.get("insertTextFormat"@) is Some ==> parsed_edit(
            text,
            edit,
            annotations,
            encoding,
            index,
            path,
            ordinal,
        ) is Err,
        !(edit is Object) ==> parsed_edit(text, edit, annotations, encoding, index, path, ordinal) is Err,
        edit.get("newText"@) is None ==> parsed_edit(text, edit, annotations, encoding, index, path, ordinal) is Err,
        edit.get("range"@) is None ==> parsed_edit(text, edit, annotations, encoding, index, path, ordinal) is Err,
{
}

/// An edit of a version of a document rests on what is known of that version
/// of that document, and of no other.
pub proof fn law_versions_are_known_by_document(
    preconditions: Map<Seq<char>, PreconditionView>,
    uri: Seq<char>,
    version: i64,
    fold_drive_case: bool,
)
    ensures
        preconditions.dom().contains(uri) && preconditions[uri].version == version ==> precondition_of(
            preconditions,
            uri,
            version,
            fold_drive_case,
        ) == Some(preconditions[uri]),
        preconditions.dom().contains(uri) && preconditions[uri].version != version ==> precondition_of(
            preconditions,
            uri,
            version,
            fold_drive_case,
        ) is None,
        !preconditions.dom().contains(uri) ==> precondition_of(preconditions, uri, version, false) is None,
{
}

/// Whether something was found so.
pub open spec fn was_found(before: Map<PathView, ManifestView>, entry: ManifestView) -> bool {
    exists|p: PathView| #[trigger] before.dom().contains(p) && entry == before[p]
}

/// A plan records every path that was taken up, as it was found.
pub proof fn law_plans_record_what_was_found(before: Map<PathView, ManifestView>, path: PathView)
    requires
        before.dom().finite(),
    ensures
        before.dom().contains(path) ==> exists|i: int|
            0 <= i < manifest_in_order(before).len() && #[trigger] manifest_in_order(before)[i] == before[path],
        forall|i: int|
            0 <= i < manifest_in_order(before).len() ==> was_found(before, #[trigger] manifest_in_order(before)[i]),
{
    let paths = listing::<NativePath>(before.dom());
    lemma_listing_exists::<NativePath>(before.dom());
    assert(lists_keys::<NativePath>(paths, before.dom()));
    let list = manifest_in_order(before);
    if before.dom().contains(path) {
        assert(paths.contains(path));
        let i = choose|i: int| 0 <= i < paths.len() && paths[i] == path;
        assert(list[i] == before[path]);
    }
    assert forall|i: int| 0 <= i < list.len() implies was_found(before, #[trigger] list[i]) by {
        assert(paths.contains(paths[i]));
        assert(before.dom().contains(paths[i]) && list[i] == before[paths[i]]);
    }
}

/// A plan records every path that it touches as it is to be, and what it does
/// not know as missing.
pub proof fn law_plans_record_what_is_intended(ws: WorkspaceView, path: PathView)
    requires
        ws.affected.finite(),
    ensures
        ws.affected.contains(path) ==> exists|i: int|
            0 <= i < intended_in_order(ws).len() && #[trigger] intended_in_order(ws)[i] == intended_at(ws, path),
        ws.entries.dom().contains(path) && ws.entries[path].manifest.resource_kind != ResourceKind::Directory
            ==> intended_at(ws, path) == ws.entries[path].manifest,
        ws.entries.dom().contains(path) ==> intended_at(ws, path).exists == ws.entries[path].manifest.exists
            && intended_at(ws, path).resource_kind == ws.entries[path].manifest.resource_kind,
        !ws.entries.dom().contains(path) ==> !intended_at(ws, path).exists && intended_at(ws, path).path == path,
{
    let paths = listing::<NativePath>(ws.affected);
    lemma_listing_exists::<NativePath>(ws.affected);
    assert(lists_keys::<NativePath>(paths, ws.affected));
    if ws.affected.contains(path) {
        assert(paths.contains(path));
        let i = choose|i: int| 0 <= i < paths.len() && paths[i] == path;
        assert(intended_in_order(ws)[i] == intended_at(ws, path));
    }
}

/// A file counts as changed exactly where it is not to be as it was.
pub proof fn law_changed_files_are_counted(ws: WorkspaceView, paths: Seq<PathView>, n: int)
    requires
        0 <= n < paths.len(),
    ensures
        changed_count(ws, paths, 0) == 0,
        ws.before.dom().contains(paths[n]) && ws.before[paths[n]] == intended_at(ws, paths[n]) ==> changed_count(
            ws,
            paths,
            n + 1,
        ) == changed_count(ws, paths, n),
        !ws.before.dom().contains(paths[n]) || ws.before[paths[n]] != intended_at(ws, paths[n]) ==> changed_count(
            ws,
            paths,
            n + 1,
        ) == changed_count(ws, paths, n) + 1,
{
}

} // verus!
