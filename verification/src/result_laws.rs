//! What the reported answers of Queries have to do with what servers answer.

use vstd::prelude::*;

use crate::failure::FailureView;
use crate::json::{
    JsonView,
    field,
    lemma_field_set,
    lemma_field_set_twice,
    with_field,
};
use crate::query_command::QueryCommand;
use crate::query_results::{
    extended,
    first_other,
    joined_related,
    joined_reports,
    joined_rows,
    merged,
    normalized,
    related_of,
    with_reported_item,
    with_reported_items,
    with_reported_uri,
};
use crate::uri::{file_uri_of_uri, scheme_of_uri};

verus! {

/// Whether one object is another with the URI in one field respelled: the URI
/// of the native path for a file, and as it was for anything else. Every other
/// field is the same.
pub open spec fn respelled(before: JsonView, after: JsonView, name: Seq<char>) -> bool {
    &&& before is Object && after is Object
    &&& before.get(name) matches Some(JsonView::Text(uri)) && after.get(name) matches Some(JsonView::Text(spelled)) && {
        &&& scheme_of_uri(uri) is Some
        &&& scheme_of_uri(uri) == Some("file"@) ==> file_uri_of_uri(uri) == Some(spelled)
        &&& scheme_of_uri(uri) != Some("file"@) ==> spelled == uri
    }
    &&& forall|key: Seq<char>| key != name ==> #[trigger] after.get(key) == before.get(key)
}

/// Whether the URI in a field of an object can be reported: it is a URI, and
/// that of a native path where it is one of a file.
pub open spec fn reportable(object: JsonView, name: Seq<char>) -> bool {
    object.get(name) matches Some(JsonView::Text(uri)) && scheme_of_uri(uri) is Some && (scheme_of_uri(uri) == Some(
        "file"@,
    ) ==> file_uri_of_uri(uri) is Some)
}

/// Whether an item of a reported answer is the item that the server gave, up to
/// the spelling of its URI.
pub open spec fn same_item(c: QueryCommand, before: JsonView, after: JsonView) -> bool {
    match c {
        QueryCommand::Definition => if before.get("targetUri"@) is Some {
            respelled(before, after, "targetUri"@)
        } else {
            respelled(before, after, "uri"@)
        },
        QueryCommand::References => respelled(before, after, "uri"@),
        QueryCommand::DocumentSymbols | QueryCommand::WorkspaceSymbols => match before.get("location"@) {
            None => after == before,
            Some(location) => {
                &&& after.get("location"@) is Some && respelled(location, after.get("location"@)->0, "uri"@)
                &&& forall|key: Seq<char>| key != "location"@ ==> #[trigger] after.get(key) == before.get(key)
            },
        },
        _ => after == before,
    }
}

/// Whether an item of an answer can be reported.
pub open spec fn reportable_item(c: QueryCommand, item: JsonView) -> bool {
    match c {
        QueryCommand::Definition => if item.get("targetUri"@) is Some {
            reportable(item, "targetUri"@)
        } else {
            reportable(item, "uri"@)
        },
        QueryCommand::References => reportable(item, "uri"@),
        QueryCommand::DocumentSymbols | QueryCommand::WorkspaceSymbols => item.get("location"@) matches Some(l)
            ==> reportable(l, "uri"@),
        _ => true,
    }
}

/// Whether a Query is answered with a row of items.
pub open spec fn answers_in_rows(c: QueryCommand) -> bool {
    c == QueryCommand::Definition || c == QueryCommand::References || c == QueryCommand::DocumentSymbols || c
        == QueryCommand::WorkspaceSymbols || c == QueryCommand::CodeActions || c == QueryCommand::Format
}

proof fn lemma_respelled(object: JsonView, name: Seq<char>, method: Seq<char>, path: Seq<char>)
    ensures
        with_reported_uri(object, name, method, path) is Ok <==> reportable(object, name),
        with_reported_uri(object, name, method, path) matches Ok(after) ==> respelled(object, after, name),
{
    if let Ok(after) = with_reported_uri(object, name, method, path) {
        let o = object->Object_0;
        let spelled = after->Object_0;
        let uri = object.get(name)->0;
        if let JsonView::Text(u) = uri {
            let w = if scheme_of_uri(u) == Some("file"@) {
                file_uri_of_uri(u)->0
            } else {
                u
            };
            assert(spelled == with_field(o, name, JsonView::Text(w)));
            assert forall|key: Seq<char>| #[trigger] after.get(key) == (if key == name {
                Some(JsonView::Text(w))
            } else {
                object.get(key)
            }) by {
                lemma_field_set(o, name, JsonView::Text(w), key);
            }
        }
    }
}

proof fn lemma_same_item(c: QueryCommand, item: JsonView, i: int)
    requires
        answers_in_rows(c),
    ensures
        with_reported_item(c, item, i) is Ok <==> reportable_item(c, item),
        with_reported_item(c, item, i) matches Ok(after) ==> same_item(c, item, after),
{
    assert forall|object: JsonView, name: Seq<char>, method: Seq<char>, path: Seq<char>|
        ((#[trigger] with_reported_uri(object, name, method, path)) is Ok <==> reportable(object, name)) && (
        with_reported_uri(object, name, method, path) matches Ok(after) ==> respelled(object, after, name)) by {
        lemma_respelled(object, name, method, path);
    }
    if c == QueryCommand::DocumentSymbols || c == QueryCommand::WorkspaceSymbols {
        if let Ok(after) = with_reported_item(c, item, i) {
            if item.get("location"@) is Some {
                let o = item->Object_0;
                let l = choose|l: JsonView| after == JsonView::Object(with_field(o, "location"@, l)) && respelled(
                    item.get("location"@)->0,
                    l,
                    "uri"@,
                );
                assert forall|key: Seq<char>| #[trigger] after.get(key) == (if key == "location"@ {
                    Some(l)
                } else {
                    item.get(key)
                }) by {
                    lemma_field_set(o, "location"@, l, key);
                }
            }
        }
    }
}

proof fn lemma_same_items(c: QueryCommand, items: Seq<JsonView>)
    requires
        answers_in_rows(c),
    ensures
        with_reported_items(c, items) is Ok <==> forall|i: int|
            0 <= i < items.len() ==> reportable_item(c, #[trigger] items[i]),
        with_reported_items(c, items) matches Ok(after) ==> after.len() == items.len() && forall|i: int|
            0 <= i < items.len() ==> same_item(c, #[trigger] items[i], after[i]),
    decreases items.len(),
{
    if items.len() > 0 {
        let rest = items.drop_last();
        lemma_same_items(c, rest);
        lemma_same_item(c, items.last(), items.len() - 1);
        if with_reported_items(c, items) is Ok {
            assert forall|i: int| 0 <= i < items.len() implies reportable_item(c, #[trigger] items[i]) by {
                if i < rest.len() {
                    assert(reportable_item(c, rest[i]));
                }
            }
            let after = with_reported_items(c, items)->Ok_0;
            let done = with_reported_items(c, rest)->Ok_0;
            assert forall|i: int| 0 <= i < items.len() implies same_item(c, #[trigger] items[i], after[i]) by {
                if i < rest.len() {
                    assert(same_item(c, rest[i], done[i]));
                }
            }
        } else if forall|i: int| 0 <= i < items.len() ==> reportable_item(c, #[trigger] items[i]) {
            assert forall|i: int| 0 <= i < rest.len() implies reportable_item(c, #[trigger] rest[i]) by {
                assert(reportable_item(c, items[i]));
            }
            assert(reportable_item(c, items[items.len() - 1]));
        }
    }
}

proof fn lemma_all_objects(items: Seq<JsonView>, from: int)
    requires
        0 <= from <= items.len(),
    ensures
        first_other(items, from) is None <==> forall|i: int| from <= i < items.len() ==> (#[trigger] items[i]) is Object,
    decreases items.len() - from,
{
    if from < items.len() {
        lemma_all_objects(items, from + 1);
        if first_other(items, from) is None {
            assert forall|i: int| from <= i < items.len() implies (#[trigger] items[i]) is Object by {}
        }
    }
}

/// The items of a row that a server answers are reported one for one and in
/// their order, each as it came but for the spelling of its URI. The row is
/// refused exactly where an item is no object or has a URI that cannot be
/// reported.
pub proof fn law_rows_are_reported_item_by_item(c: QueryCommand, items: Seq<JsonView>)
    requires
        answers_in_rows(c),
    ensures
        normalized(c, JsonView::Array(items)) matches Ok(v) ==> (v matches JsonView::Array(after) && after.len()
            == items.len() && forall|i: int| 0 <= i < items.len() ==> same_item(c, #[trigger] items[i], after[i])),
        normalized(c, JsonView::Array(items)) is Ok <==> forall|i: int|
            0 <= i < items.len() ==> reportable_item(c, #[trigger] items[i]) && (c != QueryCommand::Definition
                ==> items[i] is Object),
{
    lemma_same_items(c, items);
    lemma_all_objects(items, 0);
    if c != QueryCommand::Definition && normalized(c, JsonView::Array(items)) is Ok {
        assert forall|i: int| 0 <= i < items.len() implies reportable_item(c, #[trigger] items[i]) && items[i]
            is Object by {}
    }
}

/// One place alone is reported like a row that holds it; the content of a hover
/// and the range of a name to change are reported in a row, as they came; and
/// no answer at all is an empty row.
pub proof fn law_single_answers_become_rows(c: QueryCommand, o: Seq<(Seq<char>, JsonView)>)
    ensures
        normalized(QueryCommand::Definition, JsonView::Object(o)) == normalized(
            QueryCommand::Definition,
            JsonView::Array(seq![JsonView::Object(o)]),
        ),
        c == QueryCommand::Hover || c == QueryCommand::PrepareRename ==> (normalized(c, JsonView::Object(o)) matches Ok(v)
            && v matches JsonView::Array(after) && after.len() == 1 && after[0] == JsonView::Object(o)),
        answers_in_rows(c) || c == QueryCommand::Hover || c == QueryCommand::PrepareRename ==> (normalized(
            c,
            JsonView::Null,
        ) matches Ok(v) && v matches JsonView::Array(after) && after.len() == 0),
{
}

/// An answer that is not reported in a row is reported as it came, and an
/// answer of another form than the protocol gives it is refused.
pub proof fn law_other_answers_stay_as_they_are(c: QueryCommand, result: JsonView)
    requires
        !answers_in_rows(c),
        c != QueryCommand::Hover,
        c != QueryCommand::PrepareRename,
    ensures
        normalized(c, result) matches Ok(v) ==> v == result,
        c == QueryCommand::Rename ==> (normalized(c, result) is Ok <==> result is Null || result is Object),
        c == QueryCommand::ResolveCodeAction ==> (normalized(c, result) is Ok <==> result is Object),
        c == QueryCommand::ExecuteCommand ==> normalized(c, result) is Ok,
        c == QueryCommand::DocumentDiagnostics && result.get("relatedDocuments"@) is None ==> (normalized(c, result)
            is Ok <==> result is Object && (result.get("kind"@) == Some(JsonView::Text("full"@)) && result.get("items"@)
            is Some && result.get("items"@)->0 is Array || result.get("kind"@) == Some(JsonView::Text("unchanged"@))
            && result.get("resultId"@) is Some && result.get("resultId"@)->0 is Text)),
        c == QueryCommand::WorkspaceDiagnostics && normalized(c, result) is Ok ==> result.get("items"@) is Some
            && result.get("items"@)->0 is Array,
{
    reveal_strlit("full");
    reveal_strlit("unchanged");
    assert("full"@.len() == 4);
    assert("unchanged"@.len() == 9);
}

/// What is no row, object or null where one is expected is refused.
pub proof fn law_scalars_are_refused(c: QueryCommand, result: JsonView)
    requires
        answers_in_rows(c) || c == QueryCommand::Hover || c == QueryCommand::PrepareRename || c
            == QueryCommand::ResolveCodeAction || c == QueryCommand::Rename,
        result is Bool || result is Int || result is Text || result is Decimal,
    ensures
        normalized(c, result) is Err,
{
}

proof fn lemma_rows_joined(parts: Seq<JsonView>, more: Seq<JsonView>)
    ensures
        joined_rows(parts.push(JsonView::Array(more))) == (match joined_rows(parts) {
            Ok(items) => Ok::<Seq<JsonView>, int>(items + more),
            Err(i) => Err::<Seq<JsonView>, int>(i),
        }),
{
    assert(parts.push(JsonView::Array(more)).drop_last() =~= parts);
}

/// The last part of an answer in parts and the rest of the answer are together
/// what one answer with the items of both would be, the part's items first;
/// and an answer of nothing behind its parts is an empty rest.
pub proof fn law_parts_join_the_answer(
    c: QueryCommand,
    parts: Seq<JsonView>,
    more: Seq<JsonView>,
    items: Seq<JsonView>,
)
    requires
        c == QueryCommand::References || c == QueryCommand::WorkspaceSymbols || c == QueryCommand::CodeActions,
    ensures
        merged(c, JsonView::Array(items), parts.push(JsonView::Array(more))) == merged(
            c,
            JsonView::Array(more + items),
            parts,
        ),
        parts.len() > 0 ==> merged(c, JsonView::Null, parts) == merged(c, JsonView::Array(seq![]), parts),
        merged(c, JsonView::Array(items), seq![]) == Ok::<JsonView, FailureView>(JsonView::Array(items)),
{
    lemma_rows_joined(parts, more);
    if parts.len() == 0 {
        assert(parts =~= seq![]);
        assert(seq![] + more + items =~= more + items);
    } else if let Ok(front) = joined_rows(parts) {
        assert(front + more + items =~= front + (more + items));
    }
}

/// The last part of a report on a workspace and the rest of the report are
/// together what one report with the items of both would be, the part's items
/// first.
pub proof fn law_partial_reports_join_the_report(
    parts: Seq<JsonView>,
    part: JsonView,
    o: Seq<(Seq<char>, JsonView)>,
    more: Seq<JsonView>,
    items: Seq<JsonView>,
)
    requires
        part.get("items"@) == Some(JsonView::Array(more)),
    ensures
        ({
            let c = QueryCommand::WorkspaceDiagnostics;
            merged(
                c,
                JsonView::Object(with_field(o, "items"@, JsonView::Array(items))),
                parts.push(part),
            ) == merged(c, JsonView::Object(with_field(o, "items"@, JsonView::Array(more + items))), parts)
        }),
{
    let c = QueryCommand::WorkspaceDiagnostics;
    assert(parts.push(part).drop_last() =~= parts);
    lemma_field_set(o, "items"@, JsonView::Array(items), "items"@);
    lemma_field_set(o, "items"@, JsonView::Array(more + items), "items"@);
    if let Ok(front) = joined_reports(parts) {
        assert(front + more + items =~= front + (more + items));
        lemma_field_set_twice(
            o,
            "items"@,
            JsonView::Array(items),
            JsonView::Array(front + more + items),
        );
        lemma_field_set_twice(
            o,
            "items"@,
            JsonView::Array(more + items),
            JsonView::Array(front + (more + items)),
        );
    }
    if parts.len() == 0 {
        assert(seq![] + more + items =~= more + items);
    }
}

/// Whether no two fields share a name.
pub open spec fn named_once(o: Seq<(Seq<char>, JsonView)>) -> bool {
    forall|i: int, j: int| 0 <= i < j < o.len() ==> (#[trigger] o[i]).0 != (#[trigger] o[j]).0
}

proof fn lemma_extended_field(
    o: Seq<(Seq<char>, JsonView)>,
    more: Seq<(Seq<char>, JsonView)>,
    name: Seq<char>,
)
    requires
        named_once(more),
    ensures
        field(extended(o, more), name) == (if field(more, name) is Some {
            field(more, name)
        } else {
            field(o, name)
        }),
    decreases more.len(),
{
    if more.len() > 0 {
        let rest = more.drop_last();
        assert forall|i: int, j: int| 0 <= i < j < rest.len() implies (#[trigger] rest[i]).0 != (#[trigger] rest[j]).0 by {
            assert(more[i].0 != more[j].0);
        }
        lemma_extended_field(o, rest, name);
        lemma_field_set(extended(o, rest), more.last().0, more.last().1, name);
        assert(more =~= rest + seq![more.last()]);
        crate::json::lemma_field_concat(rest, seq![more.last()], name);
        if name == more.last().0 {
            assert forall|j: int| 0 <= j < rest.len() implies (#[trigger] rest[j]).0 != name by {
                assert(more[j].0 != more[more.len() - 1].0);
            }
            crate::json::lemma_field_missing(rest, name);
            crate::json::lemma_field_at(seq![more.last()], 0, name);
        } else {
            crate::json::lemma_field_missing(seq![more.last()], name);
        }
    }
}

/// Of a document that several parts of a report tell of, the rest of the report
/// counts before the parts, and a later part before earlier ones; what none of
/// them tells of is not told of.
pub proof fn law_later_reports_count(
    parts: Seq<JsonView>,
    part: JsonView,
    result: JsonView,
    uri: Seq<char>,
    told: Seq<(Seq<char>, JsonView)>,
)
    requires
        result is Object,
        part.get("relatedDocuments"@) == Some(JsonView::Object(told)),
        named_once(told),
        result.get("relatedDocuments"@) matches Some(JsonView::Object(o)) ==> named_once(o),
        merged(QueryCommand::DocumentDiagnostics, result, parts.push(part)) is Ok,
    ensures
        ({
            let v = merged(QueryCommand::DocumentDiagnostics, result, parts.push(part))->Ok_0;
            let found = match v.get("relatedDocuments"@) {
                Some(related) => related.get(uri),
                None => None,
            };
            let own = match result.get("relatedDocuments"@) {
                Some(related) => related.get(uri),
                None => None,
            };
            &&& own is Some ==> found == own
            &&& own is None && field(told, uri) is Some ==> found == field(told, uri)
            &&& forall|key: Seq<char>| key != "relatedDocuments"@ ==> #[trigger] v.get(key) == result.get(key)
        }),
{
    let all = parts.push(part);
    assert(all.drop_last() =~= parts);
    let v = merged(QueryCommand::DocumentDiagnostics, result, all)->Ok_0;
    let front = joined_related(parts)->Ok_0;
    let o = joined_related(all)->Ok_0;
    assert(o == extended(front, told));
    lemma_extended_field(front, told, uri);
    let report = result->Object_0;
    let related = match related_of(result) {
        Some(more) => extended(o, more),
        None => o,
    };
    if let Some(more) = related_of(result) {
        lemma_extended_field(o, more, uri);
    }
    if related.len() > 0 {
        assert forall|key: Seq<char>| #[trigger] v.get(key) == (if key == "relatedDocuments"@ {
            Some(JsonView::Object(related))
        } else {
            result.get(key)
        }) by {
            lemma_field_set(report, "relatedDocuments"@, JsonView::Object(related), key);
        }
    }
}

} // verus!
