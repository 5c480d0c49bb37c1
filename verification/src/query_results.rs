//! What language servers answer to Queries, checked and brought into one form.

use vstd::prelude::*;

use crate::failure::{ContractFailure, FailureView, failed, failure, result_view};
use crate::json::{
    Json,
    JsonView,
    array_view,
    copy_fields,
    object3,
    object_view,
    set_field,
    text_value,
    with_field,
};
use crate::query_command::{QueryCommand, command_method};
use crate::text::{concat, concat3, decimal, decimal_text, opt_ref_view, quoted, quoted_text, same};
use crate::uri::{file_uri_of_uri, scheme_of_uri, uri_of_file_path, uri_scheme};

verus! {

/// The failure of an answer that is not what the protocol says.
pub open spec fn invalid_failed(method: Seq<char>, expected: Seq<char>, path: Seq<char>) -> FailureView {
    failed(
        5,
        "query"@,
        "invalid_server_result"@,
        "The "@ + method + " result did not match "@ + expected + "."@,
        "validate_result"@,
        "sent"@,
        "after_change"@,
        JsonView::Object(
            seq![
                ("expected"@, JsonView::Text(expected)),
                ("jsonPath"@, JsonView::Text(path)),
                ("method"@, JsonView::Text(method)),
            ],
        ),
    )
}

/// The failure of an answer that is not what the protocol says.
pub fn invalid_result(method: &str, expected: &str, json_path: &str) -> (r: ContractFailure)
    ensures
        r@ == invalid_failed(method@, expected@, json_path@),
{
    let start: String = concat3("The ", method, " result did not match ");
    let message: String = concat3(start.as_str(), expected, ".");
    failure(
        5,
        "query",
        "invalid_server_result",
        message.as_str(),
        "validate_result",
        "sent",
        "after_change",
        object3(
            "expected",
            text_value(expected),
            "jsonPath",
            text_value(json_path),
            "method",
            text_value(method),
        ),
    )
}

/// A place in a row: what stands before it, its number in brackets, and what
/// stands behind it.
pub open spec fn place_in(before: Seq<char>, i: int, behind: Seq<char>) -> Seq<char> {
    before + "["@ + decimal_text(i as nat) + "]"@ + behind
}

pub(crate) fn place(before: &str, i: usize, behind: &str) -> (r: String)
    ensures
        r@ == place_in(before@, i as int, behind@),
{
    let number: String = decimal(i as u64);
    let start: String = concat3(before, "[", number.as_str());
    concat3(start.as_str(), "]", behind)
}

/// The items of a row, where a value is one.
pub open spec fn items_of(v: JsonView) -> Option<Seq<JsonView>> {
    match v {
        JsonView::Array(items) => Some(items),
        _ => None,
    }
}

/// The items of the field `items`, where it is a row.
pub open spec fn report_items(v: JsonView) -> Option<Seq<JsonView>> {
    match v.get("items"@) {
        Some(items) => items_of(items),
        None => None,
    }
}

/// The fields of the field `relatedDocuments`, where it is an object.
pub open spec fn related_of(v: JsonView) -> Option<Seq<(Seq<char>, JsonView)>> {
    match v.get("relatedDocuments"@) {
        Some(JsonView::Object(o)) => Some(o),
        _ => None,
    }
}

/// The items of all parts in order, or the place of the first part that is no row.
pub open spec fn joined_rows(parts: Seq<JsonView>) -> Result<Seq<JsonView>, int>
    decreases parts.len(),
{
    if parts.len() == 0 {
        Ok(seq![])
    } else {
        match joined_rows(parts.drop_last()) {
            Err(i) => Err(i),
            Ok(items) => match items_of(parts.last()) {
                Some(more) => Ok(items + more),
                None => Err(parts.len() - 1),
            },
        }
    }
}

/// The items of all partial reports in order, or the place of the first part
/// without items.
pub open spec fn joined_reports(parts: Seq<JsonView>) -> Result<Seq<JsonView>, int>
    decreases parts.len(),
{
    if parts.len() == 0 {
        Ok(seq![])
    } else {
        match joined_reports(parts.drop_last()) {
            Err(i) => Err(i),
            Ok(items) => match report_items(parts.last()) {
                Some(more) => Ok(items + more),
                None => Err(parts.len() - 1),
            },
        }
    }
}

/// Fields with other fields set over them in order.
pub open spec fn extended(o: Seq<(Seq<char>, JsonView)>, more: Seq<(Seq<char>, JsonView)>) -> Seq<(Seq<char>, JsonView)>
    decreases more.len(),
{
    if more.len() == 0 {
        o
    } else {
        with_field(extended(o, more.drop_last()), more.last().0, more.last().1)
    }
}

/// The related documents of all partial reports, later ones over earlier ones,
/// or the place of the first part without any.
pub open spec fn joined_related(parts: Seq<JsonView>) -> Result<Seq<(Seq<char>, JsonView)>, int>
    decreases parts.len(),
{
    if parts.len() == 0 {
        Ok(seq![])
    } else {
        match joined_related(parts.drop_last()) {
            Err(i) => Err(i),
            Ok(o) => match related_of(parts.last()) {
                Some(more) => Ok(extended(o, more)),
                None => Err(parts.len() - 1),
            },
        }
    }
}

/// The items of an answer that is a row or null.
pub open spec fn row_or_null(v: JsonView) -> Option<Seq<JsonView>> {
    match v {
        JsonView::Array(items) => Some(items),
        JsonView::Null => Some(seq![]),
        _ => None,
    }
}

/// An answer with the parts that came before it.
pub open spec fn merged(c: QueryCommand, result: JsonView, partials: Seq<JsonView>) -> Result<JsonView, FailureView> {
    if partials.len() == 0 {
        Ok(result)
    } else {
        match c {
            QueryCommand::References | QueryCommand::WorkspaceSymbols | QueryCommand::CodeActions => {
                let method = command_method(c)->0;
                match row_or_null(result) {
                    None => Err(invalid_failed(method, "an array or null"@, "$"@)),
                    Some(last) => match joined_rows(partials) {
                        Err(i) => Err(invalid_failed(method, "an array partial result"@, place_in("$partial"@, i, ""@))),
                        Ok(items) => Ok(JsonView::Array(items + last)),
                    },
                }
            },
            QueryCommand::WorkspaceDiagnostics => {
                let method = command_method(c)->0;
                match result {
                    JsonView::Object(report) => match joined_reports(partials) {
                        Err(i) => Err(
                            invalid_failed(
                                method,
                                "a WorkspaceDiagnosticReportPartialResult object"@,
                                place_in("$partial"@, i, ""@),
                            ),
                        ),
                        Ok(items) => match report_items(result) {
                            None => Err(invalid_failed(method, "an items array"@, "$.items"@)),
                            Some(last) => Ok(
                                JsonView::Object(with_field(report, "items"@, JsonView::Array(items + last))),
                            ),
                        },
                    },
                    _ => Err(invalid_failed(method, "a WorkspaceDiagnosticReport object"@, "$"@)),
                }
            },
            QueryCommand::DocumentDiagnostics => {
                let method = command_method(c)->0;
                match result {
                    JsonView::Object(report) => match joined_related(partials) {
                        Err(i) => Err(
                            invalid_failed(
                                method,
                                "a DocumentDiagnosticReportPartialResult object"@,
                                place_in("$partial"@, i, ""@),
                            ),
                        ),
                        Ok(o) => {
                            let related = match related_of(result) {
                                Some(more) => extended(o, more),
                                None => o,
                            };
                            if related.len() == 0 {
                                Ok(result)
                            } else {
                                Ok(
                                    JsonView::Object(
                                        with_field(report, "relatedDocuments"@, JsonView::Object(related)),
                                    ),
                                )
                            }
                        },
                    },
                    _ => Err(invalid_failed(method, "a DocumentDiagnosticReport object"@, "$"@)),
                }
            },
            _ => Err(
                invalid_failed(
                    match command_method(c) {
                        Some(method) => method,
                        None => "unknown"@,
                    },
                    "no partial results for this method"@,
                    "$partial"@,
                ),
            ),
        }
    }
}

pub(crate) fn append_items(items: &mut Vec<Json>, more: &Vec<Json>)
    ensures
        array_view(final(items)@) == array_view(old(items)@) + array_view(more@),
{
    let ghost start = array_view(items@);
    let mut i: usize = 0;
    assert(start + array_view(more@).take(0) =~= start);
    while i < more.len()
        invariant
            i <= more@.len(),
            array_view(items@) == start + array_view(more@).take(i as int),
        decreases more.len() - i,
    {
        let ghost before = array_view(items@);
        items.push(more[i].copy());
        assert(array_view(items@) =~= before.push(array_view(more@)[i as int]));
        assert(array_view(more@).take(i + 1) =~= array_view(more@).take(i as int).push(array_view(more@)[i as int]));
        assert(before.push(array_view(more@)[i as int]) =~= start + array_view(more@).take(i + 1));
        i += 1;
    }
    assert(array_view(more@).take(i as int) =~= array_view(more@));
}

fn extend_fields(o: &mut Vec<(String, Json)>, more: &Vec<(String, Json)>)
    ensures
        object_view(final(o)@) == extended(object_view(old(o)@), object_view(more@)),
{
    let ghost start = object_view(o@);
    let ghost all = object_view(more@);
    let mut i: usize = 0;
    assert(all.take(0) =~= Seq::<(Seq<char>, JsonView)>::empty());
    while i < more.len()
        invariant
            i <= more@.len(),
            all == object_view(more@),
            object_view(o@) == extended(start, all.take(i as int)),
        decreases more.len() - i,
    {
        proof {
            assert(all[i as int] == (more@[i as int].0@, more@[i as int].1@));
            assert(all.take(i + 1).drop_last() =~= all.take(i as int));
            assert(all.take(i + 1).last() == all[i as int]);
        }
        set_field(o, more[i].0.as_str(), more[i].1.copy());
        i += 1;
    }
    assert(all.take(i as int) =~= all);
}

pub(crate) fn items_field(v: &Json) -> (r: Option<&Vec<Json>>)
    ensures
        match r {
            Some(items) => report_items(v@) == Some(array_view(items@)),
            None => report_items(v@) is None,
        },
{
    match v.get("items") {
        Some(Json::Array(items)) => Some(items),
        _ => None,
    }
}

pub(crate) fn related_field(v: &Json) -> (r: Option<&Vec<(String, Json)>>)
    ensures
        match r {
            Some(o) => related_of(v@) == Some(object_view(o@)),
            None => related_of(v@) is None,
        },
{
    match v.get("relatedDocuments") {
        Some(Json::Object(o)) => Some(o),
        _ => None,
    }
}

proof fn lemma_joined_rows_stop(parts: Seq<JsonView>, i: int)
    requires
        0 <= i <= parts.len(),
        joined_rows(parts.take(i)) is Err,
    ensures
        joined_rows(parts) == joined_rows(parts.take(i)),
    decreases parts.len() - i,
{
    if i < parts.len() {
        assert(parts.take(i + 1).drop_last() =~= parts.take(i));
        lemma_joined_rows_stop(parts, i + 1);
    } else {
        assert(parts.take(i) =~= parts);
    }
}

proof fn lemma_joined_reports_stop(parts: Seq<JsonView>, i: int)
    requires
        0 <= i <= parts.len(),
        joined_reports(parts.take(i)) is Err,
    ensures
        joined_reports(parts) == joined_reports(parts.take(i)),
    decreases parts.len() - i,
{
    if i < parts.len() {
        assert(parts.take(i + 1).drop_last() =~= parts.take(i));
        lemma_joined_reports_stop(parts, i + 1);
    } else {
        assert(parts.take(i) =~= parts);
    }
}

proof fn lemma_joined_related_stop(parts: Seq<JsonView>, i: int)
    requires
        0 <= i <= parts.len(),
        joined_related(parts.take(i)) is Err,
    ensures
        joined_related(parts) == joined_related(parts.take(i)),
    decreases parts.len() - i,
{
    if i < parts.len() {
        assert(parts.take(i + 1).drop_last() =~= parts.take(i));
        lemma_joined_related_stop(parts, i + 1);
    } else {
        assert(parts.take(i) =~= parts);
    }
}

fn join_rows(parts: &Vec<Json>) -> (r: Result<Vec<Json>, usize>)
    ensures
        match r {
            Ok(items) => joined_rows(array_view(parts@)) == Ok::<Seq<JsonView>, int>(array_view(items@)),
            Err(i) => joined_rows(array_view(parts@)) == Err::<Seq<JsonView>, int>(i as int),
        },
{
    let ghost all = array_view(parts@);
    let mut items: Vec<Json> = Vec::new();
    let mut i: usize = 0;
    assert(all.take(0) =~= Seq::<JsonView>::empty());
    assert(array_view(items@) =~= Seq::<JsonView>::empty());
    while i < parts.len()
        invariant
            i <= parts@.len(),
            all == array_view(parts@),
            joined_rows(all.take(i as int)) == Ok::<Seq<JsonView>, int>(array_view(items@)),
        decreases parts.len() - i,
    {
        proof {
            assert(all.take(i + 1).drop_last() =~= all.take(i as int));
            assert(all.take(i + 1).last() == parts@[i as int]@);
        }
        match &parts[i] {
            Json::Array(more) => {
                append_items(&mut items, more);
            },
            _ => {
                proof { lemma_joined_rows_stop(all, i + 1); }
                return Err(i);
            },
        }
        i += 1;
    }
    assert(all.take(i as int) =~= all);
    Ok(items)
}

fn join_reports(parts: &Vec<Json>) -> (r: Result<Vec<Json>, usize>)
    ensures
        match r {
            Ok(items) => joined_reports(array_view(parts@)) == Ok::<Seq<JsonView>, int>(array_view(items@)),
            Err(i) => joined_reports(array_view(parts@)) == Err::<Seq<JsonView>, int>(i as int),
        },
{
    let ghost all = array_view(parts@);
    let mut items: Vec<Json> = Vec::new();
    let mut i: usize = 0;
    assert(all.take(0) =~= Seq::<JsonView>::empty());
    assert(array_view(items@) =~= Seq::<JsonView>::empty());
    while i < parts.len()
        invariant
            i <= parts@.len(),
            all == array_view(parts@),
            joined_reports(all.take(i as int)) == Ok::<Seq<JsonView>, int>(array_view(items@)),
        decreases parts.len() - i,
    {
        proof {
            assert(all.take(i + 1).drop_last() =~= all.take(i as int));
            assert(all.take(i + 1).last() == parts@[i as int]@);
        }
        match items_field(&parts[i]) {
            Some(more) => {
                append_items(&mut items, more);
            },
            None => {
                proof { lemma_joined_reports_stop(all, i + 1); }
                return Err(i);
            },
        }
        i += 1;
    }
    assert(all.take(i as int) =~= all);
    Ok(items)
}

fn join_related(parts: &Vec<Json>) -> (r: Result<Vec<(String, Json)>, usize>)
    ensures
        match r {
            Ok(o) => joined_related(array_view(parts@)) == Ok::<Seq<(Seq<char>, JsonView)>, int>(object_view(o@)),
            Err(i) => joined_related(array_view(parts@)) == Err::<Seq<(Seq<char>, JsonView)>, int>(i as int),
        },
{
    let ghost all = array_view(parts@);
    let mut o: Vec<(String, Json)> = Vec::new();
    let mut i: usize = 0;
    assert(all.take(0) =~= Seq::<JsonView>::empty());
    assert(object_view(o@) =~= Seq::<(Seq<char>, JsonView)>::empty());
    while i < parts.len()
        invariant
            i <= parts@.len(),
            all == array_view(parts@),
            joined_related(all.take(i as int)) == Ok::<Seq<(Seq<char>, JsonView)>, int>(object_view(o@)),
        decreases parts.len() - i,
    {
        proof {
            assert(all.take(i + 1).drop_last() =~= all.take(i as int));
            assert(all.take(i + 1).last() == parts@[i as int]@);
        }
        match related_field(&parts[i]) {
            Some(more) => {
                extend_fields(&mut o, more);
            },
            None => {
                proof { lemma_joined_related_stop(all, i + 1); }
                return Err(i);
            },
        }
        i += 1;
    }
    assert(all.take(i as int) =~= all);
    Ok(o)
}

/// The items of an answer that is to be a row or null.
pub fn take_array_or_null(value: Json, method: &str, expected: &str, json_path: &str) -> (r: Result<
    Vec<Json>,
    ContractFailure,
>)
    ensures
        match r {
            Ok(items) => row_or_null(value@) == Some(array_view(items@)),
            Err(f) => row_or_null(value@) is None && f@ == invalid_failed(method@, expected@, json_path@),
        },
{
    match value {
        Json::Array(items) => Ok(items),
        Json::Null => {
            let none: Vec<Json> = Vec::new();
            assert(array_view(none@) =~= Seq::<JsonView>::empty());
            Ok(none)
        },
        _ => Err(invalid_result(method, expected, json_path)),
    }
}

fn merge_rows(method: &str, result: Json, partials: &Vec<Json>) -> (r: Result<Json, ContractFailure>)
    ensures
        result_view(r) == match row_or_null(result@) {
            None => Err::<JsonView, FailureView>(invalid_failed(method@, "an array or null"@, "$"@)),
            Some(last) => match joined_rows(array_view(partials@)) {
                Err(i) => Err(invalid_failed(method@, "an array partial result"@, place_in("$partial"@, i, ""@))),
                Ok(items) => Ok(JsonView::Array(items + last)),
            },
        },
{
    let last: Vec<Json> = match take_array_or_null(result, method, "an array or null", "$") {
        Ok(last) => last,
        Err(f) => {
            return Err(f);
        },
    };
    match join_rows(partials) {
        Err(i) => Err(invalid_result(method, "an array partial result", place("$partial", i, "").as_str())),
        Ok(joined) => {
            let mut items: Vec<Json> = joined;
            append_items(&mut items, &last);
            Ok(Json::Array(items))
        },
    }
}

/// Merges the parts of an answer that came before the answer.
pub fn merge_partial_results(command: QueryCommand, result: Json, partials: &Vec<Json>) -> (r: Result<
    Json,
    ContractFailure,
>)
    ensures
        result_view(r) == merged(command, result@, array_view(partials@)),
{
    if partials.len() == 0 {
        return Ok(result);
    }
    let method: &str = match command.method() {
        Some(method) => method,
        None => "unknown",
    };
    match command {
        QueryCommand::References | QueryCommand::WorkspaceSymbols | QueryCommand::CodeActions => merge_rows(
            method,
            result,
            partials,
        ),
        QueryCommand::WorkspaceDiagnostics => {
            let mut report: Vec<(String, Json)> = match &result {
                Json::Object(o) => copy_fields(o),
                _ => {
                    return Err(invalid_result(method, "a WorkspaceDiagnosticReport object", "$"));
                },
            };
            let mut items: Vec<Json> = match join_reports(partials) {
                Ok(items) => items,
                Err(i) => {
                    return Err(
                        invalid_result(
                            method,
                            "a WorkspaceDiagnosticReportPartialResult object",
                            place("$partial", i, "").as_str(),
                        ),
                    );
                },
            };
            match items_field(&result) {
                None => Err(invalid_result(method, "an items array", "$.items")),
                Some(last) => {
                    append_items(&mut items, last);
                    set_field(&mut report, "items", Json::Array(items));
                    Ok(Json::Object(report))
                },
            }
        },
        QueryCommand::DocumentDiagnostics => {
            let mut report: Vec<(String, Json)> = match &result {
                Json::Object(o) => copy_fields(o),
                _ => {
                    return Err(invalid_result(method, "a DocumentDiagnosticReport object", "$"));
                },
            };
            let mut related: Vec<(String, Json)> = match join_related(partials) {
                Ok(related) => related,
                Err(i) => {
                    return Err(
                        invalid_result(
                            method,
                            "a DocumentDiagnosticReportPartialResult object",
                            place("$partial", i, "").as_str(),
                        ),
                    );
                },
            };
            if let Some(more) = related_field(&result) {
                extend_fields(&mut related, more);
            }
            if related.len() == 0 {
                return Ok(result);
            }
            set_field(&mut report, "relatedDocuments", Json::Object(related));
            Ok(Json::Object(report))
        },
        _ => Err(invalid_result(method, "no partial results for this method", "$partial")),
    }
}

/// A URI as it is reported: one of a file is brought into the form of its native
/// path; another stays as it is.
pub open spec fn reported_uri(
    uri: Seq<char>,
    scheme: Option<Seq<char>>,
    file_uri: Option<Seq<char>>,
    method: Seq<char>,
    path: Seq<char>,
) -> Result<Seq<char>, FailureView> {
    match scheme {
        None => Err(invalid_failed(method, "a valid URI"@, path)),
        Some(scheme) => if scheme != "file"@ {
            Ok(uri)
        } else {
            match file_uri {
                Some(u) => Ok(u),
                None => Err(invalid_failed(method, "a valid file URI"@, path)),
            }
        },
    }
}

/// A URI as it is reported, given its scheme and the URI of its native path.
pub fn canonical_uri(
    uri: &str,
    scheme: Option<&String>,
    file_uri: Option<&String>,
    method: &str,
    json_path: &str,
) -> (r: Result<String, ContractFailure>)
    ensures
        result_view(r) == reported_uri(
            uri@,
            opt_ref_view(scheme),
            opt_ref_view(file_uri),
            method@,
            json_path@,
        ),
{
    match scheme {
        None => Err(invalid_result(method, "a valid URI", json_path)),
        Some(scheme) => if !same(scheme.as_str(), "file") {
            Ok(uri.to_owned())
        } else {
            match file_uri {
                Some(u) => Ok(u.clone()),
                None => Err(invalid_result(method, "a valid file URI", json_path)),
            }
        },
    }
}

/// An object with the URI in one of its fields brought into its form.
pub open spec fn with_reported_uri(object: JsonView, name: Seq<char>, method: Seq<char>, path: Seq<char>) -> Result<
    JsonView,
    FailureView,
> {
    match object.get(name) {
        None => Err(invalid_failed(method, "an LSP URI field"@, path)),
        Some(value) => match value.as_text() {
            None => Err(invalid_failed(method, "a URI string"@, path)),
            Some(uri) => match reported_uri(uri, scheme_of_uri(uri), file_uri_of_uri(uri), method, path) {
                Err(f) => Err(f),
                Ok(u) => Ok(JsonView::Object(with_field(object->Object_0, name, JsonView::Text(u)))),
            },
        },
    }
}

/// Brings the URI in a field of an object into its form.
pub fn canonicalize_uri_field(object: &Json, name: &str, method: &str, json_path: &str) -> (r: Result<
    Json,
    ContractFailure,
>)
    ensures
        result_view(r) == with_reported_uri(object@, name@, method@, json_path@),
{
    let value: &Json = match object.get(name) {
        Some(value) => value,
        None => {
            return Err(invalid_result(method, "an LSP URI field", json_path));
        },
    };
    let uri: &String = match value.as_str() {
        Some(uri) => uri,
        None => {
            return Err(invalid_result(method, "a URI string", json_path));
        },
    };
    let scheme: Option<String> = uri_scheme(uri.as_str());
    let file_uri: Option<String> = uri_of_file_path(uri.as_str());
    match canonical_uri(uri.as_str(), scheme.as_ref(), file_uri.as_ref(), method, json_path) {
        Err(f) => Err(f),
        Ok(u) => match object {
            Json::Object(o) => {
                let mut fields: Vec<(String, Json)> = copy_fields(o);
                set_field(&mut fields, name, Json::Text(u));
                Ok(Json::Object(fields))
            },
            _ => Ok(object.copy()),
        },
    }
}

/// An item of an answer with its URI brought into its form.
pub open spec fn with_reported_item(c: QueryCommand, item: JsonView, i: int) -> Result<JsonView, FailureView> {
    let method = command_method(c)->0;
    match c {
        QueryCommand::Definition => if item.get("targetUri"@) is Some {
            with_reported_uri(item, "targetUri"@, method, place_in("$"@, i, ".targetUri"@))
        } else {
            with_reported_uri(item, "uri"@, method, place_in("$"@, i, ".uri"@))
        },
        QueryCommand::References => with_reported_uri(item, "uri"@, method, place_in("$"@, i, ".uri"@)),
        QueryCommand::DocumentSymbols | QueryCommand::WorkspaceSymbols => match item.get("location"@) {
            None => Ok(item),
            Some(location) => match with_reported_uri(
                location,
                "uri"@,
                method,
                place_in("$"@, i, ".location.uri"@),
            ) {
                Err(f) => Err(f),
                Ok(l) => Ok(JsonView::Object(with_field(item->Object_0, "location"@, l))),
            },
        },
        _ => Ok(item),
    }
}

fn canonical_item(command: QueryCommand, method: &str, item: &Json, i: usize) -> (r: Result<Json, ContractFailure>)
    requires
        command_method(command) matches Some(m) ==> m == method@,
    ensures
        result_view(r) == with_reported_item(command, item@, i as int),
{
    match command {
        QueryCommand::Definition => if item.get("targetUri").is_some() {
            canonicalize_uri_field(item, "targetUri", method, place("$", i, ".targetUri").as_str())
        } else {
            canonicalize_uri_field(item, "uri", method, place("$", i, ".uri").as_str())
        },
        QueryCommand::References => canonicalize_uri_field(item, "uri", method, place("$", i, ".uri").as_str()),
        QueryCommand::DocumentSymbols | QueryCommand::WorkspaceSymbols => match item.get("location") {
            None => Ok(item.copy()),
            Some(location) => match canonicalize_uri_field(
                location,
                "uri",
                method,
                place("$", i, ".location.uri").as_str(),
            ) {
                Err(f) => Err(f),
                Ok(l) => match item {
                    Json::Object(o) => {
                        let mut fields: Vec<(String, Json)> = copy_fields(o);
                        set_field(&mut fields, "location", l);
                        Ok(Json::Object(fields))
                    },
                    _ => Ok(item.copy()),
                },
            },
        },
        _ => Ok(item.copy()),
    }
}

/// The items of an answer with their URIs brought into their form, or the first
/// failure.
pub open spec fn with_reported_items(c: QueryCommand, items: Seq<JsonView>) -> Result<Seq<JsonView>, FailureView>
    decreases items.len(),
{
    if items.len() == 0 {
        Ok(seq![])
    } else {
        match with_reported_items(c, items.drop_last()) {
            Err(f) => Err(f),
            Ok(done) => match with_reported_item(c, items.last(), items.len() - 1) {
                Err(f) => Err(f),
                Ok(item) => Ok(done.push(item)),
            },
        }
    }
}

proof fn lemma_reported_items_stop(c: QueryCommand, items: Seq<JsonView>, i: int)
    requires
        0 <= i <= items.len(),
        with_reported_items(c, items.take(i)) is Err,
    ensures
        with_reported_items(c, items) == with_reported_items(c, items.take(i)),
    decreases items.len() - i,
{
    if i < items.len() {
        assert(items.take(i + 1).drop_last() =~= items.take(i));
        lemma_reported_items_stop(c, items, i + 1);
    } else {
        assert(items.take(i) =~= items);
    }
}

/// Brings the URIs in the items of an answer into their form.
pub fn canonicalize_result_uris(command: QueryCommand, items: &Vec<Json>) -> (r: Result<Vec<Json>, ContractFailure>)
    ensures
        match r {
            Ok(done) => with_reported_items(command, array_view(items@)) == Ok::<Seq<JsonView>, FailureView>(
                array_view(done@),
            ),
            Err(f) => with_reported_items(command, array_view(items@)) == Err::<Seq<JsonView>, FailureView>(f@),
        },
{
    let method: &str = match command.method() {
        Some(method) => method,
        None => "",
    };
    let ghost all = array_view(items@);
    let mut done: Vec<Json> = Vec::new();
    let mut i: usize = 0;
    assert(all.take(0) =~= Seq::<JsonView>::empty());
    assert(array_view(done@) =~= Seq::<JsonView>::empty());
    while i < items.len()
        invariant
            i <= items@.len(),
            command_method(command) matches Some(m) ==> m == method@,
            all == array_view(items@),
            with_reported_items(command, all.take(i as int)) == Ok::<Seq<JsonView>, FailureView>(array_view(done@)),
        decreases items.len() - i,
    {
        proof {
            assert(all.take(i + 1).drop_last() =~= all.take(i as int));
            assert(all.take(i + 1).last() == items@[i as int]@);
        }
        let ghost before = array_view(done@);
        match canonical_item(command, method, &items[i], i) {
            Ok(item) => {
                done.push(item);
                assert(array_view(done@) =~= before.push(item@));
            },
            Err(f) => {
                proof { lemma_reported_items_stop(command, all, i + 1); }
                return Err(f);
            },
        }
        i += 1;
    }
    assert(all.take(i as int) =~= all);
    Ok(done)
}

/// Where a report of diagnostics stands.
#[derive(Clone, Copy, Debug, PartialEq, Eq, Structural)]
pub enum DiagnosticReportContext {
    Document,
    Workspace,
    Related,
}

/// What is wrong with the kind of a report and with what the kind calls for.
pub open spec fn kind_problem(report: JsonView, method: Seq<char>, path: Seq<char>) -> Option<FailureView> {
    if report.text_at("kind"@) == Some("full"@) {
        if report_items(report) is Some {
            None
        } else {
            Some(invalid_failed(method, "a full diagnostic report items array"@, path + ".items"@))
        }
    } else if report.text_at("kind"@) == Some("unchanged"@) {
        if report.text_at("resultId"@) is Some {
            None
        } else {
            Some(invalid_failed(method, "an unchanged diagnostic report resultId"@, path + ".resultId"@))
        }
    } else {
        Some(invalid_failed(method, "a full or unchanged diagnostic report kind"@, path + ".kind"@))
    }
}

/// What is wrong with where a report says that it belongs, for one that has to.
pub open spec fn belonging_problem(report: JsonView, method: Seq<char>, path: Seq<char>) -> Option<FailureView> {
    if report.text_at("uri"@) is None {
        Some(invalid_failed(method, "a Workspace diagnostic report URI"@, path + ".uri"@))
    } else {
        match report.get("version"@) {
            Some(JsonView::Int(_)) | Some(JsonView::Decimal(_)) | Some(JsonView::Null) => None,
            _ => Some(
                invalid_failed(method, "a Workspace diagnostic report version or null"@, path + ".version"@),
            ),
        }
    }
}

/// What is wrong with a report by itself.
pub open spec fn report_problem(report: JsonView, method: Seq<char>, path: Seq<char>, workspace: bool) -> Option<FailureView> {
    if !(report is Object) {
        Some(invalid_failed(method, "a diagnostic report object"@, path))
    } else if workspace && belonging_problem(report, method, path) is Some {
        belonging_problem(report, method, path)
    } else {
        kind_problem(report, method, path)
    }
}

/// The place of the report of a related document.
pub open spec fn related_place(path: Seq<char>, uri: Seq<char>) -> Seq<char> {
    path + ".relatedDocuments["@ + quoted_text(uri) + "]"@
}

/// What is wrong with the reports of related documents: the first failure.
pub open spec fn related_problem(related: Seq<(Seq<char>, JsonView)>, method: Seq<char>, path: Seq<char>) -> Option<FailureView>
    decreases related.len(),
{
    if related.len() == 0 {
        None
    } else {
        match report_problem(related[0].1, method, related_place(path, related[0].0), false) {
            Some(f) => Some(f),
            None => related_problem(related.drop_first(), method, path),
        }
    }
}

/// What is wrong with a report and with the reports that it holds.
pub open spec fn diagnostic_problem(
    report: JsonView,
    method: Seq<char>,
    path: Seq<char>,
    context: DiagnosticReportContext,
) -> Option<FailureView> {
    match report_problem(report, method, path, context == DiagnosticReportContext::Workspace) {
        Some(f) => Some(f),
        None => if context == DiagnosticReportContext::Document {
            match report.get("relatedDocuments"@) {
                None => None,
                Some(JsonView::Null) => None,
                Some(JsonView::Object(related)) => related_problem(related, method, path),
                Some(_) => Some(
                    invalid_failed(method, "a relatedDocuments object or null"@, path + ".relatedDocuments"@),
                ),
            }
        } else {
            None
        },
    }
}

pub(crate) fn has_text(value: &Json, name: &str, text: &str) -> (r: bool)
    ensures
        r == (value@.text_at(name@) == Some(text@)),
{
    match value.text_at(name) {
        Some(t) => same(t.as_str(), text),
        None => false,
    }
}

/// Checks a report of diagnostics by itself.
pub fn validate_report(report: &Json, method: &str, json_path: &str, workspace: bool) -> (r: Result<(), ContractFailure>)
    ensures
        match r {
            Ok(_) => report_problem(report@, method@, json_path@, workspace) is None,
            Err(f) => report_problem(report@, method@, json_path@, workspace) == Some(f@),
        },
{
    match report {
        Json::Object(_) => {},
        _ => {
            return Err(invalid_result(method, "a diagnostic report object", json_path));
        },
    }
    if workspace {
        if report.text_at("uri").is_none() {
            return Err(
                invalid_result(method, "a Workspace diagnostic report URI", concat(json_path, ".uri").as_str()),
            );
        }
        let versioned: bool = match report.get("version") {
            Some(Json::Unsigned(_)) | Some(Json::Negative(_)) | Some(Json::Decimal(_)) | Some(Json::Null) => true,
            _ => false,
        };
        if !versioned {
            return Err(
                invalid_result(
                    method,
                    "a Workspace diagnostic report version or null",
                    concat(json_path, ".version").as_str(),
                ),
            );
        }
    }
    if has_text(report, "kind", "full") {
        if items_field(report).is_some() {
            Ok(())
        } else {
            Err(
                invalid_result(method, "a full diagnostic report items array", concat(json_path, ".items").as_str()),
            )
        }
    } else if has_text(report, "kind", "unchanged") {
        if report.text_at("resultId").is_some() {
            Ok(())
        } else {
            Err(
                invalid_result(
                    method,
                    "an unchanged diagnostic report resultId",
                    concat(json_path, ".resultId").as_str(),
                ),
            )
        }
    } else {
        Err(
            invalid_result(
                method,
                "a full or unchanged diagnostic report kind",
                concat(json_path, ".kind").as_str(),
            ),
        )
    }
}

fn validate_related(related: &Vec<(String, Json)>, method: &str, json_path: &str) -> (r: Result<(), ContractFailure>)
    ensures
        match r {
            Ok(_) => related_problem(object_view(related@), method@, json_path@) is None,
            Err(f) => related_problem(object_view(related@), method@, json_path@) == Some(f@),
        },
{
    let ghost all = object_view(related@);
    let mut i: usize = 0;
    assert(all.skip(0) =~= all);
    while i < related.len()
        invariant
            i <= related@.len(),
            all == object_view(related@),
            related_problem(all, method@, json_path@) == related_problem(all.skip(i as int), method@, json_path@),
        decreases related.len() - i,
    {
        proof {
            assert(all.skip(i as int)[0] == (related@[i as int].0@, related@[i as int].1@));
            assert(all.skip(i as int).drop_first() =~= all.skip(i + 1));
        }
        let name: String = quoted(related[i].0.as_str());
        let start: String = concat3(json_path, ".relatedDocuments[", name.as_str());
        let at: String = concat(start.as_str(), "]");
        if let Err(f) = validate_report(&related[i].1, method, at.as_str(), false) {
            return Err(f);
        }
        i += 1;
    }
    Ok(())
}

/// Checks a report of diagnostics and the reports that it holds.
pub fn validate_document_diagnostic_report(
    report: &Json,
    method: &str,
    json_path: &str,
    context: DiagnosticReportContext,
) -> (r: Result<(), ContractFailure>)
    ensures
        match r {
            Ok(_) => diagnostic_problem(report@, method@, json_path@, context) is None,
            Err(f) => diagnostic_problem(report@, method@, json_path@, context) == Some(f@),
        },
{
    if let Err(f) = validate_report(report, method, json_path, context == DiagnosticReportContext::Workspace) {
        return Err(f);
    }
    if context == DiagnosticReportContext::Document {
        match report.get("relatedDocuments") {
            None => Ok(()),
            Some(Json::Null) => Ok(()),
            Some(Json::Object(related)) => validate_related(related, method, json_path),
            Some(_) => Err(
                invalid_result(
                    method,
                    "a relatedDocuments object or null",
                    concat(json_path, ".relatedDocuments").as_str(),
                ),
            ),
        }
    } else {
        Ok(())
    }
}

/// What is wrong with the reports of a workspace: the first failure.
pub open spec fn workspace_problem(items: Seq<JsonView>, from: int, method: Seq<char>) -> Option<FailureView>
    decreases items.len() - from,
{
    if from < 0 || from >= items.len() {
        None
    } else {
        match diagnostic_problem(
            items[from],
            method,
            place_in("$.items"@, from, ""@),
            DiagnosticReportContext::Workspace,
        ) {
            Some(f) => Some(f),
            None => workspace_problem(items, from + 1, method),
        }
    }
}

fn validate_workspace(items: &Vec<Json>, method: &str) -> (r: Result<(), ContractFailure>)
    ensures
        match r {
            Ok(_) => workspace_problem(array_view(items@), 0, method@) is None,
            Err(f) => workspace_problem(array_view(items@), 0, method@) == Some(f@),
        },
{
    let ghost all = array_view(items@);
    let mut i: usize = 0;
    while i < items.len()
        invariant
            i <= items@.len(),
            all == array_view(items@),
            workspace_problem(all, 0, method@) == workspace_problem(all, i as int, method@),
        decreases items.len() - i,
    {
        assert(all[i as int] == items@[i as int]@);
        if let Err(f) = validate_document_diagnostic_report(
            &items[i],
            method,
            place("$.items", i, "").as_str(),
            DiagnosticReportContext::Workspace,
        ) {
            return Err(f);
        }
        i += 1;
    }
    Ok(())
}

/// The place of the first item that is no object.
pub open spec fn first_other(items: Seq<JsonView>, from: int) -> Option<int>
    decreases items.len() - from,
{
    if from < 0 || from >= items.len() {
        None
    } else if !(items[from] is Object) {
        Some(from)
    } else {
        first_other(items, from + 1)
    }
}

fn find_other(items: &Vec<Json>) -> (r: Option<usize>)
    ensures
        match r {
            Some(i) => first_other(array_view(items@), 0) == Some(i as int),
            None => first_other(array_view(items@), 0) is None,
        },
{
    let ghost all = array_view(items@);
    let mut i: usize = 0;
    while i < items.len()
        invariant
            i <= items@.len(),
            all == array_view(items@),
            first_other(all, 0) == first_other(all, i as int),
        decreases items.len() - i,
    {
        assert(all[i as int] == items@[i as int]@);
        match &items[i] {
            Json::Object(_) => {},
            _ => {
                return Some(i);
            },
        }
        i += 1;
    }
    None
}

/// A row of items with their URIs brought into their form.
pub open spec fn reported_row(c: QueryCommand, items: Seq<JsonView>) -> Result<JsonView, FailureView> {
    match with_reported_items(c, items) {
        Ok(items) => Ok(JsonView::Array(items)),
        Err(f) => Err(f),
    }
}

/// An answer in the one form that its Query has: a row where there may be many
/// items, with one item alone or none brought into a row.
pub open spec fn normalized(c: QueryCommand, result: JsonView) -> Result<JsonView, FailureView> {
    let method = command_method(c)->0;
    match c {
        QueryCommand::Definition => match result {
            JsonView::Null => Ok(JsonView::Array(seq![])),
            JsonView::Object(_) => reported_row(c, seq![result]),
            JsonView::Array(items) => reported_row(c, items),
            _ => Err(invalid_failed(method, "a Location, Location array, or null"@, "$"@)),
        },
        QueryCommand::Hover | QueryCommand::PrepareRename => match result {
            JsonView::Null => Ok(JsonView::Array(seq![])),
            JsonView::Object(_) => Ok(JsonView::Array(seq![result])),
            _ => Err(invalid_failed(method, "an object or null"@, "$"@)),
        },
        QueryCommand::References
        | QueryCommand::DocumentSymbols
        | QueryCommand::WorkspaceSymbols
        | QueryCommand::CodeActions
        | QueryCommand::Format => match row_or_null(result) {
            None => Err(invalid_failed(method, "an array or null"@, "$"@)),
            Some(items) => match first_other(items, 0) {
                Some(i) => Err(invalid_failed(method, "an array of LSP objects"@, place_in("$"@, i, ""@))),
                None => reported_row(c, items),
            },
        },
        QueryCommand::DocumentDiagnostics => match diagnostic_problem(
            result,
            method,
            "$"@,
            DiagnosticReportContext::Document,
        ) {
            Some(f) => Err(f),
            None => Ok(result),
        },
        QueryCommand::WorkspaceDiagnostics => match report_items(result) {
            None => Err(invalid_failed(method, "a WorkspaceDiagnosticReport items array"@, "$.items"@)),
            Some(items) => match workspace_problem(items, 0, method) {
                Some(f) => Err(f),
                None => Ok(result),
            },
        },
        QueryCommand::Rename => if result is Null || result is Object {
            Ok(result)
        } else {
            Err(invalid_failed(method, "a WorkspaceEdit object or null"@, "$"@))
        },
        QueryCommand::ResolveCodeAction => if result is Object {
            Ok(result)
        } else {
            Err(invalid_failed(method, "a CodeAction object"@, "$"@))
        },
        _ => Ok(result),
    }
}

fn row_result(command: QueryCommand, items: &Vec<Json>) -> (r: Result<Json, ContractFailure>)
    requires
        command_method(command) is Some,
    ensures
        result_view(r) == reported_row(command, array_view(items@)),
{
    match canonicalize_result_uris(command, items) {
        Ok(items) => Ok(Json::Array(items)),
        Err(f) => Err(f),
    }
}

/// Brings an answer into the one form that its Query has.
pub fn normalize_named_result(command: QueryCommand, result: Json) -> (r: Result<Json, ContractFailure>)
    requires
        command_method(command) is Some,
    ensures
        result_view(r) == normalized(command, result@),
{
    let method: &str = match command.method() {
        Some(method) => method,
        None => "",
    };
    let none: Vec<Json> = Vec::new();
    assert(array_view(none@) =~= Seq::<JsonView>::empty());
    let ghost said = result@;
    match command {
        QueryCommand::Definition => match result {
            Json::Null => Ok(Json::Array(none)),
            Json::Object(o) => {
                let mut one: Vec<Json> = Vec::new();
                one.push(Json::Object(o));
                assert(array_view(one@) =~= seq![said]);
                row_result(command, &one)
            },
            Json::Array(items) => row_result(command, &items),
            _ => Err(invalid_result(method, "a Location, Location array, or null", "$")),
        },
        QueryCommand::Hover | QueryCommand::PrepareRename => match result {
            Json::Null => Ok(Json::Array(none)),
            Json::Object(o) => {
                let mut one: Vec<Json> = Vec::new();
                one.push(Json::Object(o));
                assert(array_view(one@) =~= seq![said]);
                Ok(Json::Array(one))
            },
            _ => Err(invalid_result(method, "an object or null", "$")),
        },
        QueryCommand::References
        | QueryCommand::DocumentSymbols
        | QueryCommand::WorkspaceSymbols
        | QueryCommand::CodeActions
        | QueryCommand::Format => match take_array_or_null(result, method, "an array or null", "$") {
            Err(f) => Err(f),
            Ok(items) => match find_other(&items) {
                Some(i) => Err(invalid_result(method, "an array of LSP objects", place("$", i, "").as_str())),
                None => row_result(command, &items),
            },
        },
        QueryCommand::DocumentDiagnostics => {
            if let Err(f) = validate_document_diagnostic_report(
                &result,
                method,
                "$",
                DiagnosticReportContext::Document,
            ) {
                return Err(f);
            }
            Ok(result)
        },
        QueryCommand::WorkspaceDiagnostics => {
            match items_field(&result) {
                None => {
                    return Err(invalid_result(method, "a WorkspaceDiagnosticReport items array", "$.items"));
                },
                Some(items) => {
                    if let Err(f) = validate_workspace(items, method) {
                        return Err(f);
                    }
                },
            }
            Ok(result)
        },
        QueryCommand::Rename => match &result {
            Json::Null | Json::Object(_) => Ok(result),
            _ => Err(invalid_result(method, "a WorkspaceEdit object or null", "$")),
        },
        QueryCommand::ResolveCodeAction => match &result {
            Json::Object(_) => Ok(result),
            _ => Err(invalid_result(method, "a CodeAction object", "$")),
        },
        _ => Ok(result),
    }
}

/// Without parts an answer stays as it is; parts of a row come before the rest,
/// in their order.
pub proof fn law_parts_come_first(c: QueryCommand, items: Seq<JsonView>, first: Seq<JsonView>, second: Seq<JsonView>)
    requires
        c == QueryCommand::References || c == QueryCommand::WorkspaceSymbols || c == QueryCommand::CodeActions,
    ensures
        merged(c, JsonView::Array(items), seq![]) == Ok::<JsonView, FailureView>(JsonView::Array(items)),
        merged(c, JsonView::Array(items), seq![JsonView::Array(first), JsonView::Array(second)]) == Ok::<
            JsonView,
            FailureView,
        >(JsonView::Array(first + second + items)),
{
    let parts = seq![JsonView::Array(first), JsonView::Array(second)];
    assert(parts.drop_last() =~= seq![JsonView::Array(first)]);
    assert(seq![JsonView::Array(first)].drop_last() =~= Seq::<JsonView>::empty());
    assert(joined_rows(Seq::<JsonView>::empty()) == Ok::<Seq<JsonView>, int>(seq![]));
    assert(joined_rows(seq![JsonView::Array(first)]) == Ok::<Seq<JsonView>, int>(Seq::<JsonView>::empty() + first));
    assert(Seq::<JsonView>::empty() + first =~= first);
    assert(joined_rows(parts) == Ok::<Seq<JsonView>, int>(first + second));
}

/// A normalized answer of a Query that may have many items is a row.
pub proof fn law_normalized_rows(c: QueryCommand, result: JsonView)
    requires
        c == QueryCommand::Definition || c == QueryCommand::References || c == QueryCommand::Hover || c
            == QueryCommand::DocumentSymbols || c == QueryCommand::WorkspaceSymbols || c == QueryCommand::PrepareRename
            || c == QueryCommand::CodeActions || c == QueryCommand::Format,
    ensures
        normalized(c, result) matches Ok(v) ==> v is Array,
        normalized(c, JsonView::Null) == Ok::<JsonView, FailureView>(JsonView::Array(seq![])),
{
}

} // verus!
