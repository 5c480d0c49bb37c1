//! What the reports of Queries say.

use vstd::prelude::*;

use crate::compose::{ComposedView, KnownView};
use crate::json::{
    JsonView,
    field,
    lemma_field_at,
    lemma_field_concat,
    lemma_field_missing,
    lemma_field_set,
    with_field,
};
use crate::query_command::QueryCommand;
use crate::query_envelopes::{
    EnvelopeView,
    MetadataView,
    field_if,
    metadata_json,
    optional_field,
    page_items,
    page_json,
    query_report,
};
use crate::query_execute::{
    ContextView,
    ExecutionFailureView,
    ExecutionView,
    ResponseView,
    edits_nothing,
    executed,
    failure_report,
    proposed_edit,
};
use crate::query_results::normalized;

verus! {

proof fn lemma_one_field(name: Seq<char>, value: JsonView, key: Seq<char>)
    ensures
        field(seq![(name, value)], key) == (if key == name {
            Some(value)
        } else {
            None
        }),
        field(Seq::<(Seq<char>, JsonView)>::empty(), key) is None,
{
    let o = seq![(name, value)];
    if key == name {
        lemma_field_at(o, 0, key);
    } else {
        lemma_field_missing(o, key);
    }
}

proof fn lemma_report_names()
    ensures
        "applyEditLedger"@.len() == 15,
        "command"@.len() == 7,
        "context"@.len() == 7,
        "diagnostics"@.len() == 11,
        "directServerSideEffects"@.len() == 23,
        "method"@.len() == 6,
        "ok"@.len() == 2,
        "outcome"@.len() == 7,
        "page"@.len() == 4,
        "raw"@.len() == 3,
        "resolvedAction"@.len() == 14,
        "result"@.len() == 6,
        "schemaVersion"@.len() == 13,
        "trace"@.len() == 5,
        "command"@ != "context"@,
        "command"@ != "outcome"@,
        "context"@ != "outcome"@,
        "method"@ != "result"@,
{
    reveal_strlit("applyEditLedger");
    reveal_strlit("command");
    reveal_strlit("context");
    reveal_strlit("diagnostics");
    reveal_strlit("directServerSideEffects");
    reveal_strlit("method");
    reveal_strlit("ok");
    reveal_strlit("outcome");
    reveal_strlit("page");
    reveal_strlit("raw");
    reveal_strlit("resolvedAction");
    reveal_strlit("result");
    reveal_strlit("schemaVersion");
    reveal_strlit("trace");
    assert("command"@[2] == 'm' && "context"@[2] == 'n' && "outcome"@[0] == 'o' && "command"@[0] == 'c'
        && "context"@[0] == 'c');
    assert("method"@[0] == 'm' && "result"@[0] == 'r');
}

proof fn lemma_report_field(e: EnvelopeView, key: Seq<char>)
    ensures
        e.json().get(key) == ({
            let ledger = match e.apply_edit_ledger {
                Some(items) => Some(JsonView::Array(items)),
                None => None,
            };
            let outcome = match e.outcome {
                Some(s) => Some(JsonView::Text(s)),
                None => None,
            };
            if key == "applyEditLedger"@ {
                ledger
            } else if key == "command"@ {
                Some(JsonView::Array(seq![JsonView::Text(e.command)]))
            } else if key == "context"@ {
                Some(e.context)
            } else if key == "diagnostics"@ {
                e.diagnostics
            } else if key == "directServerSideEffects"@ {
                if e.server_side_effects {
                    Some(JsonView::Text("unknown"@))
                } else {
                    None
                }
            } else if key == "method"@ {
                Some(JsonView::Text(e.method))
            } else if key == "ok"@ {
                Some(JsonView::Bool(true))
            } else if key == "outcome"@ {
                outcome
            } else if key == "page"@ {
                e.page
            } else if key == "raw"@ {
                if e.raw {
                    Some(JsonView::Bool(true))
                } else {
                    None
                }
            } else if key == "resolvedAction"@ {
                e.resolved_action
            } else if key == "result"@ {
                Some(e.result)
            } else if key == "schemaVersion"@ {
                Some(JsonView::Int(1))
            } else if key == "trace"@ {
                e.trace
            } else {
                None
            }
        }),
{
    lemma_report_names();
    let ledger = match e.apply_edit_ledger {
        Some(items) => Some(JsonView::Array(items)),
        None => None,
    };
    let outcome = match e.outcome {
        Some(s) => Some(JsonView::Text(s)),
        None => None,
    };
    assert forall|name: Seq<char>, value: JsonView| #[trigger]
        field(seq![(name, value)], key) == (if key == name {
            Some(value)
        } else {
            None
        }) by {
        lemma_one_field(name, value, key);
    }
    lemma_one_field(key, JsonView::Null, key);
    let p0 = optional_field("applyEditLedger"@, ledger);
    let p1 = seq![("command"@, JsonView::Array(seq![JsonView::Text(e.command)]))];
    let p2 = seq![("context"@, e.context)];
    let p3 = optional_field("diagnostics"@, e.diagnostics);
    let p4 = field_if("directServerSideEffects"@, e.server_side_effects, JsonView::Text("unknown"@));
    let p5 = seq![("method"@, JsonView::Text(e.method))];
    let p6 = seq![("ok"@, JsonView::Bool(true))];
    let p7 = optional_field("outcome"@, outcome);
    let p8 = optional_field("page"@, e.page);
    let p9 = field_if("raw"@, e.raw, JsonView::Bool(true));
    let p10 = optional_field("resolvedAction"@, e.resolved_action);
    let p11 = seq![("result"@, e.result)];
    let p12 = seq![("schemaVersion"@, JsonView::Int(1))];
    let p13 = optional_field("trace"@, e.trace);
    let s0 = p0;
    let s1 = s0 + p1;
    lemma_field_concat(s0, p1, key);
    let s2 = s1 + p2;
    lemma_field_concat(s1, p2, key);
    let s3 = s2 + p3;
    lemma_field_concat(s2, p3, key);
    let s4 = s3 + p4;
    lemma_field_concat(s3, p4, key);
    let s5 = s4 + p5;
    lemma_field_concat(s4, p5, key);
    let s6 = s5 + p6;
    lemma_field_concat(s5, p6, key);
    let s7 = s6 + p7;
    lemma_field_concat(s6, p7, key);
    let s8 = s7 + p8;
    lemma_field_concat(s7, p8, key);
    let s9 = s8 + p9;
    lemma_field_concat(s8, p9, key);
    let s10 = s9 + p10;
    lemma_field_concat(s9, p10, key);
    let s11 = s10 + p11;
    lemma_field_concat(s10, p11, key);
    let s12 = s11 + p12;
    lemma_field_concat(s11, p12, key);
    let s13 = s12 + p13;
    lemma_field_concat(s12, p13, key);
    assert(e.json() == JsonView::Object(s13));
}

/// The report of a Query says that the Query succeeded, names the Query and the
/// method, and holds the context, the result and what else is known under their
/// names; what is not known has no field.
pub proof fn law_reports_say_what_is_known(e: EnvelopeView)
    ensures
        e.json().get("ok"@) == Some(JsonView::Bool(true)),
        e.json().get("schemaVersion"@) == Some(JsonView::Int(1)),
        e.json().get("command"@) == Some(JsonView::Array(seq![JsonView::Text(e.command)])),
        e.json().get("method"@) == Some(JsonView::Text(e.method)),
        e.json().get("context"@) == Some(e.context),
        e.json().get("result"@) == Some(e.result),
        e.json().get("page"@) == e.page,
        e.json().get("trace"@) == e.trace,
        e.json().get("diagnostics"@) == e.diagnostics,
        e.json().get("resolvedAction"@) == e.resolved_action,
        e.outcome is None ==> e.json().get("outcome"@) is None,
        e.outcome matches Some(s) ==> e.json().get("outcome"@) == Some(JsonView::Text(s)),
        e.apply_edit_ledger is None ==> e.json().get("applyEditLedger"@) is None,
        e.apply_edit_ledger matches Some(items) ==> e.json().get("applyEditLedger"@) == Some(JsonView::Array(items)),
        e.raw <==> e.json().get("raw"@) == Some(JsonView::Bool(true)),
        e.server_side_effects <==> e.json().get("directServerSideEffects"@) is Some,
{
    lemma_report_names();
    lemma_report_field(e, "applyEditLedger"@);
    lemma_report_field(e, "command"@);
    lemma_report_field(e, "context"@);
    lemma_report_field(e, "diagnostics"@);
    lemma_report_field(e, "directServerSideEffects"@);
    lemma_report_field(e, "method"@);
    lemma_report_field(e, "ok"@);
    lemma_report_field(e, "outcome"@);
    lemma_report_field(e, "page"@);
    lemma_report_field(e, "raw"@);
    lemma_report_field(e, "resolvedAction"@);
    lemma_report_field(e, "result"@);
    lemma_report_field(e, "schemaVersion"@);
    lemma_report_field(e, "trace"@);
}

/// The items that a result lists, in a row or in its field for them.
pub open spec fn lists(result: JsonView, items: Seq<JsonView>) -> bool {
    result == JsonView::Array(items) || result is Object && result.get("items"@) == Some(JsonView::Array(items))
}

/// A report in pages holds the items from the offset on, as many as the limit
/// allows and there are, one for one; it says how many those are, whether more
/// follow, and from where on.
pub proof fn law_pages_hold_the_items_asked_for(
    q: ComposedView,
    context: JsonView,
    result: JsonView,
    items: Seq<JsonView>,
    offset: nat,
    limit: nat,
    trace: Option<JsonView>,
    ledger: Seq<JsonView>,
)
    requires
        q.page == Some((offset, limit)),
        lists(result, items),
    ensures
        query_report(q, context, result, trace, ledger) matches Ok(e) && e.page matches Some(page) && {
            let shown = page_items(items, offset, limit);
            let left = if offset < items.len() {
                items.len() - offset
            } else {
                0
            };
            &&& lists(e.result, shown)
            &&& shown.len() == (if limit < left {
                limit as int
            } else {
                left
            })
            &&& forall|i: int| 0 <= i < shown.len() ==> #[trigger] shown[i] == items[offset + i]
            &&& forall|key: Seq<char>| key != "items"@ ==> #[trigger] e.result.get(key) == result.get(key)
            &&& page.get("offset"@) == Some(JsonView::Int(offset as int))
            &&& page.get("limit"@) == Some(JsonView::Int(limit as int))
            &&& page.get("returned"@) == Some(JsonView::Int(shown.len() as int))
            &&& page.get("complete"@) == Some(JsonView::Bool(limit >= left))
            &&& limit >= left ==> page.get("nextOffset"@) == Some(JsonView::Null)
            &&& limit < left ==> page.get("nextOffset"@) == Some(JsonView::Int((offset + limit) as int))
        },
{
    let shown = page_items(items, offset, limit);
    let page = page_json(items, offset, limit);
    let o = page->Object_0;
    reveal_strlit("complete");
    reveal_strlit("limit");
    reveal_strlit("nextOffset");
    reveal_strlit("offset");
    reveal_strlit("returned");
    assert("complete"@.len() == 8 && "limit"@.len() == 5 && "nextOffset"@.len() == 10 && "offset"@.len() == 6
        && "returned"@.len() == 8);
    assert("complete"@[0] == 'c' && "returned"@[0] == 'r');
    lemma_field_at(o, 0, "complete"@);
    lemma_field_at(o, 1, "limit"@);
    lemma_field_at(o, 2, "nextOffset"@);
    lemma_field_at(o, 3, "offset"@);
    lemma_field_at(o, 4, "returned"@);
    if let JsonView::Object(fields) = result {
        let cut = JsonView::Object(with_field(fields, "items"@, JsonView::Array(shown)));
        assert forall|key: Seq<char>| #[trigger] cut.get(key) == (if key == "items"@ {
            Some(JsonView::Array(shown))
        } else {
            result.get(key)
        }) by {
            lemma_field_set(fields, "items"@, JsonView::Array(shown), key);
        }
        assert(query_report(q, context, result, trace, ledger)->Ok_0.result == cut);
    }
}

/// The answer to a Query without pages and without parts is reported under its
/// field, normalized.
pub proof fn law_answers_are_reported(q: ComposedView, c: ContextView, r: ResponseView, known: KnownView)
    requires
        q.command == QueryCommand::Definition || q.command == QueryCommand::Hover || q.command
            == QueryCommand::DocumentSymbols || q.command == QueryCommand::PrepareRename,
        q.page is None,
        q.request is Some,
        r.partial_results.len() == 0,
    ensures
        normalized(q.command, r.result) matches Ok(result) ==> (executed(q, c, r, known) matches Ok(
            ExecutionView::Answered(v),
        ) && v.get("result"@) == Some(result) && v.get("method"@) == Some(JsonView::Text(q.request->0.method))),
        normalized(q.command, r.result) is Err ==> executed(q, c, r, known) is Err,
{
    if let Ok(ExecutionView::Answered(v)) = executed(q, c, r, known) {
        if let Ok(result) = normalized(q.command, r.result) {
            let context = crate::query_execute::answered_context(c, r).json(
                crate::query_command::positioned(q.command),
            );
            let e = query_report(q, context, result, r.trace, r.apply_edit_ledger)->Ok_0;
            law_reports_say_what_is_known(e);
            assert(v == e.json());
        }
    }
}

/// What is said of diagnostics is whether they are fresh and complete, where
/// they come from, and of a workspace whether all of it is covered.
pub proof fn law_diagnostics_say_how_good_they_are(m: MetadataView)
    ensures
        metadata_json(m).get("complete"@) == Some(JsonView::Bool(m.complete)),
        metadata_json(m).get("fresh"@) == Some(JsonView::Bool(m.fresh)),
        metadata_json(m).get("source"@) == Some(JsonView::Text(m.source)),
        m.workspace_complete matches Some(b) ==> metadata_json(m).get("workspaceComplete"@) == Some(JsonView::Bool(b)),
        m.workspace_complete is None ==> metadata_json(m).get("workspaceComplete"@) == Some(JsonView::Null),
{
    reveal_strlit("complete");
    reveal_strlit("fresh");
    reveal_strlit("rawReport");
    reveal_strlit("source");
    reveal_strlit("workspaceComplete");
    assert("complete"@.len() == 8 && "fresh"@.len() == 5 && "rawReport"@.len() == 9 && "source"@.len() == 6
        && "workspaceComplete"@.len() == 17);
    let o = metadata_json(m)->Object_0;
    lemma_field_at(o, 0, "complete"@);
    lemma_field_at(o, 1, "fresh"@);
    let n = o.len();
    lemma_field_at(o, n - 2, "source"@);
    lemma_field_at(o, n - 1, "workspaceComplete"@);
}

/// The report of a failure holds all that was seen before it, under its name,
/// and everything else that it held.
pub proof fn law_failures_report_the_evidence(o: Seq<(Seq<char>, JsonView)>, f: ExecutionFailureView)
    ensures
        ({
            let r = JsonView::Object(failure_report(o, f));
            &&& f.method matches Some(m) ==> r.get("method"@) == Some(JsonView::Text(m))
            &&& f.context is Some ==> r.get("context"@) == f.context
            &&& f.partial_result is Some ==> r.get("partialResult"@) == f.partial_result
            &&& f.trace is Some ==> r.get("trace"@) == f.trace
            &&& f.apply_edit_ledger.len() > 0 ==> r.get("applyEditLedger"@) == Some(
                JsonView::Array(f.apply_edit_ledger),
            )
            &&& f.server_error matches Some(e) ==> (r.get("error"@) matches Some(error) && error.get("serverError"@)
                == Some(e))
            &&& r.get("ok"@) == field(o, "ok"@)
            &&& r.get("schemaVersion"@) == field(o, "schemaVersion"@)
            &&& f.server_error is None ==> r.get("error"@) == field(o, "error"@)
        }),
{
    lemma_report_names();
    reveal_strlit("partialResult");
    reveal_strlit("error");
    reveal_strlit("serverError");
    assert("partialResult"@.len() == 13 && "error"@.len() == 5 && "serverError"@.len() == 11);
    reveal_strlit("trace");
    reveal_strlit("schemaVersion");
    assert("trace"@[0] == 't' && "error"@[0] == 'e');
    assert("partialResult"@[0] == 'p' && "schemaVersion"@[0] == 's');
    assert forall|p: Seq<(Seq<char>, JsonView)>, key: Seq<char>, value: JsonView, name: Seq<char>|
        #![trigger field(with_field(p, key, value), name)]
        field(with_field(p, key, value), name) == (if name == key {
            Some(value)
        } else {
            field(p, name)
        }) by {
        lemma_field_set(p, key, value, name);
    }
    if let Some(e) = f.server_error {
        let inner = match field(o, "error"@) {
            Some(JsonView::Object(error)) => error,
            _ => seq![],
        };
        lemma_field_set(inner, "serverError"@, e, "serverError"@);
    }
}

/// Edits of a document that a server proposes become an edit of a workspace
/// that names the document, in the version that was asked about, and holds the
/// edits as they came; none become nothing. Of a resolved action it is the edit
/// of the action.
pub proof fn law_proposed_edits_are_the_servers(q: ComposedView, edits: Seq<JsonView>, action: JsonView)
    ensures
        q.command == QueryCommand::Format && edits.len() > 0 && q.document_uri is Some && q.document_version is Some ==> (
        proposed_edit(q, JsonView::Array(edits)).get("documentChanges"@) matches Some(JsonView::Array(changes))
            && changes.len() == 1 && changes[0].get("edits"@) == Some(JsonView::Array(edits)) && (changes[0].get(
            "textDocument"@,
        ) matches Some(document) && document.get("uri"@) == Some(JsonView::Text(q.document_uri->0)) && document.get(
            "version"@,
        ) == Some(JsonView::Int(q.document_version->0 as int)))),
        q.command == QueryCommand::Format && edits.len() == 0 ==> edits_nothing(
            proposed_edit(q, JsonView::Array(edits)),
        ),
        q.command == QueryCommand::ResolveCodeAction && action.get("edit"@) is Some ==> proposed_edit(q, action)
            == action.get("edit"@)->0,
        q.command == QueryCommand::ResolveCodeAction && action.get("edit"@) is None ==> edits_nothing(
            proposed_edit(q, action),
        ),
        q.command == QueryCommand::Rename ==> proposed_edit(q, action) == action,
{
    reveal_strlit("documentChanges");
    reveal_strlit("edits");
    reveal_strlit("textDocument");
    reveal_strlit("uri");
    reveal_strlit("version");
    assert("edits"@.len() == 5 && "textDocument"@.len() == 12 && "uri"@.len() == 3 && "version"@.len() == 7);
    if q.command == QueryCommand::Format && edits.len() > 0 {
        if let JsonView::Object(o) = proposed_edit(q, JsonView::Array(edits)) {
            lemma_field_at(o, 0, "documentChanges"@);
            if let JsonView::Array(changes) = o[0].1 {
                if let JsonView::Object(change) = changes[0] {
                    lemma_field_at(change, 0, "edits"@);
                    lemma_field_at(change, 1, "textDocument"@);
                    if let JsonView::Object(document) = change[1].1 {
                        lemma_field_at(document, 0, "uri"@);
                        lemma_field_at(document, 1, "version"@);
                    }
                }
            }
        }
    }
}

/// An edit changes nothing exactly where it is null, or an object that lists
/// changes only of documents without edits and no changes of documents in
/// their versions.
pub proof fn law_empty_edits_change_nothing(o: Seq<(Seq<char>, JsonView)>, changes: Seq<(Seq<char>, JsonView)>)
    ensures
        edits_nothing(JsonView::Null),
        JsonView::Object(o).get("changes"@) is None && JsonView::Object(o).get("documentChanges"@) is None
            ==> edits_nothing(JsonView::Object(o)),
        JsonView::Object(o).get("changes"@) == Some(JsonView::Object(changes)) && (exists|i: int|
            0 <= i < changes.len() && ((#[trigger] changes[i]).1 matches JsonView::Array(edits) && edits.len() > 0))
            ==> !edits_nothing(JsonView::Object(o)),
        (JsonView::Object(o).get("documentChanges"@) matches Some(JsonView::Array(listed)) && listed.len() > 0)
            ==> !edits_nothing(JsonView::Object(o)),
{
}

} // verus!
