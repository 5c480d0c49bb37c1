//! What becomes of the answers of servers: in which context they are reported,
//! when diagnostics count, and what is handed on to become a preview.

use vstd::prelude::*;

use crate::compose::{ComposedView, KnownView};
use crate::json::{JsonView, lemma_field_at, lemma_field_concat, lemma_field_missing};
use crate::position::PositionEncoding;
use crate::query_command::QueryCommand;
use crate::query_envelopes::{
    EnvelopeView,
    MetadataView,
    PulledReport,
    document_metadata,
    document_unknown,
    holds_unchanged,
    is_unchanged,
    metadata_json,
    query_report,
    related_unknown,
    workspace_metadata,
    workspace_unknown,
};
use crate::query_execute::{
    ContextView,
    ExecutionView,
    Finish,
    KnownReport,
    Published,
    ResponseView,
    action_problem,
    answered_context,
    edits_nothing,
    finished,
    flattened,
    known_report_json,
    mutation_report,
    next_of,
    partial_json,
    proposal_of,
    proposed_edit,
    published_report,
};
use crate::report_laws::{law_diagnostics_say_how_good_they_are, law_reports_say_what_is_known};

verus! {

proof fn lemma_names()
    ensures
        "action"@.len() == 6,
        "closed"@.len() == 6,
        "complete"@.len() == 8,
        "diagnostics"@.len() == 11,
        "fresh"@.len() == 5,
        "inputPositionEncoding"@.len() == 21,
        "items"@.len() == 5,
        "ownerGeneration"@.len() == 15,
        "reason"@.len() == 6,
        "recovery"@.len() == 8,
        "resultPositionEncoding"@.len() == 22,
        "server"@.len() == 6,
        "serverProgress"@.len() == 14,
        "sessionIdentity"@.len() == 15,
        "synchronization"@.len() == 15,
        "uri"@.len() == 3,
        "version"@.len() == 7,
        "workspaceUri"@.len() == 12,
        "action"@ != "closed"@,
        "action"@ != "reason"@,
        "action"@ != "server"@,
        "closed"@ != "reason"@,
        "closed"@ != "server"@,
        "complete"@ != "recovery"@,
        "fresh"@ != "items"@,
        "ownerGeneration"@ != "sessionIdentity"@,
        "ownerGeneration"@ != "synchronization"@,
        "reason"@ != "server"@,
        "sessionIdentity"@ != "synchronization"@,
{
    reveal_strlit("action");
    reveal_strlit("closed");
    reveal_strlit("complete");
    reveal_strlit("diagnostics");
    reveal_strlit("fresh");
    reveal_strlit("inputPositionEncoding");
    reveal_strlit("items");
    reveal_strlit("ownerGeneration");
    reveal_strlit("reason");
    reveal_strlit("recovery");
    reveal_strlit("resultPositionEncoding");
    reveal_strlit("server");
    reveal_strlit("serverProgress");
    reveal_strlit("sessionIdentity");
    reveal_strlit("synchronization");
    reveal_strlit("uri");
    reveal_strlit("version");
    reveal_strlit("workspaceUri");
    assert("action"@[0] == 'a' && "closed"@[0] == 'c');
    assert("action"@[0] == 'a' && "reason"@[0] == 'r');
    assert("action"@[0] == 'a' && "server"@[0] == 's');
    assert("closed"@[0] == 'c' && "reason"@[0] == 'r');
    assert("closed"@[0] == 'c' && "server"@[0] == 's');
    assert("complete"@[0] == 'c' && "recovery"@[0] == 'r');
    assert("fresh"@[0] == 'f' && "items"@[0] == 'i');
    assert("ownerGeneration"@[0] == 'o' && "sessionIdentity"@[0] == 's');
    assert("ownerGeneration"@[0] == 'o' && "synchronization"@[0] == 's');
    assert("reason"@[0] == 'r' && "server"@[0] == 's');
    assert("sessionIdentity"@[1] == 'e' && "synchronization"@[1] == 'y');
}

proof fn lemma_context(c: ContextView, has_input_position: bool, key: Seq<char>)
    ensures
        c.json(has_input_position).get(key) == ({
            if key == "inputPositionEncoding"@ {
                if has_input_position { Some(JsonView::Text("unicode-scalar"@)) } else { None }
            } else if key == "ownerGeneration"@ {
                Some(JsonView::Text(c.owner_generation))
            } else if key == "recovery"@ {
                Some(c.recovery)
            } else if key == "resultPositionEncoding"@ {
                Some(JsonView::Text(c.result_position_encoding.name_text()))
            } else if key == "server"@ {
                Some(JsonView::Text(c.server))
            } else if key == "serverProgress"@ {
                if c.server_progress.len() > 0 { Some(JsonView::Array(c.server_progress)) } else { None }
            } else if key == "sessionIdentity"@ {
                Some(JsonView::Text(c.session_identity))
            } else if key == "synchronization"@ {
                Some(c.synchronization)
            } else if key == "workspaceUri"@ {
                Some(JsonView::Text(c.workspace_uri))
            } else {
                None
            }
        }),
{
    lemma_names();
    let p0 = (if has_input_position { seq![("inputPositionEncoding"@, JsonView::Text("unicode-scalar"@))] } else { seq![] });
    if p0.len() > 0 && key == "inputPositionEncoding"@ {
        lemma_field_at(p0, 0, key);
    } else {
        lemma_field_missing(p0, key);
    }
    let p1 = seq![("ownerGeneration"@, JsonView::Text(c.owner_generation)), ("recovery"@, c.recovery), ("resultPositionEncoding"@, JsonView::Text(c.result_position_encoding.name_text())), ("server"@, JsonView::Text(c.server))];
    if key == "ownerGeneration"@ {
        lemma_field_at(p1, 0, key);
    } else if key == "recovery"@ {
        lemma_field_at(p1, 1, key);
    } else if key == "resultPositionEncoding"@ {
        lemma_field_at(p1, 2, key);
    } else if key == "server"@ {
        lemma_field_at(p1, 3, key);
    } else {
        lemma_field_missing(p1, key);
    }
    let p2 = (if c.server_progress.len() > 0 { seq![("serverProgress"@, JsonView::Array(c.server_progress))] } else { seq![] });
    if p2.len() > 0 && key == "serverProgress"@ {
        lemma_field_at(p2, 0, key);
    } else {
        lemma_field_missing(p2, key);
    }
    let p3 = seq![("sessionIdentity"@, JsonView::Text(c.session_identity)), ("synchronization"@, c.synchronization), ("workspaceUri"@, JsonView::Text(c.workspace_uri))];
    if key == "sessionIdentity"@ {
        lemma_field_at(p3, 0, key);
    } else if key == "synchronization"@ {
        lemma_field_at(p3, 1, key);
    } else if key == "workspaceUri"@ {
        lemma_field_at(p3, 2, key);
    } else {
        lemma_field_missing(p3, key);
    }
    let s0 = p0;
    let s1 = s0 + p1;
    lemma_field_concat(s0, p1, key);
    let s2 = s1 + p2;
    lemma_field_concat(s1, p2, key);
    let s3 = s2 + p3;
    lemma_field_concat(s2, p3, key);
    assert(c.json(has_input_position)->Object_0 =~= s3);
}

/// An answer is reported with the session that gave it, the workspace, how
/// positions are counted, and what was synchronized; progress is reported
/// where there was any, and the counting of input where a position was given.
pub proof fn law_contexts_are_reported(c: ContextView, has_input_position: bool)
    ensures
        c.json(has_input_position).get("ownerGeneration"@) == Some(JsonView::Text(c.owner_generation)),
        c.json(has_input_position).get("sessionIdentity"@) == Some(JsonView::Text(c.session_identity)),
        c.json(has_input_position).get("workspaceUri"@) == Some(JsonView::Text(c.workspace_uri)),
        c.json(has_input_position).get("server"@) == Some(JsonView::Text(c.server)),
        c.json(has_input_position).get("recovery"@) == Some(c.recovery),
        c.json(has_input_position).get("synchronization"@) == Some(c.synchronization),
        c.result_position_encoding == PositionEncoding::Utf8 ==> c.json(has_input_position).get(
            "resultPositionEncoding"@,
        ) == Some(JsonView::Text("utf-8"@)),
        c.result_position_encoding == PositionEncoding::Utf16 ==> c.json(has_input_position).get(
            "resultPositionEncoding"@,
        ) == Some(JsonView::Text("utf-16"@)),
        has_input_position ==> c.json(has_input_position).get("inputPositionEncoding"@) == Some(
            JsonView::Text("unicode-scalar"@),
        ),
        !has_input_position ==> c.json(has_input_position).get("inputPositionEncoding"@) is None,
        c.server_progress.len() > 0 ==> c.json(has_input_position).get("serverProgress"@) == Some(
            JsonView::Array(c.server_progress),
        ),
        c.server_progress.len() == 0 ==> c.json(has_input_position).get("serverProgress"@) is None,
{
    lemma_names();
    lemma_context(c, has_input_position, "ownerGeneration"@);
    lemma_context(c, has_input_position, "sessionIdentity"@);
    lemma_context(c, has_input_position, "workspaceUri"@);
    lemma_context(c, has_input_position, "server"@);
    lemma_context(c, has_input_position, "recovery"@);
    lemma_context(c, has_input_position, "synchronization"@);
    lemma_context(c, has_input_position, "resultPositionEncoding"@);
    lemma_context(c, has_input_position, "inputPositionEncoding"@);
    lemma_context(c, has_input_position, "serverProgress"@);
}

/// What a server reports of its progress and of what was synchronized counts
/// in the report of its answer, and all else stays as it was known before.
pub proof fn law_answers_update_the_context(c: ContextView, r: ResponseView)
    ensures
        r.synchronization matches Some(s) ==> answered_context(c, r).synchronization == s,
        r.synchronization is None ==> answered_context(c, r).synchronization == c.synchronization,
        answered_context(c, r).server_progress == r.server_progress,
        answered_context(c, r).workspace_uri == c.workspace_uri,
        answered_context(c, r).server == c.server,
        answered_context(c, r).session_identity == c.session_identity,
        answered_context(c, r).owner_generation == c.owner_generation,
        answered_context(c, r).result_position_encoding == c.result_position_encoding,
        answered_context(c, r).recovery == c.recovery,
{
}

proof fn lemma_related(related: Seq<(Seq<char>, JsonView)>, known: KnownView)
    ensures
        related_unknown(related, known) is None <==> forall|i: int|
            0 <= i < related.len() && (#[trigger] related[i]).1.get("kind"@) == Some(JsonView::Text("unchanged"@))
                ==> known.result_ids.dom().contains(related[i].0),
    decreases related.len(),
{
    if related.len() > 0 {
        let rest = related.drop_first();
        lemma_related(rest, known);
        if related_unknown(related, known) is None {
            assert forall|i: int|
                0 <= i < related.len() && (#[trigger] related[i]).1.get("kind"@) == Some(
                    JsonView::Text("unchanged"@),
                ) implies known.result_ids.dom().contains(related[i].0) by {
                if i > 0 {
                    assert(rest[i - 1] == related[i]);
                }
            }
        } else if related_unknown(rest, known) is Some {
            let i = choose|i: int|
                0 <= i < rest.len() && (#[trigger] rest[i]).1.get("kind"@) == Some(JsonView::Text("unchanged"@))
                    && !known.result_ids.dom().contains(rest[i].0);
            assert(related[i + 1] == rest[i]);
        } else {
            assert(related[0].1.get("kind"@) == Some(JsonView::Text("unchanged"@)));
        }
    }
}

/// A report that says that nothing changed counts only where the full report
/// is known, for the document and for each related one.
pub proof fn law_unchanged_reports_rest_on_known_ones(uri: Seq<char>, report: JsonView, known: KnownView)
    ensures
        report.get("kind"@) == Some(JsonView::Text("unchanged"@)) && !known.result_ids.dom().contains(uri)
            ==> document_unknown(uri, report, known) is Some,
        report.get("relatedDocuments"@) is None ==> (document_unknown(uri, report, known) is None <==> (report.get(
            "kind"@,
        ) == Some(JsonView::Text("unchanged"@)) ==> known.result_ids.dom().contains(uri))),
        report.get("relatedDocuments"@) matches Some(JsonView::Object(related)) ==> (document_unknown(
            uri,
            report,
            known,
        ) is None <==> (report.get("kind"@) == Some(JsonView::Text("unchanged"@)) ==> known.result_ids.dom().contains(
            uri,
        )) && forall|i: int|
            0 <= i < related.len() && (#[trigger] related[i]).1.get("kind"@) == Some(JsonView::Text("unchanged"@))
                ==> known.result_ids.dom().contains(related[i].0)),
{
    if let Some(JsonView::Object(related)) = report.get("relatedDocuments"@) {
        lemma_related(related, known);
    }
}

/// In a workspace, each document of which a server says that nothing changed
/// has to be known.
pub proof fn law_unchanged_documents_are_known(items: Seq<JsonView>, from: int, known: KnownView, method: Seq<char>)
    requires
        0 <= from,
    ensures
        workspace_unknown(items, from, known, method) is None <==> forall|i: int|
            from <= i < items.len() && (#[trigger] items[i]).get("kind"@) == Some(JsonView::Text("unchanged"@)) && (
            items[i].get("uri"@) matches Some(JsonView::Text(_))) ==> known.result_ids.dom().contains(
                items[i].get("uri"@)->0->Text_0,
            ),
    decreases items.len() - from,
{
    if from < items.len() {
        law_unchanged_documents_are_known(items, from + 1, known, method);
        assert(items[from] == items[from]);
        if workspace_unknown(items, from, known, method) is None {
            assert forall|i: int|
                from <= i < items.len() && (#[trigger] items[i]).get("kind"@) == Some(JsonView::Text("unchanged"@)) && (
                items[i].get("uri"@) matches Some(JsonView::Text(_))) implies known.result_ids.dom().contains(
                items[i].get("uri"@)->0->Text_0,
            ) by {}
        }
    }
}

/// A report holds something unchanged where it says so itself, or one of its
/// items or related reports does.
pub proof fn law_unchanged_parts_are_found(
    report: JsonView,
    items: Seq<JsonView>,
    related: Seq<(Seq<char>, JsonView)>,
    i: int,
)
    ensures
        report.get("kind"@) == Some(JsonView::Text("unchanged"@)) ==> holds_unchanged(report),
        report.get("items"@) == Some(JsonView::Array(items)) && 0 <= i < items.len() && items[i].get("kind"@) == Some(
            JsonView::Text("unchanged"@),
        ) ==> holds_unchanged(report),
        report.get("relatedDocuments"@) == Some(JsonView::Object(related)) && 0 <= i < related.len()
            && related[i].1.get("kind"@) == Some(JsonView::Text("unchanged"@)) ==> holds_unchanged(report),
        report.get("kind"@) != Some(JsonView::Text("unchanged"@)) && report.get("items"@) is None && report.get(
            "relatedDocuments"@,
        ) is None ==> !holds_unchanged(report),
{
    if report.get("items"@) == Some(JsonView::Array(items)) && 0 <= i < items.len() && items[i].get("kind"@) == Some(
        JsonView::Text("unchanged"@),
    ) {
        assert(is_unchanged(items[i]));
    }
    if report.get("relatedDocuments"@) == Some(JsonView::Object(related)) && 0 <= i < related.len()
        && related[i].1.get("kind"@) == Some(JsonView::Text("unchanged"@)) {
        assert(is_unchanged(related[i].1));
    }
}

proof fn lemma_reported(q: ComposedView, context: JsonView, result: JsonView, m: MetadataView, trace: Option<JsonView>, ledger: Seq<JsonView>)
    requires
        q.page is None,
    ensures
        crate::query_envelopes::diagnostic_report(q, context, result, m, trace, ledger) matches Ok(v) && v.get(
            "result"@,
        ) == Some(result) && v.get("context"@) == Some(context) && v.get("diagnostics"@) == Some(metadata_json(m)),
{
    let e = query_report(q, context, result, trace, ledger)->Ok_0;
    law_reports_say_what_is_known(EnvelopeView { diagnostics: Some(metadata_json(m)), ..e });
}

/// The diagnostics of a document are reported as they come out of what the
/// server said and what was known, with how fresh and complete they are; what
/// still says only that nothing changed is refused.
pub proof fn law_pulled_diagnostics_are_reported(
    q: ComposedView,
    context: JsonView,
    contains_unchanged: bool,
    pulled: PulledReport,
    trace: Option<JsonView>,
    ledger: Seq<JsonView>,
)
    requires
        q.page is None,
    ensures
        ({
            let report = finished(q, context, Finish::Document { contains_unchanged, pulled }, trace, ledger);
            &&& report is Ok <==> !(pulled.effective_report@ is Null) && !holds_unchanged(pulled.effective_report@)
            &&& report matches Ok(v) ==> {
                &&& v.get("result"@) == Some(pulled.effective_report@)
                &&& v.get("context"@) == Some(context)
                &&& v.get("diagnostics"@) matches Some(said)
                &&& said.get("fresh"@) == Some(JsonView::Bool(pulled.fresh))
                &&& said.get("complete"@) == Some(JsonView::Bool(pulled.complete))
                &&& said.get("source"@) == Some(JsonView::Text("pull-document"@))
                &&& said.get("workspaceComplete"@) == Some(JsonView::Null)
            }
        }),
        ({
            let report = finished(q, context, Finish::Workspace(pulled), trace, ledger);
            &&& report is Ok <==> !holds_unchanged(pulled.effective_report@)
            &&& report matches Ok(v) ==> {
                &&& v.get("result"@) == Some(pulled.effective_report@)
                &&& v.get("diagnostics"@) matches Some(said)
                &&& said.get("fresh"@) == Some(JsonView::Bool(pulled.fresh))
                &&& said.get("complete"@) == Some(JsonView::Bool(pulled.complete))
                &&& said.get("source"@) == Some(JsonView::Text("pull-workspace"@))
                &&& said.get("workspaceComplete"@) == Some(JsonView::Bool(pulled.workspace_complete))
            }
        }),
{
    let d = document_metadata(pulled, contains_unchanged);
    let w = workspace_metadata(pulled);
    lemma_reported(q, context, pulled.effective_report@, d, trace, ledger);
    lemma_reported(q, context, pulled.effective_report@, w, trace, ledger);
    law_diagnostics_say_how_good_they_are(d);
    law_diagnostics_say_how_good_they_are(w);
}

/// What a server published of a document is reported as it was published, with
/// whether it is fresh and complete.
pub proof fn law_published_diagnostics_are_reported(q: ComposedView, context: JsonView, diagnostics: crate::json::Json, fresh: bool, complete: bool)
    requires
        q.page is None,
    ensures
        published_report(q, context, Published::Document { diagnostics, fresh, complete }) matches Ok(v) && v.get(
            "result"@,
        ) == Some(diagnostics@) && (v.get("diagnostics"@) matches Some(said) && said.get("fresh"@) == Some(
            JsonView::Bool(fresh),
        ) && said.get("complete"@) == Some(JsonView::Bool(complete)) && said.get("source"@) == Some(
            JsonView::Text("published"@),
        )),
{
    let m = MetadataView { raw_report: None, fresh, complete, workspace_complete: None, source: "published"@ };
    lemma_reported(q, context, diagnostics@, m, None, seq![]);
    law_diagnostics_say_how_good_they_are(m);
}

/// What is known of a document is reported under its URI, with its version and
/// whether it is fresh or closed.
pub proof fn law_known_reports_are_reported(k: KnownReport)
    ensures
        known_report_json(k).get("uri"@) == Some(JsonView::Text(k.uri@)),
        known_report_json(k).get("diagnostics"@) == Some(k.diagnostics@),
        known_report_json(k).get("fresh"@) == Some(JsonView::Bool(k.fresh)),
        known_report_json(k).get("closed"@) == Some(JsonView::Bool(k.closed)),
        k.version matches Some(n) ==> known_report_json(k).get("version"@) == Some(JsonView::Int(n as int)),
        k.version is None ==> known_report_json(k).get("version"@) == Some(JsonView::Null),
{
    lemma_names();
    let o = known_report_json(k)->Object_0;
    lemma_field_at(o, 0, "closed"@);
    lemma_field_at(o, 1, "diagnostics"@);
    lemma_field_at(o, 2, "fresh"@);
    lemma_field_at(o, 3, "uri"@);
    lemma_field_at(o, 4, "version"@);
}

/// The parts of an answer that failed are kept item by item, in the order in
/// which they came, and are said to be incomplete.
pub proof fn law_parts_are_kept_in_order(parts: Seq<JsonView>, next: JsonView, items: Seq<JsonView>)
    ensures
        next == JsonView::Array(items) ==> flattened(parts.push(next)) == flattened(parts) + items,
        !(next is Array) ==> flattened(parts.push(next)) == flattened(parts).push(next),
        flattened(seq![]).len() == 0,
        partial_json(items).get("complete"@) == Some(JsonView::Bool(false)),
        partial_json(items).get("items"@) == Some(JsonView::Array(items)),
{
    lemma_names();
    assert(parts.push(next).drop_last() =~= parts);
    if !(next is Array) {
        assert(flattened(parts) + seq![next] =~= flattened(parts).push(next));
    }
    let o = partial_json(items)->Object_0;
    lemma_field_at(o, 0, "complete"@);
    lemma_field_at(o, 1, "items"@);
}

/// An action that a server disabled is refused with the reason it gives; one
/// that it did not is taken.
pub proof fn law_disabled_actions_are_refused(action: JsonView, method: Seq<char>, o: JsonView, reason: Seq<char>)
    ensures
        action.get("disabled"@) is None || action.get("disabled"@) == Some(JsonView::Null) <==> action_problem(
            action,
            method,
        ) is None,
        action.get("disabled"@) == Some(o) && o.get("reason"@) == Some(JsonView::Text(reason)) ==> (action_problem(
            action,
            method,
        ) matches Some(f) && f.code == "disabled_code_action"@ && f.data.get("reason"@) == Some(
            JsonView::Text(reason),
        ) && f.data.get("action"@) == Some(action)),
{
    lemma_names();
    if action.get("disabled"@) == Some(o) && o.get("reason"@) == Some(JsonView::Text(reason)) {
        let d = action_problem(action, method)->0.data->Object_0;
        lemma_field_at(d, 0, "action"@);
        lemma_field_at(d, 1, "reason"@);
    }
}

/// A renaming is proposed with the edit that the server gave, and an action
/// with its edit and its command; both keep the trace and the edits that the
/// server asked for meanwhile.
pub proof fn law_proposals_hold_the_answer(
    q: ComposedView,
    context: JsonView,
    result: JsonView,
    trace: Option<JsonView>,
    ledger: Seq<JsonView>,
)
    ensures
        ({
            let p = proposal_of(q, context, result, trace, ledger);
            &&& p.command == q.command
            &&& q.request is Some ==> p.method == q.request->0.method
            &&& p.context == context
            &&& p.trace == trace
            &&& p.apply_edit_ledger == ledger
            &&& q.command == QueryCommand::Rename ==> p.edit == result && p.command_payload is None
                && p.resolved_action is None
            &&& q.command == QueryCommand::ResolveCodeAction ==> p.resolved_action == Some(result)
                && p.command_payload == result.get("command"@) && (result.get("edit"@) matches Some(edit) ==> p.edit
                == edit)
        }),
{
}

/// The report of a query that proposes a change says whether there is a
/// preview of it.
pub proof fn law_proposed_changes_are_reported(
    q: ComposedView,
    context: JsonView,
    preview: JsonView,
    action: Option<JsonView>,
    trace: Option<JsonView>,
    ledger: Seq<JsonView>,
)
    requires
        q.page is None,
    ensures
        mutation_report(q, context, preview, action, trace, ledger) matches Ok(v) && {
            &&& v.get("result"@) == Some(preview)
            &&& preview is Null ==> v.get("outcome"@) == Some(JsonView::Text("unchanged"@))
            &&& !(preview is Null) ==> v.get("outcome"@) == Some(JsonView::Text("previewed"@))
            &&& v.get("resolvedAction"@) == action
            &&& v.get("trace"@) == trace
        },
{
    let e = query_report(q, context, preview, trace, ledger)->Ok_0;
    let outcome = if preview is Null {
        "unchanged"@
    } else {
        "previewed"@
    };
    law_reports_say_what_is_known(EnvelopeView { outcome: Some(outcome), resolved_action: action, ..e });
}

/// A renaming that changes something is handed on to become a preview, and one
/// that changes nothing is reported as unchanged.
pub proof fn law_renamings_become_previews(
    q: ComposedView,
    context: JsonView,
    result: JsonView,
    r: ResponseView,
    known: KnownView,
)
    requires
        q.command == QueryCommand::Rename,
        q.page is None,
    ensures
        result is Null ==> (next_of(q, context, result, r, known) matches Ok(ExecutionView::Answered(v)) && v.get(
            "outcome"@,
        ) == Some(JsonView::Text("unchanged"@))),
        !edits_nothing(result) ==> (next_of(q, context, result, r, known) matches Ok(ExecutionView::Preview(p))
            && p.edit == result),
{
    assert(proposed_edit(q, result) == result);
    law_proposed_changes_are_reported(q, context, JsonView::Null, None, r.trace, r.apply_edit_ledger);
}

} // verus!
