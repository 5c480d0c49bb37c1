//! Executing Queries: what is made of the answers of a language server.

use vstd::prelude::*;

use crate::capabilities::{capabilities_envelope, capabilities_json, copy_value};
use crate::compose::{ComposedQuery, ComposedView, KnownDiagnostics, KnownView};
use crate::failure::{ContractFailure, FailureView, failed, failure, result_view};
use crate::json::{
    Json,
    JsonView,
    array_view,
    copy_fields,
    copy_items,
    object1,
    object2,
    object_view,
    push_field,
    set_field,
    text_value,
    with_field,
};
use crate::position::PositionEncoding;
use crate::query_command::{
    QueryCommand,
    command_method,
    has_source_position,
    partial_results,
    positioned,
};
use crate::query_envelopes::{
    DiagnosticMetadata,
    Envelope,
    EnvelopeView,
    MetadataView,
    PulledReport,
    check_document_report,
    check_workspace_report,
    diagnostic_envelope,
    diagnostic_report,
    diagnostic_report_contains_unchanged,
    document_diagnostic_envelope,
    document_diagnostics,
    document_unknown,
    holds_unchanged,
    query_envelope,
    query_report,
    workspace_diagnostic_envelope,
    workspace_diagnostics,
    workspace_unknown,
};
use crate::query_inputs::text_or_null;
use crate::query_results::{
    append_items,
    invalid_failed,
    invalid_result,
    items_field,
    merge_partial_results,
    merged,
    normalize_named_result,
    normalized,
    report_items,
};
use crate::text::{opt_ref_view, opt_view};

verus! {

/// Under what a Query was asked.
pub struct QueryContext {
    pub workspace_uri: String,
    pub server: String,
    pub session_identity: String,
    pub owner_generation: String,
    pub result_position_encoding: PositionEncoding,
    pub server_progress: Vec<Json>,
    pub synchronization: Json,
    pub recovery: Json,
}

/// What a [`QueryContext`] stands for.
#[verifier::ext_equal]
pub ghost struct ContextView {
    pub workspace_uri: Seq<char>,
    pub server: Seq<char>,
    pub session_identity: Seq<char>,
    pub owner_generation: Seq<char>,
    pub result_position_encoding: PositionEncoding,
    pub server_progress: Seq<JsonView>,
    pub synchronization: JsonView,
    pub recovery: JsonView,
}

impl View for QueryContext {
    type V = ContextView;

    open spec fn view(&self) -> ContextView {
        ContextView {
            workspace_uri: self.workspace_uri@,
            server: self.server@,
            session_identity: self.session_identity@,
            owner_generation: self.owner_generation@,
            result_position_encoding: self.result_position_encoding,
            server_progress: array_view(self.server_progress@),
            synchronization: self.synchronization@,
            recovery: self.recovery@,
        }
    }
}

impl ContextView {
    /// The context in JSON.
    pub open spec fn json(self, has_input_position: bool) -> JsonView {
        JsonView::Object(
            (if has_input_position {
                seq![("inputPositionEncoding"@, JsonView::Text("unicode-scalar"@))]
            } else {
                seq![]
            }) + seq![
                ("ownerGeneration"@, JsonView::Text(self.owner_generation)),
                ("recovery"@, self.recovery),
                ("resultPositionEncoding"@, JsonView::Text(self.result_position_encoding.name_text())),
                ("server"@, JsonView::Text(self.server)),
            ] + (if self.server_progress.len() > 0 {
                seq![("serverProgress"@, JsonView::Array(self.server_progress))]
            } else {
                seq![]
            }) + seq![
                ("sessionIdentity"@, JsonView::Text(self.session_identity)),
                ("synchronization"@, self.synchronization),
                ("workspaceUri"@, JsonView::Text(self.workspace_uri)),
            ],
        )
    }
}

impl QueryContext {
    /// The context in JSON.
    pub fn json(&self, has_input_position: bool) -> (r: Json)
        ensures
            r@ == self@.json(has_input_position),
    {
        let mut o: Vec<(String, Json)> = Vec::new();
        assert(object_view(o@) =~= Seq::<(Seq<char>, JsonView)>::empty());
        if has_input_position {
            push_field(&mut o, "inputPositionEncoding", text_value("unicode-scalar"));
        }
        push_field(&mut o, "ownerGeneration", text_value(self.owner_generation.as_str()));
        push_field(&mut o, "recovery", self.recovery.copy());
        push_field(&mut o, "resultPositionEncoding", text_value(self.result_position_encoding.name()));
        push_field(&mut o, "server", text_value(self.server.as_str()));
        if self.server_progress.len() > 0 {
            push_field(&mut o, "serverProgress", Json::Array(copy_items(&self.server_progress)));
        }
        push_field(&mut o, "sessionIdentity", text_value(self.session_identity.as_str()));
        push_field(&mut o, "synchronization", self.synchronization.copy());
        push_field(&mut o, "workspaceUri", text_value(self.workspace_uri.as_str()));
        assert(object_view(o@) =~= self@.json(has_input_position)->Object_0);
        Json::Object(o)
    }
}

/// The answer of a language server.
pub struct DispatchResponse {
    pub result: Json,
    pub partial_results: Vec<Json>,
    pub trace: Option<Json>,
    pub apply_edit_ledger: Vec<Json>,
    pub server_progress: Vec<Json>,
    pub synchronization: Option<Json>,
}

/// What a [`DispatchResponse`] stands for.
#[verifier::ext_equal]
pub ghost struct ResponseView {
    pub result: JsonView,
    pub partial_results: Seq<JsonView>,
    pub trace: Option<JsonView>,
    pub apply_edit_ledger: Seq<JsonView>,
    pub server_progress: Seq<JsonView>,
    pub synchronization: Option<JsonView>,
}

impl View for DispatchResponse {
    type V = ResponseView;

    open spec fn view(&self) -> ResponseView {
        ResponseView {
            result: self.result@,
            partial_results: array_view(self.partial_results@),
            trace: opt_view(self.trace),
            apply_edit_ledger: array_view(self.apply_edit_ledger@),
            server_progress: array_view(self.server_progress@),
            synchronization: opt_view(self.synchronization),
        }
    }
}

/// A request that failed, with what was seen before it failed.
pub struct DispatchFailure {
    pub failure: ContractFailure,
    /// The error of the server, where the failure is one.
    pub server_error: Option<Json>,
    /// The parts of the answer that came before.
    pub partial_results: Vec<Json>,
    pub trace: Option<Json>,
    pub apply_edit_ledger: Vec<Json>,
}

/// What a [`DispatchFailure`] stands for.
#[verifier::ext_equal]
pub ghost struct DispatchFailureView {
    pub failure: FailureView,
    pub server_error: Option<JsonView>,
    pub partial_results: Seq<JsonView>,
    pub trace: Option<JsonView>,
    pub apply_edit_ledger: Seq<JsonView>,
}

impl View for DispatchFailure {
    type V = DispatchFailureView;

    open spec fn view(&self) -> DispatchFailureView {
        DispatchFailureView {
            failure: self.failure@,
            server_error: opt_view(self.server_error),
            partial_results: array_view(self.partial_results@),
            trace: opt_view(self.trace),
            apply_edit_ledger: array_view(self.apply_edit_ledger@),
        }
    }
}

impl DispatchFailure {
    /// A failure before anything was seen.
    pub fn from_failure(failure: ContractFailure) -> (r: Self)
        ensures
            r@ == (DispatchFailureView {
                failure: failure@,
                server_error: None,
                partial_results: seq![],
                trace: None,
                apply_edit_ledger: seq![],
            }),
    {
        let partial_results: Vec<Json> = Vec::new();
        let apply_edit_ledger: Vec<Json> = Vec::new();
        assert(array_view(partial_results@) =~= Seq::<JsonView>::empty());
        assert(array_view(apply_edit_ledger@) =~= Seq::<JsonView>::empty());
        Self { failure, server_error: None, partial_results, trace: None, apply_edit_ledger }
    }
}

/// A Query that failed, with everything that its report holds besides.
pub struct QueryExecutionFailure {
    pub failure: ContractFailure,
    pub server_error: Option<Json>,
    pub method: Option<String>,
    pub context: Option<Json>,
    pub partial_result: Option<Json>,
    pub trace: Option<Json>,
    pub apply_edit_ledger: Vec<Json>,
}

/// What a [`QueryExecutionFailure`] stands for.
#[verifier::ext_equal]
pub ghost struct ExecutionFailureView {
    pub failure: FailureView,
    pub server_error: Option<JsonView>,
    pub method: Option<Seq<char>>,
    pub context: Option<JsonView>,
    pub partial_result: Option<JsonView>,
    pub trace: Option<JsonView>,
    pub apply_edit_ledger: Seq<JsonView>,
}

impl View for QueryExecutionFailure {
    type V = ExecutionFailureView;

    open spec fn view(&self) -> ExecutionFailureView {
        ExecutionFailureView {
            failure: self.failure@,
            server_error: opt_view(self.server_error),
            method: opt_view(self.method),
            context: opt_view(self.context),
            partial_result: opt_view(self.partial_result),
            trace: opt_view(self.trace),
            apply_edit_ledger: array_view(self.apply_edit_ledger@),
        }
    }
}

/// A failure before anything was sent.
pub open spec fn failed_before(f: FailureView) -> ExecutionFailureView {
    ExecutionFailureView {
        failure: f,
        server_error: None,
        method: None,
        context: None,
        partial_result: None,
        trace: None,
        apply_edit_ledger: seq![],
    }
}

/// A failure after the server answered.
pub open spec fn failed_after(
    f: FailureView,
    method: Seq<char>,
    context: JsonView,
    trace: Option<JsonView>,
    ledger: Seq<JsonView>,
) -> ExecutionFailureView {
    ExecutionFailureView {
        failure: f,
        server_error: None,
        method: Some(method),
        context: Some(context),
        partial_result: None,
        trace,
        apply_edit_ledger: ledger,
    }
}

impl QueryExecutionFailure {
    /// A failure before anything was sent.
    pub fn before_dispatch(failure: ContractFailure) -> (r: Self)
        ensures
            r@ == failed_before(failure@),
    {
        let none: Vec<Json> = Vec::new();
        assert(array_view(none@) =~= Seq::<JsonView>::empty());
        Self {
            failure,
            server_error: None,
            method: None,
            context: None,
            partial_result: None,
            trace: None,
            apply_edit_ledger: none,
        }
    }

    /// A failure after the server answered.
    pub fn after_dispatch(
        failure: ContractFailure,
        method: &str,
        context: &Json,
        trace: Option<&Json>,
        apply_edit_ledger: &Vec<Json>,
    ) -> (r: Self)
        ensures
            r@ == failed_after(
                failure@,
                method@,
                context@,
                opt_ref_view(trace),
                array_view(apply_edit_ledger@),
            ),
    {
        Self {
            failure,
            server_error: None,
            method: Some(method.to_owned()),
            context: Some(context.copy()),
            partial_result: None,
            trace: copy_value(trace),
            apply_edit_ledger: copy_items(apply_edit_ledger),
        }
    }
}

/// The items of parts: those of each row, and what is no row as it is.
pub open spec fn flattened(parts: Seq<JsonView>) -> Seq<JsonView>
    decreases parts.len(),
{
    if parts.len() == 0 {
        seq![]
    } else {
        flattened(parts.drop_last()) + match parts.last() {
            JsonView::Array(items) => items,
            part => seq![part],
        }
    }
}

fn flatten(parts: &Vec<Json>) -> (r: Vec<Json>)
    ensures
        array_view(r@) == flattened(array_view(parts@)),
{
    let ghost all = array_view(parts@);
    let mut r: Vec<Json> = Vec::new();
    let mut i: usize = 0;
    assert(all.take(0) =~= Seq::<JsonView>::empty());
    assert(array_view(r@) =~= Seq::<JsonView>::empty());
    while i < parts.len()
        invariant
            i <= parts@.len(),
            all == array_view(parts@),
            array_view(r@) == flattened(all.take(i as int)),
        decreases parts.len() - i,
    {
        proof {
            assert(all.take(i + 1).drop_last() =~= all.take(i as int));
            assert(all.take(i + 1).last() == parts@[i as int]@);
        }
        let ghost before = array_view(r@);
        match &parts[i] {
            Json::Array(items) => {
                append_items(&mut r, items);
            },
            part => {
                r.push(part.copy());
                assert(array_view(r@) =~= before + seq![parts@[i as int]@]);
            },
        }
        i += 1;
    }
    assert(all.take(i as int) =~= all);
    r
}

/// The parts of an answer that did not come to its end, in JSON.
pub open spec fn partial_json(items: Seq<JsonView>) -> JsonView {
    JsonView::Object(seq![("complete"@, JsonView::Bool(false)), ("items"@, JsonView::Array(items))])
}

/// A Query whose request failed: nothing that was seen is lost.
pub open spec fn dispatch_failed(q: ComposedView, context: JsonView, f: DispatchFailureView) -> ExecutionFailureView {
    ExecutionFailureView {
        failure: f.failure,
        server_error: f.server_error,
        method: match q.request {
            Some(r) => Some(r.method),
            None => None,
        },
        context: Some(context),
        partial_result: if partial_results(q.command) && flattened(f.partial_results).len() > 0 {
            Some(partial_json(flattened(f.partial_results)))
        } else {
            None
        },
        trace: f.trace,
        apply_edit_ledger: f.apply_edit_ledger,
    }
}

/// A Query whose request failed.
pub fn query_dispatch_failure(composed: &ComposedQuery, context: Json, failure: DispatchFailure) -> (r:
    QueryExecutionFailure)
    ensures
        r@ == dispatch_failed(composed@, context@, failure@),
{
    let items: Vec<Json> = flatten(&failure.partial_results);
    let ghost all = array_view(items@);
    assert(all.len() == items@.len());
    let partial_result: Option<Json> = if composed.command.supports_partial_results() && items.len() > 0 {
        Some(object2("complete", Json::Bool(false), "items", Json::Array(items)))
    } else {
        None
    };
    QueryExecutionFailure {
        failure: failure.failure,
        server_error: failure.server_error,
        method: match &composed.request {
            Some(request) => Some(request.method.clone()),
            None => None,
        },
        context: Some(context),
        partial_result,
        trace: failure.trace,
        apply_edit_ledger: failure.apply_edit_ledger,
    }
}

/// Fields with one more set, where it has a value.
pub open spec fn with_optional(o: Seq<(Seq<char>, JsonView)>, name: Seq<char>, value: Option<JsonView>) -> Seq<(Seq<char>, JsonView)> {
    match value {
        Some(v) => with_field(o, name, v),
        None => o,
    }
}

/// The report of a failure with the error of the server in it.
pub open spec fn with_server_error(o: Seq<(Seq<char>, JsonView)>, server_error: Option<JsonView>) -> Seq<(Seq<char>, JsonView)> {
    match server_error {
        None => o,
        Some(e) => with_field(
            o,
            "error"@,
            JsonView::Object(
                with_field(
                    match crate::json::field(o, "error"@) {
                        Some(JsonView::Object(error)) => error,
                        _ => seq![],
                    },
                    "serverError"@,
                    e,
                ),
            ),
        ),
    }
}

/// The report of a failure with all that is known besides.
pub open spec fn failure_report(o: Seq<(Seq<char>, JsonView)>, f: ExecutionFailureView) -> Seq<(Seq<char>, JsonView)> {
    let o = with_server_error(o, f.server_error);
    let o = with_optional(
        o,
        "method"@,
        match f.method {
            Some(m) => Some(JsonView::Text(m)),
            None => None,
        },
    );
    let o = with_optional(o, "context"@, f.context);
    let o = with_optional(o, "partialResult"@, f.partial_result);
    let o = with_optional(o, "trace"@, f.trace);
    if f.apply_edit_ledger.len() > 0 {
        with_field(o, "applyEditLedger"@, JsonView::Array(f.apply_edit_ledger))
    } else {
        o
    }
}

fn set_optional(o: &mut Vec<(String, Json)>, name: &str, value: Option<&Json>)
    ensures
        object_view(final(o)@) == with_optional(object_view(old(o)@), name@, opt_ref_view(value)),
{
    if let Some(v) = value {
        set_field(o, name, v.copy());
    }
}

/// Completes the report of a failure with all that is known besides: the error
/// of the server, the method, the context, the parts that came, the frames of
/// the protocol and the edits that the server proposed.
pub fn query_failure_envelope(envelope: Vec<(String, Json)>, failure: &QueryExecutionFailure) -> (r: Json)
    ensures
        r@ == JsonView::Object(failure_report(object_view(envelope@), failure@)),
{
    let mut o: Vec<(String, Json)> = envelope;
    if let Some(e) = &failure.server_error {
        let mut error: Vec<(String, Json)> = match crate::json::find_field(&o, "error") {
            Some(Json::Object(error)) => copy_fields(error),
            _ => Vec::new(),
        };
        assert(object_view(error@) =~= match crate::json::field(object_view(o@), "error"@) {
            Some(JsonView::Object(error)) => error,
            _ => seq![],
        });
        set_field(&mut error, "serverError", e.copy());
        set_field(&mut o, "error", Json::Object(error));
    }
    if let Some(method) = &failure.method {
        set_field(&mut o, "method", text_value(method.as_str()));
    }
    set_optional(&mut o, "context", failure.context.as_ref());
    set_optional(&mut o, "partialResult", failure.partial_result.as_ref());
    set_optional(&mut o, "trace", failure.trace.as_ref());
    if failure.apply_edit_ledger.len() > 0 {
        set_field(&mut o, "applyEditLedger", Json::Array(copy_items(&failure.apply_edit_ledger)));
    }
    Json::Object(o)
}

/// Whether a value is a row without items.
pub open spec fn empty_row(v: JsonView) -> bool {
    v matches JsonView::Array(items) && items.len() == 0
}

/// Whether each of some fields is a row without items.
pub open spec fn all_rows_empty(o: Seq<(Seq<char>, JsonView)>) -> bool {
    forall|i: int| 0 <= i < o.len() ==> empty_row((#[trigger] o[i]).1)
}

/// Whether an edit of a workspace changes nothing.
pub open spec fn edits_nothing(edit: JsonView) -> bool {
    match edit {
        JsonView::Null => true,
        JsonView::Object(_) => {
            &&& match edit.get("changes"@) {
                None => true,
                Some(JsonView::Object(changes)) => all_rows_empty(changes),
                Some(_) => false,
            }
            &&& match edit.get("documentChanges"@) {
                None => true,
                Some(changes) => empty_row(changes),
            }
        },
        _ => false,
    }
}

fn is_empty_row(v: &Json) -> (r: bool)
    ensures
        r == empty_row(v@),
{
    match v {
        Json::Array(items) => items.len() == 0,
        _ => false,
    }
}

/// Whether an edit of a workspace changes nothing.
pub fn workspace_edit_is_empty(edit: &Json) -> (r: bool)
    ensures
        r == edits_nothing(edit@),
{
    match edit {
        Json::Null => {
            return true;
        },
        Json::Object(_) => {},
        _ => {
            return false;
        },
    }
    let changes_are_empty: bool = match edit.get("changes") {
        None => true,
        Some(Json::Object(changes)) => {
            let ghost all = object_view(changes@);
            let mut empty: bool = true;
            let mut i: usize = 0;
            while i < changes.len()
                invariant
                    i <= changes@.len(),
                    all == object_view(changes@),
                    empty == (forall|k: int| 0 <= k < i ==> empty_row((#[trigger] all[k]).1)),
                decreases changes.len() - i,
            {
                assert(all[i as int].1 == changes@[i as int].1@);
                if !is_empty_row(&changes[i].1) {
                    empty = false;
                }
                i += 1;
            }
            empty
        },
        Some(_) => false,
    };
    let document_changes_are_empty: bool = match edit.get("documentChanges") {
        None => true,
        Some(changes) => is_empty_row(changes),
    };
    changes_are_empty && document_changes_are_empty
}

/// What is proposed to become a preview.
pub struct PreviewProposal {
    pub command: QueryCommand,
    pub method: String,
    pub context: Json,
    pub edit: Json,
    pub command_payload: Option<Json>,
    pub resolved_action: Option<Json>,
    pub trace: Option<Json>,
    pub apply_edit_ledger: Vec<Json>,
}

/// What a [`PreviewProposal`] stands for.
#[verifier::ext_equal]
pub ghost struct ProposalView {
    pub command: QueryCommand,
    pub method: Seq<char>,
    pub context: JsonView,
    pub edit: JsonView,
    pub command_payload: Option<JsonView>,
    pub resolved_action: Option<JsonView>,
    pub trace: Option<JsonView>,
    pub apply_edit_ledger: Seq<JsonView>,
}

impl View for PreviewProposal {
    type V = ProposalView;

    open spec fn view(&self) -> ProposalView {
        ProposalView {
            command: self.command,
            method: self.method@,
            context: self.context@,
            edit: self.edit@,
            command_payload: opt_view(self.command_payload),
            resolved_action: opt_view(self.resolved_action),
            trace: opt_view(self.trace),
            apply_edit_ledger: array_view(self.apply_edit_ledger@),
        }
    }
}

/// The failure of a code action that is disabled.
pub open spec fn disabled_failed(reason: Seq<char>, action: JsonView) -> FailureView {
    failed(
        6,
        "mutation"@,
        "disabled_code_action"@,
        "The selected code action is disabled."@,
        "validate_mutation"@,
        "sent"@,
        "never"@,
        JsonView::Object(seq![("action"@, action), ("reason"@, JsonView::Text(reason))]),
    )
}

/// Why a code action cannot be taken.
pub open spec fn action_problem(action: JsonView, method: Seq<char>) -> Option<FailureView> {
    match action.get("disabled"@) {
        None => None,
        Some(JsonView::Null) => None,
        Some(JsonView::Object(o)) => Some(
            disabled_failed(
                match JsonView::Object(o).text_at("reason"@) {
                    Some(reason) => reason,
                    None => "The selected code action is disabled."@,
                },
                action,
            ),
        ),
        Some(_) => Some(invalid_failed(method, "a CodeAction disabled object"@, "$.disabled"@)),
    }
}

fn check_action(action: &Json, method: &str) -> (r: Result<(), ContractFailure>)
    ensures
        match r {
            Ok(_) => action_problem(action@, method@) is None,
            Err(f) => action_problem(action@, method@) == Some(f@),
        },
{
    match action.get("disabled") {
        None => Ok(()),
        Some(Json::Null) => Ok(()),
        Some(disabled) => match disabled {
            Json::Object(_) => {
                let reason: Json = match disabled.text_at("reason") {
                    Some(reason) => text_value(reason.as_str()),
                    None => text_value("The selected code action is disabled."),
                };
                Err(
                    failure(
                        6,
                        "mutation",
                        "disabled_code_action",
                        "The selected code action is disabled.",
                        "validate_mutation",
                        "sent",
                        "never",
                        object2("action", action.copy(), "reason", reason),
                    ),
                )
            },
            _ => Err(invalid_result(method, "a CodeAction disabled object", "$.disabled")),
        },
    }
}

/// A number, or null.
pub open spec fn number_or_null(n: Option<i64>) -> JsonView {
    match n {
        Some(n) => JsonView::Int(n as int),
        None => JsonView::Null,
    }
}

fn number_or_null_value(n: Option<i64>) -> (r: Json)
    ensures
        r@ == number_or_null(n),
{
    match n {
        Some(n) => if n >= 0 {
            Json::Unsigned(n as u64)
        } else {
            Json::Negative(n)
        },
        None => Json::Null,
    }
}

/// A version of a document, in JSON.
pub open spec fn version_json(uri: Option<Seq<char>>, version: Option<i64>) -> JsonView {
    JsonView::Object(seq![("uri"@, text_or_null(uri)), ("version"@, number_or_null(version))])
}

/// Edits in a version of a document, in JSON.
pub open spec fn change_json(document: JsonView, edits: Seq<JsonView>) -> JsonView {
    JsonView::Object(seq![("edits"@, JsonView::Array(edits)), ("textDocument"@, document)])
}

/// The edit of a workspace that makes edits in one document.
pub open spec fn edits_of_document(uri: Option<Seq<char>>, version: Option<i64>, edits: Seq<JsonView>) -> JsonView {
    JsonView::Object(
        seq![("documentChanges"@, JsonView::Array(seq![change_json(version_json(uri, version), edits)]))],
    )
}

fn document_edit(uri: &Option<String>, version: Option<i64>, edits: Vec<Json>) -> (r: Json)
    ensures
        r@ == edits_of_document(opt_view(*uri), version, array_view(edits@)),
{
    let uri_value: Json = match uri {
        Some(uri) => text_value(uri.as_str()),
        None => Json::Null,
    };
    let ghost all = array_view(edits@);
    let document: Json = object2("uri", uri_value, "version", number_or_null_value(version));
    let ghost said = document@;
    assert(said == version_json(opt_view(*uri), version));
    let change: Json = object2("edits", Json::Array(edits), "textDocument", document);
    let ghost one = change@;
    assert(one == change_json(said, all));
    let mut changes: Vec<Json> = Vec::new();
    changes.push(change);
    assert(array_view(changes@) =~= seq![one]);
    object1("documentChanges", Json::Array(changes))
}

/// The edit that the answer to a Query proposes.
pub open spec fn proposed_edit(q: ComposedView, result: JsonView) -> JsonView {
    match q.command {
        QueryCommand::Format => match result {
            JsonView::Array(edits) => if edits.len() == 0 {
                JsonView::Null
            } else {
                edits_of_document(q.document_uri, q.document_version, edits)
            },
            _ => JsonView::Null,
        },
        QueryCommand::ResolveCodeAction => match result.get("edit"@) {
            Some(edit) => edit,
            None => JsonView::Null,
        },
        _ => result,
    }
}

/// The action that the answer to a Query resolves.
pub open spec fn action_of(q: ComposedView, result: JsonView) -> Option<JsonView> {
    if q.command == QueryCommand::ResolveCodeAction {
        Some(result)
    } else {
        None
    }
}

/// The proposal that the answer to a Query makes.
pub open spec fn proposal_of(
    q: ComposedView,
    context: JsonView,
    result: JsonView,
    trace: Option<JsonView>,
    ledger: Seq<JsonView>,
) -> ProposalView {
    ProposalView {
        command: q.command,
        method: q.request->0.method,
        context,
        edit: proposed_edit(q, result),
        command_payload: if q.command == QueryCommand::ResolveCodeAction {
            result.get("command"@)
        } else {
            None
        },
        resolved_action: action_of(q, result),
        trace,
        apply_edit_ledger: ledger,
    }
}

/// The report of a Query that proposes an edit, with the preview that was made
/// of it or null where it changes nothing.
pub open spec fn mutation_report(
    q: ComposedView,
    context: JsonView,
    preview: JsonView,
    action: Option<JsonView>,
    trace: Option<JsonView>,
    ledger: Seq<JsonView>,
) -> Result<JsonView, FailureView> {
    match query_report(q, context, preview, trace, ledger) {
        Err(f) => Err(f),
        Ok(e) => Ok(
            (EnvelopeView {
                outcome: Some(
                    if preview is Null {
                        "unchanged"@
                    } else {
                        "previewed"@
                    },
                ),
                resolved_action: action,
                ..e
            }).json(),
        ),
    }
}

/// The report of a Query that proposes an edit.
pub fn mutation_query_envelope(
    composed: &ComposedQuery,
    context: Json,
    preview: Json,
    resolved_action: Option<Json>,
    trace: Option<Json>,
    apply_edit_ledger: Vec<Json>,
) -> (r: Result<Json, ContractFailure>)
    ensures
        result_view(r) == mutation_report(
            composed@,
            context@,
            preview@,
            opt_view(resolved_action),
            opt_view(trace),
            array_view(apply_edit_ledger@),
        ),
{
    let outcome: String = if preview.is_null() {
        "unchanged".to_owned()
    } else {
        "previewed".to_owned()
    };
    match query_envelope(composed, context, preview, trace, apply_edit_ledger) {
        Err(f) => Err(f),
        Ok(e) => {
            let mut envelope: Envelope = e;
            envelope.outcome = Some(outcome);
            envelope.resolved_action = resolved_action;
            Ok(envelope.render())
        },
    }
}

/// What is known of the diagnostics that a server published.
pub enum Published {
    /// Those of one document.
    Document { diagnostics: Json, fresh: bool, complete: bool },
    /// Those of all documents.
    All(Vec<KnownReport>),
}

/// What a server published of one document.
pub struct KnownReport {
    pub uri: String,
    pub version: Option<i64>,
    pub diagnostics: Json,
    pub fresh: bool,
    pub closed: bool,
}

/// What a server published of one document, in JSON.
pub open spec fn known_report_json(k: KnownReport) -> JsonView {
    JsonView::Object(
        seq![
            ("closed"@, JsonView::Bool(k.closed)),
            ("diagnostics"@, k.diagnostics@),
            ("fresh"@, JsonView::Bool(k.fresh)),
            ("uri"@, JsonView::Text(k.uri@)),
            ("version"@, number_or_null(k.version)),
        ],
    )
}

fn known_report_value(k: &KnownReport) -> (r: Json)
    ensures
        r@ == known_report_json(*k),
{
    let version: Json = number_or_null_value(k.version);
    let mut o: Vec<(String, Json)> = Vec::new();
    assert(object_view(o@) =~= Seq::<(Seq<char>, JsonView)>::empty());
    push_field(&mut o, "closed", Json::Bool(k.closed));
    push_field(&mut o, "diagnostics", k.diagnostics.copy());
    push_field(&mut o, "fresh", Json::Bool(k.fresh));
    push_field(&mut o, "uri", text_value(k.uri.as_str()));
    push_field(&mut o, "version", version);
    assert(object_view(o@) =~= known_report_json(*k)->Object_0);
    Json::Object(o)
}

/// The diagnostics that a server published, and whether they are fresh and
/// complete.
pub open spec fn published_result(p: Published) -> (JsonView, bool, bool) {
    match p {
        Published::Document { diagnostics, fresh, complete } => (diagnostics@, fresh, complete),
        Published::All(reports) => (
            JsonView::Array(Seq::new(reports@.len(), |i: int| known_report_json(reports@[i]))),
            false,
            true,
        ),
    }
}

/// The report of the diagnostics that a server published.
pub open spec fn published_report(q: ComposedView, context: JsonView, p: Published) -> Result<JsonView, FailureView> {
    let (result, fresh, complete) = published_result(p);
    diagnostic_report(
        q,
        context,
        result,
        MetadataView { raw_report: None, fresh, complete, workspace_complete: None, source: "published"@ },
        None,
        seq![],
    )
}

/// The report of the diagnostics that a server published.
pub fn published_envelope(composed: &ComposedQuery, context: Json, published: Published) -> (r: Result<
    Json,
    ContractFailure,
>)
    ensures
        result_view(r) == published_report(composed@, context@, published),
{
    let ghost all = published_result(published);
    let (result, fresh, complete): (Json, bool, bool) = match published {
        Published::Document { diagnostics, fresh, complete } => (diagnostics, fresh, complete),
        Published::All(reports) => {
            let mut items: Vec<Json> = Vec::new();
            let mut i: usize = 0;
            while i < reports.len()
                invariant
                    i <= reports@.len(),
                    items@.len() == i,
                    forall|k: int| 0 <= k < i ==> (#[trigger] items@[k])@ == known_report_json(reports@[k]),
                decreases reports.len() - i,
            {
                items.push(known_report_value(&reports[i]));
                i += 1;
            }
            assert(array_view(items@) =~= Seq::new(reports@.len(), |k: int| known_report_json(reports@[k])));
            (Json::Array(items), false, true)
        },
    };
    assert((result@, fresh, complete) == all);
    let none: Vec<Json> = Vec::new();
    assert(array_view(none@) =~= Seq::<JsonView>::empty());
    diagnostic_envelope(
        composed,
        context,
        result,
        DiagnosticMetadata {
            raw_report: None,
            fresh,
            complete,
            workspace_complete: None,
            source: "published".to_owned(),
        },
        None,
        none,
    )
}

/// What comes next of a Query that was answered.
pub enum Execution {
    /// The report.
    Answered(Json),
    /// The report on a document is to be held against what is known.
    PullDocument { uri: String, report: Json, contains_unchanged: bool },
    /// The reports of a workspace are to be held against what is known.
    PullWorkspace { report: Json },
    /// A preview is to be made.
    Preview(PreviewProposal),
}

/// What an [`Execution`] stands for.
pub ghost enum ExecutionView {
    Answered(JsonView),
    PullDocument { uri: Seq<char>, report: JsonView, contains_unchanged: bool },
    PullWorkspace { report: JsonView },
    Preview(ProposalView),
}

impl View for Execution {
    type V = ExecutionView;

    open spec fn view(&self) -> ExecutionView {
        match self {
            Execution::Answered(v) => ExecutionView::Answered(v@),
            Execution::PullDocument { uri, report, contains_unchanged } => ExecutionView::PullDocument {
                uri: uri@,
                report: report@,
                contains_unchanged: *contains_unchanged,
            },
            Execution::PullWorkspace { report } => ExecutionView::PullWorkspace { report: report@ },
            Execution::Preview(p) => ExecutionView::Preview(p@),
        }
    }
}

/// The context of a Query with what the answer says of it.
pub open spec fn answered_context(c: ContextView, r: ResponseView) -> ContextView {
    ContextView {
        synchronization: match r.synchronization {
            Some(s) => s,
            None => c.synchronization,
        },
        server_progress: r.server_progress,
        ..c
    }
}

/// A report, or why there is none.
pub open spec fn answered(r: Result<JsonView, FailureView>) -> Result<ExecutionView, FailureView> {
    match r {
        Ok(v) => Ok(ExecutionView::Answered(v)),
        Err(f) => Err(f),
    }
}

/// What comes next of a normalized answer.
pub open spec fn next_of(
    q: ComposedView,
    context: JsonView,
    result: JsonView,
    r: ResponseView,
    known: KnownView,
) -> Result<ExecutionView, FailureView> {
    match q.command {
        QueryCommand::DocumentDiagnostics => match document_unknown(q.document_uri->0, result, known) {
            Some(f) => Err(f),
            None => Ok(
                ExecutionView::PullDocument {
                    uri: q.document_uri->0,
                    report: result,
                    contains_unchanged: holds_unchanged(result),
                },
            ),
        },
        QueryCommand::WorkspaceDiagnostics => match workspace_unknown(
            report_items(result)->0,
            0,
            known,
            command_method(q.command)->0,
        ) {
            Some(f) => Err(f),
            None => Ok(ExecutionView::PullWorkspace { report: result }),
        },
        QueryCommand::Rename | QueryCommand::Format | QueryCommand::ResolveCodeAction => if q.command
            == QueryCommand::ResolveCodeAction && action_problem(result, command_method(q.command)->0) is Some {
            Err(action_problem(result, command_method(q.command)->0)->0)
        } else if edits_nothing(proposed_edit(q, result)) {
            answered(
                mutation_report(q, context, JsonView::Null, action_of(q, result), r.trace, r.apply_edit_ledger),
            )
        } else {
            Ok(ExecutionView::Preview(proposal_of(q, context, result, r.trace, r.apply_edit_ledger)))
        },
        _ => match query_report(q, context, result, r.trace, r.apply_edit_ledger) {
            Ok(e) => Ok(ExecutionView::Answered(e.json())),
            Err(f) => Err(f),
        },
    }
}

/// What comes next of the answer to a named Query.
pub open spec fn named_answer(q: ComposedView, context: JsonView, r: ResponseView, known: KnownView) -> Result<
    ExecutionView,
    FailureView,
> {
    match merged(q.command, r.result, r.partial_results) {
        Err(f) => Err(f),
        Ok(whole) => match normalized(q.command, whole) {
            Err(f) => Err(f),
            Ok(result) => next_of(q, context, result, r, known),
        },
    }
}

/// What comes next of a Query that was answered. An answer that a caller spelled
/// the request of is reported as it is; another is merged with its parts and
/// normalized, and a failure of that names what was sent.
pub open spec fn executed(q: ComposedView, c: ContextView, r: ResponseView, known: KnownView) -> Result<
    ExecutionView,
    ExecutionFailureView,
> {
    let context = answered_context(c, r).json(positioned(q.command));
    if q.command == QueryCommand::Raw {
        match query_report(q, context, r.result, r.trace, r.apply_edit_ledger) {
            Ok(e) => Ok(ExecutionView::Answered(e.json())),
            Err(f) => Err(failed_before(f)),
        }
    } else {
        match named_answer(q, context, r, known) {
            Ok(next) => Ok(next),
            Err(f) => Err(failed_after(f, q.request->0.method, context, r.trace, r.apply_edit_ledger)),
        }
    }
}

/// Whether a Query is one that is sent, with all that it needs.
pub open spec fn sendable(q: ComposedView) -> bool {
    &&& q.request is Some
    &&& q.command == QueryCommand::Raw || command_method(q.command) is Some
    &&& q.command == QueryCommand::DocumentDiagnostics ==> q.document_uri is Some
}

fn propose(
    composed: &ComposedQuery,
    method: &str,
    context: Json,
    result: Json,
    trace: Option<Json>,
    apply_edit_ledger: Vec<Json>,
) -> (r: Result<Execution, ContractFailure>)
    requires
        composed@.command == QueryCommand::Rename || composed@.command == QueryCommand::Format || composed@.command
            == QueryCommand::ResolveCodeAction,
        command_method(composed@.command) == Some(method@),
        composed@.request is Some,
    ensures
        forall|known: KnownView, said: ResponseView|
            said.trace == opt_view(trace) && said.apply_edit_ledger == array_view(apply_edit_ledger@) ==> result_view(r)
                == #[trigger] next_of(composed@, context@, result@, said, known),
{
    let ghost q = composed@;
    let ghost whole = result@;
    let resolving: bool = composed.command == QueryCommand::ResolveCodeAction;
    if resolving {
        if let Err(f) = check_action(&result, method) {
            return Err(f);
        }
    }
    let edit: Json = if composed.command == QueryCommand::Format {
        match &result {
            Json::Array(edits) => if edits.len() == 0 {
                Json::Null
            } else {
                document_edit(&composed.document_uri, composed.document_version, copy_items(edits))
            },
            _ => Json::Null,
        }
    } else if resolving {
        match result.get("edit") {
            Some(edit) => edit.copy(),
            None => Json::Null,
        }
    } else {
        result.copy()
    };
    assert(edit@ == proposed_edit(q, whole));
    let command_payload: Option<Json> = if resolving {
        copy_value(result.get("command"))
    } else {
        None
    };
    let resolved_action: Option<Json> = if resolving {
        Some(result)
    } else {
        None
    };
    assert(opt_view(resolved_action) == action_of(q, whole));
    if workspace_edit_is_empty(&edit) {
        return match mutation_query_envelope(
            composed,
            context,
            Json::Null,
            resolved_action,
            trace,
            apply_edit_ledger,
        ) {
            Ok(v) => Ok(Execution::Answered(v)),
            Err(f) => Err(f),
        };
    }
    let sent: String = match &composed.request {
        Some(request) => request.method.clone(),
        None => "".to_owned(),
    };
    Ok(
        Execution::Preview(
            PreviewProposal {
                command: composed.command,
                method: sent,
                context,
                edit,
                command_payload,
                resolved_action,
                trace,
                apply_edit_ledger,
            },
        ),
    )
}

fn named_execution(
    composed: &ComposedQuery,
    context: &Json,
    result: Json,
    partials: &Vec<Json>,
    trace: Option<Json>,
    apply_edit_ledger: Vec<Json>,
    known: &KnownDiagnostics,
) -> (r: Result<Execution, ContractFailure>)
    requires
        sendable(composed@),
        composed@.command != QueryCommand::Raw,
    ensures
        forall|said: ResponseView|
            said.result == result@ && said.partial_results == array_view(partials@) && said.trace == opt_view(trace)
                && said.apply_edit_ledger == array_view(apply_edit_ledger@) ==> result_view(r)
                == #[trigger] named_answer(composed@, context@, said, known@),
{
    let method: &str = match composed.command.method() {
        Some(method) => method,
        None => "",
    };
    let whole: Json = match merge_partial_results(composed.command, result, partials) {
        Ok(whole) => whole,
        Err(f) => {
            return Err(f);
        },
    };
    let result: Json = match normalize_named_result(composed.command, whole) {
        Ok(result) => result,
        Err(f) => {
            return Err(f);
        },
    };
    match composed.command {
        QueryCommand::DocumentDiagnostics => {
            let uri: String = match &composed.document_uri {
                Some(uri) => uri.clone(),
                None => "".to_owned(),
            };
            let contains_unchanged: bool = diagnostic_report_contains_unchanged(&result);
            if let Err(f) = check_document_report(&uri, &result, known) {
                return Err(f);
            }
            Ok(Execution::PullDocument { uri, report: result, contains_unchanged })
        },
        QueryCommand::WorkspaceDiagnostics => {
            if let Some(items) = items_field(&result) {
                if let Err(f) = check_workspace_report(items, known, method) {
                    return Err(f);
                }
            }
            Ok(Execution::PullWorkspace { report: result })
        },
        QueryCommand::Rename | QueryCommand::Format | QueryCommand::ResolveCodeAction => propose(
            composed,
            method,
            context.copy(),
            result,
            trace,
            apply_edit_ledger,
        ),
        _ => match query_envelope(composed, context.copy(), result, trace, apply_edit_ledger) {
            Ok(e) => Ok(Execution::Answered(e.render())),
            Err(f) => Err(f),
        },
    }
}

/// What comes next of a Query that was answered.
pub fn execute(
    composed: &ComposedQuery,
    context: &QueryContext,
    response: DispatchResponse,
    known: &KnownDiagnostics,
) -> (r: Result<Execution, QueryExecutionFailure>)
    requires
        sendable(composed@),
    ensures
        result_view(r) == executed(composed@, context@, response@, known@),
{
    let ghost q = composed@;
    let ghost said = response@;
    let json: Json = execution_context(composed, context, &response);
    let ghost place = json@;
    if composed.command == QueryCommand::Raw {
        return match query_envelope(composed, json, response.result, response.trace, response.apply_edit_ledger) {
            Ok(e) => Ok(Execution::Answered(e.render())),
            Err(f) => Err(QueryExecutionFailure::before_dispatch(f)),
        };
    }
    let trace: Option<Json> = copy_value(response.trace.as_ref());
    let ledger: Vec<Json> = copy_items(&response.apply_edit_ledger);
    let next = named_execution(
        composed,
        &json,
        response.result,
        &response.partial_results,
        response.trace,
        response.apply_edit_ledger,
        known,
    );
    assert(result_view(next) == named_answer(q, place, said, known@));
    match next {
        Ok(next) => Ok(next),
        Err(f) => {
            let method: &str = match &composed.request {
                Some(request) => request.method.as_str(),
                None => "",
            };
            Err(QueryExecutionFailure::after_dispatch(f, method, &json, trace.as_ref(), &ledger))
        },
    }
}

/// What was made of an answer that something had to be done with first.
pub enum Finish {
    /// The report on a document was held against what is known.
    Document { contains_unchanged: bool, pulled: PulledReport },
    /// The reports of a workspace were held against what is known.
    Workspace(PulledReport),
    /// A preview was made, or failed.
    Previewed { preview: Result<Json, ContractFailure>, resolved_action: Option<Json> },
}

/// The report of a Query once that is done.
pub open spec fn finished(
    q: ComposedView,
    context: JsonView,
    finish: Finish,
    trace: Option<JsonView>,
    ledger: Seq<JsonView>,
) -> Result<JsonView, FailureView> {
    match finish {
        Finish::Document { contains_unchanged, pulled } => document_diagnostics(
            q,
            context,
            contains_unchanged,
            pulled,
            trace,
            ledger,
        ),
        Finish::Workspace(pulled) => workspace_diagnostics(q, context, pulled, trace, ledger),
        Finish::Previewed { preview: Ok(preview), resolved_action } => mutation_report(
            q,
            context,
            preview@,
            opt_view(resolved_action),
            trace,
            ledger,
        ),
        Finish::Previewed { preview: Err(f), resolved_action } => Err(f@),
    }
}

/// The report of a Query once what its answer asked for is done. A failure names
/// what was sent.
pub fn finish_execution(
    composed: &ComposedQuery,
    context: &Json,
    finish: Finish,
    trace: Option<&Json>,
    apply_edit_ledger: &Vec<Json>,
) -> (r: Result<Json, QueryExecutionFailure>)
    requires
        composed@.request is Some,
        command_method(composed@.command) is Some,
    ensures
        result_view(r) == match finished(
            composed@,
            context@,
            finish,
            opt_ref_view(trace),
            array_view(apply_edit_ledger@),
        ) {
            Ok(v) => Ok::<JsonView, ExecutionFailureView>(v),
            Err(f) => Err(
                failed_after(
                    f,
                    composed@.request->0.method,
                    context@,
                    opt_ref_view(trace),
                    array_view(apply_edit_ledger@),
                ),
            ),
        },
{
    let done: Result<Json, ContractFailure> = match finish {
        Finish::Document { contains_unchanged, pulled } => document_diagnostic_envelope(
            composed,
            context.copy(),
            contains_unchanged,
            pulled,
            copy_value(trace),
            copy_items(apply_edit_ledger),
        ),
        Finish::Workspace(pulled) => workspace_diagnostic_envelope(
            composed,
            context.copy(),
            pulled,
            copy_value(trace),
            copy_items(apply_edit_ledger),
        ),
        Finish::Previewed { preview, resolved_action } => match preview {
            Ok(preview) => mutation_query_envelope(
                composed,
                context.copy(),
                preview,
                resolved_action,
                copy_value(trace),
                copy_items(apply_edit_ledger),
            ),
            Err(f) => Err(f),
        },
    };
    match done {
        Ok(v) => Ok(v),
        Err(f) => {
            let method: &str = match &composed.request {
                Some(request) => request.method.as_str(),
                None => "",
            };
            Err(QueryExecutionFailure::after_dispatch(f, method, context, trace, apply_edit_ledger))
        },
    }
}

/// The context that is reported of a Query that was answered, in JSON.
pub fn execution_context(composed: &ComposedQuery, context: &QueryContext, response: &DispatchResponse) -> (r: Json)
    ensures
        r@ == answered_context(context@, response@).json(positioned(composed@.command)),
{
    let synchronization: Json = match &response.synchronization {
        Some(s) => s.copy(),
        None => context.synchronization.copy(),
    };
    let now = QueryContext {
        workspace_uri: context.workspace_uri.clone(),
        server: context.server.clone(),
        session_identity: context.session_identity.clone(),
        owner_generation: context.owner_generation.clone(),
        result_position_encoding: context.result_position_encoding,
        server_progress: copy_items(&response.server_progress),
        synchronization,
        recovery: context.recovery.copy(),
    };
    assert(now@ =~= answered_context(context@, response@));
    now.json(has_source_position(composed.command))
}

/// The report of a Query that asks for the capabilities.
pub fn capabilities_answer(composed: &ComposedQuery, context: &QueryContext) -> (r: Option<Json>)
    ensures
        match composed@.capabilities {
            Some(c) => opt_view(r) == Some(
                capabilities_json(context@.json(positioned(composed@.command)), c, composed@.capabilities_raw),
            ),
            None => r is None,
        },
{
    match &composed.capabilities {
        Some(c) => Some(
            capabilities_envelope(
                context.json(has_source_position(composed.command)),
                c,
                composed.capabilities_raw,
            ),
        ),
        None => None,
    }
}

/// A Query that was composed with a request can be sent.
pub proof fn law_composed_queries_are_sendable(
    inv: crate::invocation::InvocationView,
    document: Option<crate::documents::DocumentView>,
    encoding: PositionEncoding,
    caps: crate::capabilities::CapabilitiesView,
    known: Option<KnownView>,
    inputs: Seq<crate::query_inputs::InputView>,
)
    ensures
        crate::compose::composed_query(inv, document, encoding, caps, known, inputs) matches Ok(q) ==> q.request is Some
            ==> sendable(q),
{
}

/// A failure of a request loses nothing that was seen before: neither the method
/// nor the error of the server, the parts of the answer, the frames or the edits.
pub proof fn law_failed_requests_keep_the_evidence(q: ComposedView, context: JsonView, f: DispatchFailureView)
    requires
        q.request is Some,
    ensures
        ({
            let e = dispatch_failed(q, context, f);
            &&& e.failure == f.failure
            &&& e.server_error == f.server_error
            &&& e.method == Some(q.request->0.method)
            &&& e.context == Some(context)
            &&& e.trace == f.trace
            &&& e.apply_edit_ledger == f.apply_edit_ledger
            &&& partial_results(q.command) && flattened(f.partial_results).len() > 0 ==> e.partial_result == Some(
                partial_json(flattened(f.partial_results)),
            )
        }),
{
}

/// An answer to a request that the caller spelled out is reported as it is.
pub proof fn law_raw_answers_are_untouched(q: ComposedView, c: ContextView, r: ResponseView, known: KnownView)
    requires
        q.command == QueryCommand::Raw,
        q.page is None,
    ensures
        executed(q, c, r, known) matches Ok(ExecutionView::Answered(_)),
        query_report(q, answered_context(c, r).json(positioned(q.command)), r.result, r.trace, r.apply_edit_ledger)
            matches Ok(e) && e.result == r.result && e.raw,
{
}

/// No answer is applied: one that proposes a change is handed on to become a
/// preview, with the whole edit, and one that proposes none is reported as
/// unchanged.
pub proof fn law_edits_become_previews(q: ComposedView, context: JsonView, result: JsonView, r: ResponseView, known: KnownView)
    requires
        q.command == QueryCommand::Rename || q.command == QueryCommand::Format || q.command
            == QueryCommand::ResolveCodeAction,
        q.command == QueryCommand::ResolveCodeAction ==> action_problem(result, command_method(q.command)->0) is None,
    ensures
        ({
            let edit = proposed_edit(q, result);
            let next = next_of(q, context, result, r, known);
            &&& !edits_nothing(edit) ==> next == Ok::<ExecutionView, FailureView>(
                ExecutionView::Preview(proposal_of(q, context, result, r.trace, r.apply_edit_ledger)),
            )
            &&& edits_nothing(edit) ==> next == answered(
                mutation_report(q, context, JsonView::Null, action_of(q, result), r.trace, r.apply_edit_ledger),
            )
        }),
{
}

} // verus!
