//! Reports of Queries.

use vstd::prelude::*;

use crate::capabilities::{or_null, vacant};
use crate::compose::{ComposedQuery, ComposedView, KnownDiagnostics, KnownView};
use crate::failure::{ContractFailure, FailureView, result_view};
use crate::json::{Json, JsonView, array_view, copy_fields, object_view, push_field, set_field, text_value, with_field};
use crate::query_command::{QueryCommand, command_method, command_name};
use crate::query_inputs::Page;
use crate::query_results::{
    has_text,
    invalid_failed,
    invalid_result,
    items_field,
    place,
    place_in,
    related_field,
    related_of,
    report_items,
};
use crate::text::{concat3, opt_view, quoted, quoted_text};

verus! {

/// What a report of a Query holds.
pub struct Envelope {
    pub command: String,
    pub method: String,
    pub context: Json,
    pub result: Json,
    pub page: Option<Json>,
    pub raw: bool,
    pub trace: Option<Json>,
    pub apply_edit_ledger: Option<Vec<Json>>,
    pub server_side_effects: bool,
    pub diagnostics: Option<Json>,
    pub outcome: Option<String>,
    pub resolved_action: Option<Json>,
}

/// What an [`Envelope`] stands for.
#[verifier::ext_equal]
pub ghost struct EnvelopeView {
    pub command: Seq<char>,
    pub method: Seq<char>,
    pub context: JsonView,
    pub result: JsonView,
    pub page: Option<JsonView>,
    pub raw: bool,
    pub trace: Option<JsonView>,
    pub apply_edit_ledger: Option<Seq<JsonView>>,
    pub server_side_effects: bool,
    pub diagnostics: Option<JsonView>,
    pub outcome: Option<Seq<char>>,
    pub resolved_action: Option<JsonView>,
}

/// The views of values, where there are some.
pub open spec fn items_view(o: Option<Vec<Json>>) -> Option<Seq<JsonView>> {
    match o {
        Some(v) => Some(array_view(v@)),
        None => None,
    }
}

impl View for Envelope {
    type V = EnvelopeView;

    open spec fn view(&self) -> EnvelopeView {
        EnvelopeView {
            command: self.command@,
            method: self.method@,
            context: self.context@,
            result: self.result@,
            page: opt_view(self.page),
            raw: self.raw,
            trace: opt_view(self.trace),
            apply_edit_ledger: items_view(self.apply_edit_ledger),
            server_side_effects: self.server_side_effects,
            diagnostics: opt_view(self.diagnostics),
            outcome: opt_view(self.outcome),
            resolved_action: opt_view(self.resolved_action),
        }
    }
}

/// A field, where it has a value.
pub open spec fn optional_field(name: Seq<char>, value: Option<JsonView>) -> Seq<(Seq<char>, JsonView)> {
    match value {
        Some(v) => seq![(name, v)],
        None => seq![],
    }
}

/// A field, where a condition holds.
pub open spec fn field_if(name: Seq<char>, condition: bool, value: JsonView) -> Seq<(Seq<char>, JsonView)> {
    if condition {
        seq![(name, value)]
    } else {
        seq![]
    }
}

impl EnvelopeView {
    /// The report in JSON.
    pub open spec fn json(self) -> JsonView {
        JsonView::Object(
            optional_field(
                "applyEditLedger"@,
                match self.apply_edit_ledger {
                    Some(items) => Some(JsonView::Array(items)),
                    None => None,
                },
            ) + seq![("command"@, JsonView::Array(seq![JsonView::Text(self.command)]))] + seq![
                ("context"@, self.context),
            ] + optional_field("diagnostics"@, self.diagnostics) + field_if(
                "directServerSideEffects"@,
                self.server_side_effects,
                JsonView::Text("unknown"@),
            ) + seq![("method"@, JsonView::Text(self.method))] + seq![("ok"@, JsonView::Bool(true))]
                + optional_field(
                "outcome"@,
                match self.outcome {
                    Some(s) => Some(JsonView::Text(s)),
                    None => None,
                },
            ) + optional_field("page"@, self.page) + field_if("raw"@, self.raw, JsonView::Bool(true)) + optional_field(
                "resolvedAction"@,
                self.resolved_action,
            ) + seq![("result"@, self.result)] + seq![("schemaVersion"@, JsonView::Int(1))] + optional_field(
                "trace"@,
                self.trace,
            ),
        )
    }
}

fn push_one(o: &mut Vec<(String, Json)>, name: &str, value: Json)
    ensures
        object_view(final(o)@) == object_view(old(o)@) + seq![(name@, value@)],
{
    let ghost said = value@;
    push_field(o, name, value);
    assert(object_view(o@) =~= object_view(old(o)@) + seq![(name@, said)]);
}

fn push_if(o: &mut Vec<(String, Json)>, name: &str, condition: bool, value: Json)
    ensures
        object_view(final(o)@) == object_view(old(o)@) + field_if(name@, condition, value@),
{
    let ghost said = value@;
    if condition {
        push_field(o, name, value);
        assert(object_view(o@) =~= object_view(old(o)@) + seq![(name@, said)]);
    } else {
        assert(object_view(o@) =~= object_view(old(o)@) + Seq::<(Seq<char>, JsonView)>::empty());
    }
}

fn push_optional(o: &mut Vec<(String, Json)>, name: &str, value: Option<Json>)
    ensures
        object_view(final(o)@) == object_view(old(o)@) + optional_field(name@, opt_view(value)),
{
    match value {
        Some(v) => {
            let ghost said = v@;
            push_field(o, name, v);
            assert(object_view(o@) =~= object_view(old(o)@) + seq![(name@, said)]);
        },
        None => {
            assert(object_view(o@) =~= object_view(old(o)@) + Seq::<(Seq<char>, JsonView)>::empty());
        },
    }
}

impl Envelope {
    /// The report in JSON.
    pub fn render(self) -> (r: Json)
        ensures
            r@ == self@.json(),
    {
        let ghost e = self@;
        let mut o: Vec<(String, Json)> = Vec::new();
        assert(object_view(o@) =~= Seq::<(Seq<char>, JsonView)>::empty());
        let ledger: Option<Json> = match self.apply_edit_ledger {
            Some(items) => Some(Json::Array(items)),
            None => None,
        };
        push_optional(&mut o, "applyEditLedger", ledger);
        assert(object_view(o@) =~= optional_field("applyEditLedger"@, opt_view(ledger)));
        let mut names: Vec<Json> = Vec::new();
        names.push(text_value(self.command.as_str()));
        assert(array_view(names@) =~= seq![JsonView::Text(e.command)]);
        push_one(&mut o, "command", Json::Array(names));
        push_one(&mut o, "context", self.context);
        push_optional(&mut o, "diagnostics", self.diagnostics);
        push_if(&mut o, "directServerSideEffects", self.server_side_effects, text_value("unknown"));
        push_one(&mut o, "method", text_value(self.method.as_str()));
        push_one(&mut o, "ok", Json::Bool(true));
        let outcome: Option<Json> = match self.outcome {
            Some(s) => Some(Json::Text(s)),
            None => None,
        };
        push_optional(&mut o, "outcome", outcome);
        push_optional(&mut o, "page", self.page);
        push_if(&mut o, "raw", self.raw, Json::Bool(true));
        push_optional(&mut o, "resolvedAction", self.resolved_action);
        push_one(&mut o, "result", self.result);
        push_one(&mut o, "schemaVersion", Json::Unsigned(1));
        push_optional(&mut o, "trace", self.trace);
        assert(object_view(o@) == e.json()->Object_0);
        Json::Object(o)
    }
}

/// The items of a page.
pub open spec fn page_items(items: Seq<JsonView>, offset: nat, limit: nat) -> Seq<JsonView> {
    let from = if offset < items.len() {
        offset as int
    } else {
        items.len() as int
    };
    let to = if from + limit < items.len() {
        from + limit
    } else {
        items.len() as int
    };
    items.subrange(from, to)
}

/// Whether nothing follows a page.
pub open spec fn page_ends(items: Seq<JsonView>, offset: nat, limit: nat) -> bool {
    offset + page_items(items, offset, limit).len() >= items.len()
}

/// A page in JSON.
pub open spec fn page_json(items: Seq<JsonView>, offset: nat, limit: nat) -> JsonView {
    let returned = page_items(items, offset, limit).len();
    JsonView::Object(
        seq![
            ("complete"@, JsonView::Bool(page_ends(items, offset, limit))),
            ("limit"@, JsonView::Int(limit as int)),
            (
                "nextOffset"@,
                if page_ends(items, offset, limit) {
                    JsonView::Null
                } else {
                    JsonView::Int((offset + returned) as int)
                },
            ),
            ("offset"@, JsonView::Int(offset as int)),
            ("returned"@, JsonView::Int(returned as int)),
        ],
    )
}

/// The items that a result lists.
pub open spec fn listed_items(result: JsonView) -> Option<Seq<JsonView>> {
    match result {
        JsonView::Array(items) => Some(items),
        _ => report_items(result),
    }
}

/// A result with other items.
pub open spec fn with_items(result: JsonView, items: Seq<JsonView>) -> JsonView {
    match result {
        JsonView::Object(o) => JsonView::Object(with_field(o, "items"@, JsonView::Array(items))),
        _ => JsonView::Array(items),
    }
}

/// The page of a result, and what is said of it.
pub open spec fn paged_result(result: JsonView, offset: nat, limit: nat, method: Seq<char>) -> Result<
    (JsonView, JsonView),
    FailureView,
> {
    match listed_items(result) {
        None => Err(invalid_failed(method, "a pageable top-level item collection"@, "$"@)),
        Some(items) => Ok(
            (with_items(result, page_items(items, offset, limit)), page_json(items, offset, limit)),
        ),
    }
}

pub(crate) fn cut_page(items: &Vec<Json>, page: Page) -> (r: (Vec<Json>, Json))
    ensures
        array_view(r.0@) == page_items(array_view(items@), page.offset as nat, page.limit as nat),
        r.1@ == page_json(array_view(items@), page.offset as nat, page.limit as nat),
{
    let ghost all = array_view(items@);
    let total: usize = items.len();
    let from: usize = if page.offset < total {
        page.offset
    } else {
        total
    };
    let to: usize = if page.limit < total - from {
        from + page.limit
    } else {
        total
    };
    let mut cut: Vec<Json> = Vec::new();
    let mut i: usize = from;
    assert(array_view(cut@) =~= all.subrange(from as int, from as int));
    while i < to
        invariant
            from <= i <= to <= items@.len(),
            all == array_view(items@),
            array_view(cut@) == all.subrange(from as int, i as int),
        decreases to - i,
    {
        let ghost before = array_view(cut@);
        cut.push(items[i].copy());
        assert(array_view(cut@) =~= before.push(all[i as int]));
        assert(all.subrange(from as int, i + 1) =~= before.push(all[i as int]));
        i += 1;
    }
    let returned: usize = cut.len();
    assert(array_view(cut@).len() == returned);
    let complete: bool = page.offset >= total || returned >= total - page.offset;
    let next: Json = if complete {
        Json::Null
    } else {
        Json::Unsigned((page.offset + returned) as u64)
    };
    let mut o: Vec<(String, Json)> = Vec::new();
    assert(object_view(o@) =~= Seq::<(Seq<char>, JsonView)>::empty());
    push_field(&mut o, "complete", Json::Bool(complete));
    push_field(&mut o, "limit", Json::Unsigned(page.limit as u64));
    push_field(&mut o, "nextOffset", next);
    push_field(&mut o, "offset", Json::Unsigned(page.offset as u64));
    push_field(&mut o, "returned", Json::Unsigned(returned as u64));
    assert(object_view(o@) =~= page_json(all, page.offset as nat, page.limit as nat)->Object_0);
    (cut, Json::Object(o))
}

/// Cuts a page out of a result, and says which.
pub fn add_page(result: Json, page: Page, method: &str) -> (r: Result<(Json, Json), ContractFailure>)
    ensures
        match r {
            Ok((cut, said)) => paged_result(result@, page.offset as nat, page.limit as nat, method@) == Ok::<
                (JsonView, JsonView),
                FailureView,
            >((cut@, said@)),
            Err(f) => paged_result(result@, page.offset as nat, page.limit as nat, method@) == Err::<
                (JsonView, JsonView),
                FailureView,
            >(f@),
        },
{
    if let Json::Array(items) = &result {
        let (cut, said) = cut_page(items, page);
        return Ok((Json::Array(cut), said));
    }
    let (cut, said) = match items_field(&result) {
        Some(items) => cut_page(items, page),
        None => {
            return Err(invalid_result(method, "a pageable top-level item collection", "$"));
        },
    };
    match &result {
        Json::Object(o) => {
            let mut fields: Vec<(String, Json)> = copy_fields(o);
            set_field(&mut fields, "items", Json::Array(cut));
            Ok((Json::Object(fields), said))
        },
        _ => Ok((Json::Array(cut), said)),
    }
}

/// The method that a report names.
pub open spec fn reported_method(q: ComposedView) -> Seq<char> {
    match q.request {
        Some(r) => r.method,
        None => "textDocument/publishDiagnostics"@,
    }
}

/// The result of a Query and the page of it that is reported.
pub open spec fn result_page(q: ComposedView, result: JsonView) -> Result<(JsonView, Option<JsonView>), FailureView> {
    match q.page {
        None => Ok((result, None)),
        Some((offset, limit)) => match paged_result(result, offset, limit, reported_method(q)) {
            Ok((cut, page)) => Ok((cut, Some(page))),
            Err(f) => Err(f),
        },
    }
}

/// The report of a Query.
pub open spec fn query_report(
    q: ComposedView,
    context: JsonView,
    result: JsonView,
    trace: Option<JsonView>,
    ledger: Seq<JsonView>,
) -> Result<EnvelopeView, FailureView> {
    match result_page(q, result) {
        Err(f) => Err(f),
        Ok((cut, page)) => Ok(
            EnvelopeView {
                command: command_name(q.command),
                method: reported_method(q),
                context,
                result: cut,
                page,
                raw: q.command == QueryCommand::Raw,
                trace,
                apply_edit_ledger: if ledger.len() > 0 || q.command == QueryCommand::ExecuteCommand {
                    Some(ledger)
                } else {
                    None
                },
                server_side_effects: q.command == QueryCommand::ExecuteCommand,
                diagnostics: None,
                outcome: None,
                resolved_action: None,
            },
        ),
    }
}

/// The report of a Query.
pub fn query_envelope(
    composed: &ComposedQuery,
    context: Json,
    result: Json,
    trace: Option<Json>,
    apply_edit_ledger: Vec<Json>,
) -> (r: Result<Envelope, ContractFailure>)
    ensures
        result_view(r) == query_report(
            composed@,
            context@,
            result@,
            opt_view(trace),
            array_view(apply_edit_ledger@),
        ),
{
    let method: String = match &composed.request {
        Some(request) => request.method.clone(),
        None => "textDocument/publishDiagnostics".to_owned(),
    };
    let (cut, page): (Json, Option<Json>) = match composed.page {
        None => (result, None),
        Some(page) => match add_page(result, page, method.as_str()) {
            Ok((cut, said)) => (cut, Some(said)),
            Err(f) => {
                return Err(f);
            },
        },
    };
    let execute: bool = composed.command == QueryCommand::ExecuteCommand;
    let ledger: Option<Vec<Json>> = if apply_edit_ledger.len() > 0 || execute {
        Some(apply_edit_ledger)
    } else {
        None
    };
    Ok(
        Envelope {
            command: composed.command.name().to_owned(),
            method,
            context,
            result: cut,
            page,
            raw: composed.command == QueryCommand::Raw,
            trace,
            apply_edit_ledger: ledger,
            server_side_effects: execute,
            diagnostics: None,
            outcome: None,
            resolved_action: None,
        },
    )
}

/// What is said of diagnostics.
pub struct DiagnosticMetadata {
    pub raw_report: Option<Json>,
    pub fresh: bool,
    pub complete: bool,
    pub workspace_complete: Option<bool>,
    pub source: String,
}

/// What a [`DiagnosticMetadata`] stands for.
#[verifier::ext_equal]
pub ghost struct MetadataView {
    pub raw_report: Option<JsonView>,
    pub fresh: bool,
    pub complete: bool,
    pub workspace_complete: Option<bool>,
    pub source: Seq<char>,
}

impl View for DiagnosticMetadata {
    type V = MetadataView;

    open spec fn view(&self) -> MetadataView {
        MetadataView {
            raw_report: opt_view(self.raw_report),
            fresh: self.fresh,
            complete: self.complete,
            workspace_complete: self.workspace_complete,
            source: self.source@,
        }
    }
}

/// What is said of diagnostics, in JSON.
pub open spec fn metadata_json(m: MetadataView) -> JsonView {
    JsonView::Object(
        seq![("complete"@, JsonView::Bool(m.complete)), ("fresh"@, JsonView::Bool(m.fresh))] + field_if(
            "rawReport"@,
            !vacant(or_null(m.raw_report)),
            or_null(m.raw_report),
        ) + seq![
            ("source"@, JsonView::Text(m.source)),
            (
                "workspaceComplete"@,
                match m.workspace_complete {
                    Some(b) => JsonView::Bool(b),
                    None => JsonView::Null,
                },
            ),
        ],
    )
}

fn metadata_value(m: &DiagnosticMetadata) -> (r: Json)
    ensures
        r@ == metadata_json(m@),
{
    let mut o: Vec<(String, Json)> = Vec::new();
    assert(object_view(o@) =~= Seq::<(Seq<char>, JsonView)>::empty());
    push_field(&mut o, "complete", Json::Bool(m.complete));
    push_field(&mut o, "fresh", Json::Bool(m.fresh));
    if let Some(raw) = &m.raw_report {
        let empty: bool = match raw {
            Json::Null => true,
            Json::Array(items) => items.len() == 0,
            _ => false,
        };
        if !empty {
            push_field(&mut o, "rawReport", raw.copy());
        }
    }
    push_field(&mut o, "source", text_value(m.source.as_str()));
    let complete: Json = match m.workspace_complete {
        Some(b) => Json::Bool(b),
        None => Json::Null,
    };
    push_field(&mut o, "workspaceComplete", complete);
    assert(object_view(o@) =~= metadata_json(m@)->Object_0);
    Json::Object(o)
}

/// The report of diagnostics.
pub open spec fn diagnostic_report(
    q: ComposedView,
    context: JsonView,
    result: JsonView,
    metadata: MetadataView,
    trace: Option<JsonView>,
    ledger: Seq<JsonView>,
) -> Result<JsonView, FailureView> {
    match query_report(q, context, result, trace, ledger) {
        Err(f) => Err(f),
        Ok(e) => Ok((EnvelopeView { diagnostics: Some(metadata_json(metadata)), ..e }).json()),
    }
}

/// The report of diagnostics.
pub fn diagnostic_envelope(
    composed: &ComposedQuery,
    context: Json,
    result: Json,
    metadata: DiagnosticMetadata,
    trace: Option<Json>,
    apply_edit_ledger: Vec<Json>,
) -> (r: Result<Json, ContractFailure>)
    ensures
        result_view(r) == diagnostic_report(
            composed@,
            context@,
            result@,
            metadata@,
            opt_view(trace),
            array_view(apply_edit_ledger@),
        ),
{
    match query_envelope(composed, context, result, trace, apply_edit_ledger) {
        Err(f) => Err(f),
        Ok(e) => {
            let mut envelope: Envelope = e;
            envelope.diagnostics = Some(metadata_value(&metadata));
            Ok(envelope.render())
        },
    }
}

/// Whether a report says that nothing changed.
pub open spec fn is_unchanged(report: JsonView) -> bool {
    report.text_at("kind"@) == Some("unchanged"@)
}

/// Whether one of the related documents is reported as unchanged.
pub open spec fn some_field_unchanged(related: Seq<(Seq<char>, JsonView)>) -> bool {
    exists|i: int| 0 <= i < related.len() && is_unchanged((#[trigger] related[i]).1)
}

/// Whether one of some reports says that nothing changed.
pub open spec fn some_unchanged(items: Seq<JsonView>) -> bool {
    exists|i: int| 0 <= i < items.len() && is_unchanged(#[trigger] items[i])
}

/// Whether a report or one that it holds says that nothing changed.
pub open spec fn holds_unchanged(report: JsonView) -> bool {
    ||| is_unchanged(report)
    ||| related_of(report) is Some && some_field_unchanged(related_of(report)->0)
    ||| report_items(report) is Some && some_unchanged(report_items(report)->0)
}

/// Whether a report or one that it holds says that nothing changed.
pub fn diagnostic_report_contains_unchanged(report: &Json) -> (r: bool)
    ensures
        r == holds_unchanged(report@),
{
    if has_text(report, "kind", "unchanged") {
        return true;
    }
    if let Some(related) = related_field(report) {
        let ghost all = object_view(related@);
        let mut i: usize = 0;
        while i < related.len()
            invariant
                i <= related@.len(),
                all == object_view(related@),
                related_of(report@) == Some(all),
                forall|k: int| 0 <= k < i ==> !is_unchanged((#[trigger] all[k]).1),
            decreases related.len() - i,
        {
            assert(all[i as int].1 == related@[i as int].1@);
            if has_text(&related[i].1, "kind", "unchanged") {
                assert(is_unchanged(all[i as int].1));
                assert(some_field_unchanged(all));
                return true;
            }
            i += 1;
        }
    }
    if let Some(items) = items_field(report) {
        let ghost all = array_view(items@);
        let mut i: usize = 0;
        while i < items.len()
            invariant
                i <= items@.len(),
                all == array_view(items@),
                report_items(report@) == Some(all),
                forall|k: int| 0 <= k < i ==> !is_unchanged(#[trigger] all[k]),
            decreases items.len() - i,
        {
            assert(all[i as int] == items@[i as int]@);
            if has_text(&items[i], "kind", "unchanged") {
                assert(is_unchanged(all[i as int]));
                assert(some_unchanged(all));
                return true;
            }
            i += 1;
        }
    }
    false
}

/// Whether the result of a document is known.
pub open spec fn is_known(known: KnownView, uri: Seq<char>) -> bool {
    known.result_ids.dom().contains(uri)
}

/// The failure of a report that nothing changed, of a document that is not known.
pub open spec fn unknown_unchanged(method: Seq<char>, path: Seq<char>) -> FailureView {
    invalid_failed(method, "a cached full report for an unchanged diagnostic result"@, path)
}

/// Refuses a report that nothing changed of a document that is not known.
pub fn require_cached_unchanged_report(uri: &String, report: &Json, known: &KnownDiagnostics, json_path: &str) -> (r:
    Result<(), ContractFailure>)
    ensures
        match r {
            Ok(_) => !is_unchanged(report@) || is_known(known@, uri@),
            Err(f) => is_unchanged(report@) && !is_known(known@, uri@) && f@ == unknown_unchanged(
                "textDocument/diagnostic"@,
                json_path@,
            ),
        },
{
    if has_text(report, "kind", "unchanged") && !known.result_ids.contains_key(uri) {
        return Err(
            invalid_result(
                "textDocument/diagnostic",
                "a cached full report for an unchanged diagnostic result",
                json_path,
            ),
        );
    }
    Ok(())
}

/// The failure of the first related document that is reported as unchanged and
/// not known.
pub open spec fn related_unknown(related: Seq<(Seq<char>, JsonView)>, known: KnownView) -> Option<FailureView>
    decreases related.len(),
{
    if related.len() == 0 {
        None
    } else if is_unchanged(related[0].1) && !is_known(known, related[0].0) {
        Some(
            unknown_unchanged(
                "textDocument/diagnostic"@,
                "$.relatedDocuments["@ + quoted_text(related[0].0) + "]"@,
            ),
        )
    } else {
        related_unknown(related.drop_first(), known)
    }
}

/// Why a report on a document cannot be taken as it is.
pub open spec fn document_unknown(uri: Seq<char>, report: JsonView, known: KnownView) -> Option<FailureView> {
    if is_unchanged(report) && !is_known(known, uri) {
        Some(unknown_unchanged("textDocument/diagnostic"@, "$"@))
    } else {
        match related_of(report) {
            Some(related) => related_unknown(related, known),
            None => None,
        }
    }
}

/// Refuses a report on a document that cannot be taken as it is.
pub fn check_document_report(uri: &String, report: &Json, known: &KnownDiagnostics) -> (r: Result<(), ContractFailure>)
    ensures
        match r {
            Ok(_) => document_unknown(uri@, report@, known@) is None,
            Err(f) => document_unknown(uri@, report@, known@) == Some(f@),
        },
{
    if let Err(f) = require_cached_unchanged_report(uri, report, known, "$") {
        return Err(f);
    }
    let related: &Vec<(String, Json)> = match related_field(report) {
        Some(related) => related,
        None => {
            return Ok(());
        },
    };
    let ghost all = object_view(related@);
    let mut i: usize = 0;
    assert(all.skip(0) =~= all);
    while i < related.len()
        invariant
            i <= related@.len(),
            all == object_view(related@),
            document_unknown(uri@, report@, known@) == related_unknown(all, known@),
            related_unknown(all, known@) == related_unknown(all.skip(i as int), known@),
        decreases related.len() - i,
    {
        proof {
            assert(all.skip(i as int)[0] == (related@[i as int].0@, related@[i as int].1@));
            assert(all.skip(i as int).drop_first() =~= all.skip(i + 1));
        }
        let name: String = quoted(related[i].0.as_str());
        let at: String = concat3("$.relatedDocuments[", name.as_str(), "]");
        if let Err(f) = require_cached_unchanged_report(&related[i].0, &related[i].1, known, at.as_str()) {
            return Err(f);
        }
        i += 1;
    }
    Ok(())
}

/// The failure of the first report of a workspace that says that nothing changed
/// in a document that is not known.
pub open spec fn workspace_unknown(items: Seq<JsonView>, from: int, known: KnownView, method: Seq<char>) -> Option<FailureView>
    decreases items.len() - from,
{
    if from < 0 || from >= items.len() {
        None
    } else if is_unchanged(items[from]) && items[from].text_at("uri"@) is Some && !is_known(
        known,
        items[from].text_at("uri"@)->0,
    ) {
        Some(unknown_unchanged(method, place_in("$.items"@, from, ""@)))
    } else {
        workspace_unknown(items, from + 1, known, method)
    }
}

/// Refuses the reports of a workspace that cannot be taken as they are.
pub fn check_workspace_report(items: &Vec<Json>, known: &KnownDiagnostics, method: &str) -> (r: Result<
    (),
    ContractFailure,
>)
    ensures
        match r {
            Ok(_) => workspace_unknown(array_view(items@), 0, known@, method@) is None,
            Err(f) => workspace_unknown(array_view(items@), 0, known@, method@) == Some(f@),
        },
{
    let ghost all = array_view(items@);
    let mut i: usize = 0;
    while i < items.len()
        invariant
            i <= items@.len(),
            all == array_view(items@),
            workspace_unknown(all, 0, known@, method@) == workspace_unknown(all, i as int, known@, method@),
        decreases items.len() - i,
    {
        assert(all[i as int] == items@[i as int]@);
        if has_text(&items[i], "kind", "unchanged") {
            if let Some(uri) = items[i].text_at("uri") {
                if !known.result_ids.contains_key(uri) {
                    return Err(
                        invalid_result(
                            method,
                            "a cached full report for an unchanged diagnostic result",
                            place("$.items", i, "").as_str(),
                        ),
                    );
                }
            }
        }
        i += 1;
    }
    Ok(())
}

/// A report of diagnostics after it was held against what is known.
pub struct PulledReport {
    pub effective_report: Json,
    pub raw_report: Json,
    pub fresh: bool,
    pub complete: bool,
    pub workspace_complete: bool,
}

/// What is said of the diagnostics of a document.
pub open spec fn document_metadata(pulled: PulledReport, raw: bool) -> MetadataView {
    MetadataView {
        raw_report: if raw {
            Some(pulled.raw_report@)
        } else {
            None
        },
        fresh: pulled.fresh,
        complete: pulled.complete,
        workspace_complete: None,
        source: "pull-document"@,
    }
}

/// The report of the diagnostics of a document, once they were held against what
/// is known.
pub open spec fn document_diagnostics(
    q: ComposedView,
    context: JsonView,
    contains_unchanged: bool,
    pulled: PulledReport,
    trace: Option<JsonView>,
    ledger: Seq<JsonView>,
) -> Result<JsonView, FailureView> {
    let effective = pulled.effective_report@;
    if effective is Null || holds_unchanged(effective) {
        Err(unknown_unchanged(command_method(q.command)->0, "$"@))
    } else {
        diagnostic_report(q, context, effective, document_metadata(pulled, contains_unchanged), trace, ledger)
    }
}

/// The report of the diagnostics of a document, once they were held against what
/// is known.
pub fn document_diagnostic_envelope(
    composed: &ComposedQuery,
    context: Json,
    contains_unchanged: bool,
    pulled: PulledReport,
    trace: Option<Json>,
    apply_edit_ledger: Vec<Json>,
) -> (r: Result<Json, ContractFailure>)
    requires
        pulled.effective_report@ is Null || holds_unchanged(pulled.effective_report@) ==> command_method(
            composed@.command,
        ) is Some,
    ensures
        result_view(r) == document_diagnostics(
            composed@,
            context@,
            contains_unchanged,
            pulled,
            opt_view(trace),
            array_view(apply_edit_ledger@),
        ),
{
    let method: &str = match composed.command.method() {
        Some(method) => method,
        None => "",
    };
    if pulled.effective_report.is_null() || diagnostic_report_contains_unchanged(&pulled.effective_report) {
        return Err(
            invalid_result(method, "a cached full report for an unchanged diagnostic result", "$"),
        );
    }
    let ghost all = pulled;
    let raw_report: Option<Json> = if contains_unchanged {
        Some(pulled.raw_report)
    } else {
        None
    };
    let metadata = DiagnosticMetadata {
        raw_report,
        fresh: pulled.fresh,
        complete: pulled.complete,
        workspace_complete: None,
        source: "pull-document".to_owned(),
    };
    assert(metadata@ =~= document_metadata(all, contains_unchanged));
    diagnostic_envelope(composed, context, pulled.effective_report, metadata, trace, apply_edit_ledger)
}

/// What is said of the diagnostics of a workspace.
pub open spec fn workspace_metadata(pulled: PulledReport) -> MetadataView {
    MetadataView {
        raw_report: if pulled.raw_report@ is Null {
            None
        } else {
            Some(pulled.raw_report@)
        },
        fresh: pulled.fresh,
        complete: pulled.complete,
        workspace_complete: Some(pulled.workspace_complete),
        source: "pull-workspace"@,
    }
}

/// The report of the diagnostics of a workspace, once they were held against
/// what is known.
pub open spec fn workspace_diagnostics(
    q: ComposedView,
    context: JsonView,
    pulled: PulledReport,
    trace: Option<JsonView>,
    ledger: Seq<JsonView>,
) -> Result<JsonView, FailureView> {
    let effective = pulled.effective_report@;
    if holds_unchanged(effective) {
        Err(
            invalid_failed(
                command_method(q.command)->0,
                "cached full reports for unchanged diagnostic results"@,
                "$.items"@,
            ),
        )
    } else {
        diagnostic_report(q, context, effective, workspace_metadata(pulled), trace, ledger)
    }
}

/// The report of the diagnostics of a workspace, once they were held against
/// what is known.
pub fn workspace_diagnostic_envelope(
    composed: &ComposedQuery,
    context: Json,
    pulled: PulledReport,
    trace: Option<Json>,
    apply_edit_ledger: Vec<Json>,
) -> (r: Result<Json, ContractFailure>)
    requires
        holds_unchanged(pulled.effective_report@) ==> command_method(composed@.command) is Some,
    ensures
        result_view(r) == workspace_diagnostics(
            composed@,
            context@,
            pulled,
            opt_view(trace),
            array_view(apply_edit_ledger@),
        ),
{
    let method: &str = match composed.command.method() {
        Some(method) => method,
        None => "",
    };
    if diagnostic_report_contains_unchanged(&pulled.effective_report) {
        return Err(
            invalid_result(method, "cached full reports for unchanged diagnostic results", "$.items"),
        );
    }
    let ghost all = pulled;
    let raw_report: Option<Json> = if pulled.raw_report.is_null() {
        None
    } else {
        Some(pulled.raw_report)
    };
    let metadata = DiagnosticMetadata {
        raw_report,
        fresh: pulled.fresh,
        complete: pulled.complete,
        workspace_complete: Some(pulled.workspace_complete),
        source: "pull-workspace".to_owned(),
    };
    assert(metadata@ =~= workspace_metadata(all));
    diagnostic_envelope(composed, context, pulled.effective_report, metadata, trace, apply_edit_ledger)
}

/// A page and what follows it are the rest of the items; a page that does not
/// end them holds at least one where at least one is asked for.
pub proof fn law_pages_cover_the_items(items: Seq<JsonView>, offset: nat, limit: nat)
    requires
        offset <= items.len(),
    ensures
        ({
            let page = page_items(items, offset, limit);
            let next = offset + page.len();
            &&& items.skip(offset as int) == page + items.skip(next as int)
            &&& page_ends(items, offset, limit) <==> items.skip(next as int).len() == 0
            &&& page.len() <= limit
            &&& !page_ends(items, offset, limit) && limit >= 1 ==> page.len() >= 1
        }),
{
    let page = page_items(items, offset, limit);
    assert(items.skip(offset as int) =~= page + items.skip((offset + page.len()) as int));
}

/// The report of a Query says what was composed and nothing of what was not.
pub proof fn law_reports_name_their_query(
    q: ComposedView,
    context: JsonView,
    result: JsonView,
    trace: Option<JsonView>,
    ledger: Seq<JsonView>,
)
    ensures
        query_report(q, context, result, trace, ledger) matches Ok(e) ==> {
            &&& e.command == command_name(q.command)
            &&& e.context == context
            &&& e.trace == trace
            &&& q.page is None ==> e.result == result && e.page is None
            &&& q.request is Some ==> e.method == q.request->0.method
            &&& ledger.len() > 0 ==> e.apply_edit_ledger == Some(ledger)
        },
{
}

} // verus!
