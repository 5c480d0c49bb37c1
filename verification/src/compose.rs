//! Composing Queries from command lines.

use vstd::prelude::*;

use crate::capabilities::{Capabilities, CapabilitiesView, Provider, copy_value};
use crate::documents::{DocumentSnapshot, DocumentView};
use crate::failure::{FailureView, failed, failure, result_view};
use crate::invocation::{InvocationView, ParsedInvocation};
use crate::json::{Json, JsonView, array_view, copy_items, object1, object2, object_view, push_field, text_value};
use crate::path::path_text;
use crate::position::PositionEncoding;
use crate::query_command::{
    QueryCommand,
    command_method,
    command_of,
    in_pages,
    partial_results,
};
use crate::query_inputs::{
    InputRead,
    InputView,
    Page,
    QueryStop,
    StopView,
    array_option,
    arguments_failed,
    asked_page,
    asked_place,
    asked_range,
    json_option,
    needed_bool,
    needed_document,
    needed_object,
    needed_text,
    object_json_input,
    optional_array_json_input,
    optional_json_input,
    page,
    position_params,
    range_params,
    required_bool,
    required_document,
    required_string,
    unknown_query,
};
use crate::sorted::{Replica, SortedMap};
use crate::text::{opt_ref_view, opt_view, same, views};

verus! {

/// A request to a language server.
pub struct DispatchRequest {
    pub method: String,
    /// No parameters at all is something else than null.
    pub params: Option<Json>,
    /// The files that are to be synchronized first.
    pub synchronized_files: Vec<String>,
    /// Whether every open document is to be read again first.
    pub refresh_open_documents: bool,
    /// Whether a document that changed meanwhile is reported and fails nothing.
    pub raw_request: bool,
    /// Whether the answer may come in parts.
    pub partial_results: bool,
    /// Whether progress may be reported.
    pub work_done_progress: bool,
    /// Whether the frames of the protocol are to be reported.
    pub trace_protocol: bool,
    /// Whether edits that the server proposes may be applied.
    pub apply_edits: bool,
}

/// What a [`DispatchRequest`] stands for.
#[verifier::ext_equal]
pub ghost struct RequestView {
    pub method: Seq<char>,
    pub params: Option<JsonView>,
    pub synchronized_files: Seq<Seq<char>>,
    pub refresh_open_documents: bool,
    pub raw_request: bool,
    pub partial_results: bool,
    pub work_done_progress: bool,
    pub trace_protocol: bool,
    pub apply_edits: bool,
}

impl View for DispatchRequest {
    type V = RequestView;

    open spec fn view(&self) -> RequestView {
        RequestView {
            method: self.method@,
            params: opt_view(self.params),
            synchronized_files: views(self.synchronized_files@),
            refresh_open_documents: self.refresh_open_documents,
            raw_request: self.raw_request,
            partial_results: self.partial_results,
            work_done_progress: self.work_done_progress,
            trace_protocol: self.trace_protocol,
            apply_edits: self.apply_edits,
        }
    }
}

impl DispatchRequest {
    /// A request with the same view.
    pub fn copy(&self) -> (r: DispatchRequest)
        ensures
            r@ == self@,
    {
        let r = DispatchRequest {
            method: self.method.clone(),
            params: copy_value(self.params.as_ref()),
            synchronized_files: crate::text::copy_strings(&self.synchronized_files),
            refresh_open_documents: self.refresh_open_documents,
            raw_request: self.raw_request,
            partial_results: self.partial_results,
            work_done_progress: self.work_done_progress,
            trace_protocol: self.trace_protocol,
            apply_edits: self.apply_edits,
        };
        r
    }
}

/// What is known of the diagnostics that were pulled before: the identifiers of
/// the results, by document, and the same as the protocol lists them.
pub struct KnownDiagnostics {
    pub result_ids: SortedMap<String, String>,
    pub listed: Vec<Json>,
}

/// What [`KnownDiagnostics`] stand for.
#[verifier::ext_equal]
pub ghost struct KnownView {
    pub result_ids: Map<Seq<char>, Seq<char>>,
    pub listed: Seq<JsonView>,
}

impl View for KnownDiagnostics {
    type V = KnownView;

    open spec fn view(&self) -> KnownView {
        KnownView { result_ids: self.result_ids@, listed: array_view(self.listed@) }
    }
}

/// A Query that is ready.
pub struct ComposedQuery {
    pub command: QueryCommand,
    pub request: Option<DispatchRequest>,
    pub page: Option<Page>,
    pub document_uri: Option<String>,
    pub document_version: Option<i64>,
    pub capabilities: Option<Capabilities>,
    pub capabilities_raw: bool,
}

/// What a [`ComposedQuery`] stands for.
#[verifier::ext_equal]
pub ghost struct ComposedView {
    pub command: QueryCommand,
    pub request: Option<RequestView>,
    pub page: Option<(nat, nat)>,
    pub document_uri: Option<Seq<char>>,
    pub document_version: Option<i64>,
    pub capabilities: Option<CapabilitiesView>,
    pub capabilities_raw: bool,
}

/// A page as its offset and its limit.
pub open spec fn page_view(p: Option<Page>) -> Option<(nat, nat)> {
    match p {
        Some(p) => Some((p.offset as nat, p.limit as nat)),
        None => None,
    }
}

impl View for ComposedQuery {
    type V = ComposedView;

    open spec fn view(&self) -> ComposedView {
        ComposedView {
            command: self.command,
            request: opt_view(self.request),
            page: page_view(self.page),
            document_uri: opt_view(self.document_uri),
            document_version: self.document_version,
            capabilities: opt_view(self.capabilities),
            capabilities_raw: self.capabilities_raw,
        }
    }
}

impl Replica for Provider {
    fn replica(&self) -> (r: Self) {
        Provider {
            state: self.state,
            capability_path: self.capability_path.clone(),
            options: copy_value(self.options.as_ref()),
            selector: copy_value(self.selector.as_ref()),
            problems: copy_items(&self.problems),
        }
    }
}

/// A request without anything but its method, its parameters and its files.
pub open spec fn plain_request(method: Seq<char>, params: Option<JsonView>, files: Seq<Seq<char>>) -> RequestView {
    RequestView {
        method,
        params,
        synchronized_files: files,
        refresh_open_documents: false,
        raw_request: false,
        partial_results: false,
        work_done_progress: false,
        trace_protocol: false,
        apply_edits: false,
    }
}

fn request(method: &str, params: Json) -> (r: DispatchRequest)
    ensures
        r@ == plain_request(method@, Some(params@), seq![]),
{
    let files: Vec<String> = Vec::new();
    assert(views(files@) =~= Seq::<Seq<char>>::empty());
    DispatchRequest {
        method: method.to_owned(),
        params: Some(params),
        synchronized_files: files,
        refresh_open_documents: false,
        raw_request: false,
        partial_results: false,
        work_done_progress: false,
        trace_protocol: false,
        apply_edits: false,
    }
}

/// The document that a request is about, in JSON.
pub open spec fn document_json(d: DocumentView) -> JsonView {
    JsonView::Object(seq![("uri"@, JsonView::Text(d.uri))])
}

fn document_value(document: &DocumentSnapshot) -> (r: Json)
    ensures
        r@ == document_json(document@),
{
    object1("uri", text_value(document.uri.as_str()))
}

/// A request about a document, which is synchronized first.
pub open spec fn request_about(method: Seq<char>, d: DocumentView, fields: Seq<(Seq<char>, JsonView)>) -> RequestView {
    plain_request(
        method,
        Some(JsonView::Object(fields.push(("textDocument"@, document_json(d))))),
        seq![path_text(d.path)],
    )
}

fn document_request(method: &str, document: &DocumentSnapshot, fields: Vec<(String, Json)>) -> (r: DispatchRequest)
    ensures
        r@ == request_about(method@, document@, object_view(fields@)),
{
    let mut params: Vec<(String, Json)> = fields;
    push_field(&mut params, "textDocument", document_value(document));
    let mut r: DispatchRequest = request(method, Json::Object(params));
    let mut files: Vec<String> = Vec::new();
    files.push(document.path.to_text());
    assert(views(files@) =~= seq![path_text(document@.path)]);
    r.synchronized_files = files;
    r
}

/// Whether a method is one that callers may not call themselves.
pub open spec fn reserved_method(method: Seq<char>) -> bool {
    method == "initialize"@ || method == "initialized"@ || method == "shutdown"@ || method == "exit"@ || method
        == "$/cancelRequest"@
}

/// Whether a method is one that callers may not call themselves.
pub fn forbidden_raw_method(method: &str) -> (r: bool)
    ensures
        r == reserved_method(method@),
{
    same(method, "initialize") || same(method, "initialized") || same(method, "shutdown") || same(method, "exit")
        || same(method, "$/cancelRequest")
}

/// The failure of calling such a method.
pub open spec fn forbidden_failed(method: Seq<char>) -> FailureView {
    failed(
        3,
        "blocked"@,
        "raw_method_forbidden"@,
        "This raw method is controlled by lspctl."@,
        "dispatch"@,
        "not_sent"@,
        "never"@,
        JsonView::Object(seq![("method"@, JsonView::Text(method))]),
    )
}

/// The files that an option lists.
pub open spec fn listed_files(inv: InvocationView) -> Seq<Seq<char>> {
    match inv.values("--sync-file"@) {
        Some(values) => values,
        None => Seq::empty(),
    }
}

/// The request that a caller spells out.
pub open spec fn spelled_request(inv: InvocationView, inputs: Seq<InputView>) -> Result<RequestView, StopView> {
    match needed_text(inv, "--method"@) {
        Err(f) => Err(StopView::Failed(f)),
        Ok(method) => if reserved_method(method) {
            Err(StopView::Failed(forbidden_failed(method)))
        } else {
            match json_option(inv, "--params-json"@, "--params-file"@, inputs) {
                Err(s) => Err(s),
                Ok(params) => Ok(
                    RequestView { raw_request: true, ..plain_request(method, params, listed_files(inv)) },
                ),
            }
        },
    }
}

fn raw_request(invocation: &ParsedInvocation, inputs: &Vec<InputRead>) -> (r: Result<DispatchRequest, QueryStop>)
    ensures
        result_view(r) == spelled_request(invocation@, views(inputs@)),
{
    let method: String = match required_string(invocation, "--method") {
        Ok(method) => method,
        Err(f) => {
            return Err(QueryStop::Failed(f));
        },
    };
    if forbidden_raw_method(method.as_str()) {
        return Err(
            QueryStop::Failed(
                failure(
                    3,
                    "blocked",
                    "raw_method_forbidden",
                    "This raw method is controlled by lspctl.",
                    "dispatch",
                    "not_sent",
                    "never",
                    object1("method", text_value(method.as_str())),
                ),
            ),
        );
    }
    let params: Option<Json> = match optional_json_input(invocation, "--params-json", "--params-file", inputs) {
        Ok(params) => params,
        Err(s) => {
            return Err(s);
        },
    };
    let files: Vec<String> = match invocation.option_strings("--sync-file") {
        Some(files) => files,
        None => Vec::new(),
    };
    assert(views(files@) =~= listed_files(invocation@));
    Ok(
        DispatchRequest {
            method,
            params,
            synchronized_files: files,
            refresh_open_documents: false,
            raw_request: true,
            partial_results: false,
            work_done_progress: false,
            trace_protocol: false,
            apply_edits: false,
        },
    )
}

/// What is known of diagnostics, in the protocol's list.
pub open spec fn listed_ids(known: Option<KnownView>) -> Seq<JsonView> {
    match known {
        Some(k) => k.listed,
        None => seq![],
    }
}

/// The identifier of the result that is known of a document, in a field.
pub open spec fn known_id(known: Option<KnownView>, uri: Seq<char>) -> Seq<(Seq<char>, JsonView)> {
    if known is Some && known->0.result_ids.dom().contains(uri) {
        seq![("previousResultId"@, JsonView::Text(known->0.result_ids[uri]))]
    } else {
        seq![]
    }
}

/// The fields of a request about a document, besides the document.
pub open spec fn document_fields(
    c: QueryCommand,
    inv: InvocationView,
    d: DocumentView,
    encoding: PositionEncoding,
    known: Option<KnownView>,
    inputs: Seq<InputView>,
) -> Result<Seq<(Seq<char>, JsonView)>, StopView> {
    match c {
        QueryCommand::DocumentDiagnostics => Ok(known_id(known, d.uri)),
        QueryCommand::Definition | QueryCommand::Hover | QueryCommand::PrepareRename => match asked_place(
            inv,
            d.text,
            encoding,
        ) {
            Err(s) => Err(s),
            Ok(place) => Ok(seq![("position"@, place)]),
        },
        QueryCommand::References => match asked_place(inv, d.text, encoding) {
            Err(s) => Err(s),
            Ok(place) => match needed_bool(inv, "--include-declaration"@) {
                Err(f) => Err(StopView::Failed(f)),
                Ok(b) => Ok(
                    seq![
                        ("context"@, JsonView::Object(seq![("includeDeclaration"@, JsonView::Bool(b))])),
                        ("position"@, place),
                    ],
                ),
            },
        },
        QueryCommand::Rename => match asked_place(inv, d.text, encoding) {
            Err(s) => Err(s),
            Ok(place) => match needed_text(inv, "--new-name"@) {
                Err(f) => Err(StopView::Failed(f)),
                Ok(name) => Ok(seq![("newName"@, JsonView::Text(name)), ("position"@, place)]),
            },
        },
        QueryCommand::Format => match needed_object(
            inv,
            "--options-json"@,
            "--options-file"@,
            "FormattingOptions"@,
            inputs,
        ) {
            Err(s) => Err(s),
            Ok(options) => Ok(seq![("options"@, options)]),
        },
        QueryCommand::CodeActions => match asked_range(inv, d.text, encoding) {
            Err(s) => Err(s),
            Ok(range) => match needed_object(
                inv,
                "--context-json"@,
                "--context-file"@,
                "CodeActionContext"@,
                inputs,
            ) {
                Err(s) => Err(s),
                Ok(context) => Ok(seq![("context"@, context), ("range"@, range)]),
            },
        },
        _ => Ok(seq![]),
    }
}

/// Whether a Query is about a document that it cannot do without.
pub open spec fn about_document(c: QueryCommand) -> bool {
    c == QueryCommand::DocumentSymbols || c == QueryCommand::DocumentDiagnostics || c == QueryCommand::Definition || c
        == QueryCommand::Hover || c == QueryCommand::PrepareRename || c == QueryCommand::References || c
        == QueryCommand::Rename || c == QueryCommand::Format || c == QueryCommand::CodeActions
}

/// The request of a Query, before it is decided how it is sent.
pub open spec fn asked_request(
    c: QueryCommand,
    inv: InvocationView,
    document: Option<DocumentView>,
    encoding: PositionEncoding,
    known: Option<KnownView>,
    inputs: Seq<InputView>,
) -> Result<Option<RequestView>, StopView> {
    if about_document(c) {
        match needed_document(document) {
            Err(f) => Err(StopView::Failed(f)),
            Ok(d) => match document_fields(c, inv, d, encoding, known, inputs) {
                Err(s) => Err(s),
                Ok(fields) => Ok(Some(request_about(command_method(c)->0, d, fields))),
            },
        }
    } else {
        match c {
            QueryCommand::Raw => match spelled_request(inv, inputs) {
                Err(s) => Err(s),
                Ok(r) => Ok(Some(r)),
            },
            QueryCommand::WorkspaceSymbols => match needed_text(inv, "--query"@) {
                Err(f) => Err(StopView::Failed(f)),
                Ok(query) => Ok(
                    Some(
                        plain_request(
                            command_method(c)->0,
                            Some(JsonView::Object(seq![("query"@, JsonView::Text(query))])),
                            seq![],
                        ),
                    ),
                ),
            },
            QueryCommand::WorkspaceDiagnostics => Ok(
                Some(
                    plain_request(
                        command_method(c)->0,
                        Some(JsonView::Object(seq![("previousResultIds"@, JsonView::Array(listed_ids(known)))])),
                        seq![],
                    ),
                ),
            ),
            QueryCommand::ResolveCodeAction => match needed_object(
                inv,
                "--action-json"@,
                "--action-file"@,
                "CodeAction"@,
                inputs,
            ) {
                Err(s) => Err(s),
                Ok(action) => Ok(Some(plain_request(command_method(c)->0, Some(action), seq![]))),
            },
            QueryCommand::ExecuteCommand => match needed_text(inv, "--command"@) {
                Err(f) => Err(StopView::Failed(f)),
                Ok(command) => match array_option(
                    inv,
                    "--arguments-json"@,
                    "--arguments-file"@,
                    "execute-command arguments"@,
                    inputs,
                ) {
                    Err(s) => Err(s),
                    Ok(arguments) => Ok(
                        Some(
                            plain_request(
                                command_method(c)->0,
                                Some(
                                    JsonView::Object(
                                        seq![("arguments"@, arguments), ("command"@, JsonView::Text(command))],
                                    ),
                                ),
                                seq![],
                            ),
                        ),
                    ),
                },
            },
            _ => Ok(None),
        }
    }
}

/// How a request is sent.
pub open spec fn sent_request(r: RequestView, c: QueryCommand, inv: InvocationView, caps: CapabilitiesView) -> RequestView {
    RequestView {
        partial_results: partial_results(c),
        work_done_progress: c != QueryCommand::Raw && caps.progress(c),
        refresh_open_documents: c == QueryCommand::WorkspaceSymbols || c == QueryCommand::WorkspaceDiagnostics || c
            == QueryCommand::ExecuteCommand,
        raw_request: c == QueryCommand::Raw,
        trace_protocol: inv.has("--trace-protocol"@),
        apply_edits: c == QueryCommand::ExecuteCommand && inv.has("--apply-edits"@),
        ..r
    }
}

/// The Query of a command line, or why there is none.
pub open spec fn composed_query(
    inv: InvocationView,
    document: Option<DocumentView>,
    encoding: PositionEncoding,
    caps: CapabilitiesView,
    known: Option<KnownView>,
    inputs: Seq<InputView>,
) -> Result<ComposedView, StopView> {
    match command_of(inv.command) {
        None => Err(StopView::Failed(arguments_failed("The command is not a Query."@))),
        Some(c) => if in_pages(c) && asked_page(inv) is Err {
            Err(StopView::Failed(asked_page(inv)->Err_0))
        } else if c != QueryCommand::Raw && caps.problem(c, document, inv.value("--command"@)) is Some {
            Err(StopView::Failed(caps.problem(c, document, inv.value("--command"@))->0))
        } else {
            match asked_request(c, inv, document, encoding, known, inputs) {
                Err(s) => Err(s),
                Ok(request) => Ok(
                    ComposedView {
                        command: c,
                        request: match request {
                            Some(r) => Some(sent_request(r, c, inv, caps)),
                            None => None,
                        },
                        page: if in_pages(c) {
                            Some(asked_page(inv)->Ok_0)
                        } else {
                            None
                        },
                        document_uri: match document {
                            Some(d) => Some(d.uri),
                            None => None,
                        },
                        document_version: match document {
                            Some(d) => Some(d.version),
                            None => None,
                        },
                        capabilities: if c == QueryCommand::Capabilities {
                            Some(caps)
                        } else {
                            None
                        },
                        capabilities_raw: c == QueryCommand::Capabilities && inv.has("--raw"@),
                    },
                ),
            }
        },
    }
}

/// The view of the fields of a request.
pub open spec fn fields_result(r: Result<Vec<(String, Json)>, QueryStop>) -> Result<Seq<(Seq<char>, JsonView)>, StopView> {
    match r {
        Ok(fields) => Ok(object_view(fields@)),
        Err(s) => Err(s@),
    }
}

fn place_fields(invocation: &ParsedInvocation, document: &DocumentSnapshot, encoding: PositionEncoding, command: QueryCommand) -> (r:
    Result<Vec<(String, Json)>, QueryStop>)
    requires
        command == QueryCommand::Definition || command == QueryCommand::Hover || command
            == QueryCommand::PrepareRename || command == QueryCommand::References || command == QueryCommand::Rename,
    ensures
        forall|known: Option<KnownView>, inputs: Seq<InputView>|
            fields_result(r) == #[trigger] document_fields(
                command,
                invocation@,
                document@,
                encoding,
                known,
                inputs,
            ),
{
    let place: Json = match position_params(invocation, document, encoding) {
        Ok(place) => place,
        Err(s) => {
            return Err(s);
        },
    };
    let ghost at = place@;
    let mut o: Vec<(String, Json)> = Vec::new();
    assert(object_view(o@) =~= seq![]);
    if command == QueryCommand::References {
        let b: bool = match required_bool(invocation, "--include-declaration") {
            Ok(b) => b,
            Err(f) => {
                return Err(QueryStop::Failed(f));
            },
        };
        push_field(&mut o, "context", object1("includeDeclaration", Json::Bool(b)));
        push_field(&mut o, "position", place);
        assert(object_view(o@) =~= seq![
            ("context"@, JsonView::Object(seq![("includeDeclaration"@, JsonView::Bool(b))])),
            ("position"@, at),
        ]);
        return Ok(o);
    }
    if command == QueryCommand::Rename {
        let name: String = match required_string(invocation, "--new-name") {
            Ok(name) => name,
            Err(f) => {
                return Err(QueryStop::Failed(f));
            },
        };
        push_field(&mut o, "newName", text_value(name.as_str()));
        push_field(&mut o, "position", place);
        assert(object_view(o@) =~= seq![("newName"@, JsonView::Text(name@)), ("position"@, at)]);
        return Ok(o);
    }
    push_field(&mut o, "position", place);
    assert(object_view(o@) =~= seq![("position"@, at)]);
    Ok(o)
}

fn read_fields(
    command: QueryCommand,
    invocation: &ParsedInvocation,
    document: &DocumentSnapshot,
    encoding: PositionEncoding,
    known: Option<&KnownDiagnostics>,
    inputs: &Vec<InputRead>,
) -> (r: Result<Vec<(String, Json)>, QueryStop>)
    ensures
        fields_result(r) == document_fields(
            command,
            invocation@,
            document@,
            encoding,
            opt_ref_view(known),
            views(inputs@),
        ),
{
    let mut o: Vec<(String, Json)> = Vec::new();
    assert(object_view(o@) =~= seq![]);
    match command {
        QueryCommand::DocumentDiagnostics => {
            if let Some(k) = known {
                if let Some(id) = k.result_ids.get(&document.uri) {
                    push_field(&mut o, "previousResultId", text_value(id.as_str()));
                }
            }
            assert(object_view(o@) =~= known_id(opt_ref_view(known), document@.uri));
            Ok(o)
        },
        QueryCommand::Definition
        | QueryCommand::Hover
        | QueryCommand::PrepareRename
        | QueryCommand::References
        | QueryCommand::Rename => {
            let r = place_fields(invocation, document, encoding, command);
            assert(fields_result(r) == document_fields(
                command,
                invocation@,
                document@,
                encoding,
                opt_ref_view(known),
                views(inputs@),
            ));
            r
        },
        QueryCommand::Format => match object_json_input(
            invocation,
            "--options-json",
            "--options-file",
            "FormattingOptions",
            inputs,
        ) {
            Err(s) => Err(s),
            Ok(options) => {
                let ghost said = options@;
                push_field(&mut o, "options", options);
                assert(object_view(o@) =~= seq![("options"@, said)]);
                Ok(o)
            },
        },
        QueryCommand::CodeActions => match range_params(invocation, document, encoding) {
            Err(s) => Err(s),
            Ok(range) => match object_json_input(
                invocation,
                "--context-json",
                "--context-file",
                "CodeActionContext",
                inputs,
            ) {
                Err(s) => Err(s),
                Ok(context) => {
                    let ghost said = context@;
                    let ghost asked = range@;
                    push_field(&mut o, "context", context);
                    push_field(&mut o, "range", range);
                    assert(object_view(o@) =~= seq![("context"@, said), ("range"@, asked)]);
                    Ok(o)
                },
            },
        },
        _ => Ok(o),
    }
}

/// The view of a request that may be absent.
pub open spec fn request_result(r: Result<Option<DispatchRequest>, QueryStop>) -> Result<Option<RequestView>, StopView> {
    match r {
        Ok(request) => Ok(opt_view(request)),
        Err(s) => Err(s@),
    }
}

fn workspace_request(
    command: QueryCommand,
    method: &str,
    invocation: &ParsedInvocation,
    known: Option<&KnownDiagnostics>,
    inputs: &Vec<InputRead>,
) -> (r: Result<Option<DispatchRequest>, QueryStop>)
    requires
        !about_document(command),
        command_method(command) == Some(method@),
    ensures
        forall|document: Option<DocumentView>, encoding: PositionEncoding|
            request_result(r) == #[trigger] asked_request(
                command,
                invocation@,
                document,
                encoding,
                opt_ref_view(known),
                views(inputs@),
            ),
{
    match command {
        QueryCommand::WorkspaceSymbols => match required_string(invocation, "--query") {
            Err(f) => Err(QueryStop::Failed(f)),
            Ok(query) => Ok(Some(request(method, object1("query", text_value(query.as_str()))))),
        },
        QueryCommand::WorkspaceDiagnostics => {
            let listed: Vec<Json> = match known {
                Some(k) => copy_items(&k.listed),
                None => Vec::new(),
            };
            assert(array_view(listed@) =~= listed_ids(opt_ref_view(known)));
            Ok(Some(request(method, object1("previousResultIds", Json::Array(listed)))))
        },
        QueryCommand::ResolveCodeAction => match object_json_input(
            invocation,
            "--action-json",
            "--action-file",
            "CodeAction",
            inputs,
        ) {
            Err(s) => Err(s),
            Ok(action) => Ok(Some(request(method, action))),
        },
        QueryCommand::ExecuteCommand => match required_string(invocation, "--command") {
            Err(f) => Err(QueryStop::Failed(f)),
            Ok(wanted) => match optional_array_json_input(
                invocation,
                "--arguments-json",
                "--arguments-file",
                "execute-command arguments",
                inputs,
            ) {
                Err(s) => Err(s),
                Ok(arguments) => Ok(
                    Some(request(method, object2("arguments", arguments, "command", text_value(wanted.as_str())))),
                ),
            },
        },
        _ => Ok(None),
    }
}

fn compose_request(
    command: QueryCommand,
    invocation: &ParsedInvocation,
    document: Option<&DocumentSnapshot>,
    encoding: PositionEncoding,
    known: Option<&KnownDiagnostics>,
    inputs: &Vec<InputRead>,
) -> (r: Result<Option<DispatchRequest>, QueryStop>)
    ensures
        request_result(r) == asked_request(
            command,
            invocation@,
            opt_ref_view(document),
            encoding,
            opt_ref_view(known),
            views(inputs@),
        ),
{
    if command == QueryCommand::Raw {
        return match raw_request(invocation, inputs) {
            Ok(r) => Ok(Some(r)),
            Err(s) => Err(s),
        };
    }
    let method: &str = match command.method() {
        Some(method) => method,
        None => {
            return Ok(None);
        },
    };
    match command {
        QueryCommand::WorkspaceSymbols
        | QueryCommand::WorkspaceDiagnostics
        | QueryCommand::ResolveCodeAction
        | QueryCommand::ExecuteCommand => {
            let r = workspace_request(command, method, invocation, known, inputs);
            assert(request_result(r) == asked_request(
                command,
                invocation@,
                opt_ref_view(document),
                encoding,
                opt_ref_view(known),
                views(inputs@),
            ));
            r
        },
        _ => {
            let d: &DocumentSnapshot = match required_document(document) {
                Ok(d) => d,
                Err(f) => {
                    return Err(QueryStop::Failed(f));
                },
            };
            match read_fields(command, invocation, d, encoding, known, inputs) {
                Ok(fields) => Ok(Some(document_request(method, d, fields))),
                Err(s) => Err(s),
            }
        },
    }
}

/// Composes the Query of a command line.
pub fn compose(
    invocation: &ParsedInvocation,
    document: Option<&DocumentSnapshot>,
    encoding: PositionEncoding,
    capabilities: &Capabilities,
    known: Option<&KnownDiagnostics>,
    inputs: &Vec<InputRead>,
) -> (r: Result<ComposedQuery, QueryStop>)
    ensures
        result_view(r) == composed_query(
            invocation@,
            opt_ref_view(document),
            encoding,
            capabilities@,
            opt_ref_view(known),
            views(inputs@),
        ),
{
    let command: QueryCommand = match QueryCommand::from_path(&invocation.command) {
        Some(command) => command,
        None => {
            return Err(QueryStop::Failed(unknown_query()));
        },
    };
    let asked: Option<Page> = if command.paged() {
        match page(invocation) {
            Ok(p) => Some(p),
            Err(f) => {
                return Err(QueryStop::Failed(f));
            },
        }
    } else {
        None
    };
    if command != QueryCommand::Raw {
        let wanted: Option<String> = invocation.option_string("--command");
        if let Err(f) = capabilities.require(command, document, wanted.as_ref()) {
            return Err(QueryStop::Failed(f));
        }
    }
    let composed: Option<DispatchRequest> = match compose_request(
        command,
        invocation,
        document,
        encoding,
        known,
        inputs,
    ) {
        Ok(composed) => composed,
        Err(s) => {
            return Err(s);
        },
    };
    let sent: Option<DispatchRequest> = match composed {
        Some(mut r) => {
            r.partial_results = command.supports_partial_results();
            r.work_done_progress = command != QueryCommand::Raw && capabilities.work_done_progress(command);
            r.refresh_open_documents = matches!(
                command,
                QueryCommand::WorkspaceSymbols | QueryCommand::WorkspaceDiagnostics | QueryCommand::ExecuteCommand
            );
            r.raw_request = command == QueryCommand::Raw;
            r.trace_protocol = invocation.has_option("--trace-protocol");
            r.apply_edits = command == QueryCommand::ExecuteCommand && invocation.has_option("--apply-edits");
            Some(r)
        },
        None => None,
    };
    let copied: Option<Capabilities> = if command == QueryCommand::Capabilities {
        Some(
            Capabilities {
                providers: capabilities.providers.replica(),
                initialize_result: copy_value(capabilities.initialize_result.as_ref()),
            },
        )
    } else {
        None
    };
    Ok(
        ComposedQuery {
            command,
            request: sent,
            page: asked,
            document_uri: match document {
                Some(d) => Some(d.uri.clone()),
                None => None,
            },
            document_version: match document {
                Some(d) => Some(d.version),
                None => None,
            },
            capabilities: copied,
            capabilities_raw: command == QueryCommand::Capabilities && invocation.has_option("--raw"),
        },
    )
}

/// A Query that is composed was supported by the server, or was spelled out by
/// the caller with a method that callers may call.
pub proof fn law_composed_queries_may_be_sent(
    inv: InvocationView,
    document: Option<DocumentView>,
    encoding: PositionEncoding,
    caps: CapabilitiesView,
    known: Option<KnownView>,
    inputs: Seq<InputView>,
)
    ensures
        composed_query(inv, document, encoding, caps, known, inputs) matches Ok(q) ==> {
            &&& q.command == QueryCommand::Raw ==> q.request is Some && !reserved_method(q.request->0.method)
            &&& q.command != QueryCommand::Raw ==> caps.problem(q.command, document, inv.value("--command"@)) is None
        },
{
}

/// A Query of a method of its own is sent with that method; edits are applied
/// for no Query but one, and only where the caller says so.
pub proof fn law_composed_queries_say_what_was_asked(
    inv: InvocationView,
    document: Option<DocumentView>,
    encoding: PositionEncoding,
    caps: CapabilitiesView,
    known: Option<KnownView>,
    inputs: Seq<InputView>,
)
    ensures
        composed_query(inv, document, encoding, caps, known, inputs) matches Ok(q) ==> {
            &&& command_method(q.command) matches Some(m) ==> q.request is Some && q.request->0.method == m
            &&& q.request is Some && q.request->0.apply_edits ==> q.command == QueryCommand::ExecuteCommand && inv.has(
                "--apply-edits"@,
            )
            &&& about_document(q.command) ==> q.request is Some && q.request->0.synchronized_files == seq![
                path_text(document->0.path),
            ]
        },
{
}

} // verus!
