//! Queries from the command line to the envelope that answers them.

use lspctl::capabilities::{Capabilities, Provider, ProviderState};
use lspctl::compose::{ComposedQuery, KnownDiagnostics, compose};
use lspctl::documents::{DocumentSnapshot, document_filter_matches, document_pattern_matches};
use lspctl::failure::ContractFailure;
use lspctl::glob::glob_matches;
use lspctl::invocation::ParsedInvocation;
use lspctl::json::Json;
use lspctl::path::NativePath;
use lspctl::position::PositionEncoding;
use lspctl::query_command::{QueryCommand, has_source_position};
use lspctl::query_envelopes::{PulledReport, add_page, diagnostic_report_contains_unchanged};
use lspctl::query_execute::{
    DispatchFailure, DispatchResponse, Execution, Finish, Published, QueryContext, QueryExecutionFailure,
    capabilities_answer, execute, execution_context, finish_execution, published_envelope, query_dispatch_failure,
    query_failure_envelope, workspace_edit_is_empty,
};
use lspctl::query_inputs::{InputRead, Page, QueryStop, page};
use lspctl::query_run::{QueryRun, RunAction, RunEvent, RunPhase};
use lspctl::query_results::{
    DiagnosticReportContext, canonicalize_result_uris, merge_partial_results, normalize_named_result,
    validate_document_diagnostic_report,
};
use lspctl::sorted::SortedMap;
use serde_json::Value;

fn from_value(value: &Value) -> Json {
    match value {
        Value::Null => Json::Null,
        Value::Bool(b) => Json::Bool(*b),
        Value::Number(n) => match (n.as_u64(), n.as_i64()) {
            (Some(u), _) => Json::Unsigned(u),
            (None, Some(i)) => Json::Negative(i),
            (None, None) => Json::Decimal(n.to_string()),
        },
        Value::String(s) => Json::Text(s.clone()),
        Value::Array(items) => Json::Array(items.iter().map(from_value).collect()),
        Value::Object(fields) => Json::Object(fields.iter().map(|(k, v)| (k.clone(), from_value(v))).collect()),
    }
}

fn value(json: &Json) -> Value {
    match json {
        Json::Null => Value::Null,
        Json::Bool(b) => Value::from(*b),
        Json::Unsigned(n) => Value::from(*n),
        Json::Negative(n) => Value::from(*n),
        Json::Decimal(s) => serde_json::from_str(s).unwrap(),
        Json::Text(s) => Value::from(s.as_str()),
        Json::Array(items) => Value::Array(items.iter().map(value).collect()),
        Json::Object(fields) => Value::Object(fields.iter().map(|(k, v)| (k.clone(), value(v))).collect()),
    }
}

fn parsed(text: &str) -> Value {
    serde_json::from_str(text).unwrap()
}

fn json(text: &str) -> Json {
    from_value(&parsed(text))
}

fn text(words: &[&str]) -> Vec<String> {
    words.iter().map(|w| w.to_string()).collect()
}

fn invocation(command: &str, options: &[(&str, &[&str])]) -> ParsedInvocation {
    ParsedInvocation {
        command: text(&[command]),
        options: options.iter().map(|(name, values)| (name.to_string(), text(values))).collect(),
        positionals: Vec::new(),
    }
}

fn document() -> DocumentSnapshot {
    DocumentSnapshot {
        uri: "file:///workspace/main.rs".to_owned(),
        path: NativePath { components: text(&["/", "workspace", "main.rs"]) },
        language_id: "rust".to_owned(),
        version: 1,
        digest: "sha256:test".to_owned(),
        text: "fn 😀() {}\n".to_owned(),
    }
}

fn none_supported() -> Capabilities {
    Capabilities { providers: SortedMap::new(), initialize_result: None }
}

fn supported(provider: &str) -> Capabilities {
    supported_with_options(provider, "{}")
}

fn supported_with_options(provider: &str, options: &str) -> Capabilities {
    selected(provider, options, None)
}

fn selected(provider: &str, options: &str, selector: Option<Json>) -> Capabilities {
    let mut capabilities = none_supported();
    capabilities.providers.insert(
        provider.to_owned(),
        Provider {
            state: ProviderState::Supported,
            capability_path: provider.to_owned(),
            options: Some(json(options)),
            selector,
            problems: Vec::new(),
        },
    );
    capabilities
}

fn context() -> QueryContext {
    QueryContext {
        workspace_uri: "file:///workspace/".to_owned(),
        server: "test".to_owned(),
        session_identity: "sid_0000000000000000000000000000000000000000000000000000000000000000".to_owned(),
        owner_generation: "gen_00000000000000000000000000000000".to_owned(),
        result_position_encoding: PositionEncoding::Utf16,
        server_progress: Vec::new(),
        synchronization: json(
            r#"{"mode":"document", "bestEffort":false, "before":[], "failures":[], "postResponseChanged":[]}"#,
        ),
        recovery: json(r#"{"required":false}"#),
    }
}

fn nothing_known() -> KnownDiagnostics {
    KnownDiagnostics { result_ids: SortedMap::new(), listed: Vec::new() }
}

fn response(result: &str) -> DispatchResponse {
    DispatchResponse {
        result: json(result),
        partial_results: Vec::new(),
        trace: None,
        apply_edit_ledger: Vec::new(),
        server_progress: Vec::new(),
        synchronization: None,
    }
}

fn composed(
    invocation: &ParsedInvocation,
    document: Option<&DocumentSnapshot>,
    capabilities: &Capabilities,
) -> Result<ComposedQuery, QueryStop> {
    compose(invocation, document, PositionEncoding::Utf16, capabilities, None, &Vec::new())
}

fn accepted(
    invocation: &ParsedInvocation,
    document: Option<&DocumentSnapshot>,
    capabilities: &Capabilities,
) -> ComposedQuery {
    match composed(invocation, document, capabilities) {
        Ok(query) => query,
        Err(QueryStop::Failed(failure)) => panic!("{}", failure.message),
        Err(_) => panic!("the query stopped"),
    }
}

fn refused(result: Result<ComposedQuery, QueryStop>) -> ContractFailure {
    match result {
        Err(QueryStop::Failed(failure)) => failure,
        _ => panic!("the query was not refused"),
    }
}

fn executed(query: &ComposedQuery, response: DispatchResponse) -> Result<Execution, QueryExecutionFailure> {
    execute(query, &context(), response, &nothing_known())
}

#[test]
fn named_position_requests_use_negotiated_encoding() {
    let document = document();
    let query = accepted(
        &invocation("definition", &[("--column", &["4"]), ("--line", &["0"])]),
        Some(&document),
        &supported("definitionProvider"),
    );
    let params = value(&query.request.unwrap().params.unwrap());
    assert_eq!(params["position"]["character"], 5);
    assert_eq!(params["position"]["line"], 0);
    assert_eq!(params["textDocument"]["uri"], "file:///workspace/main.rs");
}

#[test]
fn positions_outside_the_document_stop_the_query() {
    let document = document();
    let stopped = composed(
        &invocation("definition", &[("--column", &["40"]), ("--line", &["0"])]),
        Some(&document),
        &supported("definitionProvider"),
    );
    assert!(matches!(stopped, Err(QueryStop::Outside { line: 0, column: 40 })));
}

#[test]
fn raw_preserves_explicit_null_and_sync_files() {
    let request = accepted(
        &invocation(
            "raw",
            &[
                ("--method", &["custom/method"]),
                ("--params-json", &["null"]),
                ("--sync-file", &["one.rs", "two.rs"]),
            ],
        ),
        None,
        &none_supported(),
    )
    .request
    .unwrap();
    assert_eq!(request.params.as_ref().map(value), Some(Value::Null));
    assert_eq!(request.synchronized_files, ["one.rs", "two.rs"]);
    assert!(request.raw_request);
    let absent = accepted(&invocation("raw", &[("--method", &["custom/method"])]), None, &none_supported());
    assert!(absent.request.unwrap().params.is_none());
}

#[test]
fn unsupported_named_provider_fails_before_dispatch() {
    let failure = refused(composed(&invocation("hover", &[]), None, &none_supported()));
    assert_eq!(failure.code, "capability_unavailable");
}

#[test]
fn recursive_glob_document_selectors_reject_filename_suffixes() {
    let definition = invocation("definition", &[("--column", &["0"]), ("--line", &["0"])]);
    let mut document = document();
    for pattern in [r#""**/main.rs""#, r#"{"baseUri": "file:///workspace", "pattern": "**/main.rs"}"#] {
        let selector = format!(r#"[{{"language": "rust", "scheme": "file", "pattern": {pattern}}}]"#);
        let capabilities = selected("definition", "{}", Some(json(&selector)));
        for (name, expected) in [("main.rs", true), ("domain.rs", false)] {
            document.uri = format!("file:///workspace/{name}");
            let result = composed(&definition, Some(&document), &capabilities);
            if expected {
                assert!(result.is_ok(), "{pattern:?}: {name}");
            } else {
                assert_eq!(refused(result).code, "capability_unavailable", "{pattern:?}: {name}");
            }
        }
    }
}

#[test]
fn capability_gates_subfeatures_commands_and_document_selectors() {
    let document = document();
    let prepare = invocation("prepare-rename", &[("--column", &["0"]), ("--line", &["0"])]);
    assert_eq!(
        refused(composed(&prepare, Some(&document), &supported("renameProvider"))).code,
        "capability_unavailable"
    );
    accepted(&prepare, Some(&document), &supported_with_options("rename", r#"{"prepareProvider":true}"#));

    let definition = invocation("definition", &[("--column", &["0"]), ("--line", &["0"])]);
    let patterns = r#"[{"language":"rust","scheme":"file","pattern":"**/*.{rs,txt}"}]"#;
    let options = format!(r#"{{"documentSelector":{patterns}}}"#);
    accepted(&definition, Some(&document), &selected("definition", &options, Some(json(patterns))));
    let failure = refused(composed(
        &definition,
        Some(&document),
        &selected("definition", &options, Some(json(r#"[{"language":"typescript"}]"#))),
    ));
    assert_eq!(value(&failure.data)["selector"][0]["language"], "typescript");

    assert!(glob_matches(b"**/main.[r-t][!x]", b"/workspace/main.rs"));
    assert!(!glob_matches(b"**/main.[!r]s", b"/workspace/main.rs"));
}

#[test]
fn compose_requests_owner_progress_trace_and_apply_policies() {
    let document = document();
    let request = accepted(
        &invocation(
            "references",
            &[
                ("--column", &["0"]),
                ("--include-declaration", &["false"]),
                ("--line", &["0"]),
                ("--trace-protocol", &[]),
            ],
        ),
        Some(&document),
        &supported_with_options("references", r#"{"workDoneProgress":true}"#),
    )
    .request
    .unwrap();
    assert!(request.partial_results);
    assert!(request.work_done_progress);
    assert!(request.trace_protocol);

    let request = accepted(
        &invocation("execute-command", &[("--apply-edits", &[]), ("--command", &["test.run"])]),
        None,
        &supported_with_options("executeCommand", r#"{"commands":["test.run"]}"#),
    )
    .request
    .unwrap();
    assert!(request.apply_edits);
}

#[test]
fn commands_that_no_server_offers_are_refused() {
    let failure = refused(composed(
        &invocation("execute-command", &[("--command", &["test.other"])]),
        None,
        &supported_with_options("executeCommand", r#"{"commands":["test.run"]}"#),
    ));
    assert_eq!(failure.code, "capability_unavailable");
}

fn merged(command: QueryCommand, result: &str, partials: &[&str]) -> Value {
    match merge_partial_results(command, json(result), &partials.iter().map(|p| json(p)).collect()) {
        Ok(merged) => value(&merged),
        Err(failure) => panic!("{}", failure.message),
    }
}

#[test]
fn partials_and_paging_are_normalized() {
    assert_eq!(merged(QueryCommand::References, "[3]", &["[1, 2]"]), parsed("[1, 2, 3]"));
    let (result, page) = match add_page(json("[0, 1, 2]"), Page { offset: 1, limit: 1 }, "test/method") {
        Ok(cut) => cut,
        Err(failure) => panic!("{}", failure.message),
    };
    assert_eq!(value(&result), parsed("[1]"));
    assert_eq!(value(&page)["nextOffset"], 2);

    assert_eq!(
        merged(
            QueryCommand::WorkspaceDiagnostics,
            r#"{"items":[{"uri":"file:///final","kind":"full","items":[]}]}"#,
            &[r#"{"items":[{"uri":"file:///partial","kind":"full","items":[]}]}"#],
        )["items"][0]["uri"],
        "file:///partial"
    );
    assert_eq!(
        merged(
            QueryCommand::DocumentDiagnostics,
            r#"{"kind":"full","items":[]}"#,
            &[r#"{"relatedDocuments":{"file:///related":{"kind":"full","items":[]}}}"#],
        )["relatedDocuments"]["file:///related"]["kind"],
        "full"
    );
}

#[test]
fn pages_are_bounded_and_lists_are_required() {
    assert!(add_page(json("{}"), Page { offset: 0, limit: 1 }, "test/method").is_err());
    let (result, cut) = match add_page(json("[0, 1, 2]"), Page { offset: 7, limit: 2 }, "test/method") {
        Ok(cut) => cut,
        Err(failure) => panic!("{}", failure.message),
    };
    assert_eq!(value(&result), parsed("[]"));
    assert_eq!(value(&cut)["nextOffset"], Value::Null);
    match page(&invocation("references", &[("--limit", &["0"])])) {
        Err(failure) => assert_eq!(failure.code, "invalid_arguments"),
        Ok(_) => panic!("a page of nothing was accepted"),
    }
    match page(&invocation("references", &[("--limit", &["20"]), ("--offset", &["4"])])) {
        Ok(page) => assert_eq!((page.offset, page.limit), (4, 20)),
        Err(failure) => panic!("{}", failure.message),
    }
}

#[test]
fn failed_dispatch_keeps_partial_results_trace_and_apply_ledger() {
    let document = document();
    let references = invocation(
        "references",
        &[("--column", &["0"]), ("--include-declaration", &["false"]), ("--line", &["0"])],
    );
    let query = accepted(&references, Some(&document), &supported("references"));
    let failed = DispatchFailure {
        failure: ContractFailure {
            exit_code: 5,
            category: "query".to_owned(),
            code: "request_timeout".to_owned(),
            message: "The language-server request timed out.".to_owned(),
            stage: "await_response".to_owned(),
            delivery: "uncertain".to_owned(),
            retry: "unsafe".to_owned(),
            data: json(r#"{"timeout":"1s"}"#),
        },
        server_error: None,
        partial_results: vec![json("[1, 2]"), json("[3]")],
        trace: Some(json(r#"{"frames":[]}"#)),
        apply_edit_ledger: vec![json(r#"{"ordinal": 0, "applied": false, "outcome": "previewed"}"#)],
    };
    let failure = query_dispatch_failure(&query, execution_context(&query, &context(), &response("null")), failed);
    let envelope = value(&query_failure_envelope(Vec::new(), &failure));
    assert_eq!(envelope["method"], "textDocument/references");
    assert_eq!(envelope["partialResult"], parsed(r#"{"items":[1, 2, 3], "complete":false}"#));
    assert_eq!(envelope["trace"]["frames"], parsed("[]"));
    assert_eq!(envelope["applyEditLedger"][0]["ordinal"], 0);
    assert_eq!(envelope["context"]["server"], "test");
}

#[test]
fn code_action_and_execute_command_params_are_exact() {
    let document = document();
    let request = accepted(
        &invocation(
            "code-actions",
            &[
                ("--context-json", &[r#"{"diagnostics":[]}"#]),
                ("--end-column", &["2"]),
                ("--end-line", &["0"]),
                ("--start-column", &["0"]),
                ("--start-line", &["0"]),
            ],
        ),
        Some(&document),
        &supported("codeActionProvider"),
    )
    .request
    .unwrap();
    assert_eq!(value(&request.params.unwrap())["context"]["diagnostics"], parsed("[]"));

    let query = accepted(
        &invocation("execute-command", &[("--arguments-json", &["[1]"]), ("--command", &["test.run"])]),
        None,
        &supported_with_options("executeCommandProvider", r#"{"commands": ["test.run"]}"#),
    );
    assert_eq!(
        value(&query.request.unwrap().params.unwrap()),
        parsed(r#"{"command":"test.run", "arguments":[1]}"#)
    );
}

#[test]
fn dispatch_normalizes_partials_context_and_document_diagnostics() {
    let document = document();
    let query =
        accepted(&invocation("document-diagnostics", &[]), Some(&document), &supported("diagnosticProvider"));
    let report = r#"{"kind":"full", "resultId":"one", "items":[{"message":"one"}]}"#;
    let (uri, report_value, contains_unchanged) = match executed(&query, response(report)) {
        Ok(Execution::PullDocument { uri, report, contains_unchanged }) => (uri, report, contains_unchanged),
        _ => panic!("the report was not taken in"),
    };
    assert_eq!(uri, document.uri);
    assert!(!contains_unchanged);
    let pulled = PulledReport {
        effective_report: from_value(&value(&report_value)),
        raw_report: report_value,
        fresh: true,
        complete: true,
        workspace_complete: true,
    };
    let place = execution_context(&query, &context(), &response(report));
    let output =
        match finish_execution(&query, &place, Finish::Document { contains_unchanged, pulled }, None, &Vec::new()) {
            Ok(output) => value(&output),
            Err(failure) => panic!("{}", failure.failure.message),
        };
    assert_eq!(output["context"]["inputPositionEncoding"], Value::Null);
    assert_eq!(output["result"], parsed(report));
    assert_eq!(output["diagnostics"]["source"], "pull-document");
    assert_eq!(output["diagnostics"].get("rawReport"), None);
}

#[test]
fn mutation_queries_create_previews_without_applying_edits() {
    let document = document();
    let query = accepted(
        &invocation("format", &[("--options-json", &["{}"])]),
        Some(&document),
        &supported("formatting"),
    );
    let answer = DispatchResponse {
        result: json(
            r#"[{"range":{"start":{"line":0,"character":0},"end":{"line":0,"character":0}},"newText":"use x;\n"}]"#,
        ),
        partial_results: Vec::new(),
        trace: Some(json(r#"{"frames":[]}"#)),
        apply_edit_ledger: vec![json(r#"{"ordinal":0,"applied":false,"outcome":"previewed"}"#)],
        server_progress: Vec::new(),
        synchronization: None,
    };
    let place = execution_context(&query, &context(), &answer);
    let proposal = match executed(&query, answer) {
        Ok(Execution::Preview(proposal)) => proposal,
        _ => panic!("nothing was proposed"),
    };
    let preview = json(r#"{"previewId":"prv_00000000000000000000000000000000"}"#);
    let finish = Finish::Previewed { preview: Ok(preview), resolved_action: None };
    let output =
        match finish_execution(&query, &place, finish, proposal.trace.as_ref(), &proposal.apply_edit_ledger) {
            Ok(output) => value(&output),
            Err(failure) => panic!("{}", failure.failure.message),
        };
    assert_eq!(output["outcome"], "previewed");
    assert_eq!(output["method"], "textDocument/formatting");
    assert_eq!(output["applyEditLedger"][0]["ordinal"], 0);
    let edit = value(&proposal.edit);
    assert_eq!(edit["documentChanges"][0]["textDocument"]["uri"], document.uri.as_str());
    assert_eq!(edit["documentChanges"][0]["textDocument"]["version"], document.version);
}

#[test]
fn unchanged_and_disabled_mutation_results_are_distinct() {
    let document = document();
    let query = accepted(
        &invocation("rename", &[("--column", &["0"]), ("--line", &["0"]), ("--new-name", &["next"])]),
        Some(&document),
        &supported("rename"),
    );
    let output = match executed(&query, response("{}")) {
        Ok(Execution::Answered(output)) => value(&output),
        _ => panic!("an empty edit was proposed"),
    };
    assert_eq!(output["outcome"], "unchanged");
    assert_eq!(output["result"], Value::Null);
    assert!(workspace_edit_is_empty(&json(r#"{"changes":{"file:///one":[]}}"#)));
    assert!(!workspace_edit_is_empty(&json(r#"{"documentChanges":[{"kind":"create","uri":"file:///one"}]}"#)));

    let query = accepted(
        &invocation("resolve-code-action", &[("--action-json", &[r#"{"title":"disabled"}"#])]),
        None,
        &supported_with_options("codeActions", r#"{"resolveProvider":true}"#),
    );
    let mut answer = response(r#"{"title":"disabled","disabled":{"reason":"not applicable"}}"#);
    answer.trace = Some(json(r#"{"frames":[]}"#));
    let failure = match executed(&query, answer) {
        Err(failure) => failure,
        Ok(_) => panic!("a disabled action was accepted"),
    };
    assert_eq!(failure.failure.code, "disabled_code_action");
    assert_eq!(value(&failure.failure.data)["reason"], "not applicable");
    assert_eq!(failure.method.as_deref(), Some("codeAction/resolve"));
    assert_eq!(value(&failure.trace.unwrap())["frames"], parsed("[]"));
}

fn normalized(command: QueryCommand, result: &str) -> Result<Value, ContractFailure> {
    normalize_named_result(command, json(result)).map(|normalized| value(&normalized))
}

fn rejected(command: QueryCommand, result: &str) -> ContractFailure {
    match normalized(command, result) {
        Err(failure) => failure,
        Ok(accepted) => panic!("{accepted}"),
    }
}

#[test]
fn named_cardinality_and_invalid_results_are_normalized() {
    assert_eq!(normalized(QueryCommand::Hover, "null").ok(), Some(parsed("[]")));
    assert_eq!(
        normalized(QueryCommand::Definition, r#"{"uri":"https://example.test/a","range":{}}"#).ok(),
        Some(parsed(r#"[{"uri":"https://example.test/a","range":{}}]"#))
    );
    let failure = rejected(QueryCommand::References, r#"[{"range":{}}]"#);
    assert_eq!(failure.code, "invalid_server_result");
    assert_eq!(value(&failure.data)["jsonPath"], "$[0].uri");

    let failure = rejected(
        QueryCommand::WorkspaceDiagnostics,
        r#"{"items":[{"uri":"file:///one","kind":"full","items":[]}]}"#,
    );
    assert_eq!(value(&failure.data)["jsonPath"], "$.items[0].version");
}

#[test]
fn file_uris_of_results_are_spelled_one_way() {
    assert_eq!(
        normalized(QueryCommand::References, r#"[{"uri":"file:///one%2Dtwo","range":{}}]"#).ok(),
        Some(parsed(r#"[{"uri":"file:///one-two","range":{}}]"#))
    );
    let failure = rejected(QueryCommand::References, r#"[{"uri":"not a uri","range":{}}]"#);
    assert_eq!(value(&failure.data)["jsonPath"], "$[0].uri");
}

#[test]
fn published_and_workspace_diagnostics_report_contract_metadata() {
    let document = document();
    let query =
        accepted(&invocation("published-diagnostics", &[]), Some(&document), &none_supported());
    let published =
        Published::Document { diagnostics: json(r#"[{"message":"published"}]"#), fresh: true, complete: true };
    let output = match published_envelope(&query, context().json(false), published) {
        Ok(output) => value(&output),
        Err(failure) => panic!("{}", failure.message),
    };
    assert_eq!(output["method"], "textDocument/publishDiagnostics");
    assert_eq!(output["result"][0]["message"], "published");
    assert_eq!(output["diagnostics"]["fresh"], true);
    assert_eq!(output["diagnostics"]["workspaceComplete"], Value::Null);

    let query = accepted(
        &invocation("workspace-diagnostics", &[]),
        None,
        &supported_with_options("diagnostics", r#"{"workspaceDiagnostics":true}"#),
    );
    let report = r#"{"items":[{"uri":"file:///one","version":null,"kind":"full","items":[]}]}"#;
    let raw = match executed(&query, response(report)) {
        Ok(Execution::PullWorkspace { report }) => report,
        _ => panic!("the report was not taken in"),
    };
    let pulled = PulledReport {
        effective_report: from_value(&value(&raw)),
        raw_report: raw,
        fresh: true,
        complete: true,
        workspace_complete: true,
    };
    let place = execution_context(&query, &context(), &response(report));
    let output = match finish_execution(&query, &place, Finish::Workspace(pulled), None, &Vec::new()) {
        Ok(output) => value(&output),
        Err(failure) => panic!("{}", failure.failure.message),
    };
    assert_eq!(output["diagnostics"]["source"], "pull-workspace");
    assert_eq!(output["diagnostics"]["workspaceComplete"], true);
}

#[test]
fn capabilities_raw_output_and_json_input_errors_are_exact() {
    let capabilities = Capabilities::from_owner_result(&json(
        r#"{
            "providers": {
                "definition": {
                    "state": "supported",
                    "capabilityPath": "capabilities.definitionProvider",
                    "options": {"documentSelector": [{"language":"rust"}]}
                }
            },
            "initializeResult": {"capabilities":{}}
        }"#,
    ));
    let definition = capabilities.providers.get(&"definition".to_owned()).unwrap();
    assert_eq!(definition.selector.as_ref().map(value), Some(parsed(r#"[{"language":"rust"}]"#)));
    let query = accepted(&invocation("capabilities", &[("--raw", &[])]), None, &capabilities);
    let output = value(&capabilities_answer(&query, &context()).unwrap());
    assert_eq!(output["result"]["initializeResult"]["capabilities"], parsed("{}"));

    let failure = refused(composed(
        &invocation("format", &[("--options-json", &["{"])]),
        Some(&document()),
        &supported("formatting"),
    ));
    assert_eq!(failure.code, "invalid_json_input");
    assert_eq!(failure.stage, "read_input");

    let failure = refused(composed(
        &invocation("execute-command", &[("--arguments-json", &["{}"]), ("--command", &["test.run"])]),
        None,
        &supported_with_options("executeCommand", r#"{"commands":["test.run"]}"#),
    ));
    assert_eq!(failure.code, "invalid_arguments");
}

#[test]
fn inputs_are_read_from_files_once_they_were_asked_for() {
    let format = invocation("format", &[("--options-file", &["options.json"])]);
    let capabilities = supported("formatting");
    let stopped = composed(&format, Some(&document()), &capabilities);
    match stopped {
        Err(QueryStop::Input(path)) => assert_eq!(path, "options.json"),
        _ => panic!("the file was not asked for"),
    }
    let read = vec![InputRead { path: "options.json".to_owned(), content: Ok(r#"{"tabSize":4}"#.to_owned()) }];
    let query = match compose(&format, Some(&document()), PositionEncoding::Utf16, &capabilities, None, &read) {
        Ok(query) => query,
        Err(_) => panic!("the query was refused"),
    };
    assert_eq!(value(&query.request.unwrap().params.unwrap())["options"], parsed(r#"{"tabSize":4}"#));
    let unreadable = vec![InputRead { path: "options.json".to_owned(), content: Err(Some(2)) }];
    let failure =
        refused(compose(&format, Some(&document()), PositionEncoding::Utf16, &capabilities, None, &unreadable));
    assert_eq!(failure.code, "input_read_failed");
    assert_eq!(value(&failure.data)["osCode"], 2);
}

#[test]
fn diagnostics_requests_reuse_cached_result_ids() {
    let document = document();
    let mut known = nothing_known();
    known.result_ids.insert(document.uri.clone(), "old".to_owned());
    let request = match compose(
        &invocation("document-diagnostics", &[]),
        Some(&document),
        PositionEncoding::Utf16,
        &supported("diagnosticProvider"),
        Some(&known),
        &Vec::new(),
    ) {
        Ok(query) => query.request.unwrap(),
        Err(_) => panic!("the query was refused"),
    };
    assert_eq!(value(&request.params.unwrap())["previousResultId"], "old");
}

#[test]
fn raw_owner_methods_are_forbidden() {
    let failure =
        refused(composed(&invocation("raw", &[("--method", &["initialize"])]), None, &none_supported()));
    assert_eq!(failure.code, "raw_method_forbidden");
    accepted(&invocation("raw", &[("--method", &["$/progress"])]), None, &none_supported());
}

#[test]
fn raw_answers_stay_as_they_came() {
    let query = accepted(&invocation("raw", &[("--method", &["custom/method"])]), None, &none_supported());
    let output = match executed(&query, response(r#"{"uri":"file:///one%2Dtwo"}"#)) {
        Ok(Execution::Answered(output)) => value(&output),
        _ => panic!("the answer was not handed on"),
    };
    assert_eq!(output["result"], parsed(r#"{"uri":"file:///one%2Dtwo"}"#));
    assert_eq!(output["method"], "custom/method");
}

#[test]
fn unchanged_reports_need_a_known_one() {
    let document = document();
    let query =
        accepted(&invocation("document-diagnostics", &[]), Some(&document), &supported("diagnosticProvider"));
    let unchanged = r#"{"kind":"unchanged", "resultId":"old"}"#;
    assert!(diagnostic_report_contains_unchanged(&json(unchanged)));
    assert!(!diagnostic_report_contains_unchanged(&json(r#"{"kind":"full","items":[]}"#)));
    match executed(&query, response(unchanged)) {
        Err(failure) => assert_eq!(failure.failure.code, "invalid_server_result"),
        Ok(_) => panic!("an unknown report was accepted"),
    }
    let mut known = nothing_known();
    known.result_ids.insert(document.uri.clone(), "old".to_owned());
    assert!(matches!(
        execute(&query, &context(), response(unchanged), &known),
        Ok(Execution::PullDocument { contains_unchanged: true, .. })
    ));
}

#[test]
fn names_find_their_queries() {
    for (word, method) in [
        ("definition", Some("textDocument/definition")),
        ("references", Some("textDocument/references")),
        ("hover", Some("textDocument/hover")),
        ("workspace-symbols", Some("workspace/symbol")),
        ("resolve-code-action", Some("codeAction/resolve")),
        ("execute-command", Some("workspace/executeCommand")),
        ("raw", None),
        ("capabilities", None),
    ] {
        let command = QueryCommand::from_path(&text(&[word])).unwrap();
        assert_eq!(command.name(), word);
        assert_eq!(command.method(), method);
    }
    assert!(QueryCommand::from_path(&text(&["unknown"])).is_none());
    assert!(has_source_position(QueryCommand::Definition));
    assert!(!has_source_position(QueryCommand::WorkspaceSymbols));
}

fn run(invocation: ParsedInvocation) -> QueryRun {
    QueryRun {
        invocation,
        workspace_uri: "file:///workspace/".to_owned(),
        server: "test".to_owned(),
        session_identity: "sid_0000000000000000000000000000000000000000000000000000000000000000".to_owned(),
        owner_generation: "gen_00000000000000000000000000000000".to_owned(),
        queue_deadline: None,
        published_wait: 100,
        phase: RunPhase::Start,
        capabilities: none_supported(),
        encoding: PositionEncoding::Utf16,
        document: None,
        known: nothing_known(),
        until: 0,
        inputs: Vec::new(),
        composed: None,
        context: Json::Null,
        trace: None,
        apply_edit_ledger: Vec::new(),
    }
}

#[test]
fn queries_are_asked_step_by_step() {
    let mut query = run(invocation("hover", &[("--column", &["4"]), ("--file", &["main.rs"]), ("--line", &["0"])]));
    assert!(matches!(query.step(RunEvent::Begin { now: 0 }), RunAction::AskCapabilities { within: None }));
    let capabilities = json(
        r#"{"positionEncoding": "utf-8", "textSynchronization": "open_close",
            "providers": {"hover": {"state": "supported", "capabilityPath": "hover", "options": {}}}}"#,
    );
    match query.step(RunEvent::Answered { answer: capabilities, now: 1 }) {
        RunAction::ReadDocument { path, .. } => assert_eq!(path, "main.rs"),
        _ => panic!("the document is read next"),
    }
    let request = match query.step(RunEvent::Document { document: document(), now: 2 }) {
        RunAction::Send(request) => request,
        _ => panic!("the request is sent next"),
    };
    assert_eq!(request.method, "textDocument/hover");
    assert_eq!(value(&request.params.unwrap())["position"]["character"], 7);
    match query.step(RunEvent::Sent(Ok(response(r#"{"contents": "x"}"#)))) {
        RunAction::Finish(Ok(report)) => {
            let report = value(&report);
            assert_eq!(report["result"], parsed(r#"[{"contents": "x"}]"#));
            assert_eq!(report["context"]["server"], "test");
        }
        _ => panic!("the query is answered"),
    }
}

#[test]
fn published_diagnostics_are_waited_for() {
    let mut query = run(invocation("published-diagnostics", &[("--file", &["main.rs"])]));
    query.step(RunEvent::Begin { now: 0 });
    query.step(RunEvent::Answered { answer: json("{}"), now: 1 });
    match query.step(RunEvent::Document { document: document(), now: 2 }) {
        RunAction::AskDiagnostics { with_document, .. } => assert!(with_document),
        _ => panic!("diagnostics are asked for"),
    }
    let told = json(r#"{"state": {}, "documentVersions": {"file:///workspace/main.rs": 9}}"#);
    assert!(matches!(query.step(RunEvent::Answered { answer: told, now: 3 }), RunAction::Import(_)));
    assert_eq!(query.document.as_ref().map(|d| d.version), Some(9));
    let unfinished = RunEvent::Imported { known: nothing_known(), complete: false, now: 1_000_000 };
    assert!(matches!(query.step(unfinished), RunAction::Pause(25_000_000)));
    match query.step(RunEvent::Paused { now: 26_000_000 }) {
        RunAction::AskDiagnostics { with_document, .. } => assert!(!with_document),
        _ => panic!("diagnostics are asked for again"),
    }
    query.step(RunEvent::Answered { answer: json(r#"{"state": {}}"#), now: 27_000_000 });
    let complete = RunEvent::Imported { known: nothing_known(), complete: true, now: 28_000_000 };
    assert!(matches!(query.step(complete), RunAction::TakePublished));
    let published = Published::Document { diagnostics: json("[]"), fresh: true, complete: true };
    assert!(matches!(query.step(RunEvent::Published(published)), RunAction::Finish(Ok(_))));
}

#[test]
fn published_diagnostics_are_waited_for_to_the_end() {
    let imported = |now: u128| RunEvent::Imported { known: nothing_known(), complete: false, now };
    let asked = |now: u128| {
        let mut query = run(invocation("published-diagnostics", &[("--file", &["main.rs"])]));
        query.published_wait = 25;
        query.step(RunEvent::Begin { now: 0 });
        query.step(RunEvent::Answered { answer: json("{}"), now: 0 });
        query.step(RunEvent::Document { document: document(), now: 0 });
        query.step(RunEvent::Answered { answer: json(r#"{"state": {}}"#), now: 0 });
        assert!(matches!(query.step(imported(900_000)), RunAction::Pause(25_000_000)));
        query.step(RunEvent::Paused { now });
        query.step(RunEvent::Answered { answer: json(r#"{"state": {}}"#), now });
        query.step(imported(now))
    };
    assert!(matches!(asked(25_000_000), RunAction::Pause(900_000)));
    assert!(matches!(asked(25_899_999), RunAction::Pause(1)));
    assert!(matches!(asked(25_900_000), RunAction::TakePublished));
}

#[test]
fn failures_end_a_query() {
    let mut query = run(invocation("hover", &[]));
    query.step(RunEvent::Begin { now: 0 });
    match query.step(RunEvent::Answered { answer: json("{}"), now: 1 }) {
        RunAction::Finish(Err(failure)) => assert_eq!(failure.failure.code, "capability_unavailable"),
        _ => panic!("the server cannot answer"),
    }
}

#[test]
fn related_documents_are_named_in_quotation_marks() {
    let report = json(
        r#"{"kind": "full", "items": [], "relatedDocuments": {"file:///a\"b": {"kind": "full", "items": {}}}}"#,
    );
    let failure = validate_document_diagnostic_report(
        &report,
        "textDocument/diagnostic",
        "$",
        DiagnosticReportContext::Document,
    )
    .err()
    .unwrap();
    assert_eq!(failure.code, "invalid_server_result");
    let place = value(&failure.data)["jsonPath"].as_str().unwrap().to_owned();
    assert!(place.starts_with(r#"$.relatedDocuments["file:///a\"b"]"#), "{place}");
}

#[test]
fn patterns_match_the_path_of_the_uri() {
    let document = DocumentSnapshot {
        uri: "file:///workspace/a%20b/main.rs".to_owned(),
        path: NativePath { components: vec!["/".to_owned(), "other".to_owned()] },
        language_id: "rust".to_owned(),
        version: 1,
        digest: String::new(),
        text: String::new(),
    };
    assert!(document_pattern_matches(&json(r#""**/a%20b/*.rs""#), &document));
    assert!(!document_pattern_matches(&json(r#""**/a b/*.rs""#), &document));
    let relative = r#"{"baseUri": "file:///workspace/a%20b", "pattern": "*.rs"}"#;
    assert!(document_pattern_matches(&json(relative), &document));
    let elsewhere = r#"{"baseUri": {"uri": "file:///elsewhere", "name": "x"}, "pattern": "*.rs"}"#;
    assert!(!document_pattern_matches(&json(elsewhere), &document));
    assert!(document_filter_matches(&json(r#"{"language": "rust", "scheme": "file"}"#), &document));
    assert!(!document_filter_matches(&json(r#"{"language": "rust", "scheme": "untitled"}"#), &document));
    assert!(!document_filter_matches(&json(r#"{"language": "c"}"#), &document));
    assert!(!document_filter_matches(&json(r#""rust""#), &document));
}

#[test]
fn commands_without_a_method_leave_their_rows_alone() {
    let rows = vec![json(r#"{"uri": "not a uri"}"#), json("7")];
    for command in [QueryCommand::PublishedDiagnostics, QueryCommand::Raw, QueryCommand::Capabilities] {
        let kept = canonicalize_result_uris(command, &rows).ok().unwrap();
        assert_eq!(kept.iter().map(value).collect::<Vec<_>>(), rows.iter().map(value).collect::<Vec<_>>());
    }
    assert!(canonicalize_result_uris(QueryCommand::References, &rows).is_err());
}
