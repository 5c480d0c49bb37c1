//! What the requests of Queries say.

use vstd::prelude::*;

use crate::capabilities::CapabilitiesView;
use crate::compose::{KnownView, composed_query, reserved_method};
use crate::documents::DocumentView;
use crate::invocation::InvocationView;
use crate::json::{JsonView, lemma_field_at, lemma_field_missing, parsed_json};
use crate::path::path_text;
use crate::position::{
    PositionEncoding,
    byte_len,
    law_resolved_position_is_found,
    line_start,
    position_offset,
};
use crate::query_command::{QueryCommand, law_name_finds_the_query};
use crate::query_inputs::{InputView, content_at};
use crate::text::parsed_unsigned;

verus! {

/// Whether a command line names a Query by one word.
pub open spec fn asks_for(inv: InvocationView, word: Seq<char>) -> bool {
    inv.command == seq![word]
}

/// Whether a command line asks about a place in a document.
pub open spec fn asks_about_a_place(inv: InvocationView) -> bool {
    ||| asks_for(inv, "definition"@)
    ||| asks_for(inv, "references"@)
    ||| asks_for(inv, "hover"@)
    ||| asks_for(inv, "prepare-rename"@)
    ||| asks_for(inv, "rename"@)
}

/// Whether a command line asks about a document.
pub open spec fn asks_about_a_document(inv: InvocationView) -> bool {
    ||| asks_about_a_place(inv)
    ||| asks_for(inv, "document-symbols"@)
    ||| asks_for(inv, "document-diagnostics"@)
    ||| asks_for(inv, "format"@)
    ||| asks_for(inv, "code-actions"@)
}

/// Whether a value is the place in a document that two options spell: the line
/// by its number, and in it the units of the characters before the column.
pub open spec fn is_the_place(
    place: JsonView,
    inv: InvocationView,
    line: Seq<char>,
    column: Seq<char>,
    text: Seq<char>,
    encoding: PositionEncoding,
) -> bool {
    &&& inv.value(line) is Some && inv.value(column) is Some
    &&& place.get("line"@) matches Some(JsonView::Int(l)) && place.get("character"@) matches Some(JsonView::Int(c)) && {
        let asked = parsed_unsigned(inv.value(column)->0, usize::MAX as nat);
        &&& 0 <= l <= u32::MAX && 0 <= c <= u32::MAX
        &&& parsed_unsigned(inv.value(line)->0, usize::MAX as nat) == Some(l as nat)
        &&& asked is Some
        &&& line_start(text, l as nat) is Some
        &&& position_offset(text, l as nat, c as nat, encoding) == Some(
            byte_len(text.take(line_start(text, l as nat)->0 + asked->0)),
        )
    }
}

/// Whether a value is the JSON that one of two options gives: the first as it
/// stands, the second by the name of a file that was read.
pub open spec fn is_given_json(
    value: JsonView,
    inv: InvocationView,
    json_flag: Seq<char>,
    file_flag: Seq<char>,
    inputs: Seq<InputView>,
) -> bool {
    match inv.value(json_flag) {
        Some(text) => parsed_json(text) matches Ok(v) && v == value,
        None => inv.value(file_flag) matches Some(path) && content_at(inputs, path) matches Some(Ok(text))
            && parsed_json(text) matches Ok(v) && v == value,
    }
}

proof fn lemma_words(inv: InvocationView)
    ensures
        asks_for(inv, "definition"@) ==> crate::query_command::command_of(inv.command) == Some(QueryCommand::Definition),
        asks_for(inv, "references"@) ==> crate::query_command::command_of(inv.command) == Some(QueryCommand::References),
        asks_for(inv, "hover"@) ==> crate::query_command::command_of(inv.command) == Some(QueryCommand::Hover),
        asks_for(inv, "document-symbols"@) ==> crate::query_command::command_of(inv.command) == Some(QueryCommand::DocumentSymbols),
        asks_for(inv, "workspace-symbols"@) ==> crate::query_command::command_of(inv.command) == Some(QueryCommand::WorkspaceSymbols),
        asks_for(inv, "document-diagnostics"@) ==> crate::query_command::command_of(inv.command) == Some(QueryCommand::DocumentDiagnostics),
        asks_for(inv, "workspace-diagnostics"@) ==> crate::query_command::command_of(inv.command) == Some(QueryCommand::WorkspaceDiagnostics),
        asks_for(inv, "published-diagnostics"@) ==> crate::query_command::command_of(inv.command) == Some(QueryCommand::PublishedDiagnostics),
        asks_for(inv, "prepare-rename"@) ==> crate::query_command::command_of(inv.command) == Some(QueryCommand::PrepareRename),
        asks_for(inv, "rename"@) ==> crate::query_command::command_of(inv.command) == Some(QueryCommand::Rename),
        asks_for(inv, "format"@) ==> crate::query_command::command_of(inv.command) == Some(QueryCommand::Format),
        asks_for(inv, "code-actions"@) ==> crate::query_command::command_of(inv.command) == Some(QueryCommand::CodeActions),
        asks_for(inv, "resolve-code-action"@) ==> crate::query_command::command_of(inv.command) == Some(QueryCommand::ResolveCodeAction),
        asks_for(inv, "execute-command"@) ==> crate::query_command::command_of(inv.command) == Some(QueryCommand::ExecuteCommand),
        asks_for(inv, "raw"@) ==> crate::query_command::command_of(inv.command) == Some(QueryCommand::Raw),
        asks_for(inv, "capabilities"@) ==> crate::query_command::command_of(inv.command) == Some(QueryCommand::Capabilities),
{
    law_name_finds_the_query(QueryCommand::Definition);
    law_name_finds_the_query(QueryCommand::References);
    law_name_finds_the_query(QueryCommand::Hover);
    law_name_finds_the_query(QueryCommand::DocumentSymbols);
    law_name_finds_the_query(QueryCommand::WorkspaceSymbols);
    law_name_finds_the_query(QueryCommand::DocumentDiagnostics);
    law_name_finds_the_query(QueryCommand::WorkspaceDiagnostics);
    law_name_finds_the_query(QueryCommand::PublishedDiagnostics);
    law_name_finds_the_query(QueryCommand::PrepareRename);
    law_name_finds_the_query(QueryCommand::Rename);
    law_name_finds_the_query(QueryCommand::Format);
    law_name_finds_the_query(QueryCommand::CodeActions);
    law_name_finds_the_query(QueryCommand::ResolveCodeAction);
    law_name_finds_the_query(QueryCommand::ExecuteCommand);
    law_name_finds_the_query(QueryCommand::Raw);
    law_name_finds_the_query(QueryCommand::Capabilities);
}

proof fn lemma_names()
    ensures
        "context"@.len() == 7,
        "includeDeclaration"@.len() == 18,
        "position"@.len() == 8,
        "textDocument"@.len() == 12,
        "newName"@.len() == 7,
        "options"@.len() == 7,
        "range"@.len() == 5,
        "end"@.len() == 3,
        "start"@.len() == 5,
        "character"@.len() == 9,
        "line"@.len() == 4,
        "arguments"@.len() == 9,
        "command"@.len() == 7,
        "previousResultId"@.len() == 16,
        "uri"@.len() == 3,
        "query"@.len() == 5,
        "true"@.len() == 4,
        "false"@.len() == 5,
{
    reveal_strlit("context");
    reveal_strlit("includeDeclaration");
    reveal_strlit("position");
    reveal_strlit("textDocument");
    reveal_strlit("newName");
    reveal_strlit("options");
    reveal_strlit("range");
    reveal_strlit("end");
    reveal_strlit("start");
    reveal_strlit("character");
    reveal_strlit("line");
    reveal_strlit("arguments");
    reveal_strlit("command");
    reveal_strlit("previousResultId");
    reveal_strlit("uri");
    reveal_strlit("query");
    reveal_strlit("true");
    reveal_strlit("false");
}

/// Each Query with a method of its own in the protocol calls that method; one
/// that is spelled out calls the method that the caller names; the rest call
/// none.
pub proof fn law_queries_call_their_methods(
    inv: InvocationView,
    document: Option<DocumentView>,
    encoding: PositionEncoding,
    caps: CapabilitiesView,
    known: Option<KnownView>,
    inputs: Seq<InputView>,
)
    ensures
        composed_query(inv, document, encoding, caps, known, inputs) matches Ok(q) ==> {
            &&& asks_for(inv, "definition"@) ==> (q.request matches Some(r) && r.method == "textDocument/definition"@)
            &&& asks_for(inv, "references"@) ==> (q.request matches Some(r) && r.method == "textDocument/references"@)
            &&& asks_for(inv, "hover"@) ==> (q.request matches Some(r) && r.method == "textDocument/hover"@)
            &&& asks_for(inv, "document-symbols"@) ==> (q.request matches Some(r) && r.method == "textDocument/documentSymbol"@)
            &&& asks_for(inv, "workspace-symbols"@) ==> (q.request matches Some(r) && r.method == "workspace/symbol"@)
            &&& asks_for(inv, "document-diagnostics"@) ==> (q.request matches Some(r) && r.method == "textDocument/diagnostic"@)
            &&& asks_for(inv, "workspace-diagnostics"@) ==> (q.request matches Some(r) && r.method == "workspace/diagnostic"@)
            &&& asks_for(inv, "prepare-rename"@) ==> (q.request matches Some(r) && r.method == "textDocument/prepareRename"@)
            &&& asks_for(inv, "rename"@) ==> (q.request matches Some(r) && r.method == "textDocument/rename"@)
            &&& asks_for(inv, "format"@) ==> (q.request matches Some(r) && r.method == "textDocument/formatting"@)
            &&& asks_for(inv, "code-actions"@) ==> (q.request matches Some(r) && r.method == "textDocument/codeAction"@)
            &&& asks_for(inv, "resolve-code-action"@) ==> (q.request matches Some(r) && r.method == "codeAction/resolve"@)
            &&& asks_for(inv, "execute-command"@) ==> (q.request matches Some(r) && r.method == "workspace/executeCommand"@)
            &&& asks_for(inv, "raw"@) ==> (q.request matches Some(r) && inv.value("--method"@) == Some(r.method))
            &&& asks_for(inv, "capabilities"@) || asks_for(inv, "published-diagnostics"@) ==> q.request is None
        },
{
    lemma_words(inv);
}

/// A request for references says that declarations count exactly where the
/// caller says so, and that they do not exactly where the caller says that.
pub proof fn law_references_say_whether_declarations_count(
    inv: InvocationView,
    document: Option<DocumentView>,
    encoding: PositionEncoding,
    caps: CapabilitiesView,
    known: Option<KnownView>,
    inputs: Seq<InputView>,
)
    ensures
        composed_query(inv, document, encoding, caps, known, inputs) matches Ok(q) ==> {
            asks_for(inv, "references"@) ==> (q.request matches Some(r) && r.params matches Some(params) && params.get(
                "context"@,
            ) matches Some(context) && {
                let given = inv.value("--include-declaration"@);
                &&& context.get("includeDeclaration"@) == Some(JsonView::Bool(true)) <==> given == Some("true"@)
                &&& context.get("includeDeclaration"@) == Some(JsonView::Bool(false)) <==> given == Some("false"@)
                &&& given == Some("true"@) || given == Some("false"@)
            })
        },
{
    lemma_words(inv);
    lemma_names();
    if let Ok(q) = composed_query(inv, document, encoding, caps, known, inputs) {
        if let Some(r) = q.request {
            if let Some(JsonView::Object(o)) = r.params {
                if asks_for(inv, "references"@) {
                    lemma_field_at(o, 0, "context"@);
                    if let JsonView::Object(context) = o[0].1 {
                        lemma_field_at(context, 0, "includeDeclaration"@);
                    }
                }
            }
        }
    }
}

proof fn lemma_place(
    place: JsonView,
    inv: InvocationView,
    line: Seq<char>,
    column: Seq<char>,
    text: Seq<char>,
    encoding: PositionEncoding,
)
    requires
        crate::query_inputs::asked_position(inv, text, encoding, line, column) matches Ok(p) && place
            == crate::query_inputs::position_json(p),
    ensures
        is_the_place(place, inv, line, column, text, encoding),
{
    lemma_names();
    if let JsonView::Object(o) = place {
        lemma_field_at(o, 0, "character"@);
        lemma_field_at(o, 1, "line"@);
        let l = parsed_unsigned(inv.value(line)->0, usize::MAX as nat)->0;
        let c = parsed_unsigned(inv.value(column)->0, usize::MAX as nat)->0;
        law_resolved_position_is_found(text, l, c, encoding);
    }
}

/// A Query about a place names the place that the caller gives: read the way in
/// which places of a server are read, it stands just behind the characters that
/// precede the column in the line.
pub proof fn law_places_are_sent_as_asked(
    inv: InvocationView,
    document: Option<DocumentView>,
    encoding: PositionEncoding,
    caps: CapabilitiesView,
    known: Option<KnownView>,
    inputs: Seq<InputView>,
)
    ensures
        composed_query(inv, document, encoding, caps, known, inputs) matches Ok(q) ==> {
            asks_about_a_place(inv) ==> document is Some && (q.request matches Some(r) && r.params matches Some(params)
                && params.get("position"@) matches Some(place) && is_the_place(
                place,
                inv,
                "--line"@,
                "--column"@,
                document->0.text,
                encoding,
            ))
        },
{
    lemma_words(inv);
    lemma_names();
    if let Ok(q) = composed_query(inv, document, encoding, caps, known, inputs) {
        if let Some(r) = q.request {
            if let Some(JsonView::Object(o)) = r.params {
                if asks_about_a_place(inv) {
                    let at: int = if asks_for(inv, "references"@) || asks_for(inv, "rename"@) {
                        1
                    } else {
                        0
                    };
                    lemma_field_at(o, at, "position"@);
                    lemma_place(o[at].1, inv, "--line"@, "--column"@, document->0.text, encoding);
                }
            }
        }
    }
}

/// A request for code actions names the range that the caller gives, from its
/// start to its end, and the context that the caller gives.
pub proof fn law_ranges_are_sent_as_asked(
    inv: InvocationView,
    document: Option<DocumentView>,
    encoding: PositionEncoding,
    caps: CapabilitiesView,
    known: Option<KnownView>,
    inputs: Seq<InputView>,
)
    ensures
        composed_query(inv, document, encoding, caps, known, inputs) matches Ok(q) ==> {
            asks_for(inv, "code-actions"@) ==> document is Some && (q.request matches Some(r) && r.params matches Some(
                params,
            ) && params.get("range"@) matches Some(range) && range.get("start"@) matches Some(start) && range.get(
                "end"@,
            ) matches Some(end) && {
                &&& is_the_place(start, inv, "--start-line"@, "--start-column"@, document->0.text, encoding)
                &&& is_the_place(end, inv, "--end-line"@, "--end-column"@, document->0.text, encoding)
                &&& params.get("context"@) matches Some(context) && context is Object && is_given_json(
                    context,
                    inv,
                    "--context-json"@,
                    "--context-file"@,
                    inputs,
                )
            })
        },
{
    lemma_words(inv);
    lemma_names();
    if let Ok(q) = composed_query(inv, document, encoding, caps, known, inputs) {
        if let Some(r) = q.request {
            if let Some(JsonView::Object(o)) = r.params {
                if asks_for(inv, "code-actions"@) {
                    lemma_field_at(o, 0, "context"@);
                    lemma_field_at(o, 1, "range"@);
                    if let JsonView::Object(range) = o[1].1 {
                        lemma_field_at(range, 0, "end"@);
                        lemma_field_at(range, 1, "start"@);
                        lemma_place(
                            range[0].1,
                            inv,
                            "--end-line"@,
                            "--end-column"@,
                            document->0.text,
                            encoding,
                        );
                        lemma_place(
                            range[1].1,
                            inv,
                            "--start-line"@,
                            "--start-column"@,
                            document->0.text,
                            encoding,
                        );
                    }
                }
            }
        }
    }
}

/// A Query about a document names it by its URI, and has that document and no
/// other synchronized first; a Query about none has none synchronized but
/// those that the caller of a spelled-out request lists.
pub proof fn law_documents_are_named(
    inv: InvocationView,
    document: Option<DocumentView>,
    encoding: PositionEncoding,
    caps: CapabilitiesView,
    known: Option<KnownView>,
    inputs: Seq<InputView>,
)
    ensures
        composed_query(inv, document, encoding, caps, known, inputs) matches Ok(q) ==> {
            &&& asks_about_a_document(inv) ==> (document matches Some(d) && q.request matches Some(r) && r.params matches Some(
                params,
            ) && params.get("textDocument"@) matches Some(named) && named.get("uri"@) == Some(JsonView::Text(d.uri))
                && r.synchronized_files == seq![path_text(d.path)])
            &&& !asks_about_a_document(inv) && !asks_for(inv, "raw"@) ==> (q.request matches Some(r) ==> r.synchronized_files.len()
                == 0)
            &&& asks_for(inv, "raw"@) ==> (q.request matches Some(r) ==> match inv.values("--sync-file"@) {
                Some(files) => r.synchronized_files == files,
                None => r.synchronized_files.len() == 0,
            })
            &&& document matches Some(d) ==> q.document_uri == Some(d.uri) && q.document_version == Some(d.version)
            &&& document is None ==> q.document_uri is None && q.document_version is None
        },
{
    lemma_words(inv);
    if inv.command.len() == 1 {
        assert(inv.command =~= seq![inv.command[0]]);
    }
    lemma_names();
    if let Ok(q) = composed_query(inv, document, encoding, caps, known, inputs) {
        if let Some(r) = q.request {
            if let Some(JsonView::Object(o)) = r.params {
                if asks_about_a_document(inv) {
                    let at = o.len() - 1;
                    lemma_field_at(o, at, "textDocument"@);
                    if let JsonView::Object(named) = o[at].1 {
                        lemma_field_at(named, 0, "uri"@);
                    }
                }
            }
        }
    }
}

/// What the caller gives besides a place reaches the server as it is: the new
/// name, the options of formatting, the text to look for, the action to
/// resolve, the command with its arguments, and spelled-out parameters.
pub proof fn law_arguments_are_sent_as_given(
    inv: InvocationView,
    document: Option<DocumentView>,
    encoding: PositionEncoding,
    caps: CapabilitiesView,
    known: Option<KnownView>,
    inputs: Seq<InputView>,
)
    ensures
        composed_query(inv, document, encoding, caps, known, inputs) matches Ok(q) ==> {
            &&& asks_for(inv, "rename"@) ==> (q.request matches Some(r) && r.params matches Some(params) && params.get(
                "newName"@,
            ) matches Some(JsonView::Text(name)) && inv.value("--new-name"@) == Some(name))
            &&& asks_for(inv, "format"@) ==> (q.request matches Some(r) && r.params matches Some(params) && params.get(
                "options"@,
            ) matches Some(options) && options is Object && is_given_json(
                options,
                inv,
                "--options-json"@,
                "--options-file"@,
                inputs,
            ))
            &&& asks_for(inv, "workspace-symbols"@) ==> (q.request matches Some(r) && r.params matches Some(params)
                && params.get("query"@) matches Some(JsonView::Text(text)) && inv.value("--query"@) == Some(text))
            &&& asks_for(inv, "resolve-code-action"@) ==> (q.request matches Some(r) && r.params matches Some(action)
                && action is Object && is_given_json(action, inv, "--action-json"@, "--action-file"@, inputs))
            &&& asks_for(inv, "execute-command"@) ==> (q.request matches Some(r) && r.params matches Some(params)
                && params.get("command"@) matches Some(JsonView::Text(command)) && inv.value("--command"@) == Some(
                command,
            ))
            &&& asks_for(inv, "execute-command"@) ==> (q.request matches Some(r) && r.params matches Some(params)
                && params.get("arguments"@) matches Some(JsonView::Array(arguments)) && if inv.value(
                "--arguments-json"@,
            ) is None && inv.value("--arguments-file"@) is None {
                arguments.len() == 0
            } else {
                is_given_json(
                    JsonView::Array(arguments),
                    inv,
                    "--arguments-json"@,
                    "--arguments-file"@,
                    inputs,
                )
            })
            &&& asks_for(inv, "raw"@) ==> (q.request matches Some(r) && (r.params is None <==> inv.value("--params-json"@)
                is None && inv.value("--params-file"@) is None) && (r.params matches Some(params) ==> is_given_json(
                params,
                inv,
                "--params-json"@,
                "--params-file"@,
                inputs,
            )))
        },
{
    lemma_words(inv);
    lemma_names();
    if let Ok(q) = composed_query(inv, document, encoding, caps, known, inputs) {
        if let Some(r) = q.request {
            if let Some(JsonView::Object(o)) = r.params {
                if asks_for(inv, "rename"@) {
                    lemma_field_at(o, 0, "newName"@);
                }
                if asks_for(inv, "format"@) {
                    lemma_field_at(o, 0, "options"@);
                }
                if asks_for(inv, "workspace-symbols"@) {
                    lemma_field_at(o, 0, "query"@);
                }
                if asks_for(inv, "execute-command"@) {
                    lemma_field_at(o, 0, "arguments"@);
                    lemma_field_at(o, 1, "command"@);
                }
            }
        }
    }
}

/// A request for the diagnostics of a document names the result that is known
/// of that document, and none where none is known; one for those of the
/// workspace names all that are known.
pub proof fn law_known_diagnostics_are_named(
    inv: InvocationView,
    document: Option<DocumentView>,
    encoding: PositionEncoding,
    caps: CapabilitiesView,
    known: Option<KnownView>,
    inputs: Seq<InputView>,
)
    ensures
        composed_query(inv, document, encoding, caps, known, inputs) matches Ok(q) ==> {
            &&& asks_for(inv, "document-diagnostics"@) ==> document is Some && (q.request matches Some(r)
                && r.params matches Some(params) && params.get("previousResultId"@) == (if known is Some
                && known->0.result_ids.dom().contains(document->0.uri) {
                Some(JsonView::Text(known->0.result_ids[document->0.uri]))
            } else {
                None
            }))
            &&& asks_for(inv, "workspace-diagnostics"@) ==> (q.request matches Some(r) && r.params matches Some(params)
                && params.get("previousResultIds"@) matches Some(JsonView::Array(ids)) && (known matches Some(k)
                ==> ids == k.listed) && (known is None ==> ids.len() == 0))
        },
{
    lemma_words(inv);
    lemma_names();
    if let Ok(q) = composed_query(inv, document, encoding, caps, known, inputs) {
        if let Some(r) = q.request {
            if let Some(JsonView::Object(o)) = r.params {
                if asks_for(inv, "document-diagnostics"@) {
                    if known is Some && known->0.result_ids.dom().contains(document->0.uri) {
                        lemma_field_at(o, 0, "previousResultId"@);
                    } else {
                        lemma_field_missing(o, "previousResultId"@);
                    }
                }
                if asks_for(inv, "workspace-diagnostics"@) {
                    lemma_field_at(o, 0, "previousResultIds"@);
                }
            }
        }
    }
}

/// How a request is sent is the caller's choice where it is one: its exchange
/// is traced exactly where the caller asks for it, and edits are applied
/// exactly where the caller of a command asks for that. Parts of an answer are
/// asked for by those Queries whose items come in pages and no others, open
/// documents are read again for those that are about the whole workspace, and
/// a spelled-out request is told apart from the rest.
pub proof fn law_requests_are_sent_as_asked(
    inv: InvocationView,
    document: Option<DocumentView>,
    encoding: PositionEncoding,
    caps: CapabilitiesView,
    known: Option<KnownView>,
    inputs: Seq<InputView>,
)
    ensures
        composed_query(inv, document, encoding, caps, known, inputs) matches Ok(q) ==> {
            q.request matches Some(r) ==> {
                &&& r.trace_protocol <==> inv.has("--trace-protocol"@)
                &&& r.apply_edits <==> asks_for(inv, "execute-command"@) && inv.has("--apply-edits"@)
                &&& r.raw_request <==> asks_for(inv, "raw"@)
                &&& r.partial_results <==> q.page is Some
                &&& r.refresh_open_documents <==> asks_for(inv, "workspace-symbols"@) || asks_for(
                    inv,
                    "workspace-diagnostics"@,
                ) || asks_for(inv, "execute-command"@)
                &&& r.raw_request ==> !r.work_done_progress
            }
        },
{
    lemma_words(inv);
    if inv.command.len() == 1 {
        assert(inv.command =~= seq![inv.command[0]]);
    }
}

/// A Query whose items come in pages asks for the page that the caller gives:
/// from the first item on where no offset is given, and a hundred items where
/// no limit is given.
pub proof fn law_pages_are_as_asked(
    inv: InvocationView,
    document: Option<DocumentView>,
    encoding: PositionEncoding,
    caps: CapabilitiesView,
    known: Option<KnownView>,
    inputs: Seq<InputView>,
)
    ensures
        composed_query(inv, document, encoding, caps, known, inputs) matches Ok(q) ==> {
            &&& q.page is Some <==> asks_for(inv, "references"@) || asks_for(inv, "workspace-symbols"@) || asks_for(
                inv,
                "document-diagnostics"@,
            ) || asks_for(inv, "workspace-diagnostics"@) || asks_for(inv, "published-diagnostics"@) || asks_for(
                inv,
                "code-actions"@,
            )
            &&& q.page matches Some((offset, limit)) ==> ({
                &&& inv.value("--offset"@) matches Some(text) ==> parsed_unsigned(text, usize::MAX as nat) == Some(offset)
                &&& inv.value("--offset"@) is None ==> offset == 0
                &&& inv.value("--limit"@) matches Some(text) ==> parsed_unsigned(text, usize::MAX as nat) == Some(limit)
                &&& inv.value("--limit"@) is None ==> limit == 100
                &&& 1 <= limit <= 1000
            })
        },
{
    lemma_words(inv);
    if inv.command.len() == 1 {
        assert(inv.command =~= seq![inv.command[0]]);
    }
}

/// A Query about a place is composed wherever the server supports it, the place
/// is in the document, and what else the Query needs is given.
pub proof fn law_queries_about_places_are_composed(
    inv: InvocationView,
    document: Option<DocumentView>,
    encoding: PositionEncoding,
    caps: CapabilitiesView,
    known: Option<KnownView>,
    inputs: Seq<InputView>,
    c: QueryCommand,
    line: nat,
    column: nat,
)
    requires
        inv.command == seq![crate::query_command::command_name(c)],
        c == QueryCommand::Definition || c == QueryCommand::Hover || c == QueryCommand::PrepareRename || c
            == QueryCommand::References || c == QueryCommand::Rename,
        document is Some,
        caps.problem(c, document, inv.value("--command"@)) is None,
        inv.value("--line"@) is Some && parsed_unsigned(inv.value("--line"@)->0, usize::MAX as nat) == Some(line),
        inv.value("--column"@) is Some && parsed_unsigned(inv.value("--column"@)->0, usize::MAX as nat) == Some(column),
        line <= u32::MAX,
        column <= u32::MAX,
        crate::position::source_character(document->0.text, line, column, encoding) is Some,
        inv.value("--offset"@) is None,
        inv.value("--limit"@) is None,
        c == QueryCommand::References ==> inv.value("--include-declaration"@) == Some("true"@) || inv.value(
            "--include-declaration"@,
        ) == Some("false"@),
        c == QueryCommand::Rename ==> inv.value("--new-name"@) is Some,
    ensures
        composed_query(inv, document, encoding, caps, known, inputs) matches Ok(q) && q.command == c,
{
    law_name_finds_the_query(c);
}

/// A request that is spelled out is refused for its method exactly where the
/// method starts or ends a session, or takes back a request.
pub proof fn law_only_session_methods_are_reserved(method: Seq<char>)
    ensures
        reserved_method(method) <==> seq![
            "initialize"@,
            "initialized"@,
            "shutdown"@,
            "exit"@,
            "$/cancelRequest"@,
        ].contains(method),
{
    let names = seq!["initialize"@, "initialized"@, "shutdown"@, "exit"@, "$/cancelRequest"@];
    assert(names[0] == "initialize"@ && names[1] == "initialized"@ && names[2] == "shutdown"@ && names[3] == "exit"@
        && names[4] == "$/cancelRequest"@);
}

} // verus!
