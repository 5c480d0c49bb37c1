//! Proposals: what becomes a preview, and on what it rests.

use vstd::prelude::*;
use vstd::utf8::encode_utf8;

use crate::application::{Journal, JournalView};
use crate::capabilities::{copy_or_null, or_null};
use crate::digest::{canonical_digest, digest_canonical_value};
use crate::failure::{ContractFailure, FailureView, failed, failure, result_view};
use crate::invocation::{InvocationView, ParsedInvocation};
use crate::json::{
    Json,
    JsonSyntaxError,
    JsonView,
    array_view,
    copy_items,
    empty_object,
    object1,
    object2,
    object3,
    object_view,
    opt_text_value,
    opt_text_view,
    parse_json,
    parsed_json,
    push_field,
    text_value,
};
use crate::checks::{preview_manifest_mismatches, preview_mismatches};
use crate::manifest::{
    ManifestEntry,
    ManifestView,
    PathView,
    copy_manifest,
    manifests_json,
    manifests_to_json,
    optional_text_field,
    push_optional_text,
};
use crate::order::Key;
use crate::path::{NativePath, path_text};
use crate::plan::{
    CanonicalOperation,
    CanonicalPlan,
    DocumentVersionPrecondition,
    OperationView,
    PlannedWorkspaceEdit,
    PreconditionView,
    ProblemView,
    WorkspaceEditProblem,
};
use crate::query_command::command_name;
use crate::query_execute::{PreviewProposal, ProposalView};
use crate::query_inputs::{InputRead, InputView, QueryStop, StopView, content_at};
use crate::records::{PreviewRecord, PreviewView, StoredPreview, StoredPreviewView, StoredReceipt};
use crate::reports::field_or_null;
use crate::sorted::{SortedMap, listing};
use crate::text::{opt_ref_view, opt_view, same, same_opt, views};
use crate::timing::{count_before, duration_of, os_code_json, os_code_value};

verus! {

/// Where a JSON input comes from: as it stands, or in a file.
pub ghost enum InputSource {
    Inline(Seq<char>),
    File(Seq<char>),
}

/// Where a JSON input comes from, where it is given.
pub open spec fn input_source(inv: InvocationView, inline: Seq<char>, file: Seq<char>) -> Option<InputSource> {
    match inv.value(inline) {
        Some(text) => Some(InputSource::Inline(text)),
        None => match inv.value(file) {
            Some(path) => Some(InputSource::File(path)),
            None => None,
        },
    }
}

/// The failure of reading a file with JSON.
pub open spec fn unread_input(source: Seq<char>, path: Seq<char>, code: Option<i32>) -> FailureView {
    failed(
        2,
        "input"@,
        "input_read_failed"@,
        "A JSON input file cannot be read."@,
        "read_input"@,
        "not_applicable"@,
        "after_change"@,
        JsonView::Object(
            seq![
                ("osCode"@, os_code_json(code)),
                ("path"@, JsonView::Text(path)),
                ("source"@, JsonView::Text(source)),
            ],
        ),
    )
}

/// The failure of an input that is no JSON.
pub open spec fn malformed_input(source: Seq<char>, path: Option<Seq<char>>, error: JsonSyntaxError) -> FailureView {
    failed(
        2,
        "input"@,
        "invalid_json_input"@,
        "A JSON input is malformed."@,
        "read_input"@,
        "not_applicable"@,
        "never"@,
        JsonView::Object(
            seq![
                ("column"@, JsonView::Int(error.column as int)),
                ("line"@, JsonView::Int(error.line as int)),
            ] + optional_text_field("path"@, path) + seq![("source"@, JsonView::Text(source))],
        ),
    )
}

/// What an input comes to that was read as JSON.
pub open spec fn input_value(parsed: Result<JsonView, JsonSyntaxError>, source: Seq<char>, path: Option<Seq<char>>) -> Result<
    JsonView,
    FailureView,
> {
    match parsed {
        Ok(value) => Ok(value),
        Err(error) => Err(malformed_input(source, path, error)),
    }
}

/// What an input comes to that was read as JSON.
pub fn accept_json(parsed: Result<Json, JsonSyntaxError>, source: &str, path: &Option<String>) -> (r: Result<
    Json,
    ContractFailure,
>)
    ensures
        result_view(r) == input_value(
            match parsed {
                Ok(value) => Ok(value@),
                Err(error) => Err(error),
            },
            source@,
            opt_view(*path),
        ),
{
    match parsed {
        Ok(value) => Ok(value),
        Err(error) => {
            let mut o: Vec<(String, Json)> = Vec::new();
            assert(object_view(o@) =~= Seq::<(Seq<char>, JsonView)>::empty());
            push_field(&mut o, "column", Json::Unsigned(error.column as u64));
            push_field(&mut o, "line", Json::Unsigned(error.line as u64));
            push_optional_text(&mut o, "path", path);
            push_field(&mut o, "source", text_value(source));
            assert(object_view(o@) =~= malformed_input(source@, opt_view(*path), error).data->Object_0);
            Err(
                failure(
                    2,
                    "input",
                    "invalid_json_input",
                    "A JSON input is malformed.",
                    "read_input",
                    "not_applicable",
                    "never",
                    Json::Object(o),
                ),
            )
        },
    }
}

/// A result that a request for a file may come before.
pub open spec fn or_stop(r: Result<JsonView, FailureView>) -> Result<JsonView, StopView> {
    match r {
        Ok(v) => Ok(v),
        Err(f) => Err(StopView::Failed(f)),
    }
}

/// The JSON that one of two options gives.
pub open spec fn option_json(
    inv: InvocationView,
    inline: Seq<char>,
    file: Seq<char>,
    source: Seq<char>,
    inputs: Seq<InputView>,
) -> Result<JsonView, StopView> {
    match input_source(inv, inline, file)->0 {
        InputSource::Inline(text) => or_stop(input_value(parsed_json(text), source, None)),
        InputSource::File(path) => match content_at(inputs, path) {
            None => Err(StopView::Input(path)),
            Some(Err(code)) => Err(StopView::Failed(unread_input(source, path, code))),
            Some(Ok(text)) => or_stop(input_value(parsed_json(text), source, Some(path))),
        },
    }
}

/// The JSON that one of two options gives.
pub fn read_json_option(
    invocation: &ParsedInvocation,
    inline: &str,
    file: &str,
    source: &str,
    inputs: &Vec<InputRead>,
) -> (r: Result<Json, QueryStop>)
    requires
        input_source(invocation@, inline@, file@) is Some,
    ensures
        result_view(r) == option_json(invocation@, inline@, file@, source@, views(inputs@)),
{
    if let Some(text) = invocation.option_string(inline) {
        return match accept_json(parse_json(text.as_str()), source, &None) {
            Ok(value) => Ok(value),
            Err(f) => Err(QueryStop::Failed(f)),
        };
    }
    let path: String = match invocation.option_string(file) {
        Some(path) => path,
        None => "".to_owned(),
    };
    match crate::query_inputs::find_content(inputs, path.as_str()) {
        None => Err(QueryStop::Input(path)),
        Some(input) => match &input.content {
            Err(code) => Err(
                QueryStop::Failed(
                    failure(
                        2,
                        "input",
                        "input_read_failed",
                        "A JSON input file cannot be read.",
                        "read_input",
                        "not_applicable",
                        "after_change",
                        object3(
                            "osCode",
                            os_code_value(*code),
                            "path",
                            text_value(path.as_str()),
                            "source",
                            text_value(source),
                        ),
                    ),
                ),
            ),
            Ok(text) => {
                let parsed = parse_json(text.as_str());
                match accept_json(parsed, source, &Some(path)) {
                    Ok(value) => Ok(value),
                    Err(f) => Err(QueryStop::Failed(f)),
                }
            },
        },
    }
}

/// What is proposed: where it comes from, the edit, and a command that follows.
pub struct MutationProposal {
    pub source: Json,
    pub edit: Json,
    pub command: Option<Json>,
}

/// What a [`MutationProposal`] stands for.
#[verifier::ext_equal]
pub ghost struct MutationProposalView {
    pub source: JsonView,
    pub edit: JsonView,
    pub command: Option<JsonView>,
}

impl View for MutationProposal {
    type V = MutationProposalView;

    open spec fn view(&self) -> MutationProposalView {
        MutationProposalView { source: self.source@, edit: self.edit@, command: opt_view(self.command) }
    }
}

/// Why a code action is disabled.
pub open spec fn disabled_reason(disabled: JsonView) -> Seq<char> {
    let said = match disabled.get("reason"@) {
        Some(reason) => Some(reason),
        None => disabled.get("message"@),
    };
    match said {
        Some(JsonView::Text(reason)) => reason,
        _ => "The selected Code Action is disabled."@,
    }
}

/// The failure of a code action that is disabled.
pub open spec fn disabled_action(reason: Seq<char>, action: JsonView) -> FailureView {
    failed(
        6,
        "mutation"@,
        "disabled_code_action"@,
        "A disabled Code Action cannot be previewed."@,
        "validate_mutation"@,
        "not_applicable"@,
        "never"@,
        JsonView::Object(seq![("action"@, action), ("reason"@, JsonView::Text(reason))]),
    )
}

/// A value that is not null.
pub open spec fn not_null(v: Option<JsonView>) -> Option<JsonView> {
    match v {
        Some(JsonView::Null) => None,
        v => v,
    }
}

/// Where a proposal comes from, in JSON.
pub open spec fn kind_json(kind: Seq<char>) -> JsonView {
    JsonView::Object(seq![("kind"@, JsonView::Text(kind))])
}

/// The proposal that a code action makes.
pub open spec fn action_proposal(action: JsonView) -> Result<MutationProposalView, FailureView> {
    match not_null(action.get("disabled"@)) {
        Some(disabled) => Err(disabled_action(disabled_reason(disabled), action)),
        None => Ok(
            MutationProposalView {
                source: kind_json("code_action"@),
                edit: match action.get("edit"@) {
                    Some(edit) => edit,
                    None => JsonView::Object(seq![]),
                },
                command: not_null(action.get("command"@)),
            },
        ),
    }
}

/// The proposal that a code action makes.
pub fn propose_action(action: Json) -> (r: Result<MutationProposal, ContractFailure>)
    ensures
        result_view(r) == action_proposal(action@),
{
    match action.get("disabled") {
        None | Some(Json::Null) => {},
        Some(disabled) => {
            let said: Option<&Json> = match disabled.get("reason") {
                Some(reason) => Some(reason),
                None => disabled.get("message"),
            };
            let reason: Json = match said {
                Some(Json::Text(reason)) => text_value(reason.as_str()),
                _ => text_value("The selected Code Action is disabled."),
            };
            assert(reason@ == JsonView::Text(disabled_reason(disabled@)));
            return Err(
                failure(
                    6,
                    "mutation",
                    "disabled_code_action",
                    "A disabled Code Action cannot be previewed.",
                    "validate_mutation",
                    "not_applicable",
                    "never",
                    object2("action", action.copy(), "reason", reason),
                ),
            );
        },
    }
    let edit: Json = match action.get("edit") {
        Some(edit) => edit.copy(),
        None => empty_object(),
    };
    let command: Option<Json> = match action.get("command") {
        None | Some(Json::Null) => None,
        Some(command) => Some(command.copy()),
    };
    Ok(MutationProposal { source: object1("kind", text_value("code_action")), edit, command })
}

/// Whether a command line gives a code action.
pub open spec fn gives_action(inv: InvocationView) -> bool {
    inv.has("--code-action-json"@) || inv.has("--code-action-file"@)
}

/// Whether a command line gives a command beside the edit.
pub open spec fn gives_command(inv: InvocationView) -> bool {
    inv.has("--command-json"@) || inv.has("--command-file"@)
}

/// Whether the options of a proposal have the values that they need.
pub open spec fn proposal_given(inv: InvocationView) -> bool {
    if gives_action(inv) {
        input_source(inv, "--code-action-json"@, "--code-action-file"@) is Some
    } else {
        &&& input_source(inv, "--workspace-edit-json"@, "--workspace-edit-file"@) is Some
        &&& gives_command(inv) ==> input_source(inv, "--command-json"@, "--command-file"@) is Some
    }
}

/// What a command line proposes: a code action, or an edit that a command may
/// follow.
pub open spec fn proposed(inv: InvocationView, inputs: Seq<InputView>) -> Result<MutationProposalView, StopView> {
    if gives_action(inv) {
        match option_json(inv, "--code-action-json"@, "--code-action-file"@, "codeAction"@, inputs) {
            Err(s) => Err(s),
            Ok(action) => match action_proposal(action) {
                Ok(p) => Ok(p),
                Err(f) => Err(StopView::Failed(f)),
            },
        }
    } else {
        match option_json(inv, "--workspace-edit-json"@, "--workspace-edit-file"@, "workspaceEdit"@, inputs) {
            Err(s) => Err(s),
            Ok(edit) => if gives_command(inv) {
                match option_json(inv, "--command-json"@, "--command-file"@, "command"@, inputs) {
                    Err(s) => Err(s),
                    Ok(command) => Ok(
                        MutationProposalView { source: kind_json("workspace_edit"@), edit, command: Some(command) },
                    ),
                }
            } else {
                Ok(MutationProposalView { source: kind_json("workspace_edit"@), edit, command: None })
            },
        }
    }
}

/// What a command line proposes.
pub fn mutation_proposal(invocation: &ParsedInvocation, inputs: &Vec<InputRead>) -> (r: Result<
    MutationProposal,
    QueryStop,
>)
    requires
        proposal_given(invocation@),
    ensures
        result_view(r) == proposed(invocation@, views(inputs@)),
{
    if invocation.has_option("--code-action-json") || invocation.has_option("--code-action-file") {
        return match read_json_option(
            invocation,
            "--code-action-json",
            "--code-action-file",
            "codeAction",
            inputs,
        ) {
            Err(s) => Err(s),
            Ok(action) => match propose_action(action) {
                Ok(p) => Ok(p),
                Err(f) => Err(QueryStop::Failed(f)),
            },
        };
    }
    let edit: Json = match read_json_option(
        invocation,
        "--workspace-edit-json",
        "--workspace-edit-file",
        "workspaceEdit",
        inputs,
    ) {
        Ok(edit) => edit,
        Err(s) => {
            return Err(s);
        },
    };
    let command: Option<Json> = if invocation.has_option("--command-json") || invocation.has_option("--command-file") {
        match read_json_option(invocation, "--command-json", "--command-file", "command", inputs) {
            Ok(command) => Some(command),
            Err(s) => {
                return Err(s);
            },
        }
    } else {
        None
    };
    Ok(MutationProposal { source: object1("kind", text_value("workspace_edit")), edit, command })
}

/// A problem in JSON.
pub open spec fn problem_json(p: ProblemView) -> JsonView {
    JsonView::Object(
        optional_text_field("annotationId"@, p.annotation_id) + seq![("code"@, JsonView::Text(p.code))] + (match p.data {
            Some(data) => seq![("data"@, data)],
            None => seq![],
        }) + seq![("message"@, JsonView::Text(p.message))] + (match p.operation_index {
            Some(i) => seq![("operationIndex"@, JsonView::Int(i as int))],
            None => seq![],
        }) + optional_text_field(
            "path"@,
            match p.path {
                Some(path) => Some(path_text(path)),
                None => None,
            },
        ),
    )
}

fn problem_value(p: &WorkspaceEditProblem) -> (r: Json)
    ensures
        r@ == problem_json(p@),
{
    let path: Option<String> = match &p.path {
        Some(path) => Some(path.to_text()),
        None => None,
    };
    let mut o: Vec<(String, Json)> = Vec::new();
    assert(object_view(o@) =~= Seq::<(Seq<char>, JsonView)>::empty());
    push_optional_text(&mut o, "annotationId", &p.annotation_id);
    push_field(&mut o, "code", text_value(p.code.as_str()));
    if let Some(data) = &p.data {
        push_field(&mut o, "data", data.copy());
    }
    push_field(&mut o, "message", text_value(p.message.as_str()));
    if let Some(i) = p.operation_index {
        push_field(&mut o, "operationIndex", Json::Unsigned(i));
    }
    push_optional_text(&mut o, "path", &path);
    assert(object_view(o@) =~= problem_json(p@)->Object_0);
    Json::Object(o)
}

/// Problems in JSON.
pub open spec fn problems_json(list: Seq<ProblemView>) -> JsonView {
    JsonView::Array(Seq::new(list.len(), |i: int| problem_json(list[i])))
}

/// Problems in JSON.
pub fn problems_value(list: &Vec<WorkspaceEditProblem>) -> (r: Json)
    ensures
        r@ == problems_json(views(list@)),
{
    let mut items: Vec<Json> = Vec::new();
    let mut i: usize = 0;
    while i < list.len()
        invariant
            i <= list@.len(),
            items@.len() == i,
            forall|k: int| 0 <= k < i ==> (#[trigger] items@[k])@ == problem_json(list@[k]@),
        decreases list.len() - i,
    {
        items.push(problem_value(&list[i]));
        i += 1;
    }
    assert(array_view(items@) =~= problems_json(views(list@))->Array_0);
    Json::Array(items)
}

/// The failure of an edit that no plan can be made of.
pub open spec fn invalid_edit_failed(proposal: JsonView, problems: Seq<ProblemView>) -> FailureView {
    failed(
        6,
        "mutation"@,
        "invalid_workspace_edit"@,
        "The Workspace Edit cannot be represented as a safe canonical plan."@,
        "validate_mutation"@,
        "not_applicable"@,
        "after_change"@,
        JsonView::Object(seq![("problems"@, problems_json(problems)), ("proposal"@, proposal)]),
    )
}

/// The failure of an edit that no plan can be made of.
pub fn invalid_workspace_edit(proposal: &Json, problems: &Vec<WorkspaceEditProblem>) -> (r: ContractFailure)
    ensures
        r@ == invalid_edit_failed(proposal@, views(problems@)),
{
    failure(
        6,
        "mutation",
        "invalid_workspace_edit",
        "The Workspace Edit cannot be represented as a safe canonical plan.",
        "validate_mutation",
        "not_applicable",
        "after_change",
        object2("problems", problems_value(problems), "proposal", proposal.copy()),
    )
}

/// The failure of a proposal that does not fit what is there.
pub open spec fn stale_proposal(
    message: Seq<char>,
    edit: JsonView,
    reasons: Seq<JsonView>,
    preconditions: Seq<ManifestView>,
) -> FailureView {
    failed(
        6,
        "mutation"@,
        "proposal_stale"@,
        message,
        "validate_mutation"@,
        "not_applicable"@,
        "after_change"@,
        JsonView::Object(
            seq![
                ("preconditions"@, manifests_json(preconditions)),
                ("proposal"@, edit),
                ("reasons"@, JsonView::Array(reasons)),
            ],
        ),
    )
}

fn stale_failure(message: &str, edit: &Json, reasons: Vec<Json>, preconditions: &Vec<ManifestEntry>) -> (r:
    ContractFailure)
    ensures
        r@ == stale_proposal(message@, edit@, array_view(reasons@), views(preconditions@)),
{
    failure(
        6,
        "mutation",
        "proposal_stale",
        message,
        "validate_mutation",
        "not_applicable",
        "after_change",
        object3(
            "preconditions",
            manifests_to_json(preconditions),
            "proposal",
            edit.copy(),
            "reasons",
            Json::Array(reasons),
        ),
    )
}

/// Refuses a plan for files that changed while it was made.
pub fn check_unchanged(plan: &CanonicalPlan, current: &Vec<ManifestEntry>, edit: &Json, message: &str) -> (r: Result<
    (),
    ContractFailure,
>)
    ensures
        ({
            let reasons = preview_mismatches(plan@, views(current@));
            match r {
                Ok(_) => reasons.len() == 0,
                Err(f) => reasons.len() > 0 && f@ == stale_proposal(
                    message@,
                    edit@,
                    reasons,
                    plan@.before_manifest,
                ),
            }
        }),
{
    let reasons: Vec<Json> = preview_manifest_mismatches(plan, current);
    assert(array_view(reasons@).len() == reasons@.len());
    if reasons.len() > 0 {
        return Err(stale_failure(message, edit, reasons, &plan.before_manifest));
    }
    Ok(())
}

/// A reason in JSON.
pub open spec fn reason_json(code: Seq<char>, message: Seq<char>) -> JsonView {
    JsonView::Object(seq![("code"@, JsonView::Text(code)), ("message"@, JsonView::Text(message))])
}

fn reason_value(code: &str, message: &str) -> (r: Json)
    ensures
        r@ == reason_json(code@, message@),
{
    object2("code", text_value(code), "message", text_value(message))
}

/// Refuses a proposal that was made for another session.
pub fn check_session(authorized: &str, supplied: &str, edit: &Json) -> (r: Result<(), ContractFailure>)
    ensures
        match r {
            Ok(_) => authorized@ == supplied@,
            Err(f) => authorized@ != supplied@ && f@ == stale_proposal(
                "The supplied Session Identity does not match the effective authorized server."@,
                edit@,
                seq![reason_json("server_declaration"@, "The effective Session Identity changed."@)],
                seq![],
            ),
        },
{
    if same(authorized, supplied) {
        return Ok(());
    }
    let mut reasons: Vec<Json> = Vec::new();
    reasons.push(reason_value("server_declaration", "The effective Session Identity changed."));
    assert(array_view(reasons@) =~= seq![
        reason_json("server_declaration"@, "The effective Session Identity changed."@),
    ]);
    let none: Vec<ManifestEntry> = Vec::new();
    assert(views(none@) =~= Seq::<ManifestView>::empty());
    Err(
        stale_failure(
            "The supplied Session Identity does not match the effective authorized server.",
            edit,
            reasons,
            &none,
        ),
    )
}

/// The version of a document that a Query synchronized, where it says all of it.
pub open spec fn synchronized_version(d: JsonView) -> Option<(Seq<char>, PreconditionView)> {
    match (d.text_at("uri"@), d.get("version"@), d.text_at("digest"@)) {
        (Some(uri), Some(version), Some(digest)) => match version.as_i64() {
            Some(v) => Some((uri, PreconditionView { version: v as i64, digest })),
            None => None,
        },
        _ => None,
    }
}

/// The versions of documents that a Query synchronized, the last of a document
/// counting.
pub open spec fn synchronized_versions(list: Seq<JsonView>) -> Map<Seq<char>, PreconditionView>
    decreases list.len(),
{
    if list.len() == 0 {
        Map::empty()
    } else {
        let rest = synchronized_versions(list.drop_last());
        match synchronized_version(list.last()) {
            Some((uri, p)) => rest.insert(uri, p),
            None => rest,
        }
    }
}

/// The documents that a context says were synchronized.
pub open spec fn synchronized_before(context: JsonView) -> Seq<JsonView> {
    match context.get("synchronization"@) {
        Some(s) => match s.get("before"@) {
            Some(JsonView::Array(items)) => items,
            _ => seq![],
        },
        None => seq![],
    }
}

/// The versions of documents that a Query synchronized before it was sent.
pub fn synchronized_document_version_preconditions(context: &Json) -> (r: SortedMap<
    String,
    DocumentVersionPrecondition,
>)
    ensures
        r@ == synchronized_versions(synchronized_before(context@)),
{
    let mut r: SortedMap<String, DocumentVersionPrecondition> = SortedMap::new();
    let ghost all = synchronized_before(context@);
    let found: Option<&Json> = match context.get("synchronization") {
        Some(s) => s.get("before"),
        None => None,
    };
    match found {
        Some(Json::Array(items)) => {
            let mut i: usize = 0;
            assert(all == array_view(items@));
            assert(all.take(0) =~= Seq::<JsonView>::empty());
            while i < items.len()
                invariant
                    i <= items@.len(),
                    all == array_view(items@),
                    r@ == synchronized_versions(all.take(i as int)),
                decreases items.len() - i,
            {
                proof {
                    assert(all.take(i + 1).drop_last() =~= all.take(i as int));
                    assert(all.take(i + 1).last() == items@[i as int]@);
                }
                match (items[i].text_at("uri"), items[i].get("version"), items[i].text_at("digest")) {
                    (Some(uri), Some(version), Some(digest)) => {
                        if let Some(v) = version.as_i64() {
                            r.insert(uri.clone(), DocumentVersionPrecondition { version: v, digest: digest.clone() });
                        }
                    },
                    _ => {},
                }
                i += 1;
            }
            assert(all.take(i as int) =~= all);
        },
        _ => {
            assert(all =~= Seq::<JsonView>::empty());
        },
    }
    r
}

/// Where a proposal of a Query comes from, in JSON.
pub open spec fn query_source(p: ProposalView) -> JsonView {
    JsonView::Object(
        seq![
            ("applyEditLedger"@, JsonView::Array(p.apply_edit_ledger)),
            ("command"@, JsonView::Text(command_name(p.command))),
            ("context"@, p.context),
            ("kind"@, JsonView::Text("lsp_request"@)),
            ("method"@, JsonView::Text(p.method)),
            ("resolvedAction"@, or_null(p.resolved_action)),
            ("trace"@, or_null(p.trace)),
        ],
    )
}

fn query_source_value(proposal: &PreviewProposal) -> (r: Json)
    ensures
        r@ == query_source(proposal@),
{
    let mut o: Vec<(String, Json)> = Vec::new();
    assert(object_view(o@) =~= Seq::<(Seq<char>, JsonView)>::empty());
    push_field(&mut o, "applyEditLedger", Json::Array(copy_items(&proposal.apply_edit_ledger)));
    push_field(&mut o, "command", text_value(proposal.command.name()));
    push_field(&mut o, "context", proposal.context.copy());
    push_field(&mut o, "kind", text_value("lsp_request"));
    push_field(&mut o, "method", text_value(proposal.method.as_str()));
    push_field(&mut o, "resolvedAction", copy_or_null(proposal.resolved_action.as_ref()));
    push_field(&mut o, "trace", copy_or_null(proposal.trace.as_ref()));
    assert(object_view(o@) =~= query_source(proposal@)->Object_0);
    Json::Object(o)
}

/// What a proposal of a Query is planned with: where it comes from, and the
/// versions of the documents that it was made for.
pub fn create_query_preview(proposal: &PreviewProposal) -> (r: (Json, SortedMap<String, DocumentVersionPrecondition>))
    ensures
        r.0@ == query_source(proposal@),
        r.1@ == synchronized_versions(synchronized_before(proposal@.context)),
{
    (query_source_value(proposal), synchronized_document_version_preconditions(&proposal.context))
}

/// Where a proposal of a server comes from, in JSON.
pub fn callback_source(label: Option<&String>) -> (r: Json)
    ensures
        r@ == JsonView::Object(
            seq![
                ("kind"@, JsonView::Text("workspace_apply_edit"@)),
                ("label"@, opt_text_view(opt_ref_view(label))),
            ],
        ),
{
    object2("kind", text_value("workspace_apply_edit"), "label", opt_text_value(label))
}

/// What a record of a preview holds besides the plan.
pub struct PreviewRecordContext {
    pub preview_id: String,
    pub workspace_uri: String,
    pub server: Option<String>,
    pub session_identity: String,
    pub position_encoding: String,
    pub source: Json,
    pub edit: Json,
    pub command: Option<Json>,
}

/// A record of a preview of a plan: nothing has become of it yet, and what it
/// rests on is what was there when it was planned.
pub open spec fn new_preview(c: PreviewRecordContext, planned: PlannedWorkspaceEdit) -> PreviewView {
    PreviewView {
        preview_id: c.preview_id@,
        workspace_uri: c.workspace_uri@,
        server: opt_view(c.server),
        session_identity: c.session_identity@,
        position_encoding: c.position_encoding@,
        expires_at: ""@,
        source: c.source@,
        summary: planned.summary,
        edit: c.edit@,
        command: opt_view(c.command),
        annotations: planned.annotations@,
        plan: planned.plan@,
        preconditions: planned.plan@.before_manifest,
        conflicts: seq![],
        stale_reasons: seq![],
        diff: None,
        reserved: false,
    }
}

/// A record of a preview of a plan.
pub fn create_preview_record(context: PreviewRecordContext, planned: PlannedWorkspaceEdit) -> (r: PreviewRecord)
    ensures
        r@ == new_preview(context, planned),
{
    let conflicts: Vec<WorkspaceEditProblem> = Vec::new();
    let stale_reasons: Vec<Json> = Vec::new();
    assert(views(conflicts@) =~= Seq::<ProblemView>::empty());
    assert(array_view(stale_reasons@) =~= Seq::<JsonView>::empty());
    let preconditions: Vec<ManifestEntry> = copy_manifest(&planned.plan.before_manifest);
    PreviewRecord {
        preview_id: context.preview_id,
        workspace_uri: context.workspace_uri,
        server: context.server,
        session_identity: context.session_identity,
        position_encoding: context.position_encoding,
        expires_at: "".to_owned(),
        source: context.source,
        summary: planned.summary,
        edit: context.edit,
        command: context.command,
        annotations: planned.annotations,
        preconditions,
        plan: planned.plan,
        conflicts,
        stale_reasons,
        diff: None,
        reserved: false,
    }
}

/// The digest of what a mutation is authorized by.
pub open spec fn authorized_by(session_identity: Seq<char>, declaration_digest: Option<Seq<char>>) -> Seq<char> {
    canonical_digest(
        "lspctl-mutation-authorization-v1"@,
        JsonView::Object(
            seq![
                ("declarationDigest"@, opt_text_view(declaration_digest)),
                ("sessionIdentity"@, JsonView::Text(session_identity)),
            ],
        ),
    )
}

/// The digest of what a mutation is authorized by.
pub fn authorization_digest(session_identity: &str, declaration_digest: Option<&String>) -> (r: String)
    ensures
        r@ == authorized_by(session_identity@, opt_ref_view(declaration_digest)),
{
    digest_canonical_value(
        "lspctl-mutation-authorization-v1",
        &object2(
            "declarationDigest",
            opt_text_value(declaration_digest),
            "sessionIdentity",
            text_value(session_identity),
        ),
    )
}

/// The failure of a journal that cannot be read.
pub open spec fn corrupt_evidence(message: Seq<char>, transaction_id: Seq<char>, evidence: JsonView) -> FailureView {
    failed(
        7,
        "recovery"@,
        "recovery_evidence_invalid"@,
        message,
        "recover"@,
        "not_applicable"@,
        "never"@,
        JsonView::Object(
            seq![
                ("problems"@, field_or_null(evidence, "problems"@)),
                ("transactionId"@, JsonView::Text(transaction_id)),
            ],
        ),
    )
}

fn corrupt_failure(message: &str, transaction_id: &str, evidence: &Json) -> (r: ContractFailure)
    ensures
        r@ == corrupt_evidence(message@, transaction_id@, evidence@),
{
    failure(
        7,
        "recovery",
        "recovery_evidence_invalid",
        message,
        "recover",
        "not_applicable",
        "never",
        object2(
            "problems",
            crate::reports::copy_field(evidence, "problems"),
            "transactionId",
            text_value(transaction_id),
        ),
    )
}

/// What a journal that cannot be read is called.
pub open spec fn no_transaction() -> Seq<char> {
    "txn_00000000000000000000000000000000"@
}

/// The digest of the manifest in the last journal of a workspace, or the failure
/// of the first journal that cannot be read.
pub open spec fn recovery_manifest(journals: Seq<JournalView>, workspace_uri: Seq<char>) -> Result<
    Option<Seq<char>>,
    FailureView,
>
    decreases journals.len(),
{
    if journals.len() == 0 {
        Ok(None)
    } else {
        match recovery_manifest(journals.drop_last(), workspace_uri) {
            Err(f) => Err(f),
            Ok(digest) => match journals.last() {
                JournalView::Record(t) => Ok(
                    if t.workspace_uri == workspace_uri {
                        Some(t.manifest_digest)
                    } else {
                        digest
                    },
                ),
                JournalView::Corrupt(evidence) => Err(
                    corrupt_evidence(
                        "Corrupt Recovery evidence blocks Mutation planning."@,
                        no_transaction(),
                        evidence,
                    ),
                ),
            },
        }
    }
}

proof fn lemma_recovery_manifest_stops(journals: Seq<JournalView>, workspace_uri: Seq<char>, i: int)
    requires
        0 <= i <= journals.len(),
        recovery_manifest(journals.take(i), workspace_uri) is Err,
    ensures
        recovery_manifest(journals, workspace_uri) == recovery_manifest(journals.take(i), workspace_uri),
    decreases journals.len() - i,
{
    if i < journals.len() {
        assert(journals.take(i + 1).drop_last() =~= journals.take(i));
        lemma_recovery_manifest_stops(journals, workspace_uri, i + 1);
    } else {
        assert(journals.take(i) =~= journals);
    }
}

/// The digest of the manifest in the last journal of a workspace.
pub fn current_recovery_manifest(journals: &Vec<Journal>, workspace_uri: &str) -> (r: Result<
    Option<String>,
    ContractFailure,
>)
    ensures
        ({
            let found = recovery_manifest(views(journals@), workspace_uri@);
            match r {
                Ok(digest) => found == Ok::<Option<Seq<char>>, FailureView>(opt_view(digest)),
                Err(f) => found == Err::<Option<Seq<char>>, FailureView>(f@),
            }
        }),
{
    let ghost all = views(journals@);
    let mut digest: Option<String> = None;
    let mut i: usize = 0;
    assert(all.take(0) =~= Seq::<JournalView>::empty());
    while i < journals.len()
        invariant
            i <= journals@.len(),
            all == views(journals@),
            recovery_manifest(all.take(i as int), workspace_uri@) == Ok::<Option<Seq<char>>, FailureView>(
                opt_view(digest),
            ),
        decreases journals.len() - i,
    {
        proof {
            assert(all.take(i + 1).drop_last() =~= all.take(i as int));
            assert(all.take(i + 1).last() == journals@[i as int]@);
        }
        match &journals[i] {
            Journal::Record(t) => {
                if same(t.workspace_uri.as_str(), workspace_uri) {
                    digest = Some(t.manifest_digest.clone());
                }
            },
            Journal::Corrupt(evidence) => {
                proof { lemma_recovery_manifest_stops(all, workspace_uri@, i + 1); }
                return Err(
                    corrupt_failure(
                        "Corrupt Recovery evidence blocks Mutation planning.",
                        "txn_00000000000000000000000000000000",
                        evidence,
                    ),
                );
            },
        }
        i += 1;
    }
    assert(all.take(i as int) =~= all);
    Ok(digest)
}

/// The first journal that cannot be read.
pub open spec fn first_corrupt(journals: Seq<JournalView>) -> Option<JsonView>
    decreases journals.len(),
{
    if journals.len() == 0 {
        None
    } else {
        match journals[0] {
            JournalView::Corrupt(evidence) => Some(evidence),
            JournalView::Record(_) => first_corrupt(journals.drop_first()),
        }
    }
}

/// Refuses to recover while a journal cannot be read.
pub fn check_journals(journals: &Vec<Journal>, transaction_id: &str) -> (r: Result<(), ContractFailure>)
    ensures
        match first_corrupt(views(journals@)) {
            None => r is Ok,
            Some(evidence) => r matches Err(f) && f@ == corrupt_evidence(
                "Corrupt Recovery evidence prevents an automatic Recovery action."@,
                transaction_id@,
                evidence,
            ),
        },
{
    let ghost all = views(journals@);
    let mut i: usize = 0;
    assert(all.skip(0) =~= all);
    while i < journals.len()
        invariant
            i <= journals@.len(),
            all == views(journals@),
            first_corrupt(all) == first_corrupt(all.skip(i as int)),
        decreases journals.len() - i,
    {
        proof {
            assert(all.skip(i as int)[0] == journals@[i as int]@);
            assert(all.skip(i as int).drop_first() =~= all.skip(i + 1));
        }
        if let Journal::Corrupt(evidence) = &journals[i] {
            return Err(
                corrupt_failure(
                    "Corrupt Recovery evidence prevents an automatic Recovery action.",
                    transaction_id,
                    evidence,
                ),
            );
        }
        i += 1;
    }
    Ok(())
}

/// What an application rests on, as it is found now.
pub struct Reauthorization {
    pub supplied_workspace: Option<String>,
    pub supplied_server: Option<String>,
    pub workspace_uri: String,
    pub session_identity: String,
    pub authorization_digest: String,
    pub recovery_digest: Option<String>,
}

/// A reason, where a condition holds.
pub open spec fn reason_if(condition: bool, reason: JsonView) -> Seq<JsonView> {
    if condition {
        seq![reason]
    } else {
        seq![]
    }
}

/// The reason that another declaration is authorized.
pub open spec fn authorization_reason(expected: Seq<char>, actual: Seq<char>) -> JsonView {
    JsonView::Object(
        seq![
            ("actualDigest"@, JsonView::Text(actual)),
            ("code"@, JsonView::Text("authorization"@)),
            ("expectedDigest"@, JsonView::Text(expected)),
            ("message"@, JsonView::Text("The effective authorization declaration changed."@)),
        ],
    )
}

/// The reason that another recovery is under way.
pub open spec fn recovery_reason(expected: Option<Seq<char>>, actual: Option<Seq<char>>) -> JsonView {
    JsonView::Object(
        optional_text_field("actualDigest"@, actual) + seq![("code"@, JsonView::Text("recovery_manifest"@))]
            + optional_text_field("expectedDigest"@, expected) + seq![
            ("message"@, JsonView::Text("The Workspace Recovery manifest changed."@)),
        ],
    )
}

/// Why a preview may no longer be applied: each way in which what it rests on
/// changed.
pub open spec fn stale_reasons(r: Reauthorization, stored: StoredPreviewView) -> Seq<JsonView> {
    reason_if(
        r.supplied_workspace is Some && opt_view(r.supplied_workspace)->0 != stored.preview.workspace_uri,
        reason_json("workspace"@, "The selected Workspace changed."@),
    ) + reason_if(
        r.supplied_server is Some && opt_view(r.supplied_server) != stored.preview.server,
        reason_json("server_declaration"@, "The selected server changed."@),
    ) + reason_if(
        r.workspace_uri@ != stored.preview.workspace_uri,
        reason_json("workspace"@, "The canonical Workspace changed."@),
    ) + reason_if(
        r.session_identity@ != stored.preview.session_identity,
        reason_json("server_declaration"@, "The effective Session Identity changed."@),
    ) + reason_if(
        r.authorization_digest@ != stored.authorization_digest,
        authorization_reason(stored.authorization_digest, r.authorization_digest@),
    ) + reason_if(
        opt_view(r.recovery_digest) != stored.recovery_manifest_digest,
        recovery_reason(stored.recovery_manifest_digest, opt_view(r.recovery_digest)),
    )
}

fn push_reason(reasons: &mut Vec<Json>, condition: bool, reason: Json)
    ensures
        array_view(final(reasons)@) == array_view(old(reasons)@) + reason_if(condition, reason@),
{
    let ghost start = array_view(reasons@);
    let ghost said = reason@;
    if condition {
        reasons.push(reason);
        assert(array_view(reasons@) =~= start + seq![said]);
    } else {
        assert(start =~= start + Seq::<JsonView>::empty());
    }
}

/// Why a preview may no longer be applied.
pub fn reauthorize_preview(r: &Reauthorization, stored: &StoredPreview) -> (reasons: Vec<Json>)
    ensures
        array_view(reasons@) == stale_reasons(*r, stored@),
{
    let mut reasons: Vec<Json> = Vec::new();
    assert(array_view(reasons@) =~= Seq::<JsonView>::empty());
    let other_workspace: bool = match &r.supplied_workspace {
        Some(w) => !same(w.as_str(), stored.preview.workspace_uri.as_str()),
        None => false,
    };
    push_reason(&mut reasons, other_workspace, reason_value("workspace", "The selected Workspace changed."));
    assert(array_view(reasons@) =~= reason_if(
        other_workspace,
        reason_json("workspace"@, "The selected Workspace changed."@),
    ));
    let other_server: bool = r.supplied_server.is_some() && !same_opt(&r.supplied_server, &stored.preview.server);
    push_reason(&mut reasons, other_server, reason_value("server_declaration", "The selected server changed."));
    push_reason(
        &mut reasons,
        !same(r.workspace_uri.as_str(), stored.preview.workspace_uri.as_str()),
        reason_value("workspace", "The canonical Workspace changed."),
    );
    push_reason(
        &mut reasons,
        !same(r.session_identity.as_str(), stored.preview.session_identity.as_str()),
        reason_value("server_declaration", "The effective Session Identity changed."),
    );
    let mut o: Vec<(String, Json)> = Vec::new();
    assert(object_view(o@) =~= Seq::<(Seq<char>, JsonView)>::empty());
    push_field(&mut o, "actualDigest", text_value(r.authorization_digest.as_str()));
    push_field(&mut o, "code", text_value("authorization"));
    push_field(&mut o, "expectedDigest", text_value(stored.authorization_digest.as_str()));
    push_field(&mut o, "message", text_value("The effective authorization declaration changed."));
    assert(object_view(o@) =~= authorization_reason(
        stored@.authorization_digest,
        r.authorization_digest@,
    )->Object_0);
    push_reason(
        &mut reasons,
        !same(r.authorization_digest.as_str(), stored.authorization_digest.as_str()),
        Json::Object(o),
    );
    let mut o: Vec<(String, Json)> = Vec::new();
    assert(object_view(o@) =~= Seq::<(Seq<char>, JsonView)>::empty());
    push_optional_text(&mut o, "actualDigest", &r.recovery_digest);
    push_field(&mut o, "code", text_value("recovery_manifest"));
    push_optional_text(&mut o, "expectedDigest", &stored.recovery_manifest_digest);
    push_field(&mut o, "message", text_value("The Workspace Recovery manifest changed."));
    assert(object_view(o@) =~= recovery_reason(
        stored@.recovery_manifest_digest,
        opt_view(r.recovery_digest),
    )->Object_0);
    push_reason(
        &mut reasons,
        !same_opt(&r.recovery_digest, &stored.recovery_manifest_digest),
        Json::Object(o),
    );
    reasons
}

/// The failure of a preview that is bound to no server.
pub open spec fn unbound_failed(stored: StoredPreviewView) -> FailureView {
    failed(
        6,
        "mutation"@,
        "preview_stale"@,
        "The Preview has no server authorization binding."@,
        "reserve"@,
        "not_applicable"@,
        "after_change"@,
        JsonView::Object(
            seq![
                ("preconditions"@, manifests_json(stored.preview.preconditions)),
                ("previewId"@, JsonView::Text(stored.preview.preview_id)),
                (
                    "reasons"@,
                    JsonView::Array(seq![reason_json("authorization"@, "The server binding is absent."@)]),
                ),
            ],
        ),
    )
}

/// The server that a preview is bound to.
pub fn bound_server(stored: &StoredPreview) -> (r: Result<String, ContractFailure>)
    ensures
        match stored@.preview.server {
            Some(s) => r matches Ok(name) && name@ == s,
            None => r matches Err(f) && f@ == unbound_failed(stored@),
        },
{
    match &stored.preview.server {
        Some(s) => Ok(s.clone()),
        None => {
            let mut reasons: Vec<Json> = Vec::new();
            reasons.push(reason_value("authorization", "The server binding is absent."));
            assert(array_view(reasons@) =~= seq![
                reason_json("authorization"@, "The server binding is absent."@),
            ]);
            Err(
                failure(
                    6,
                    "mutation",
                    "preview_stale",
                    "The Preview has no server authorization binding.",
                    "reserve",
                    "not_applicable",
                    "after_change",
                    object3(
                        "preconditions",
                        manifests_to_json(&stored.preview.preconditions),
                        "previewId",
                        text_value(stored.preview.preview_id.as_str()),
                        "reasons",
                        Json::Array(reasons),
                    ),
                ),
            )
        },
    }
}

/// How much a server may change that was allowed to change something.
#[derive(Clone, Copy, Debug, PartialEq, Eq, Structural)]
pub struct PreauthorizedUsage {
    pub entries: u64,
    pub rollback_bytes: u64,
    pub staged_text_bytes: u64,
}

/// The paths of manifests.
pub open spec fn paths_of(list: Seq<ManifestView>) -> Set<PathView> {
    Set::new(|p: PathView| exists|i: int| 0 <= i < list.len() && (#[trigger] list[i]).path == p)
}

/// The sum of numbers.
pub open spec fn total(list: Seq<u64>) -> nat
    decreases list.len(),
{
    if list.len() == 0 {
        0
    } else {
        total(list.drop_last()) + list.last() as nat
    }
}

/// The bytes that a step puts into a file.
pub open spec fn staged_bytes(edits: Seq<crate::edits::EditView>) -> nat
    decreases edits.len(),
{
    if edits.len() == 0 {
        0
    } else {
        staged_bytes(edits.drop_last()) + encode_utf8(edits.last().new_text).len()
    }
}

/// The bytes that steps put into files.
pub open spec fn staged_total(ops: Seq<OperationView>) -> nat
    decreases ops.len(),
{
    if ops.len() == 0 {
        0
    } else {
        staged_total(ops.drop_last()) + match ops.last() {
            OperationView::Text { edits, .. } => staged_bytes(edits),
            _ => 0,
        }
    }
}

fn add_paths(set: &mut SortedMap<NativePath, ()>, list: &Vec<ManifestEntry>)
    ensures
        final(set)@.dom() == old(set)@.dom().union(paths_of(views(list@))),
{
    let ghost start = set@.dom();
    let ghost all = views(list@);
    let mut i: usize = 0;
    assert(start =~= start.union(paths_of(all.take(0))));
    while i < list.len()
        invariant
            i <= list@.len(),
            all == views(list@),
            set@.dom() == start.union(paths_of(all.take(i as int))),
        decreases list.len() - i,
    {
        assert(all[i as int] == list@[i as int]@);
        set.insert(list[i].path.duplicate(), ());
        proof {
            let now = paths_of(all.take(i as int));
            let later = paths_of(all.take(i + 1));
            assert forall|p: PathView| #[trigger] later.contains(p) <==> now.contains(p) || p == all[i as int].path by {
                if now.contains(p) {
                    let k = choose|k: int| 0 <= k < i && (#[trigger] all.take(i as int)[k]).path == p;
                    assert(all.take(i + 1)[k].path == p);
                }
                if p == all[i as int].path {
                    assert(all.take(i + 1)[i as int].path == p);
                }
                if later.contains(p) && p != all[i as int].path {
                    let more = all.take(i + 1);
                    let k = choose|k: int| 0 <= k < more.len() && (#[trigger] more[k]).path == p;
                    assert(all.take(i as int)[k].path == p);
                }
            }
            assert(set@.dom() =~= start.union(later));
        }
        i += 1;
    }
    assert(all.take(i as int) =~= all);
}

proof fn lemma_total_grows(list: Seq<u64>, i: int)
    requires
        0 <= i <= list.len(),
    ensures
        total(list.take(i)) <= total(list),
    decreases list.len(),
{
    if i < list.len() {
        lemma_total_grows(list.drop_last(), i);
        assert(list.drop_last().take(i) =~= list.take(i));
    } else {
        assert(list.take(i) =~= list);
    }
}

proof fn lemma_staged_grows(edits: Seq<crate::edits::EditView>, i: int)
    requires
        0 <= i <= edits.len(),
    ensures
        staged_bytes(edits.take(i)) <= staged_bytes(edits),
    decreases edits.len(),
{
    if i < edits.len() {
        lemma_staged_grows(edits.drop_last(), i);
        assert(edits.drop_last().take(i) =~= edits.take(i));
    } else {
        assert(edits.take(i) =~= edits);
    }
}

proof fn lemma_staged_total_grows(ops: Seq<OperationView>, i: int)
    requires
        0 <= i <= ops.len(),
    ensures
        staged_total(ops.take(i)) <= staged_total(ops),
    decreases ops.len(),
{
    if i < ops.len() {
        lemma_staged_total_grows(ops.drop_last(), i);
        assert(ops.drop_last().take(i) =~= ops.take(i));
    } else {
        assert(ops.take(i) =~= ops);
    }
}

/// How much a plan changes: the paths that it touches, the bytes that taking it
/// back needs, given the sizes of the files that were there, and the bytes of the
/// texts that it puts in.
pub fn preauthorized_usage(plan: &CanonicalPlan, sizes: &Vec<u64>) -> (r: PreauthorizedUsage)
    requires
        total(sizes@) <= u64::MAX,
        staged_total(plan@.operations) <= u64::MAX,
    ensures
        r.entries == listing::<NativePath>(
            paths_of(plan@.before_manifest).union(paths_of(plan@.intended_manifest)),
        ).len(),
        r.rollback_bytes == total(sizes@),
        r.staged_text_bytes == staged_total(plan@.operations),
{
    let mut set: SortedMap<NativePath, ()> = SortedMap::new();
    assert(set@.dom() =~= Set::<PathView>::empty());
    add_paths(&mut set, &plan.before_manifest);
    assert(set@.dom() =~= paths_of(plan@.before_manifest));
    add_paths(&mut set, &plan.intended_manifest);
    let entries: usize = set.len();
    let mut rollback_bytes: u64 = 0;
    let mut i: usize = 0;
    assert(sizes@.take(0) =~= Seq::<u64>::empty());
    while i < sizes.len()
        invariant
            i <= sizes@.len(),
            total(sizes@) <= u64::MAX,
            rollback_bytes == total(sizes@.take(i as int)),
        decreases sizes.len() - i,
    {
        proof {
            assert(sizes@.take(i + 1).drop_last() =~= sizes@.take(i as int));
            lemma_total_grows(sizes@, i + 1);
        }
        rollback_bytes = rollback_bytes + sizes[i];
        i += 1;
    }
    assert(sizes@.take(i as int) =~= sizes@);
    let ghost ops = plan@.operations;
    let mut staged: u64 = 0;
    let mut k: usize = 0;
    assert(ops.take(0) =~= Seq::<OperationView>::empty());
    while k < plan.operations.len()
        invariant
            k <= plan.operations@.len(),
            ops == views(plan.operations@),
            staged_total(ops) <= u64::MAX,
            staged == staged_total(ops.take(k as int)),
        decreases plan.operations.len() - k,
    {
        proof {
            assert(ops.take(k + 1).drop_last() =~= ops.take(k as int));
            assert(ops.take(k + 1).last() == plan.operations@[k as int]@);
            lemma_staged_total_grows(ops, k + 1);
        }
        if let CanonicalOperation::Text { edits, .. } = &plan.operations[k] {
            let ghost list = views(edits@);
            let ghost before = staged_total(ops.take(k as int));
            let mut j: usize = 0;
            assert(list.take(0) =~= Seq::<crate::edits::EditView>::empty());
            while j < edits.len()
                invariant
                    j <= edits@.len(),
                    list == views(edits@),
                    before + staged_bytes(list) <= u64::MAX,
                    staged == before + staged_bytes(list.take(j as int)),
                decreases edits.len() - j,
            {
                proof {
                    assert(list.take(j + 1).drop_last() =~= list.take(j as int));
                    assert(list.take(j + 1).last() == edits@[j as int]@);
                    lemma_staged_grows(list, j + 1);
                }
                let bytes: usize = edits[j].new_text.as_str().as_bytes().len();
                staged = staged + bytes as u64;
                j += 1;
            }
            assert(list.take(j as int) =~= list);
        }
        k += 1;
    }
    assert(ops.take(k as int) =~= ops);
    PreauthorizedUsage { entries: entries as u64, rollback_bytes, staged_text_bytes: staged }
}

/// Whether a text is a duration whose seconds can be counted.
pub open spec fn countable(text: Seq<char>) -> bool {
    duration_of(text) is Some && ("ms"@.is_suffix_of(text) || "s"@.is_suffix_of(text) || count_before(text, "m"@)->0 * 60
        <= u64::MAX)
}

/// The milliseconds that a duration of the command line stands for.
pub fn parse_duration(value: &str) -> (r: u128)
    requires
        countable(value@),
    ensures
        r == duration_of(value@)->0,
{
    match crate::timing::parse_duration(value) {
        Some(ms) => ms,
        None => 0,
    }
}

/// Whether an application is already done: its receipt says that it was applied.
pub fn is_applied(receipt: Option<&StoredReceipt>) -> (r: bool)
    ensures
        r == (opt_ref_view(receipt) matches Some(s) && s.receipt.outcome == "applied"@),
{
    match receipt {
        Some(stored) => same(stored.receipt.outcome.as_str(), "applied"),
        None => false,
    }
}

/// Nothing keeps a preview from being applied exactly where everything that it
/// rests on is as it was.
pub proof fn law_nothing_changed_nothing_stale(r: Reauthorization, stored: StoredPreviewView)
    ensures
        stale_reasons(r, stored).len() == 0 <==> (r.supplied_workspace is Some ==> opt_view(r.supplied_workspace)
            == Some(stored.preview.workspace_uri)) && (r.supplied_server is Some ==> opt_view(r.supplied_server)
            == stored.preview.server) && r.workspace_uri@ == stored.preview.workspace_uri && r.session_identity@
            == stored.preview.session_identity && r.authorization_digest@ == stored.authorization_digest && opt_view(
            r.recovery_digest,
        ) == stored.recovery_manifest_digest,
{
}

} // verus!
