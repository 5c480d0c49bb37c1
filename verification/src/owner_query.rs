//! Queries through an Owner.

use vstd::prelude::*;

use crate::compose::{DispatchRequest, RequestView};
use crate::documents::{DocumentSnapshot, DocumentView};
use crate::invocation::{InvocationView, ParsedInvocation};
use crate::json::{
    Json,
    JsonView,
    array_view,
    copy_fields,
    object1,
    object4,
    object_view,
    push_field,
    set_field,
    text_value,
    with_field,
};
use crate::position::PositionEncoding;
use crate::query_execute::{ContextView, QueryContext};
use crate::text::{concat, opt_ref_view, opt_view, same, views};

verus! {

/// How documents are handed to a server.
#[derive(Clone, Copy, Debug, PartialEq, Eq, Structural)]
pub enum TextSynchronization {
    /// A document is opened and closed, and its changes are told.
    OpenClose,
    /// Documents are not handed over.
    Unsynchronized,
}

/// The encoding of positions that an Owner agreed upon with its server.
pub open spec fn agreed_encoding(capabilities: JsonView) -> PositionEncoding {
    if capabilities.text_at("positionEncoding"@) == Some("utf-8"@) {
        PositionEncoding::Utf8
    } else {
        PositionEncoding::Utf16
    }
}

/// The encoding of positions that an Owner agreed upon with its server.
pub fn position_encoding(capabilities: &Json) -> (r: PositionEncoding)
    ensures
        r == agreed_encoding(capabilities@),
{
    match capabilities.text_at("positionEncoding") {
        Some(name) => if same(name.as_str(), "utf-8") {
            PositionEncoding::Utf8
        } else {
            PositionEncoding::Utf16
        },
        None => PositionEncoding::Utf16,
    }
}

/// How documents are handed to a server, as its Owner tells.
pub open spec fn agreed_synchronization(capabilities: JsonView) -> TextSynchronization {
    if capabilities.text_at("textSynchronization"@) == Some("open_close"@) {
        TextSynchronization::OpenClose
    } else {
        TextSynchronization::Unsynchronized
    }
}

/// How documents are handed to a server, as its Owner tells.
pub fn text_synchronization(capabilities: &Json) -> (r: TextSynchronization)
    ensures
        r == agreed_synchronization(capabilities@),
{
    match capabilities.text_at("textSynchronization") {
        Some(name) => if same(name.as_str(), "open_close") {
            TextSynchronization::OpenClose
        } else {
            TextSynchronization::Unsynchronized
        },
        None => TextSynchronization::Unsynchronized,
    }
}

/// The files that a Query names: those to be synchronized, and the one that it
/// asks about.
pub open spec fn named_files(inv: InvocationView) -> Seq<Seq<char>> {
    let listed = match inv.values("--sync-file"@) {
        Some(values) => values,
        None => Seq::empty(),
    };
    match inv.value("--file"@) {
        Some(file) => listed.push(file),
        None => listed,
    }
}

/// The files that a Query names.
pub fn query_targets(invocation: &ParsedInvocation) -> (r: Vec<String>)
    ensures
        views(r@) == named_files(invocation@),
{
    let mut files: Vec<String> = match invocation.option_strings("--sync-file") {
        Some(files) => files,
        None => Vec::new(),
    };
    let ghost listed = match invocation@.values("--sync-file"@) {
        Some(values) => values,
        None => Seq::empty(),
    };
    assert(views(files@) =~= listed);
    if let Some(file) = invocation.option_string("--file") {
        files.push(file);
        assert(views(files@) =~= listed.push(invocation@.value("--file"@)->0));
    }
    files
}

/// The first word of a command.
pub open spec fn command_is(command: Seq<Seq<char>>, name: Seq<char>) -> bool {
    command.len() > 0 && command[0] == name
}

fn first_is(command: &Vec<String>, name: &str) -> (r: bool)
    ensures
        r == command_is(views(command@), name@),
{
    if command.len() > 0 {
        assert(views(command@)[0] == command@[0]@);
        same(command[0].as_str(), name)
    } else {
        false
    }
}

/// Whether a Query needs what the Owner knows of diagnostics.
pub open spec fn about_diagnostics(command: Seq<Seq<char>>) -> bool {
    command_is(command, "document-diagnostics"@) || command_is(command, "workspace-diagnostics"@) || command_is(
        command,
        "published-diagnostics"@,
    )
}

/// Whether a Query needs what the Owner knows of diagnostics.
pub fn needs_diagnostics(invocation: &ParsedInvocation) -> (r: bool)
    ensures
        r == about_diagnostics(invocation@.command),
{
    first_is(&invocation.command, "document-diagnostics") || first_is(&invocation.command, "workspace-diagnostics")
        || first_is(&invocation.command, "published-diagnostics")
}

/// Whether a Query waits for the diagnostics of a document to be published.
pub fn awaits_published(invocation: &ParsedInvocation) -> (r: bool)
    ensures
        r == (command_is(invocation@.command, "published-diagnostics"@) && invocation@.has("--file"@)),
{
    first_is(&invocation.command, "published-diagnostics") && invocation.has_option("--file")
}

/// The version of a document that an Owner tells, where it tells one.
pub open spec fn told_version(state: JsonView, uri: Seq<char>) -> Option<int> {
    match state.get("documentVersions"@) {
        Some(versions) => match versions.get(uri) {
            Some(v) => v.as_i64(),
            None => None,
        },
        None => None,
    }
}

/// Takes over the version of a document that an Owner tells.
pub fn adopt_version(document: &mut DocumentSnapshot, state: &Json)
    ensures
        final(document)@ == match told_version(state@, old(document)@.uri) {
            Some(v) => DocumentView { version: v as i64, ..old(document)@ },
            None => old(document)@,
        },
{
    let told: Option<i64> = match state.get("documentVersions") {
        Some(versions) => match versions.get(document.uri.as_str()) {
            Some(v) => v.as_i64(),
            None => None,
        },
        None => None,
    };
    if let Some(v) = told {
        document.version = v;
    }
}

/// How long to wait, in nanoseconds, before the Owner is asked again whether
/// diagnostics were published: until they are complete or the time is over.
pub open spec fn published_pause(complete: bool, now: u128, deadline: u128) -> Option<u128> {
    if complete || now >= deadline {
        None
    } else if deadline - now < 25_000_000 {
        Some((deadline - now) as u128)
    } else {
        Some(25_000_000)
    }
}

/// How long to wait, in nanoseconds, before the Owner is asked again whether
/// diagnostics were published.
pub fn wait_for_published(complete: bool, now: u128, deadline: u128) -> (r: Option<u128>)
    ensures
        r == published_pause(complete, now, deadline),
{
    if complete || now >= deadline {
        None
    } else if deadline - now < 25_000_000 {
        Some(deadline - now)
    } else {
        Some(25_000_000)
    }
}

/// A document that was synchronized, in JSON.
pub open spec fn synchronized_json(d: DocumentView) -> JsonView {
    JsonView::Object(
        seq![
            ("digest"@, JsonView::Text(d.digest)),
            ("languageId"@, JsonView::Text(d.language_id)),
            ("uri"@, JsonView::Text(d.uri)),
            ("version"@, JsonView::Int(d.version as int)),
        ],
    )
}

/// How a Query synchronizes documents, in a word.
pub open spec fn synchronization_mode(command: Seq<Seq<char>>, document: Option<DocumentView>) -> Seq<char> {
    if command_is(command, "workspace-diagnostics"@) {
        "workspace"@
    } else if document is Some {
        "document"@
    } else {
        "none"@
    }
}

/// How a Query synchronizes documents, in JSON.
pub open spec fn synchronization_json(command: Seq<Seq<char>>, document: Option<DocumentView>) -> JsonView {
    JsonView::Object(
        seq![
            (
                "before"@,
                JsonView::Array(
                    match document {
                        Some(d) => seq![synchronized_json(d)],
                        None => seq![],
                    },
                ),
            ),
            ("bestEffort"@, JsonView::Bool(false)),
            ("failures"@, JsonView::Array(seq![])),
            ("mode"@, JsonView::Text(synchronization_mode(command, document))),
            ("postResponseChanged"@, JsonView::Array(seq![])),
        ],
    )
}

fn synchronization_value(command: &Vec<String>, document: Option<&DocumentSnapshot>) -> (r: Json)
    ensures
        r@ == synchronization_json(views(command@), opt_ref_view(document)),
{
    let mut before: Vec<Json> = Vec::new();
    if let Some(d) = document {
        let version: Json = if d.version >= 0 {
            Json::Unsigned(d.version as u64)
        } else {
            Json::Negative(d.version)
        };
        before.push(
            object4(
                "digest",
                text_value(d.digest.as_str()),
                "languageId",
                text_value(d.language_id.as_str()),
                "uri",
                text_value(d.uri.as_str()),
                "version",
                version,
            ),
        );
        assert(before@[0]@ == synchronized_json(d@));
    }
    let ghost listed = match opt_ref_view(document) {
        Some(d) => seq![synchronized_json(d)],
        None => Seq::<JsonView>::empty(),
    };
    assert(array_view(before@) =~= listed);
    let none: Vec<Json> = Vec::new();
    let empty: Vec<Json> = Vec::new();
    assert(array_view(none@) =~= Seq::<JsonView>::empty());
    assert(array_view(empty@) =~= Seq::<JsonView>::empty());
    let mode: &str = if first_is(command, "workspace-diagnostics") {
        "workspace"
    } else if document.is_some() {
        "document"
    } else {
        "none"
    };
    let mut o: Vec<(String, Json)> = Vec::new();
    assert(object_view(o@) =~= Seq::<(Seq<char>, JsonView)>::empty());
    push_field(&mut o, "before", Json::Array(before));
    push_field(&mut o, "bestEffort", Json::Bool(false));
    push_field(&mut o, "failures", Json::Array(none));
    push_field(&mut o, "mode", text_value(mode));
    push_field(&mut o, "postResponseChanged", Json::Array(empty));
    assert(object_view(o@) =~= synchronization_json(views(command@), opt_ref_view(document))->Object_0);
    Json::Object(o)
}

/// The context of a Query before it is sent.
pub open spec fn initial_context(
    command: Seq<Seq<char>>,
    document: Option<DocumentView>,
    workspace_uri: Seq<char>,
    server: Seq<char>,
    session_identity: Seq<char>,
    owner_generation: Seq<char>,
    encoding: PositionEncoding,
) -> ContextView {
    ContextView {
        workspace_uri,
        server,
        session_identity,
        owner_generation,
        result_position_encoding: encoding,
        server_progress: seq![],
        synchronization: synchronization_json(command, document),
        recovery: JsonView::Object(seq![("required"@, JsonView::Bool(false))]),
    }
}

/// The context of a Query before it is sent.
pub fn query_context(
    command: &Vec<String>,
    document: Option<&DocumentSnapshot>,
    workspace_uri: &str,
    server: &str,
    session_identity: &str,
    owner_generation: &str,
    encoding: PositionEncoding,
) -> (r: QueryContext)
    ensures
        r@ == initial_context(
            views(command@),
            opt_ref_view(document),
            workspace_uri@,
            server@,
            session_identity@,
            owner_generation@,
            encoding,
        ),
{
    let none: Vec<Json> = Vec::new();
    assert(array_view(none@) =~= Seq::<JsonView>::empty());
    QueryContext {
        workspace_uri: workspace_uri.to_owned(),
        server: server.to_owned(),
        session_identity: session_identity.to_owned(),
        owner_generation: owner_generation.to_owned(),
        result_position_encoding: encoding,
        server_progress: none,
        synchronization: synchronization_value(command, document),
        recovery: object1("required", Json::Bool(false)),
    }
}

/// The parameters of a request with the tokens under which parts and progress
/// are reported. Only an object can hold them.
pub open spec fn params_with_tokens(r: RequestView, partial: Seq<char>, work: Seq<char>) -> Option<JsonView> {
    match r.params {
        Some(JsonView::Object(o)) => {
            let o = if r.partial_results {
                with_field(o, "partialResultToken"@, JsonView::Text("lspctl-partial-"@ + partial))
            } else {
                o
            };
            let o = if r.work_done_progress {
                with_field(o, "workDoneToken"@, JsonView::Text("lspctl-work-"@ + work))
            } else {
                o
            };
            Some(JsonView::Object(o))
        },
        params => params,
    }
}

/// Puts the tokens into a request under which parts and progress are reported.
pub fn with_tokens(request: &DispatchRequest, partial: &str, work: &str) -> (r: Option<Json>)
    ensures
        opt_view(r) == params_with_tokens(request@, partial@, work@),
{
    match &request.params {
        Some(params) => match params {
            Json::Object(o) => {
                let mut fields: Vec<(String, Json)> = copy_fields(o);
                if request.partial_results {
                    set_field(&mut fields, "partialResultToken", Json::Text(concat("lspctl-partial-", partial)));
                }
                if request.work_done_progress {
                    set_field(&mut fields, "workDoneToken", Json::Text(concat("lspctl-work-", work)));
                }
                Some(Json::Object(fields))
            },
            _ => Some(params.copy()),
        },
        None => None,
    }
}

/// Whether tokens are needed for parts, and for progress.
pub fn needed_tokens(request: &DispatchRequest) -> (r: (bool, bool))
    ensures
        r.0 == (request@.partial_results && request@.params matches Some(JsonView::Object(_))),
        r.1 == (request@.work_done_progress && request@.params matches Some(JsonView::Object(_))),
{
    let object: bool = match &request.params {
        Some(params) => match params {
            Json::Object(_) => true,
            _ => false,
        },
        None => false,
    };
    (request.partial_results && object, request.work_done_progress && object)
}

/// A request that asks for neither parts nor progress is sent as it was composed.
pub proof fn law_plain_requests_are_sent_as_composed(r: RequestView, partial: Seq<char>, work: Seq<char>)
    requires
        !r.partial_results,
        !r.work_done_progress,
    ensures
        params_with_tokens(r, partial, work) == r.params,
{
}

/// The wait for published diagnostics ends: each pause is positive and does not
/// reach beyond the deadline.
pub proof fn law_waiting_ends(complete: bool, now: u128, deadline: u128)
    ensures
        published_pause(complete, now, deadline) matches Some(pause) ==> pause > 0 && now + pause <= deadline
            && !complete,
        complete || now >= deadline ==> published_pause(complete, now, deadline) is None,
{
}

} // verus!
