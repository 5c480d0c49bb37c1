//! How sessions are found, started, asked and told of changes.

use vstd::prelude::*;

use crate::compose::RequestView;
use crate::documents::DocumentView;
use crate::failure::FailureView;
use crate::invocation::InvocationView;
use crate::json::{JsonView, lemma_field_at, lemma_field_set, with_field};
use crate::owner::{
    EndpointView,
    OwnerResponse,
    QueueDeadline,
    dispatch_answer,
    owner_answer,
    reported_dispatch_failure,
    reported_failure,
    time_left,
    transport_failed,
};
use crate::owner_query::{
    TextSynchronization,
    agreed_encoding,
    agreed_synchronization,
    initial_context,
    named_files,
    params_with_tokens,
    published_pause,
    told_version,
};
use crate::owner_sessions::{
    EndpointVerdict,
    ExitView,
    concerned,
    delivered,
    endpoint_verdict,
    exit_step,
    holding,
    owner_of,
    selected_owner,
    selected_owners,
    settled,
    tail_of,
};
use crate::owner_start::{StartActionView, StartEventView, StartPhase, StartView, start_next, startup_lock_step};
use crate::position::PositionEncoding;
use crate::text::decimal_text;
use crate::timing::LockAttempt;
use crate::timing_laws::law_spelled_numbers_are_read;

verus! {

proof fn lemma_names()
    ensures
        "before"@.len() == 6,
        "bestEffort"@.len() == 10,
        "candidates"@.len() == 10,
        "changedFields"@.len() == 13,
        "currentDigest"@.len() == 13,
        "deadline"@.len() == 8,
        "digest"@.len() == 6,
        "executable"@.len() == 10,
        "failures"@.len() == 8,
        "languageId"@.len() == 10,
        "mode"@.len() == 4,
        "osCode"@.len() == 6,
        "partialResultToken"@.len() == 18,
        "postResponseChanged"@.len() == 19,
        "reason"@.len() == 6,
        "recordedDigest"@.len() == 14,
        "required"@.len() == 8,
        "requiredCommand"@.len() == 15,
        "server"@.len() == 6,
        "sessionIdentity"@.len() == 15,
        "uri"@.len() == 3,
        "version"@.len() == 7,
        "waitedMs"@.len() == 8,
        "workDoneToken"@.len() == 13,
        "workspaceUri"@.len() == 12,
        "before"@ != "digest"@,
        "before"@ != "osCode"@,
        "before"@ != "reason"@,
        "before"@ != "server"@,
        "bestEffort"@ != "candidates"@,
        "bestEffort"@ != "executable"@,
        "bestEffort"@ != "languageId"@,
        "candidates"@ != "executable"@,
        "candidates"@ != "languageId"@,
        "changedFields"@ != "currentDigest"@,
        "changedFields"@ != "workDoneToken"@,
        "currentDigest"@ != "workDoneToken"@,
        "deadline"@ != "failures"@,
        "deadline"@ != "required"@,
        "deadline"@ != "waitedMs"@,
        "digest"@ != "osCode"@,
        "digest"@ != "reason"@,
        "digest"@ != "server"@,
        "executable"@ != "languageId"@,
        "failures"@ != "required"@,
        "failures"@ != "waitedMs"@,
        "osCode"@ != "reason"@,
        "osCode"@ != "server"@,
        "reason"@ != "server"@,
        "required"@ != "waitedMs"@,
        "requiredCommand"@ != "sessionIdentity"@,
{
    reveal_strlit("before");
    reveal_strlit("bestEffort");
    reveal_strlit("candidates");
    reveal_strlit("changedFields");
    reveal_strlit("currentDigest");
    reveal_strlit("deadline");
    reveal_strlit("digest");
    reveal_strlit("executable");
    reveal_strlit("failures");
    reveal_strlit("languageId");
    reveal_strlit("mode");
    reveal_strlit("osCode");
    reveal_strlit("partialResultToken");
    reveal_strlit("postResponseChanged");
    reveal_strlit("reason");
    reveal_strlit("recordedDigest");
    reveal_strlit("required");
    reveal_strlit("requiredCommand");
    reveal_strlit("server");
    reveal_strlit("sessionIdentity");
    reveal_strlit("uri");
    reveal_strlit("version");
    reveal_strlit("waitedMs");
    reveal_strlit("workDoneToken");
    reveal_strlit("workspaceUri");
    assert("before"@[0] == 'b' && "digest"@[0] == 'd');
    assert("before"@[0] == 'b' && "osCode"@[0] == 'o');
    assert("before"@[0] == 'b' && "reason"@[0] == 'r');
    assert("before"@[0] == 'b' && "server"@[0] == 's');
    assert("bestEffort"@[0] == 'b' && "candidates"@[0] == 'c');
    assert("bestEffort"@[0] == 'b' && "executable"@[0] == 'e');
    assert("bestEffort"@[0] == 'b' && "languageId"@[0] == 'l');
    assert("candidates"@[0] == 'c' && "executable"@[0] == 'e');
    assert("candidates"@[0] == 'c' && "languageId"@[0] == 'l');
    assert("changedFields"@[1] == 'h' && "currentDigest"@[1] == 'u');
    assert("changedFields"@[0] == 'c' && "workDoneToken"@[0] == 'w');
    assert("currentDigest"@[0] == 'c' && "workDoneToken"@[0] == 'w');
    assert("deadline"@[0] == 'd' && "failures"@[0] == 'f');
    assert("deadline"@[0] == 'd' && "required"@[0] == 'r');
    assert("deadline"@[0] == 'd' && "waitedMs"@[0] == 'w');
    assert("digest"@[0] == 'd' && "osCode"@[0] == 'o');
    assert("digest"@[0] == 'd' && "reason"@[0] == 'r');
    assert("digest"@[0] == 'd' && "server"@[0] == 's');
    assert("executable"@[0] == 'e' && "languageId"@[0] == 'l');
    assert("failures"@[0] == 'f' && "required"@[0] == 'r');
    assert("failures"@[0] == 'f' && "waitedMs"@[0] == 'w');
    assert("osCode"@[0] == 'o' && "reason"@[0] == 'r');
    assert("osCode"@[0] == 'o' && "server"@[0] == 's');
    assert("reason"@[0] == 'r' && "server"@[0] == 's');
    assert("required"@[0] == 'r' && "waitedMs"@[0] == 'w');
    assert("requiredCommand"@[0] == 'r' && "sessionIdentity"@[0] == 's');
}

/// A failure that an owner reports ends the command with the code of its
/// category: one for what is blocked, one for what is unavailable, one for a
/// query that failed, and another for all else.
pub proof fn law_reported_failures_end_by_category(error: JsonView)
    ensures
        error.text_at("category"@) == Some("blocked"@) ==> reported_failure(error).exit_code == 3,
        error.text_at("category"@) == Some("unavailable"@) ==> reported_failure(error).exit_code == 4,
        error.text_at("category"@) == Some("query"@) ==> reported_failure(error).exit_code == 5,
        error.text_at("category"@) is None ==> reported_failure(error).exit_code == 70 && reported_failure(
            error,
        ).category == "internal"@,
        error.text_at("category"@) matches Some(c) ==> reported_failure(error).category == c,
        error.text_at("code"@) matches Some(c) ==> reported_failure(error).code == c,
        error.text_at("message"@) matches Some(m) ==> reported_failure(error).message == m,
        error.text_at("stage"@) matches Some(s) ==> reported_failure(error).stage == s,
        error.text_at("delivery"@) matches Some(d) ==> reported_failure(error).delivery == d,
        error.text_at("retry"@) matches Some(r) ==> reported_failure(error).retry == r,
        error.get("data"@) matches Some(d) ==> reported_failure(error).data == d,
{
    reveal_strlit("blocked");
    reveal_strlit("unavailable");
    reveal_strlit("query");
    assert("blocked"@.len() == 7 && "unavailable"@.len() == 11 && "query"@.len() == 5);
}

/// What an owner answers is handed on: its result where all went well, and its
/// failure where not.
pub proof fn law_answers_are_handed_on(r: OwnerResponse)
    ensures
        r.ok && r.result is Some ==> owner_answer(r) == Ok::<JsonView, FailureView>(r.result->0@),
        r.ok && r.result is None ==> owner_answer(r) == Ok::<JsonView, FailureView>(JsonView::Null),
        !r.ok && r.error is Some ==> owner_answer(r) == Err::<JsonView, FailureView>(reported_failure(r.error->0@)),
        r.ok <==> owner_answer(r) is Ok,
        r.ok <==> dispatch_answer(r) is Ok,
        r.ok && r.result is Some ==> {
            let v = r.result->0@;
            let answer = dispatch_answer(r)->Ok_0;
            &&& v.get("result"@) matches Some(result) ==> answer.result == result
            &&& v.get("result"@) is None ==> answer.result == JsonView::Null
            &&& v.get("partialResults"@) matches Some(JsonView::Array(parts)) ==> answer.partial_results == parts
            &&& v.get("partialResults"@) is None ==> answer.partial_results.len() == 0
            &&& v.get("applyEditLedger"@) matches Some(JsonView::Array(ledger)) ==> answer.apply_edit_ledger == ledger
            &&& v.get("serverProgress"@) matches Some(JsonView::Array(progress)) ==> answer.server_progress == progress
            &&& answer.trace == v.get("trace"@)
            &&& answer.synchronization == v.get("synchronization"@)
        },
{
}

/// A request that failed on the way keeps what had come back before.
pub proof fn law_failed_requests_keep_their_parts(error: JsonView, partial: JsonView, items: Seq<JsonView>)
    requires
        error.get("partialResult"@) == Some(partial),
        partial.get("items"@) == Some(JsonView::Array(items)),
    ensures
        reported_dispatch_failure(error).partial_results == items,
        reported_dispatch_failure(error).failure == reported_failure(error),
        reported_dispatch_failure(error).server_error == error.get("serverError"@),
        reported_dispatch_failure(error).trace == error.get("trace"@),
        error.get("applyEditLedger"@) matches Some(JsonView::Array(ledger))
            ==> reported_dispatch_failure(error).apply_edit_ledger == ledger,
{
}

/// An owner that cannot be reached is reported as unavailable, unless it is
/// the same owner that has since recorded why it failed.
pub proof fn law_lost_owners_say_why(endpoint: EndpointView, current: Option<EndpointView>, reason: Seq<char>)
    ensures
        current is None ==> transport_failed(endpoint, current, reason).code == "owner_unavailable"@
            && transport_failed(endpoint, current, reason).data.get("reason"@) == Some(JsonView::Text(reason))
            && transport_failed(endpoint, current, reason).data.get("sessionIdentity"@) == Some(
            JsonView::Text(endpoint.session_identity),
        ),
        current is Some && current->0.owner_generation != endpoint.owner_generation ==> transport_failed(
            endpoint,
            current,
            reason,
        ) == transport_failed(endpoint, None, reason),
        current is Some && current->0.state != "failed"@ ==> transport_failed(endpoint, current, reason)
            == transport_failed(endpoint, None, reason),
        current matches Some(c) ==> c.session_identity == endpoint.session_identity && c.owner_generation
            == endpoint.owner_generation && c.token == endpoint.token && c.state == "failed"@ && c.failure is Some
            ==> transport_failed(endpoint, current, reason) == reported_failure(c.failure->0),
{
    lemma_names();
    let o = transport_failed(endpoint, None, reason).data->Object_0;
    lemma_field_at(o, 0, "reason"@);
    lemma_field_at(o, 1, "sessionIdentity"@);
}

/// The time that is left and the time that has passed make up the time that
/// was given; once more has passed, the request is not sent.
pub proof fn law_time_left_is_what_was_given(d: QueueDeadline, now: u128)
    requires
        d.started <= now,
    ensures
        now - d.started <= d.duration ==> time_left(Some(d), now) == Ok::<Option<u128>, FailureView>(
            Some((d.duration - (now - d.started)) as u128),
        ),
        now - d.started > d.duration ==> (time_left(Some(d), now) matches Err(f) && f.code
            == "queue_deadline_exceeded"@ && f.delivery == "not_sent"@ && f.retry == "safe"@),
        time_left(None, now) == Ok::<Option<u128>, FailureView>(None),
{
}

/// Owners are selected by their generation where one is asked for, else by
/// workspace and server as far as they are asked for.
pub proof fn law_owners_are_selected(
    endpoints: Seq<EndpointView>,
    e: EndpointView,
    generation: Seq<char>,
    workspace_uri: Seq<char>,
    server: Seq<char>,
)
    ensures
        selected_owners(endpoints, Some(generation), None, None).contains(e) <==> endpoints.contains(e)
            && e.owner_generation == generation,
        selected_owners(endpoints, None, Some(workspace_uri), None).contains(e) <==> endpoints.contains(e)
            && e.workspace_uri == workspace_uri,
        selected_owners(endpoints, None, None, Some(server)).contains(e) <==> endpoints.contains(e) && e.server
            == server,
        selected_owners(endpoints, None, Some(workspace_uri), Some(server)).contains(e) <==> endpoints.contains(e)
            && e.workspace_uri == workspace_uri && e.server == server,
        selected_owners(endpoints, None, None, None).contains(e) <==> endpoints.contains(e),
{
    lemma_filtered(endpoints, crate::owner_sessions::owner_of_generation(generation), e);
    lemma_filtered(endpoints, owner_of(Some(workspace_uri), None), e);
    lemma_filtered(endpoints, owner_of(None, Some(server)), e);
    lemma_filtered(endpoints, owner_of(Some(workspace_uri), Some(server)), e);
    lemma_filtered(endpoints, owner_of(None, None), e);
}

proof fn lemma_filtered(endpoints: Seq<EndpointView>, p: spec_fn(EndpointView) -> bool, e: EndpointView)
    ensures
        endpoints.filter(p).contains(e) <==> endpoints.contains(e) && p(e),
{
    broadcast use vstd::seq_lib::group_filter_ensures;

    if endpoints.filter(p).contains(e) {
        endpoints.lemma_filter_contains_rev(p, e);
    }
    if endpoints.contains(e) && p(e) {
        let k = endpoints.index_of(e);
        assert(endpoints[k] == e);
    }
}

/// One owner that fits is taken; none and several are refused, with the
/// generations of those that fit.
pub proof fn law_one_owner_is_taken(selected: Seq<EndpointView>, i: int)
    ensures
        selected_owner(selected) is Ok <==> selected.len() == 1,
        selected.len() == 1 ==> selected_owner(selected) == Ok::<EndpointView, FailureView>(selected[0]),
        selected_owner(selected) matches Err(f) ==> f.code == "session_selection_failed"@ && (f.data.get(
            "candidates"@,
        ) matches Some(JsonView::Array(names)) && names.len() == selected.len() && (0 <= i < selected.len()
            ==> names[i] == JsonView::Text(selected[i].owner_generation))),
{
    lemma_names();
    if let Err(f) = selected_owner(selected) {
        lemma_field_at(f.data->Object_0, 0, "candidates"@);
    }
}

/// An owner is live that answers for the session it is filed under; what
/// nobody answers for and nobody holds is removed, and all else stays.
pub proof fn law_owners_that_answer_are_live(identity: Seq<char>, e: EndpointView, lock_free: bool)
    ensures
        e.session_identity == identity ==> endpoint_verdict(identity, Some(e), true, lock_free)
            == EndpointVerdict::Live,
        e.session_identity == identity ==> endpoint_verdict(identity, Some(e), false, true)
            == EndpointVerdict::Remove,
        endpoint_verdict(identity, Some(e), false, false) == EndpointVerdict::Skip,
        endpoint_verdict(identity, None, false, true) == EndpointVerdict::Remove,
        endpoint_verdict(identity, None, false, false) == EndpointVerdict::Skip,
{
}

/// The owners that are told of a change are those of the workspace, and of the
/// servers, or of the server and the session, that it concerns.
pub proof fn law_owners_are_told(
    e: EndpointView,
    workspace_uri: Seq<char>,
    servers: Seq<Seq<char>>,
    server: Seq<char>,
    identity: Seq<char>,
)
    ensures
        concerned(workspace_uri, servers)(e) <==> e.workspace_uri == workspace_uri && exists|i: int|
            0 <= i < servers.len() && #[trigger] servers[i] == e.server,
        holding(workspace_uri, None, None)(e) <==> e.workspace_uri == workspace_uri,
        holding(workspace_uri, Some(server), None)(e) <==> e.workspace_uri == workspace_uri && e.server == server,
        holding(workspace_uri, Some(server), Some(identity))(e) <==> e.workspace_uri == workspace_uri && e.server
            == server && e.session_identity == identity,
{
}

/// Every owner that was told counts once, among those that took notice or
/// among those that did not, in the order in which they were told.
pub proof fn law_outcomes_are_settled(outcomes: Seq<(String, bool)>, next: (String, bool), success: bool)
    ensures
        settled(outcomes.push(next), success) == (if next.1 == success {
            settled(outcomes, success).push(next.0@)
        } else {
            settled(outcomes, success)
        }),
        settled(outcomes, true).len() + settled(outcomes, false).len() == outcomes.len(),
        settled(seq![], success).len() == 0,
    decreases outcomes.len(),
{
    assert(outcomes.push(next).drop_last() =~= outcomes);
    if outcomes.len() > 0 {
        law_outcomes_are_settled(outcomes.drop_last(), next, success);
    }
}

/// An owner took notice that says so, and no other.
pub proof fn law_notice_is_said(v: JsonView)
    ensures
        delivered(Some(v)) <==> v.get("delivered"@) == Some(JsonView::Bool(true)),
        !delivered(None),
{
}

/// An owner that is to leave is gone once nobody holds its session or another
/// answers in its place; till then it is waited for, until the deadline.
pub proof fn law_owners_leave(
    endpoint: EndpointView,
    current: EndpointView,
    answers: bool,
    lock_free: bool,
    now: u128,
    deadline: u128,
)
    ensures
        exit_step(endpoint, None, answers, true, now, deadline) is Gone,
        current.owner_generation != endpoint.owner_generation ==> exit_step(
            endpoint,
            Some(current),
            true,
            lock_free,
            now,
            deadline,
        ) is Gone,
        current.owner_generation == endpoint.owner_generation ==> !(exit_step(
            endpoint,
            Some(current),
            answers,
            lock_free,
            now,
            deadline,
        ) is Gone),
        now < deadline ==> exit_step(endpoint, None, answers, false, now, deadline) is Wait,
        now >= deadline ==> (exit_step(endpoint, None, answers, false, now, deadline) matches ExitView::Fail(f)
            && f.code == "owner_unavailable"@),
        !(exit_step(endpoint, None, answers, false, now, deadline) is Gone),
{
}

/// As many lines of a log are shown as are asked for, and a hundred where no
/// number is.
pub proof fn law_as_many_lines_as_asked_for(inv: InvocationView, n: nat)
    requires
        n <= u64::MAX,
    ensures
        inv.value("--tail"@) is None ==> tail_of(inv) == 100,
        inv.value("--tail"@) == Some(decimal_text(n)) ==> tail_of(inv) == n,
{
    law_spelled_numbers_are_read(n, u64::MAX as nat);
}

/// A server that says that it counts in bytes is spoken to in bytes, and any
/// other in units of sixteen bits; documents are opened and closed only for
/// one that asks for it.
pub proof fn law_agreements_are_the_servers(capabilities: JsonView)
    ensures
        capabilities.get("positionEncoding"@) == Some(JsonView::Text("utf-8"@)) <==> agreed_encoding(capabilities)
            == PositionEncoding::Utf8,
        agreed_encoding(capabilities) == PositionEncoding::Utf8 || agreed_encoding(capabilities)
            == PositionEncoding::Utf16,
        capabilities.get("textSynchronization"@) == Some(JsonView::Text("open_close"@)) <==> agreed_synchronization(
            capabilities,
        ) == TextSynchronization::OpenClose,
{
}

/// The files that a query is about are those to be synchronized, and then the
/// one that it names.
pub proof fn law_queries_name_their_files(inv: InvocationView, listed: Seq<Seq<char>>, file: Seq<char>)
    ensures
        inv.values("--sync-file"@) is None && inv.value("--file"@) is None ==> named_files(inv).len() == 0,
        inv.values("--sync-file"@) is None && inv.value("--file"@) == Some(file) ==> named_files(inv) == seq![file],
        inv.values("--sync-file"@) == Some(listed) && inv.value("--file"@) is None ==> named_files(inv) == listed,
        inv.values("--sync-file"@) == Some(listed) && inv.value("--file"@) == Some(file) ==> named_files(inv)
            == listed.push(file),
{
    if inv.values("--sync-file"@) is None && inv.value("--file"@) == Some(file) {
        assert(named_files(inv) =~= seq![file]);
    }
}

/// The version of a document that an owner was told is the one that it reports
/// under the URI of the document.
pub proof fn law_told_versions_are_by_uri(state: JsonView, versions: JsonView, uri: Seq<char>, v: i64)
    requires
        state.get("documentVersions"@) == Some(versions),
    ensures
        versions.get(uri) == Some(JsonView::Int(v as int)) ==> told_version(state, uri) == Some(v as int),
        versions.get(uri) is None ==> told_version(state, uri) is None,
{
}

/// A query says which session it is put to, and which document was brought up
/// to date before, with the version and the digest of what was sent.
pub proof fn law_contexts_say_what_is_known(
    command: Seq<Seq<char>>,
    d: DocumentView,
    workspace_uri: Seq<char>,
    server: Seq<char>,
    session_identity: Seq<char>,
    owner_generation: Seq<char>,
    encoding: PositionEncoding,
)
    ensures
        ({
            let c = initial_context(
                command,
                Some(d),
                workspace_uri,
                server,
                session_identity,
                owner_generation,
                encoding,
            );
            &&& c.workspace_uri == workspace_uri
            &&& c.server == server
            &&& c.session_identity == session_identity
            &&& c.owner_generation == owner_generation
            &&& c.result_position_encoding == encoding
            &&& c.server_progress.len() == 0
            &&& c.recovery.get("required"@) == Some(JsonView::Bool(false))
            &&& c.synchronization.get("before"@) matches Some(JsonView::Array(before))
            &&& before.len() == 1
            &&& before[0].get("uri"@) == Some(JsonView::Text(d.uri))
            &&& before[0].get("digest"@) == Some(JsonView::Text(d.digest))
            &&& before[0].get("version"@) == Some(JsonView::Int(d.version as int))
            &&& before[0].get("languageId"@) == Some(JsonView::Text(d.language_id))
            &&& command.len() == 0 || command[0] != "workspace-diagnostics"@ ==> c.synchronization.get("mode"@)
                == Some(JsonView::Text("document"@))
            &&& command.len() > 0 && command[0] == "workspace-diagnostics"@ ==> c.synchronization.get("mode"@) == Some(
                JsonView::Text("workspace"@),
            )
        }),
        ({
            let c = initial_context(
                command,
                None,
                workspace_uri,
                server,
                session_identity,
                owner_generation,
                encoding,
            );
            &&& c.synchronization.get("before"@) == Some(JsonView::Array(seq![]))
            &&& command.len() == 0 ==> c.synchronization.get("mode"@) == Some(JsonView::Text("none"@))
        }),
{
    lemma_names();
    let c = initial_context(command, Some(d), workspace_uri, server, session_identity, owner_generation, encoding);
    let o = c.synchronization->Object_0;
    lemma_field_at(o, 0, "before"@);
    lemma_field_at(o, 3, "mode"@);
    lemma_field_at(c.recovery->Object_0, 0, "required"@);
    let b = o[0].1->Array_0[0]->Object_0;
    lemma_field_at(b, 0, "digest"@);
    lemma_field_at(b, 1, "languageId"@);
    lemma_field_at(b, 2, "uri"@);
    lemma_field_at(b, 3, "version"@);
    let n = initial_context(command, None, workspace_uri, server, session_identity, owner_generation, encoding);
    lemma_field_at(n.synchronization->Object_0, 0, "before"@);
    lemma_field_at(n.synchronization->Object_0, 3, "mode"@);
}

/// A request that asks for parts or for progress is sent with a token for
/// each, and with all that it holds besides.
pub proof fn law_tokens_are_sent_where_asked_for(
    r: RequestView,
    partial: Seq<char>,
    work: Seq<char>,
    key: Seq<char>,
)
    requires
        r.params is Some,
        r.params->0 is Object,
    ensures
        params_with_tokens(r, partial, work) matches Some(p) && {
            &&& r.partial_results ==> p.get("partialResultToken"@) == Some(
                JsonView::Text("lspctl-partial-"@ + partial),
            )
            &&& r.work_done_progress ==> p.get("workDoneToken"@) == Some(JsonView::Text("lspctl-work-"@ + work))
            &&& !r.partial_results ==> p.get("partialResultToken"@) == r.params->0.get("partialResultToken"@)
            &&& !r.work_done_progress ==> p.get("workDoneToken"@) == r.params->0.get("workDoneToken"@)
            &&& key != "partialResultToken"@ && key != "workDoneToken"@ ==> p.get(key) == r.params->0.get(key)
        },
{
    lemma_names();
    let o = r.params->0->Object_0;
    let a = JsonView::Text("lspctl-partial-"@ + partial);
    let b = JsonView::Text("lspctl-work-"@ + work);
    let first = if r.partial_results {
        with_field(o, "partialResultToken"@, a)
    } else {
        o
    };
    lemma_field_set(o, "partialResultToken"@, a, key);
    lemma_field_set(o, "partialResultToken"@, a, "partialResultToken"@);
    lemma_field_set(o, "partialResultToken"@, a, "workDoneToken"@);
    lemma_field_set(first, "workDoneToken"@, b, key);
    lemma_field_set(first, "workDoneToken"@, b, "partialResultToken"@);
    lemma_field_set(first, "workDoneToken"@, b, "workDoneToken"@);
}

/// Diagnostics that are not there yet are waited for in short pauses.
pub proof fn law_pauses_are_short(now: u128, deadline: u128)
    ensures
        now < deadline ==> (published_pause(false, now, deadline) matches Some(pause) && pause <= 25_000_000),
{
}

/// A session that is live is joined; one that is not is started, and where the
/// project declares it, only after what it declares is authorized anew.
pub proof fn law_sessions_are_joined_or_started(s: StartView, endpoint: EndpointView)
    ensures
        s.phase == StartPhase::Looking || s.phase == StartPhase::LookingAgain ==> start_next(
            s,
            StartEventView::Looked(Some(endpoint)),
        ).1 == StartActionView::Connect(endpoint),
        s.phase == StartPhase::Looking && s.declaration_digest is Some ==> start_next(s, StartEventView::Looked(None)).1
            is Authorize,
        s.phase == StartPhase::Looking && s.declaration_digest is None ==> start_next(s, StartEventView::Looked(None)).1
            is Lock,
        s.phase == StartPhase::LookingAgain ==> start_next(s, StartEventView::Looked(None)).1 is Write,
        s.phase == StartPhase::Writing ==> start_next(s, StartEventView::Written(Ok(()))).1 is Spawn,
{
}

/// What changed between the authorization and the start is refused with what
/// was authorized and what is declared now.
pub proof fn law_changes_before_the_start_are_refused(s: StartView, now: Option<Seq<char>>)
    requires
        s.phase == StartPhase::Authorizing,
    ensures
        now == s.declaration_digest ==> start_next(s, StartEventView::Authorized(Ok(now))).1 is Lock,
        now != s.declaration_digest ==> (start_next(
            s,
            StartEventView::Authorized(Ok(now)),
        ).1 matches StartActionView::Fail(f) && f.code == "project_trust_changed"@ && f.data.get("server"@) == Some(
            JsonView::Text(s.server),
        ) && f.data.get("workspaceUri"@) == Some(JsonView::Text(s.workspace_uri)) && (now is Some ==> f.data.get(
            "currentDigest"@,
        ) == Some(JsonView::Text(now->0))) && (s.declaration_digest is Some ==> f.data.get("recordedDigest"@) == Some(
            JsonView::Text(s.declaration_digest->0),
        ))),
{
    lemma_names();
    let o = crate::owner_start::changed_before_start(s, now).data->Object_0;
    lemma_field_at(o, 1, "currentDigest"@);
    lemma_field_at(o, 2, "recordedDigest"@);
    lemma_field_at(o, 4, "server"@);
    lemma_field_at(o, 5, "workspaceUri"@);
}

/// A session that was started is waited for as long as it may take and no
/// longer; one that failed says why, and one that answers is joined.
pub proof fn law_started_sessions_are_waited_for(
    s: StartView,
    deadline: u128,
    found: Option<EndpointView>,
    answers: bool,
    now: u128,
)
    requires
        s.phase == StartPhase::Waiting(deadline),
    ensures
        ({
            let action = start_next(s, StartEventView::Polled { found, answers, now }).1;
            &&& now >= deadline ==> (action matches StartActionView::Fail(f) && f.code == "owner_unavailable"@)
            &&& now < deadline && found is None ==> action is Poll
            &&& now < deadline && found is Some && found->0.state == "failed"@ ==> action is Forget
            &&& now < deadline && found is Some && found->0.state == "failed"@ && found->0.failure is Some
                ==> action == StartActionView::Forget(reported_failure(found->0.failure->0))
            &&& now < deadline && found is Some && found->0.state != "failed"@ && found->0.session_identity
                == s.session_identity && answers ==> action == StartActionView::Connect(found->0)
            &&& now < deadline && found is Some && found->0.state != "failed"@ && !answers ==> action is Poll
        }),
{
}

/// From the moment that a session is started, it has the time that it may
/// take.
pub proof fn law_sessions_have_their_time(s: StartView, now: u128)
    requires
        s.phase == StartPhase::Spawning,
        now + s.timeout <= u128::MAX,
    ensures
        start_next(s, StartEventView::Spawned { outcome: Ok(()), now }).0.phase == StartPhase::Waiting(
            (now + s.timeout) as u128,
        ),
{
}

/// A program that could not be started is named, with what the system says.
pub proof fn law_programs_that_do_not_start_are_named(s: StartView, code: Option<i32>, now: u128)
    requires
        s.phase == StartPhase::Spawning,
    ensures
        start_next(s, StartEventView::Spawned { outcome: Err(code), now }).1 matches StartActionView::Fail(f) && f.code
            == "server_start_failed"@ && f.data.get("executable"@) == Some(JsonView::Text(s.executable)) && f.data.get(
            "server"@,
        ) == Some(JsonView::Text(s.server)),
{
    lemma_names();
    let o = crate::owner_start::spawn_failed(s, code).data->Object_0;
    lemma_field_at(o, 0, "executable"@);
    lemma_field_at(o, 2, "server"@);
}

/// The lock of a start is held once it is taken, waited for while another
/// holds it, and given up at the deadline.
pub proof fn law_starts_wait_their_turn(reason: Seq<char>, now: u128, deadline: u128, code: Option<i32>)
    ensures
        startup_lock_step(LockAttempt::Taken, reason, now, deadline) is Hold,
        now < deadline ==> startup_lock_step(LockAttempt::Busy, reason, now, deadline) is Wait,
        now >= deadline ==> startup_lock_step(LockAttempt::Busy, reason, now, deadline) is Refuse,
        startup_lock_step(LockAttempt::Failed(code), reason, now, deadline) is Refuse,
{
}

} // verus!
