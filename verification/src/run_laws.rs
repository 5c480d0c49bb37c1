//! How commands run: in which order things are asked for, what is handed on and
//! how it ends.

use vstd::prelude::*;

use crate::application::JournalView;
use crate::apply_run::{ApplyActionView, ApplyEventView, ApplyRunView};
use crate::dispatch_run::{DispatchActionView, DispatchEventView, DispatchPhase, DispatchRunView};
use crate::documents::DocumentView;
use crate::failure::FailureView;
use crate::json::{JsonView, lemma_field_at, lemma_field_concat, lemma_field_missing};
use crate::listing_laws::text_or_none;
use crate::manifest::{ManifestView, optional_text_field};
use crate::owner::OwnerResponse;
use crate::owner_query::agreed_synchronization;
use crate::path::path_text;
use crate::plan::ProblemView;
use crate::preview_run::{PreviewActionView, PreviewEventView, PreviewRunView};
use crate::proposals::{invalid_edit_failed, problem_json, recovery_manifest, stale_proposal};
use crate::query_run::{RunActionView, RunEventView, RunPhase, RunView};
use crate::records::{StoredPreviewView, StoredReceiptView};
use crate::trust::{StoredTrustState, TrustView, record_of};
use crate::trust_run::{GrantActionView, GrantEventView, GrantRunView};

verus! {

/// The text of the path that a problem is about.
pub open spec fn place_of(p: ProblemView) -> Option<Seq<char>> {
    match p.path {
        Some(path) => Some(path_text(path)),
        None => None,
    }
}

proof fn lemma_names()
    ensures
        "annotationId"@.len() == 12,
        "code"@.len() == 4,
        "data"@.len() == 4,
        "message"@.len() == 7,
        "operationIndex"@.len() == 14,
        "path"@.len() == 4,
        "preconditions"@.len() == 13,
        "problems"@.len() == 8,
        "proposal"@.len() == 8,
        "reasons"@.len() == 7,
        "transactionId"@.len() == 13,
        "code"@ != "data"@,
        "code"@ != "path"@,
        "data"@ != "path"@,
        "message"@ != "reasons"@,
        "preconditions"@ != "transactionId"@,
        "problems"@ != "proposal"@,
{
    reveal_strlit("annotationId");
    reveal_strlit("code");
    reveal_strlit("data");
    reveal_strlit("message");
    reveal_strlit("operationIndex");
    reveal_strlit("path");
    reveal_strlit("preconditions");
    reveal_strlit("problems");
    reveal_strlit("proposal");
    reveal_strlit("reasons");
    reveal_strlit("transactionId");
    assert("code"@[0] == 'c' && "data"@[0] == 'd');
    assert("code"@[0] == 'c' && "path"@[0] == 'p');
    assert("data"@[0] == 'd' && "path"@[0] == 'p');
    assert("message"@[0] == 'm' && "reasons"@[0] == 'r');
    assert("preconditions"@[0] == 'p' && "transactionId"@[0] == 't');
    assert("problems"@[3] == 'b' && "proposal"@[3] == 'p');
}

proof fn lemma_problem(p: ProblemView, key: Seq<char>)
    ensures
        problem_json(p).get(key) == ({
            if key == "annotationId"@ {
                text_or_none(p.annotation_id)
            } else if key == "code"@ {
                Some(JsonView::Text(p.code))
            } else if key == "data"@ {
                p.data
            } else if key == "message"@ {
                Some(JsonView::Text(p.message))
            } else if key == "operationIndex"@ {
                match p.operation_index { Some(i) => Some(JsonView::Int(i as int)), None => None }
            } else if key == "path"@ {
                text_or_none(place_of(p))
            } else {
                None
            }
        }),
{
    lemma_names();
    let p0 = optional_text_field("annotationId"@, p.annotation_id);
    if p0.len() > 0 && key == "annotationId"@ {
        lemma_field_at(p0, 0, key);
    } else {
        lemma_field_missing(p0, key);
    }
    let p1 = seq![("code"@, JsonView::Text(p.code))];
    if key == "code"@ {
        lemma_field_at(p1, 0, key);
    } else {
        lemma_field_missing(p1, key);
    }
    let p2 = (match p.data { Some(data) => seq![("data"@, data)], None => seq![] });
    if p2.len() > 0 && key == "data"@ {
        lemma_field_at(p2, 0, key);
    } else {
        lemma_field_missing(p2, key);
    }
    let p3 = seq![("message"@, JsonView::Text(p.message))];
    if key == "message"@ {
        lemma_field_at(p3, 0, key);
    } else {
        lemma_field_missing(p3, key);
    }
    let p4 = (match p.operation_index { Some(i) => seq![("operationIndex"@, JsonView::Int(i as int))], None => seq![] });
    if p4.len() > 0 && key == "operationIndex"@ {
        lemma_field_at(p4, 0, key);
    } else {
        lemma_field_missing(p4, key);
    }
    let p5 = optional_text_field("path"@, place_of(p));
    if p5.len() > 0 && key == "path"@ {
        lemma_field_at(p5, 0, key);
    } else {
        lemma_field_missing(p5, key);
    }
    let s0 = p0;
    let s1 = s0 + p1;
    lemma_field_concat(s0, p1, key);
    let s2 = s1 + p2;
    lemma_field_concat(s1, p2, key);
    let s3 = s2 + p3;
    lemma_field_concat(s2, p3, key);
    let s4 = s3 + p4;
    lemma_field_concat(s3, p4, key);
    let s5 = s4 + p5;
    lemma_field_concat(s4, p5, key);
    assert(problem_json(p)->Object_0 =~= s5);
}

/// A request is sent as it was asked for, with the time that it may take.
pub proof fn law_requests_are_handed_on(run: DispatchRunView, now: u128)
    ensures
        run.next(DispatchEventView::Clock { now }).1 matches DispatchActionView::Send(d) ==> {
            &&& d.method == run.request.method
            &&& d.documents == run.documents
            &&& d.refresh_open_documents == run.request.refresh_open_documents
            &&& d.raw_request == run.request.raw_request
            &&& d.trace_protocol == run.request.trace_protocol
            &&& d.apply_edits == run.request.apply_edits
            &&& d.request_timeout_ms == run.request_timeout_ms
        },
        run.queue_deadline is None ==> (run.next(DispatchEventView::Clock { now }).1 matches DispatchActionView::Send(
            d,
        ) && d.within is None),
{
}

/// A document that is read is handed over with the digest of what was read.
pub proof fn law_read_documents_are_handed_over(run: DispatchRunView, document: DocumentView)
    ensures
        ({
            let documents = run.next(DispatchEventView::Document(document)).0.documents;
            &&& documents.len() == run.documents.len() + 1
            &&& documents.drop_last() == run.documents
            &&& documents.last().path == document.path
            &&& documents.last().language_id == document.language_id
            &&& documents.last().expected_digest == document.digest
        }),
{
    let documents = run.next(DispatchEventView::Document(document)).0.documents;
    assert(documents.drop_last() =~= run.documents);
}

/// Documents are read in the order in which they are named, and a token is
/// drawn only for a request that asks for what it is for.
pub proof fn law_documents_are_read_in_order(run: DispatchRunView)
    ensures
        run.documents.len() < run.request.synchronized_files.len() ==> run.next(DispatchEventView::Begin).1
            == DispatchActionView::ReadDocument(run.request.synchronized_files[run.documents.len() as int]),
        run.documents.len() >= run.request.synchronized_files.len() && !run.request.partial_results
            && !run.request.work_done_progress ==> run.next(DispatchEventView::Begin).1 is ReadClock,
        run.next(DispatchEventView::Begin).1 is Draw ==> run.request.partial_results
            || run.request.work_done_progress,
{
}

/// The first token that is drawn is for the parts of the answer, and the other
/// for progress.
pub proof fn law_tokens_are_kept_apart(run: DispatchRunView, token: Seq<char>)
    ensures
        run.phase == DispatchPhase::DrawingPartialToken ==> run.next(DispatchEventView::Drawn(token)).0.partial_token
            == token && run.next(DispatchEventView::Drawn(token)).0.work_token == run.work_token,
        run.phase == DispatchPhase::DrawingWorkToken ==> run.next(DispatchEventView::Drawn(token)).0.work_token == token
            && run.next(DispatchEventView::Drawn(token)).0.partial_token == run.partial_token,
{
}

/// What failed before a request was sent is reported as it is, without
/// anything that a server might have said.
pub proof fn law_failures_before_sending(run: DispatchRunView, f: FailureView)
    ensures
        run.next(DispatchEventView::Failed(f)).1 matches DispatchActionView::Finish(Err(e)) && e.failure == f
            && e.server_error is None && e.partial_results.len() == 0 && e.trace is None && e.apply_edit_ledger.len()
            == 0,
{
}

/// A query that names a file has it read, and one that does not goes on
/// without; what the server says of itself is taken from its answer.
pub proof fn law_queries_read_their_file(run: RunView, answer: JsonView, now: u128)
    requires
        run.phase == RunPhase::AskingCapabilities,
    ensures
        run.invocation.value("--file"@) matches Some(path) ==> run.next(RunEventView::Answered { answer, now }).1
            == (RunActionView::ReadDocument { path, synchronization: agreed_synchronization(answer) }),
        run.invocation.value("--file"@) is None ==> !(run.next(RunEventView::Answered { answer, now }).1
            is ReadDocument),
        run.next(RunEventView::Answered { answer, now }).0.encoding == crate::owner_query::agreed_encoding(answer),
{
}

/// Diagnostics are asked for by the queries about diagnostics, and by no
/// others.
pub proof fn law_only_queries_about_diagnostics_ask(run: RunView, document: DocumentView, now: u128)
    requires
        run.queue_deadline is None,
    ensures
        run.invocation.command.len() > 0 && (run.invocation.command[0] == "document-diagnostics"@
            || run.invocation.command[0] == "workspace-diagnostics"@ || run.invocation.command[0]
            == "published-diagnostics"@) ==> run.next(RunEventView::Document { document, now }).1
            == (RunActionView::AskDiagnostics { with_document: true, within: None }),
        run.invocation.command.len() > 0 && run.invocation.command[0] != "document-diagnostics"@
            && run.invocation.command[0] != "workspace-diagnostics"@ && run.invocation.command[0]
            != "published-diagnostics"@ ==> !(run.next(RunEventView::Document { document, now }).1 is AskDiagnostics),
        run.next(RunEventView::Document { document, now }).0.document == Some(document),
{
}

/// The version that an owner was told of a document counts from the first
/// answer on, and what is known is imported from the state in the answer.
pub proof fn law_told_versions_count(run: RunView, answer: JsonView, state: JsonView, now: u128, d: DocumentView, v: i64)
    requires
        run.phase == (RunPhase::AskingDiagnostics { first: true }),
        run.document == Some(d),
        answer.get("state"@) == Some(state),
        crate::owner_query::told_version(answer, d.uri) == Some(v as int),
    ensures
        run.next(RunEventView::Answered { answer, now }).0.document matches Some(after) && after.version == v
            && after.uri == d.uri && after.text == d.text && after.digest == d.digest,
        run.next(RunEventView::Answered { answer, now }).1 == RunActionView::Import(state),
{
}

/// Diagnostics of a file that are published are waited for from the first look
/// on, for as long as is declared and not beyond.
pub proof fn law_published_diagnostics_are_waited_for(run: RunView, known: crate::compose::KnownView, now: u128)
    requires
        run.phase == (RunPhase::Importing { first: true }),
        now + run.published_wait * 1_000_000 <= u128::MAX,
        run.published_wait > 0,
        run.invocation.command.len() > 0,
        run.invocation.command[0] == "published-diagnostics"@,
        run.invocation.has("--file"@),
    ensures
        run.next(RunEventView::Imported { known, complete: false, now }).1 is Pause,
        run.next(RunEventView::Imported { known, complete: false, now }).0.until == now + run.published_wait
            * 1_000_000,
        run.next(RunEventView::Imported { known, complete: false, now }).0.known == known,
{
}

/// What failed before a query was answered is reported as it is.
pub proof fn law_failed_queries_are_reported(run: RunView, f: FailureView)
    ensures
        run.next(RunEventView::Failed(f)).1 matches RunActionView::Finish(Err(e)) && e.failure == f && e.method is None
            && e.context is None,
{
}

/// An application is carried out only once its preview is read and configured,
/// in the workspace of the preview; sessions are told of it by what its receipt
/// says.
pub proof fn law_applications_run_in_order(run: ApplyRunView, stored: StoredPreviewView, receipt: StoredReceiptView, f: FailureView)
    ensures
        run.next(ApplyEventView::Begin).1 is LookUp,
        run.next(ApplyEventView::LookedUp(None)).1 is ReadPreview,
        receipt.receipt.outcome != "applied"@ ==> run.next(ApplyEventView::LookedUp(Some(receipt))).1 is ReadPreview,
        run.next(ApplyEventView::Preview(stored)).1 == ApplyActionView::Configure(stored.workspace_path),
        run.next(ApplyEventView::Configured).1 == (ApplyActionView::Apply { again: true }),
        run.next(ApplyEventView::Receipt(receipt)).1 == (ApplyActionView::Refresh {
            workspace_uri: receipt.receipt.workspace_uri,
            server: receipt.receipt.server,
            session_identity: receipt.receipt.session_identity,
        }),
        run.next(ApplyEventView::Failed(f)).1 == ApplyActionView::Finish(Err::<JsonView, FailureView>(f)),
{
}

/// A preview is planned first, then the files are looked at again, then it is
/// named, and what is stored is what is reported.
pub proof fn law_previews_run_in_order(run: PreviewRunView, id: Seq<char>, f: FailureView)
    ensures
        run.next(PreviewEventView::Begin).1 is Plan,
        run.next(PreviewEventView::Named(id)).1 is ReadJournals,
        run.next(PreviewEventView::Named(id)).0.preview_id == id,
        run.next(PreviewEventView::Stored).1 == PreviewActionView::Finish(Ok(Some(run.preview_id))),
        run.next(PreviewEventView::Failed(f)).1 == PreviewActionView::Finish(Err(f)),
{
}

/// An edit that cannot be planned is refused with its problems, one by one,
/// and with the edit.
pub proof fn law_problems_of_edits_are_reported(edit: JsonView, problems: Seq<ProblemView>, i: int)
    requires
        0 <= i < problems.len(),
    ensures
        ({
            let f = invalid_edit_failed(edit, problems);
            &&& f.code == "invalid_workspace_edit"@
            &&& f.exit_code == 6
            &&& f.data.get("proposal"@) == Some(edit)
            &&& f.data.get("problems"@) matches Some(JsonView::Array(said))
            &&& said.len() == problems.len()
            &&& said[i].get("code"@) == Some(JsonView::Text(problems[i].code))
            &&& said[i].get("message"@) == Some(JsonView::Text(problems[i].message))
            &&& said[i].get("data"@) == problems[i].data
            &&& said[i].get("annotationId"@) == text_or_none(problems[i].annotation_id)
            &&& problems[i].path matches Some(path) ==> said[i].get("path"@) == Some(JsonView::Text(path_text(path)))
            &&& problems[i].path is None ==> said[i].get("path"@) is None
            &&& problems[i].operation_index matches Some(n) ==> said[i].get("operationIndex"@) == Some(
                JsonView::Int(n as int),
            )
        }),
{
    lemma_names();
    let o = invalid_edit_failed(edit, problems).data->Object_0;
    lemma_field_at(o, 0, "problems"@);
    lemma_field_at(o, 1, "proposal"@);
    lemma_problem(problems[i], "code"@);
    lemma_problem(problems[i], "message"@);
    lemma_problem(problems[i], "data"@);
    lemma_problem(problems[i], "annotationId"@);
    lemma_problem(problems[i], "path"@);
    lemma_problem(problems[i], "operationIndex"@);
}

/// A proposal that files have changed under is refused with the edit, the
/// reasons, and what it rested on.
pub proof fn law_stale_proposals_are_reported(
    message: Seq<char>,
    edit: JsonView,
    reasons: Seq<JsonView>,
    preconditions: Seq<ManifestView>,
)
    ensures
        stale_proposal(message, edit, reasons, preconditions).code == "proposal_stale"@,
        stale_proposal(message, edit, reasons, preconditions).data.get("proposal"@) == Some(edit),
        stale_proposal(message, edit, reasons, preconditions).data.get("reasons"@) == Some(JsonView::Array(reasons)),
        stale_proposal(message, edit, reasons, preconditions).data.get("preconditions"@) == Some(
            crate::manifest::manifests_json(preconditions),
        ),
{
    lemma_names();
    let o = stale_proposal(message, edit, reasons, preconditions).data->Object_0;
    lemma_field_at(o, 0, "preconditions"@);
    lemma_field_at(o, 1, "proposal"@);
    lemma_field_at(o, 2, "reasons"@);
}

/// A preview rests on the recovery that is pending in its workspace, the last
/// journal counting; one that cannot be read refuses every preview.
pub proof fn law_previews_rest_on_pending_recoveries(journals: Seq<JournalView>, next: JournalView, workspace_uri: Seq<char>)
    ensures
        recovery_manifest(seq![], workspace_uri) == Ok::<Option<Seq<char>>, FailureView>(None),
        recovery_manifest(journals, workspace_uri) matches Ok(digest) ==> match next {
            JournalView::Record(t) => recovery_manifest(journals.push(next), workspace_uri) == Ok::<
                Option<Seq<char>>,
                FailureView,
            >(
                if t.workspace_uri == workspace_uri {
                    Some(t.manifest_digest)
                } else {
                    digest
                },
            ),
            JournalView::Corrupt(_) => recovery_manifest(journals.push(next), workspace_uri) matches Err(f) && f.code
                == "recovery_evidence_invalid"@,
        },
        recovery_manifest(journals, workspace_uri) is Err ==> recovery_manifest(journals.push(next), workspace_uri)
            is Err,
{
    assert(journals.push(next).drop_last() =~= journals);
}

/// A grant over a denial is refused unless the caller replaces denials; else
/// the records are written, read back and told.
pub proof fn law_denials_hold_till_replaced(
    run: GrantRunView,
    format_version: u32,
    records: Seq<TrustView>,
    now: Seq<char>,
    i: int,
    k: int,
)
    requires
        0 <= i < records.len(),
        0 <= k < run.names.len(),
        records[i].workspace_uri == run.workspace_uri,
        records[i].server == run.names[k],
        records[i].state == StoredTrustState::Denied,
    ensures
        !run.replace_denial ==> (run.next(
            GrantEventView::State { format_version, records, now },
        ).1 matches GrantActionView::Finish(Err(f)) && f.code == "denial_replacement_required"@),
        run.replace_denial ==> run.next(GrantEventView::State { format_version, records, now }).1 is WriteState,
        run.next(GrantEventView::Written).1 is ReadBack,
        run.next(GrantEventView::ReadBack(records)).1 == GrantActionView::Signal(run.names),
{
    broadcast use vstd::seq_lib::group_filter_ensures;

    assert(record_of(records[i], run.workspace_uri, run.names[k]));
    let p = crate::trust_commands::denied_in(records, run.workspace_uri);
    assert(p(run.names[k]));
    assert(run.names.contains(run.names[k]));
    assert(run.names.filter(p).contains(run.names[k]));
}

/// An answer ends a request with what the owner answered.
pub proof fn law_answers_end_requests(run: DispatchRunView, response: OwnerResponse)
    ensures
        response.ok ==> (run.next(DispatchEventView::Answered(response)).1 matches DispatchActionView::Finish(Ok(_))),
        !response.ok ==> (run.next(DispatchEventView::Answered(response)).1 matches DispatchActionView::Finish(Err(_))),
        run.next(DispatchEventView::Answered(response)).0.phase == DispatchPhase::Finished,
{
}

/// A preview that is stored says what it was made from: the edit and its
/// command, who proposed it, the server, how positions were counted, and what
/// it comes to.
pub proof fn law_stored_previews_say_what_they_are(run: PreviewRunView, journals: Seq<JournalView>)
    requires
        run.planned is Some,
    ensures
        run.next(PreviewEventView::Journals(journals)).1 matches PreviewActionView::Store {
            preview,
            authorization_digest,
            recovery_digest,
        } ==> {
            &&& preview.preview_id == run.preview_id
            &&& preview.server == Some(run.server)
            &&& preview.position_encoding == run.position_encoding
            &&& preview.source == run.source
            &&& preview.edit == run.edit
            &&& preview.command == run.command
            &&& preview.summary == run.planned->0.summary
            &&& preview.annotations == run.planned->0.annotations
            &&& preview.plan == run.planned->0.plan
            &&& preview.conflicts.len() == 0
            &&& preview.stale_reasons.len() == 0
        },
{
}

} // verus!
