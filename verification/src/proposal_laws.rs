//! What proposals of changes are read from, and what keeps them from being
//! carried out.

use vstd::prelude::*;
use vstd::utf8::encode_utf8;

use crate::application::JournalView;
use crate::edits::EditView;
use crate::invocation::InvocationView;
use crate::json::{JsonSyntaxError, JsonView, lemma_field_at, lemma_field_concat, lemma_field_missing, parsed_json};
use crate::listing_laws::text_or_none;
use crate::manifest::optional_text_field;
use crate::plan::{OperationView, PlannedWorkspaceEdit};
use crate::proposals::{
    InputSource,
    MutationProposalView,
    PreviewRecordContext,
    Reauthorization,
    action_proposal,
    authorization_reason,
    first_corrupt,
    input_source,
    new_preview,
    proposed,
    query_source,
    recovery_reason,
    staged_bytes,
    staged_total,
    stale_reasons,
    synchronized_version,
    synchronized_versions,
    total,
};
use crate::query_execute::ProposalView;
use crate::query_inputs::{InputView, StopView};
use crate::records::StoredPreviewView;
use crate::text::opt_view;

verus! {

proof fn lemma_names()
    ensures
        "action"@.len() == 6,
        "actualDigest"@.len() == 12,
        "applyEditLedger"@.len() == 15,
        "code"@.len() == 4,
        "command"@.len() == 7,
        "context"@.len() == 7,
        "disabled"@.len() == 8,
        "edit"@.len() == 4,
        "expectedDigest"@.len() == 14,
        "kind"@.len() == 4,
        "message"@.len() == 7,
        "method"@.len() == 6,
        "problems"@.len() == 8,
        "reason"@.len() == 6,
        "resolvedAction"@.len() == 14,
        "trace"@.len() == 5,
        "transactionId"@.len() == 13,
        "action"@ != "method"@,
        "action"@ != "reason"@,
        "code"@ != "edit"@,
        "code"@ != "kind"@,
        "command"@ != "context"@,
        "command"@ != "message"@,
        "context"@ != "message"@,
        "disabled"@ != "problems"@,
        "edit"@ != "kind"@,
        "expectedDigest"@ != "resolvedAction"@,
        "method"@ != "reason"@,
{
    reveal_strlit("action");
    reveal_strlit("actualDigest");
    reveal_strlit("applyEditLedger");
    reveal_strlit("code");
    reveal_strlit("command");
    reveal_strlit("context");
    reveal_strlit("disabled");
    reveal_strlit("edit");
    reveal_strlit("expectedDigest");
    reveal_strlit("kind");
    reveal_strlit("message");
    reveal_strlit("method");
    reveal_strlit("problems");
    reveal_strlit("reason");
    reveal_strlit("resolvedAction");
    reveal_strlit("trace");
    reveal_strlit("transactionId");
    assert("action"@[0] == 'a' && "method"@[0] == 'm');
    assert("action"@[0] == 'a' && "reason"@[0] == 'r');
    assert("code"@[0] == 'c' && "edit"@[0] == 'e');
    assert("code"@[0] == 'c' && "kind"@[0] == 'k');
    assert("command"@[2] == 'm' && "context"@[2] == 'n');
    assert("command"@[0] == 'c' && "message"@[0] == 'm');
    assert("context"@[0] == 'c' && "message"@[0] == 'm');
    assert("disabled"@[0] == 'd' && "problems"@[0] == 'p');
    assert("edit"@[0] == 'e' && "kind"@[0] == 'k');
    assert("expectedDigest"@[0] == 'e' && "resolvedAction"@[0] == 'r');
    assert("method"@[0] == 'm' && "reason"@[0] == 'r');
}

proof fn lemma_recovery_reason(expected: Option<Seq<char>>, actual: Option<Seq<char>>, key: Seq<char>)
    ensures
        recovery_reason(expected, actual).get(key) == ({
            if key == "actualDigest"@ {
                text_or_none(actual)
            } else if key == "code"@ {
                Some(JsonView::Text("recovery_manifest"@))
            } else if key == "expectedDigest"@ {
                text_or_none(expected)
            } else if key == "message"@ {
                Some(JsonView::Text("The Workspace Recovery manifest changed."@))
            } else {
                None
            }
        }),
{
    lemma_names();
    let p0 = optional_text_field("actualDigest"@, actual);
    if p0.len() > 0 && key == "actualDigest"@ {
        lemma_field_at(p0, 0, key);
    } else {
        lemma_field_missing(p0, key);
    }
    let p1 = seq![("code"@, JsonView::Text("recovery_manifest"@))];
    if key == "code"@ {
        lemma_field_at(p1, 0, key);
    } else {
        lemma_field_missing(p1, key);
    }
    let p2 = optional_text_field("expectedDigest"@, expected);
    if p2.len() > 0 && key == "expectedDigest"@ {
        lemma_field_at(p2, 0, key);
    } else {
        lemma_field_missing(p2, key);
    }
    let p3 = seq![("message"@, JsonView::Text("The Workspace Recovery manifest changed."@))];
    if key == "message"@ {
        lemma_field_at(p3, 0, key);
    } else {
        lemma_field_missing(p3, key);
    }
    let s0 = p0;
    let s1 = s0 + p1;
    lemma_field_concat(s0, p1, key);
    let s2 = s1 + p2;
    lemma_field_concat(s1, p2, key);
    let s3 = s2 + p3;
    lemma_field_concat(s2, p3, key);
    assert(recovery_reason(expected, actual)->Object_0 =~= s3);
}

/// What is given on the command line itself counts before what is in a file.
pub proof fn law_inline_inputs_count_first(inv: InvocationView, inline: Seq<char>, file: Seq<char>)
    ensures
        inv.value(inline) matches Some(text) ==> input_source(inv, inline, file) == Some(InputSource::Inline(text)),
        inv.value(inline) is None && inv.value(file) is Some ==> input_source(inv, inline, file) == Some(
            InputSource::File(inv.value(file)->0),
        ),
        inv.value(inline) is None && inv.value(file) is None ==> input_source(inv, inline, file) is None,
{
}

/// A code action that is disabled is refused with the reason that it gives,
/// and any other is proposed with its edit and its command.
pub proof fn law_code_actions_are_proposed(action: JsonView)
    ensures
        action.get("disabled"@) is None || action.get("disabled"@) == Some(JsonView::Null) <==> action_proposal(
            action,
        ) is Ok,
        action_proposal(action) matches Ok(p) ==> {
            &&& p.source.get("kind"@) == Some(JsonView::Text("code_action"@))
            &&& action.get("edit"@) matches Some(edit) ==> p.edit == edit
            &&& action.get("edit"@) is None ==> p.edit == JsonView::Object(seq![])
            &&& action.get("command"@) is None || action.get("command"@) == Some(JsonView::Null) ==> p.command is None
            &&& action.get("command"@) matches Some(command) ==> command != JsonView::Null ==> p.command == Some(
                command,
            )
        },
        action_proposal(action) matches Err(f) ==> {
            &&& f.code == "disabled_code_action"@
            &&& f.retry == "never"@
            &&& f.data.get("action"@) == Some(action)
            &&& action.get("disabled"@)->0.get("reason"@) matches Some(JsonView::Text(reason)) ==> f.data.get(
                "reason"@,
            ) == Some(JsonView::Text(reason))
        },
{
    lemma_names();
    match action_proposal(action) {
        Ok(p) => {
            lemma_field_at(p.source->Object_0, 0, "kind"@);
        },
        Err(f) => {
            lemma_field_at(f.data->Object_0, 0, "action"@);
            lemma_field_at(f.data->Object_0, 1, "reason"@);
        },
    }
}

/// An edit that is given as it stands is proposed as it stands, with the
/// command that is given beside it; a code action counts before an edit.
pub proof fn law_given_edits_are_proposed(inv: InvocationView, inputs: Seq<InputView>, p: MutationProposalView)
    requires
        proposed(inv, inputs) == Ok::<MutationProposalView, StopView>(p),
    ensures
        inv.has("--code-action-json"@) || inv.has("--code-action-file"@) ==> p.source.get("kind"@) == Some(
            JsonView::Text("code_action"@),
        ),
        !inv.has("--code-action-json"@) && !inv.has("--code-action-file"@) ==> p.source.get("kind"@) == Some(
            JsonView::Text("workspace_edit"@),
        ) && (p.command is Some <==> inv.has("--command-json"@) || inv.has("--command-file"@)),
        !inv.has("--code-action-json"@) && !inv.has("--code-action-file"@) && (inv.value(
            "--workspace-edit-json"@,
        ) is Some) ==> parsed_json(inv.value("--workspace-edit-json"@)->0) == Ok::<
            JsonView,
            JsonSyntaxError,
        >(p.edit),
        !inv.has("--code-action-json"@) && !inv.has("--code-action-file"@) && inv.has("--command-json"@) && (inv.value(
            "--command-json"@,
        ) is Some) ==> parsed_json(inv.value("--command-json"@)->0) == Ok::<
            JsonView,
            JsonSyntaxError,
        >(p.command->0),
{
    lemma_names();
    lemma_field_at(p.source->Object_0, 0, "kind"@);
}

/// The version of a document that counts is the last one that was reported of
/// it, with the digest reported beside it; a document that was not reported in
/// full counts for nothing.
pub proof fn law_last_versions_count(list: Seq<JsonView>, d: JsonView, other: Seq<char>)
    ensures
        synchronized_version(d) matches Some((uri, p)) ==> {
            &&& d.get("uri"@) == Some(JsonView::Text(uri))
            &&& d.get("digest"@) == Some(JsonView::Text(p.digest))
            &&& d.get("version"@) == Some(JsonView::Int(p.version as int))
            &&& synchronized_versions(list.push(d)).dom().contains(uri)
            &&& synchronized_versions(list.push(d))[uri] == p
            &&& other != uri ==> synchronized_versions(list.push(d)).dom().contains(other) == synchronized_versions(
                list,
            ).dom().contains(other) && synchronized_versions(list.push(d))[other] == synchronized_versions(list)[other]
        },
        synchronized_version(d) is None ==> synchronized_versions(list.push(d)) == synchronized_versions(list),
        synchronized_version(d) is None <==> !(d.get("uri"@) matches Some(JsonView::Text(_))) || !(d.get(
            "digest"@,
        ) matches Some(JsonView::Text(_))) || !(d.get("version"@) matches Some(JsonView::Int(v)) && i64::MIN <= v
            <= i64::MAX),
{
    assert(list.push(d).drop_last() =~= list);
}

/// A proposal of a server is kept with the request that led to it.
pub proof fn law_proposals_name_their_request(p: ProposalView)
    ensures
        query_source(p).get("kind"@) == Some(JsonView::Text("lsp_request"@)),
        query_source(p).get("method"@) == Some(JsonView::Text(p.method)),
        query_source(p).get("context"@) == Some(p.context),
        query_source(p).get("applyEditLedger"@) == Some(JsonView::Array(p.apply_edit_ledger)),
        p.resolved_action matches Some(a) ==> query_source(p).get("resolvedAction"@) == Some(a),
        p.trace matches Some(t) ==> query_source(p).get("trace"@) == Some(t),
        p.resolved_action is None ==> query_source(p).get("resolvedAction"@) == Some(JsonView::Null),
        p.trace is None ==> query_source(p).get("trace"@) == Some(JsonView::Null),
{
    lemma_names();
    let o = query_source(p)->Object_0;
    lemma_field_at(o, 0, "applyEditLedger"@);
    lemma_field_at(o, 2, "context"@);
    lemma_field_at(o, 3, "kind"@);
    lemma_field_at(o, 4, "method"@);
    lemma_field_at(o, 5, "resolvedAction"@);
    lemma_field_at(o, 6, "trace"@);
}

/// A preview that was just made is neither reserved nor stale, and it rests on
/// the files as they were found.
pub proof fn law_new_previews_rest_on_what_was_found(c: PreviewRecordContext, planned: PlannedWorkspaceEdit)
    ensures
        ({
            let p = new_preview(c, planned);
            &&& p.preview_id == c.preview_id@
            &&& p.workspace_uri == c.workspace_uri@
            &&& p.session_identity == c.session_identity@
            &&& p.position_encoding == c.position_encoding@
            &&& p.edit == c.edit@
            &&& p.source == c.source@
            &&& p.plan == planned.plan@
            &&& p.preconditions == planned.plan@.before_manifest
            &&& p.summary == planned.summary
            &&& p.server is Some <==> c.server is Some
            &&& p.command is Some <==> c.command is Some
            &&& !p.reserved
            &&& p.conflicts.len() == 0
            &&& p.stale_reasons.len() == 0
            &&& p.diff is None
        }),
{
}

/// The first journal that cannot be read is the one that is reported, whatever
/// comes before and after it.
pub proof fn law_first_corrupt_journal_counts(before: Seq<JournalView>, evidence: JsonView, after: Seq<JournalView>)
    requires
        forall|i: int| 0 <= i < before.len() ==> !((#[trigger] before[i]) is Corrupt),
    ensures
        first_corrupt(before) is None,
        first_corrupt(before + seq![JournalView::Corrupt(evidence)] + after) == Some(evidence),
    decreases before.len(),
{
    let all = before + seq![JournalView::Corrupt(evidence)] + after;
    if before.len() > 0 {
        assert(all[0] == before[0]);
        assert forall|i: int| 0 <= i < before.drop_first().len() implies !((#[trigger] before.drop_first()[i])
            is Corrupt) by {
            assert(before.drop_first()[i] == before[i + 1]);
        }
        law_first_corrupt_journal_counts(before.drop_first(), evidence, after);
        assert(all.drop_first() =~= before.drop_first() + seq![JournalView::Corrupt(evidence)] + after);
    } else {
        assert(all[0] == JournalView::Corrupt(evidence));
    }
}

/// A reason that a preview is stale says what it rested on and what counts
/// now, each under its own name.
pub proof fn law_reasons_tell_then_and_now(expected: Seq<char>, actual: Seq<char>, was: Option<Seq<char>>, is_now: Option<Seq<char>>)
    ensures
        authorization_reason(expected, actual).get("code"@) == Some(JsonView::Text("authorization"@)),
        authorization_reason(expected, actual).get("expectedDigest"@) == Some(JsonView::Text(expected)),
        authorization_reason(expected, actual).get("actualDigest"@) == Some(JsonView::Text(actual)),
        recovery_reason(was, is_now).get("code"@) == Some(JsonView::Text("recovery_manifest"@)),
        recovery_reason(was, is_now).get("expectedDigest"@) == text_or_none(was),
        recovery_reason(was, is_now).get("actualDigest"@) == text_or_none(is_now),
{
    lemma_names();
    let o = authorization_reason(expected, actual)->Object_0;
    lemma_field_at(o, 0, "actualDigest"@);
    lemma_field_at(o, 1, "code"@);
    lemma_field_at(o, 2, "expectedDigest"@);
    lemma_recovery_reason(was, is_now, "code"@);
    lemma_recovery_reason(was, is_now, "expectedDigest"@);
    lemma_recovery_reason(was, is_now, "actualDigest"@);
}

/// Where only the authorization changed, that is the one reason, with the
/// digest that the preview was made under as the expected one.
pub proof fn law_changed_authorization_is_told(r: Reauthorization, stored: StoredPreviewView)
    requires
        r.supplied_workspace is None,
        r.supplied_server is None,
        r.workspace_uri@ == stored.preview.workspace_uri,
        r.session_identity@ == stored.preview.session_identity,
        r.authorization_digest@ != stored.authorization_digest,
        opt_view(r.recovery_digest) == stored.recovery_manifest_digest,
    ensures
        stale_reasons(r, stored).len() == 1,
        stale_reasons(r, stored)[0].get("code"@) == Some(JsonView::Text("authorization"@)),
        stale_reasons(r, stored)[0].get("expectedDigest"@) == Some(JsonView::Text(stored.authorization_digest)),
        stale_reasons(r, stored)[0].get("actualDigest"@) == Some(JsonView::Text(r.authorization_digest@)),
{
    law_reasons_tell_then_and_now(stored.authorization_digest, r.authorization_digest@, None, None);
}

/// What a plan needs adds up over its files and its operations.
pub proof fn law_needs_add_up(
    sizes: Seq<u64>,
    more: Seq<u64>,
    first: Seq<OperationView>,
    second: Seq<OperationView>,
)
    ensures
        total(sizes + more) == total(sizes) + total(more),
        staged_total(first + second) == staged_total(first) + staged_total(second),
        total(seq![]) == 0,
        staged_total(seq![]) == 0,
    decreases more.len() + second.len(),
{
    lemma_sizes_add_up(sizes, more);
    lemma_staged_add_up(first, second);
}

proof fn lemma_sizes_add_up(sizes: Seq<u64>, more: Seq<u64>)
    ensures
        total(sizes + more) == total(sizes) + total(more),
    decreases more.len(),
{
    if more.len() > 0 {
        lemma_sizes_add_up(sizes, more.drop_last());
        assert((sizes + more).drop_last() =~= sizes + more.drop_last());
    } else {
        assert(sizes + more =~= sizes);
    }
}

proof fn lemma_staged_add_up(first: Seq<OperationView>, second: Seq<OperationView>)
    ensures
        staged_total(first + second) == staged_total(first) + staged_total(second),
    decreases second.len(),
{
    if second.len() > 0 {
        lemma_staged_add_up(first, second.drop_last());
        assert((first + second).drop_last() =~= first + second.drop_last());
    } else {
        assert(first + second =~= first);
    }
}

/// One file takes its bytes, and one edit those of the text that it puts in;
/// operations on files themselves take none.
pub proof fn law_single_needs(size: u64, op: OperationView, edit: EditView)
    ensures
        total(seq![size]) == size,
        !(op is Text) ==> staged_total(seq![op]) == 0,
        op is Text && op->edits == seq![edit] ==> staged_total(seq![op]) == encode_utf8(
            edit.new_text,
        ).len(),
{
    assert(seq![size].drop_last() =~= Seq::<u64>::empty());
    assert(seq![op].drop_last() =~= Seq::<OperationView>::empty());
    assert(total(Seq::<u64>::empty()) == 0);
    assert(staged_total(Seq::<OperationView>::empty()) == 0);
    assert(seq![edit].drop_last() =~= Seq::<EditView>::empty());
    assert(staged_bytes(Seq::<EditView>::empty()) == 0);
    assert(staged_bytes(seq![edit]) == encode_utf8(edit.new_text).len());
}

} // verus!
