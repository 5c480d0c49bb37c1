//! What applications and recoveries come to: which journals may be recovered,
//! what receipts record, and what is reported.

use vstd::prelude::*;

use crate::application::{ActionView, ApplicationView, EventView, JournalView, Phase, blocking_journal};
use crate::checks::{mismatches, recorded, recorded_or_missing};
use crate::failure::FailureView;
use crate::json::{JsonView, lemma_field_at};
use crate::manifest::{ManifestView, ResourceKind, manifest_digest_of, manifests_json};
use crate::path::path_text;
use crate::plan::{OperationView, PlanView};
use crate::position::PositionEncoding;
use crate::records::{ReceiptView, TransactionState, TransactionView};
use crate::recovery::{RecoveryActionView, RecoveryEventView, RecoveryPhase, RecoveryView, admission, sealed};
use crate::recovery_reports::recovery_report_json;
use crate::reports::{file_operation_json, file_operations_json, preview_encoding, success_json};

verus! {

proof fn lemma_names()
    ensures
        "actualDigest"@.len() == 12,
        "cleanupPending"@.len() == 14,
        "command"@.len() == 7,
        "durability"@.len() == 10,
        "expectedDigest"@.len() == 14,
        "failureStage"@.len() == 12,
        "filesystemState"@.len() == 15,
        "intended"@.len() == 8,
        "isDirectory"@.len() == 11,
        "kind"@.len() == 4,
        "manifest"@.len() == 8,
        "manifestDigest"@.len() == 14,
        "newUri"@.len() == 6,
        "observed"@.len() == 8,
        "ok"@.len() == 2,
        "oldUri"@.len() == 6,
        "outcome"@.len() == 7,
        "paths"@.len() == 5,
        "previewId"@.len() == 9,
        "receiptId"@.len() == 9,
        "recoveryReceiptId"@.len() == 17,
        "result"@.len() == 6,
        "schemaVersion"@.len() == 13,
        "sessionSynchronized"@.len() == 19,
        "state"@.len() == 5,
        "transactionId"@.len() == 13,
        "uri"@.len() == 3,
        "actualDigest"@ != "failureStage"@,
        "cleanupPending"@ != "expectedDigest"@,
        "cleanupPending"@ != "manifestDigest"@,
        "command"@ != "outcome"@,
        "expectedDigest"@ != "manifestDigest"@,
        "intended"@ != "manifest"@,
        "intended"@ != "observed"@,
        "manifest"@ != "observed"@,
        "newUri"@ != "oldUri"@,
        "newUri"@ != "result"@,
        "oldUri"@ != "result"@,
        "paths"@ != "state"@,
        "previewId"@ != "receiptId"@,
        "schemaVersion"@ != "transactionId"@,
{
    reveal_strlit("actualDigest");
    reveal_strlit("cleanupPending");
    reveal_strlit("command");
    reveal_strlit("durability");
    reveal_strlit("expectedDigest");
    reveal_strlit("failureStage");
    reveal_strlit("filesystemState");
    reveal_strlit("intended");
    reveal_strlit("isDirectory");
    reveal_strlit("kind");
    reveal_strlit("manifest");
    reveal_strlit("manifestDigest");
    reveal_strlit("newUri");
    reveal_strlit("observed");
    reveal_strlit("ok");
    reveal_strlit("oldUri");
    reveal_strlit("outcome");
    reveal_strlit("paths");
    reveal_strlit("previewId");
    reveal_strlit("receiptId");
    reveal_strlit("recoveryReceiptId");
    reveal_strlit("result");
    reveal_strlit("schemaVersion");
    reveal_strlit("sessionSynchronized");
    reveal_strlit("state");
    reveal_strlit("transactionId");
    reveal_strlit("uri");
    assert("actualDigest"@[0] == 'a' && "failureStage"@[0] == 'f');
    assert("cleanupPending"@[0] == 'c' && "expectedDigest"@[0] == 'e');
    assert("cleanupPending"@[0] == 'c' && "manifestDigest"@[0] == 'm');
    assert("command"@[0] == 'c' && "outcome"@[0] == 'o');
    assert("expectedDigest"@[0] == 'e' && "manifestDigest"@[0] == 'm');
    assert("intended"@[0] == 'i' && "manifest"@[0] == 'm');
    assert("intended"@[0] == 'i' && "observed"@[0] == 'o');
    assert("manifest"@[0] == 'm' && "observed"@[0] == 'o');
    assert("newUri"@[0] == 'n' && "oldUri"@[0] == 'o');
    assert("newUri"@[0] == 'n' && "result"@[0] == 'r');
    assert("oldUri"@[0] == 'o' && "result"@[0] == 'r');
    assert("paths"@[0] == 'p' && "state"@[0] == 's');
    assert("previewId"@[0] == 'p' && "receiptId"@[0] == 'r');
    assert("schemaVersion"@[0] == 's' && "transactionId"@[0] == 't');
}

/// A recovery goes on exactly where the caller has seen the manifest that the
/// journal holds, and where there is something to undo or what stands is
/// accepted. What was seen and what the journal holds are both reported.
pub proof fn law_recoveries_are_admitted(
    t: TransactionView,
    transaction_id: Seq<char>,
    supplied_digest: Seq<char>,
    accept_current: bool,
)
    ensures
        admission(t, transaction_id, supplied_digest, accept_current) is Ok <==> supplied_digest == t.manifest_digest
            && (accept_current || t.state != TransactionState::CleanupPending),
        admission(t, transaction_id, supplied_digest, accept_current) matches Err(f) ==> f.exit_code == 7
            && f.data.get("transactionId"@) == Some(JsonView::Text(transaction_id)),
        admission(t, transaction_id, supplied_digest, accept_current) matches Err(f) ==> (accept_current || t.state
            != TransactionState::CleanupPending) ==> (f.code == "recovery_manifest_mismatch"@ && f.data.get(
            "expectedDigest"@,
        ) == Some(JsonView::Text(t.manifest_digest)) && f.data.get("actualDigest"@) == Some(
            JsonView::Text(supplied_digest),
        )),
        admission(t, transaction_id, supplied_digest, accept_current) matches Err(f) ==> !accept_current && t.state
            == TransactionState::CleanupPending ==> f.code == "recovery_not_found"@ && f.retry == "never"@,
{
    lemma_names();
    if let Err(f) = admission(t, transaction_id, supplied_digest, accept_current) {
        let o = f.data->Object_0;
        if t.state == TransactionState::CleanupPending && !accept_current {
            lemma_field_at(o, 0, "transactionId"@);
        } else {
            lemma_field_at(o, 0, "actualDigest"@);
            lemma_field_at(o, 1, "expectedDigest"@);
            lemma_field_at(o, 2, "transactionId"@);
        }
    }
}

/// Once it is known what stands, a recovery of files that changed since they
/// were recorded is refused with what was recorded and what stands; else what
/// stands is kept where it is accepted, and undone where it is not, unless
/// nothing was carried out yet.
pub proof fn law_recoveries_do_what_is_asked(s: RecoveryView, current: Seq<ManifestView>)
    requires
        s.phase == RecoveryPhase::Inspecting,
        s.transaction is Some,
    ensures
        ({
            let (next, action) = s.next(RecoveryEventView::Manifest(current));
            let t = s.transaction->0;
            if manifest_digest_of(current) != t.manifest_digest {
                &&& action matches RecoveryActionView::Finish(Err(f))
                &&& f.code == "recovery_conflict"@
                &&& f.data.get("intended"@) == Some(manifests_json(t.observed_manifest))
                &&& f.data.get("observed"@) == Some(manifests_json(current))
                &&& f.data.get("paths"@) matches Some(JsonView::Array(paths))
                &&& paths.len() == current.len()
                &&& forall|i: int| 0 <= i < paths.len() ==> #[trigger] paths[i] == JsonView::Text(
                    path_text(current[i].path),
                )
            } else if s.accept_current {
                action is NewReceiptId && next.final_manifest == current
            } else if t.state != TransactionState::Staged {
                action is Rollback
            } else {
                action is Rollback || action is InspectTransaction
            }
        }),
{
    lemma_names();
    let t = s.transaction->0;
    if manifest_digest_of(current) != t.manifest_digest {
        let f = crate::recovery_reports::conflict_failed(s.transaction_id, t.observed_manifest, current);
        assert(s.next(RecoveryEventView::Manifest(current)).1 == RecoveryActionView::Finish(
            Err::<JsonView, FailureView>(f),
        ));
        let o = f.data->Object_0;
        lemma_field_at(o, 0, "intended"@);
        lemma_field_at(o, 1, "observed"@);
        lemma_field_at(o, 2, "paths"@);
    }
}

/// The receipt of a recovery says whether what stood was accepted or undone,
/// where it stood and what stands now.
pub proof fn law_recovery_receipts_say_what_was_done(s: RecoveryView, started_at: Seq<char>, completed_at: Seq<char>)
    requires
        s.phase == RecoveryPhase::Timing,
        s.transaction is Some,
    ensures
        s.next(RecoveryEventView::Clock { started_at, completed_at }).1 matches RecoveryActionView::WriteReceipt(r)
            && {
            &&& r.receipt_id == s.receipt_id
            &&& r.kind == "recovery_receipt"@
            &&& r.workspace_uri == s.transaction->0.workspace_uri
            &&& r.started_at == started_at
            &&& r.completed_at == completed_at
            &&& s.accept_current ==> r.outcome == "accepted_current"@ && r.filesystem_state == "changed"@
            &&& !s.accept_current ==> r.outcome == "restored"@ && r.filesystem_state == "unchanged"@
            &&& r.before_manifest == s.transaction->0.observed_manifest
            &&& r.intended_manifest == s.final_manifest
            &&& r.observed_manifest == s.final_manifest
            &&& r.manifest_digest == manifest_digest_of(s.final_manifest)
            &&& !r.cleanup_pending
            &&& !r.session_synchronized
            &&& !r.preauthorized
            &&& r.failure_stage is None
            &&& r.failed_change is None
        },
{
}

/// The receipt of a recovery takes over what the receipt of the application
/// says, and only where that says nothing, what its preview says.
pub proof fn law_recovery_receipts_follow_the_application(s: RecoveryView, started_at: Seq<char>, completed_at: Seq<char>)
    requires
        s.phase == RecoveryPhase::Timing,
        s.transaction is Some,
    ensures
        s.next(RecoveryEventView::Clock { started_at, completed_at }).1 matches RecoveryActionView::WriteReceipt(r)
            && {
            &&& s.original matches Some(o) ==> {
                &&& r.linked_receipt_id == Some(o.receipt_id)
                &&& r.summary == o.summary
                &&& o.server is Some ==> r.server == o.server
                &&& o.session_identity is Some ==> r.session_identity == o.session_identity
                &&& o.preview_id is Some ==> r.preview_id == o.preview_id
            }
            &&& s.original is None ==> {
                &&& r.linked_receipt_id is None
                &&& r.preview_id == Some(s.transaction->0.preview_id)
                &&& s.pending matches Some(p) ==> r.summary == p.preview.summary && r.server == p.preview.server
                    && r.session_identity == Some(p.preview.session_identity)
                &&& s.pending is None ==> r.server is None && r.session_identity is None && r.summary.files_changed == 0
                    && r.summary.text_edits == 0 && r.summary.creates == 0 && r.summary.renames == 0
                    && r.summary.deletes == 0
            }
        },
{
}

/// A recovery reports which journal it settled, how, under which receipt and
/// what stands.
pub proof fn law_recoveries_are_reported(s: RecoveryView)
    requires
        s.phase == RecoveryPhase::Removing,
    ensures
        s.next(RecoveryEventView::Done).1 matches RecoveryActionView::Finish(Ok(report)) && {
            &&& report.get("ok"@) == Some(JsonView::Bool(true))
            &&& report.get("command"@) == Some(
                JsonView::Array(
                    if s.accept_current {
                        seq![JsonView::Text("recovery"@), JsonView::Text("accept-current"@)]
                    } else {
                        seq![JsonView::Text("recovery"@), JsonView::Text("rollback"@)]
                    },
                ),
            )
            &&& report.get("outcome"@) == Some(
                JsonView::Text(
                    if s.accept_current {
                        "accepted_current"@
                    } else {
                        "restored"@
                    },
                ),
            )
            &&& report.get("result"@) matches Some(result)
            &&& result.get("cleanupPending"@) == Some(JsonView::Bool(false))
            &&& result.get("filesystemState"@) == Some(
                JsonView::Text(
                    if s.accept_current {
                        "changed"@
                    } else {
                        "unchanged"@
                    },
                ),
            )
            &&& result.get("manifestDigest"@) == Some(JsonView::Text(manifest_digest_of(s.final_manifest)))
            &&& result.get("recoveryReceiptId"@) == Some(JsonView::Text(s.receipt_id))
            &&& result.get("transactionId"@) == Some(JsonView::Text(s.transaction_id))
        },
{
    lemma_names();
    let report = recovery_report_json(s.transaction_id, s.receipt_id, s.accept_current, s.final_manifest);
    let o = report->Object_0;
    lemma_field_at(o, 0, "command"@);
    lemma_field_at(o, 1, "ok"@);
    lemma_field_at(o, 2, "outcome"@);
    lemma_field_at(o, 3, "result"@);
    let r = o[3].1->Object_0;
    lemma_field_at(r, 0, "cleanupPending"@);
    lemma_field_at(r, 1, "filesystemState"@);
    lemma_field_at(r, 2, "manifestDigest"@);
    lemma_field_at(r, 3, "recoveryReceiptId"@);
    lemma_field_at(r, 4, "transactionId"@);
}

/// Whether a file stands as it was recorded, as far as the record goes.
pub open spec fn stands_as_recorded(entry: ManifestView, current: Seq<ManifestView>) -> bool {
    let seen = recorded_or_missing(current, entry.path);
    &&& entry.exists == seen.exists
    &&& entry.resource_kind == seen.resource_kind
    &&& entry.identity_digest is Some ==> seen.identity_digest == entry.identity_digest
    &&& entry.content_digest is Some ==> seen.content_digest == entry.content_digest
    &&& entry.metadata_digest is Some ==> seen.metadata_digest == entry.metadata_digest
}

proof fn lemma_no_mismatches(before: Seq<ManifestView>, current: Seq<ManifestView>)
    ensures
        mismatches(before, current).len() == 0 <==> forall|i: int|
            0 <= i < before.len() ==> stands_as_recorded(#[trigger] before[i], current),
    decreases before.len(),
{
    if before.len() > 0 {
        let rest = before.drop_last();
        lemma_no_mismatches(rest, current);
        assert(before.last() == before[before.len() - 1]);
        assert forall|i: int| 0 <= i < rest.len() implies #[trigger] rest[i] == before[i] by {}
        if mismatches(before, current).len() == 0 {
            assert forall|i: int| 0 <= i < before.len() implies stands_as_recorded(#[trigger] before[i], current) by {
                if i < rest.len() {
                    assert(rest[i] == before[i]);
                }
            }
        } else if mismatches(rest, current).len() == 0 {
            assert(!stands_as_recorded(before[before.len() - 1], current));
        } else {
            let i = choose|i: int| 0 <= i < rest.len() && !stands_as_recorded(#[trigger] rest[i], current);
            assert(!stands_as_recorded(before[i], current));
        }
    }
}

/// A journal that an application left behind comes to need recovery where
/// operations may have been carried out or a file is not as it was, and keeps
/// its state elsewhere. Nothing but what was seen of the files changes in it.
pub proof fn law_abandoned_journals_need_recovery(t: TransactionView, current: Seq<ManifestView>)
    ensures
        sealed(t, current).observed_manifest == current,
        sealed(t, current).manifest_digest == manifest_digest_of(current),
        t.state == TransactionState::Committing ==> sealed(t, current).state == TransactionState::RecoveryRequired
            && sealed(t, current).cleanup_pending,
        sealed(t, current).state == t.state || sealed(t, current).state == TransactionState::RecoveryRequired,
        t.state == TransactionState::Staged ==> (sealed(t, current).state == TransactionState::Staged <==> forall|i: int|
            0 <= i < t.before_manifest.len() ==> stands_as_recorded(#[trigger] t.before_manifest[i], current)),
        sealed(t, current).transaction_id == t.transaction_id,
        sealed(t, current).preview_id == t.preview_id,
        sealed(t, current).receipt_id == t.receipt_id,
        sealed(t, current).workspace_path == t.workspace_path,
        sealed(t, current).workspace_uri == t.workspace_uri,
        sealed(t, current).before_manifest == t.before_manifest,
        sealed(t, current).intended_manifest == t.intended_manifest,
        sealed(t, current).operations == t.operations,
        sealed(t, current).backups == t.backups,
{
    lemma_no_mismatches(t.before_manifest, current);
}

/// An application is held up by the journals of its workspace and by those
/// that cannot be read, and by no others.
pub proof fn law_only_journals_of_the_workspace_hold_up(journals: Seq<JournalView>, workspace_uri: Seq<char>)
    ensures
        blocking_journal(journals, workspace_uri) is Some <==> exists|i: int|
            0 <= i < journals.len() && ((#[trigger] journals[i]) is Corrupt || (
            journals[i] matches JournalView::Record(t) && t.workspace_uri == workspace_uri)),
        blocking_journal(journals, workspace_uri) matches Some(f) ==> f.exit_code == 7 && (f.code
            == "recovery_required"@ || f.code == "recovery_evidence_invalid"@),
    decreases journals.len(),
{
    if journals.len() > 0 {
        let rest = journals.drop_first();
        law_only_journals_of_the_workspace_hold_up(rest, workspace_uri);
        if blocking_journal(rest, workspace_uri) is Some {
            let i = choose|i: int|
                0 <= i < rest.len() && ((#[trigger] rest[i]) is Corrupt || (rest[i] matches JournalView::Record(t)
                    && t.workspace_uri == workspace_uri));
            assert(rest[i] == journals[i + 1]);
        }
        assert forall|i: int|
            0 <= i < journals.len() && ((#[trigger] journals[i]) is Corrupt || (
            journals[i] matches JournalView::Record(t) && t.workspace_uri == workspace_uri)) implies blocking_journal(
            journals,
            workspace_uri,
        ) is Some by {
            if i > 0 {
                assert(rest[i - 1] == journals[i]);
            }
        }
        assert(journals[0] == journals[0]);
    }
}

/// What holds an application up is reported with the journal, what it was
/// meant to come to and what was seen.
pub proof fn law_pending_recoveries_are_reported(t: TransactionView, rest: Seq<JournalView>)
    ensures
        blocking_journal(seq![JournalView::Record(t)] + rest, t.workspace_uri) matches Some(f) && {
            &&& f.code == "recovery_required"@
            &&& f.data.get("transactionId"@) == Some(JsonView::Text(t.transaction_id))
            &&& f.data.get("receiptId"@) == Some(JsonView::Text(t.receipt_id))
            &&& f.data.get("manifestDigest"@) == Some(JsonView::Text(t.manifest_digest))
            &&& f.data.get("intended"@) == Some(manifests_json(t.intended_manifest))
            &&& f.data.get("observed"@) == Some(manifests_json(t.observed_manifest))
        },
{
    lemma_names();
    let all = seq![JournalView::Record(t)] + rest;
    assert(all[0] == JournalView::Record(t));
    let o = blocking_journal(all, t.workspace_uri)->0.data->Object_0;
    lemma_field_at(o, 0, "intended"@);
    lemma_field_at(o, 1, "manifestDigest"@);
    lemma_field_at(o, 2, "observed"@);
    lemma_field_at(o, 3, "receiptId"@);
    lemma_field_at(o, 4, "transactionId"@);
}

/// The journal of an application holds what its preview plans, and is open
/// until it is known what became of it.
pub proof fn law_journals_hold_the_plan(s: ApplicationView, transaction_id: Seq<char>, started_at: Seq<char>)
    requires
        s.phase == Phase::Starting,
        s.stored is Some,
    ensures
        ({
            let (next, action) = s.next(EventView::Started { transaction_id, started_at });
            let p = s.stored->0;
            &&& action is WriteTransaction
            &&& next.transaction matches Some(t)
            &&& t.transaction_id == transaction_id
            &&& t.started_at == started_at
            &&& t.preview_id == s.preview_id
            &&& t.receipt_id == s.preview_id
            &&& t.workspace_path == p.workspace_path
            &&& t.workspace_uri == p.preview.workspace_uri
            &&& t.state == TransactionState::Staged
            &&& t.operations == p.preview.plan.operations
            &&& t.before_manifest == p.preview.plan.before_manifest
            &&& t.intended_manifest == p.preview.plan.intended_manifest
            &&& t.observed_manifest == s.current
            &&& t.manifest_digest == manifest_digest_of(p.preview.plan.before_manifest)
            &&& t.artifact_directory.drop_last() == p.workspace_path
            &&& !t.cleanup_pending
        }),
{
    let p = s.stored->0;
    let t = s.journal(transaction_id, started_at);
    assert(t.artifact_directory.drop_last() =~= p.workspace_path);
}

/// The receipt of an application says that it was applied where all went well,
/// that it was undone where that worked, and that recovery is required where
/// neither did, each with what was then seen.
pub proof fn law_receipts_say_what_was_done(s: ApplicationView, now: Seq<char>)
    requires
        s.has_journal(),
        s.phase == Phase::JournalingApplied || s.phase == Phase::JournalingRolledBack || s.phase
            == Phase::JournalingRecovery,
    ensures
        s.next(EventView::Journaled(now)).1 is ConvertToReceipt,
        s.next(EventView::Journaled(now)).0.receipt matches Some(r) && {
            &&& s.phase == Phase::JournalingApplied ==> r.outcome == "applied"@ && r.filesystem_state == "changed"@
                && r.failure_stage is None && r.failed_change is None
            &&& s.phase == Phase::JournalingRolledBack ==> r.outcome == "rolled_back"@ && r.filesystem_state
                == "unchanged"@ && r.failure_stage == Some("commit"@) && r.failed_change == s.failed_change
            &&& s.phase == Phase::JournalingRecovery ==> r.outcome == "recovery_required"@ && r.filesystem_state
                == "partial"@ && r.failure_stage == Some("rollback"@) && r.failed_change == s.failed_change
            &&& r.kind == "receipt"@
            &&& r.receipt_id == s.preview_id
            &&& r.preview_id == Some(s.preview_id)
            &&& r.linked_receipt_id is None
            &&& r.transaction_id == s.transaction->0.transaction_id
            &&& r.workspace_uri == s.stored->0.preview.workspace_uri
            &&& r.server == s.stored->0.preview.server
            &&& r.session_identity == Some(s.stored->0.preview.session_identity)
            &&& r.preauthorized == s.preauthorized
            &&& r.started_at == s.transaction->0.started_at
            &&& r.completed_at == now
            &&& r.summary == s.stored->0.preview.summary
            &&& r.before_manifest == s.stored->0.preview.plan.before_manifest
            &&& r.intended_manifest == s.stored->0.preview.plan.intended_manifest
            &&& r.observed_manifest == s.transaction->0.observed_manifest
            &&& r.manifest_digest == s.transaction->0.manifest_digest
            &&& r.cleanup_pending
            &&& !r.session_synchronized
        },
{
}

/// Whatever was seen of the files after the operations, or after they were
/// undone, is what the journal holds, with its digest.
pub proof fn law_journals_hold_what_was_seen(s: ApplicationView, seen: Seq<ManifestView>)
    requires
        s.has_journal(),
        s.phase == Phase::RollingBack || s.phase == Phase::Salvaging,
    ensures
        s.next(EventView::Manifest(seen)).0.transaction matches Some(t) && {
            &&& t.observed_manifest == seen
            &&& t.manifest_digest == manifest_digest_of(seen)
            &&& s.phase == Phase::RollingBack ==> t.state == TransactionState::CleanupPending && t.cleanup_pending
            &&& s.phase == Phase::Salvaging ==> t.state == TransactionState::RecoveryRequired
            &&& t.operations == s.transaction->0.operations
            &&& t.before_manifest == s.transaction->0.before_manifest
            &&& t.intended_manifest == s.transaction->0.intended_manifest
        },
{
}

/// An operation that failed, or that left files otherwise than planned, leads
/// to a rollback; only a full success is recorded as one.
pub proof fn law_failures_are_undone(s: ApplicationView, e: EventView)
    requires
        s.has_journal(),
        s.phase == Phase::Committing || s.phase == Phase::Verifying,
        s.expects(e),
    ensures
        s.phase == Phase::Committing ==> {
            &&& s.next(e).1 is InspectIntended
            &&& s.next(e).0.committed <==> e is Done
            &&& e matches EventView::CommitFailed(i) ==> s.next(e).0.failed_change == Some(i)
            &&& e is Done ==> s.next(e).0.failed_change is None
        },
        s.phase == Phase::Verifying && !s.committed ==> s.next(e).1 is Rollback && !s.next(e).0.committed,
        s.phase == Phase::Verifying && s.next(e).1 is Rollback ==> !s.next(e).0.committed,
        s.phase == Phase::Verifying ==> s.next(e).1 is Rollback || s.next(e).1 is WriteTransaction,
{
}

/// A caller that gives up before operations are carried out is told so, and
/// nothing is carried out: what was reserved is given back, and what was
/// staged is cleaned up.
pub proof fn law_callers_may_give_up(s: ApplicationView)
    requires
        s.stored is Some,
        s.phase == Phase::ReservedDeadline || s.phase == Phase::StagedDeadline,
        s.phase == Phase::StagedDeadline ==> s.transaction is Some,
    ensures
        ({
            let (next, action) = s.next(EventView::Deadline(true));
            &&& next.pending matches Some(f)
            &&& f.code == "application_cancelled"@
            &&& f.retry == "safe"@
            &&& f.data.get("previewId"@) == Some(JsonView::Text(s.preview_id))
            &&& s.phase == Phase::ReservedDeadline ==> action is ReleasePreview && (next.stored matches Some(p)
                && !p.preview.reserved && p.preview.plan == s.stored->0.preview.plan)
            &&& s.phase == Phase::StagedDeadline ==> action is CleanArtifacts
        }),
        !(s.next(EventView::Deadline(false)).1 is ReleasePreview),
        !(s.next(EventView::Deadline(false)).1 is CleanArtifacts),
        s.next(EventView::Deadline(false)).0.pending == s.pending,
{
    lemma_names();
    let o = s.next(EventView::Deadline(true)).0.pending->0.data->Object_0;
    lemma_field_at(o, 0, "previewId"@);
}

/// Whatever stands against an application once the preview is reserved is
/// what the caller is told in the end.
pub proof fn law_refusals_are_reported(s: ApplicationView)
    requires
        s.phase == Phase::Releasing,
        s.pending is Some,
    ensures
        s.next(EventView::Done).1 == ActionView::Finish(Err::<JsonView, FailureView>(s.pending->0)),
{
}

/// What was cleaned up in full is reported as cleaned up, and what was not as
/// pending; what was applied is reported as applied and what was undone as a
/// failure.
pub proof fn law_cleaning_is_reported(s: ApplicationView, complete: bool)
    requires
        s.phase == Phase::FinishMarking,
        s.receipt is Some,
        s.has_journal(),
        !s.post_commits,
    ensures
        s.committed ==> s.next(EventView::Cleaned(complete)).1 == ActionView::Finish(
            Ok::<JsonView, FailureView>(
                success_json(ReceiptView { cleanup_pending: !complete, ..s.receipt->0 }, "applied"@),
            ),
        ),
        !s.committed ==> (s.next(EventView::Cleaned(complete)).1 matches ActionView::Finish(Err(f)) && f.code
            == "rolled_back"@ && f.data.get("manifest"@) == Some(manifests_json(s.transaction->0.observed_manifest))
            && f.data.get("transactionId"@) == Some(JsonView::Text(s.transaction->0.transaction_id)) && f.data.get(
            "previewId"@,
        ) == Some(JsonView::Text(s.preview_id))),
{
    lemma_names();
    if !s.committed {
        let o = crate::reports::rolled_back_failure(
            s.preview_id,
            s.transaction->0.transaction_id,
            s.transaction->0.observed_manifest,
        ).data->Object_0;
        lemma_field_at(o, 1, "manifest"@);
        lemma_field_at(o, 2, "previewId"@);
        lemma_field_at(o, 4, "transactionId"@);
    }
}

/// The report of an application tells what its receipt records.
pub proof fn law_applications_are_reported(receipt: ReceiptView, outcome: Seq<char>)
    ensures
        ({
            let report = success_json(receipt, outcome);
            &&& report.get("ok"@) == Some(JsonView::Bool(true))
            &&& report.get("command"@) == Some(JsonView::Array(seq![JsonView::Text("apply"@)]))
            &&& report.get("outcome"@) == Some(JsonView::Text(outcome))
            &&& report.get("schemaVersion"@) == Some(JsonView::Int(1))
            &&& report.get("result"@) matches Some(result)
            &&& result.get("cleanupPending"@) == Some(JsonView::Bool(receipt.cleanup_pending))
            &&& result.get("filesystemState"@) == Some(JsonView::Text(receipt.filesystem_state))
            &&& result.get("manifest"@) == Some(manifests_json(receipt.observed_manifest))
            &&& result.get("outcome"@) == Some(JsonView::Text(outcome))
            &&& receipt.preview_id matches Some(id) ==> result.get("previewId"@) == Some(JsonView::Text(id))
            &&& receipt.preview_id is None ==> result.get("previewId"@) == Some(JsonView::Null)
            &&& result.get("receiptId"@) == Some(JsonView::Text(receipt.receipt_id))
            &&& result.get("sessionSynchronized"@) == Some(JsonView::Bool(receipt.session_synchronized))
            &&& result.get("state"@) == Some(JsonView::Text("terminal"@))
            &&& result.get("transactionId"@) == Some(JsonView::Text(receipt.transaction_id))
        }),
{
    lemma_names();
    let o = success_json(receipt, outcome)->Object_0;
    lemma_field_at(o, 0, "command"@);
    lemma_field_at(o, 1, "ok"@);
    lemma_field_at(o, 2, "outcome"@);
    lemma_field_at(o, 3, "result"@);
    lemma_field_at(o, 4, "schemaVersion"@);
    let r = o[3].1->Object_0;
    lemma_field_at(r, 0, "cleanupPending"@);
    lemma_field_at(r, 2, "filesystemState"@);
    lemma_field_at(r, 3, "manifest"@);
    lemma_field_at(r, 4, "outcome"@);
    lemma_field_at(r, 5, "previewId"@);
    lemma_field_at(r, 6, "receiptId"@);
    lemma_field_at(r, 7, "sessionSynchronized"@);
    lemma_field_at(r, 8, "state"@);
    lemma_field_at(r, 9, "transactionId"@);
}

/// A server is told of each file that was created, renamed or deleted, under
/// its URI and by what it is, and of no edit of text.
pub proof fn law_servers_are_told_of_operations(plan: PlanView, op: OperationView)
    ensures
        op is Text ==> file_operation_json(plan, op) is None,
        op matches OperationView::Create { index, uri, path, overwrite, ignore_if_exists } ==> (file_operation_json(
            plan,
            op,
        ) matches Some(j) && j.get("kind"@) == Some(JsonView::Text("create"@)) && j.get("uri"@) == Some(
            JsonView::Text(uri),
        ) && (recorded(plan.intended_manifest, path) matches Some(m) ==> j.get("isDirectory"@) == Some(
            JsonView::Bool(m.resource_kind == ResourceKind::Directory),
        ))),
        op matches OperationView::Rename {
            index,
            old_uri,
            new_uri,
            old_path,
            new_path,
            overwrite,
            ignore_if_exists,
        } ==> (file_operation_json(plan, op) matches Some(j) && j.get("kind"@) == Some(JsonView::Text("rename"@))
            && j.get("oldUri"@) == Some(JsonView::Text(old_uri)) && j.get("newUri"@) == Some(JsonView::Text(new_uri))
            && (recorded(plan.intended_manifest, new_path) matches Some(m) ==> j.get("isDirectory"@) == Some(
            JsonView::Bool(m.resource_kind == ResourceKind::Directory),
        ))),
        op matches OperationView::Delete { index, uri, path, recursive, ignore_if_not_exists } ==> (
        file_operation_json(plan, op) matches Some(j) && j.get("kind"@) == Some(JsonView::Text("delete"@)) && j.get(
            "uri"@,
        ) == Some(JsonView::Text(uri)) && (recorded(plan.before_manifest, path) matches Some(m) ==> j.get(
            "isDirectory"@,
        ) == Some(JsonView::Bool(m.resource_kind == ResourceKind::Directory)))),
{
    lemma_names();
    if let Some(j) = file_operation_json(plan, op) {
        let o = j->Object_0;
        lemma_field_at(o, 0, "isDirectory"@);
        lemma_field_at(o, 1, "kind"@);
        if op is Rename {
            lemma_field_at(o, 2, "newUri"@);
            lemma_field_at(o, 3, "oldUri"@);
        } else {
            lemma_field_at(o, 2, "uri"@);
        }
    }
}

/// A server is told of the operations in the order in which they are carried
/// out: what it is told of two rows is what it is told of the first and then
/// of the second.
pub proof fn law_servers_are_told_in_order(plan: PlanView, first: Seq<OperationView>, second: Seq<OperationView>)
    ensures
        file_operations_json(plan, first + second) == file_operations_json(plan, first) + file_operations_json(
            plan,
            second,
        ),
    decreases second.len(),
{
    if second.len() > 0 {
        law_servers_are_told_in_order(plan, first, second.drop_last());
        assert((first + second).drop_last() =~= first + second.drop_last());
        assert((first + second).last() == second.last());
        assert(file_operations_json(plan, first + second) =~= file_operations_json(plan, first)
            + file_operations_json(plan, second));
    } else {
        assert(first + second =~= first);
        assert(file_operations_json(plan, first) + file_operations_json(plan, second) =~= file_operations_json(
            plan,
            first,
        ));
    }
}

/// A preview made in units of sixteen bits is read in them, and one made in
/// bytes in bytes.
pub proof fn law_encodings_are_read()
    ensures
        preview_encoding("utf-16"@) == PositionEncoding::Utf16,
        preview_encoding("utf-8"@) == PositionEncoding::Utf8,
{
    reveal_strlit("utf-16");
    reveal_strlit("utf-8");
    assert("utf-16"@.len() != "utf-8"@.len());
}

/// Once a receipt is stored, what was staged is cleaned up, then the preview
/// is retired, then the journal is removed, and then the receipt is marked;
/// where one of these fails, the rest is left for later.
pub proof fn law_cleaning_goes_on_in_order(s: ApplicationView)
    requires
        s.receipt is Some,
        s.has_journal(),
    ensures
        s.phase == Phase::FinishCleaning ==> s.next(EventView::Cleaned(true)).1 is RetirePreview,
        s.phase == Phase::FinishRetiring ==> s.next(EventView::Cleaned(true)).1 is RemoveTransaction,
        s.phase == Phase::FinishRemoving ==> s.next(EventView::Cleaned(true)).1 is MarkCleanupComplete,
        (s.phase == Phase::FinishCleaning || s.phase == Phase::FinishRetiring || s.phase == Phase::FinishRemoving)
            && s.committed ==> (s.next(EventView::Cleaned(false)).0.receipt matches Some(r) && r.cleanup_pending),
        s.phase == Phase::FinishMarking && s.committed ==> (s.next(
            EventView::Cleaned(true),
        ).0.receipt matches Some(r) && !r.cleanup_pending),
{
}

/// Sessions are told of an application once it is cleaned up, where there are
/// any to tell, and only where they follow is the receipt marked.
pub proof fn law_sessions_are_told_after_cleaning(s: ApplicationView, followed: bool)
    requires
        s.receipt is Some,
        s.has_journal(),
        s.committed,
    ensures
        s.phase == Phase::FinishMarking && s.post_commits ==> s.next(EventView::Cleaned(true)).1 is PostCommit,
        s.phase == Phase::FinishMarking && !s.post_commits ==> s.next(EventView::Cleaned(true)).1 is Finish,
        s.phase == Phase::PostCommitting ==> (s.next(EventView::Synchronized(followed)).1 is MarkSynchronized
            <==> followed),
        s.phase == Phase::PostCommitting && !followed ==> s.next(EventView::Synchronized(followed)).1
            == ActionView::Finish(Ok::<JsonView, FailureView>(success_json(s.receipt->0, "applied"@))),
{
}

/// An application that needs leave asks for it once its preview is reserved,
/// and one that does not goes on to the journals.
pub proof fn law_leave_is_asked_for(s: ApplicationView)
    requires
        s.phase == Phase::ReservedDeadline,
        s.stored is Some,
    ensures
        s.reauthorizes ==> s.next(EventView::Deadline(false)).1 is Reauthorize,
        !s.reauthorizes ==> s.next(EventView::Deadline(false)).1 is ListTransactions,
{
}

} // verus!
