//! What holds of every application, whatever its actions come to.

use vstd::prelude::*;

use crate::application::{ActionView, ApplicationView, EventView, Phase, shows_applied};
use crate::checks::{mismatches, preview_mismatches};
use crate::failure::FailureView;
use crate::json::JsonView;
use crate::records::TransactionState;
use crate::reports::success_json;

verus! {

/// How far along a phase is.
pub open spec fn rank(phase: Phase) -> int {
    match phase {
        Phase::Start => 0,
        Phase::FirstLookUp => 1,
        Phase::Reading => 2,
        Phase::LookUpAfterUnknown => 3,
        Phase::Locking => 4,
        Phase::LockedLookUp => 5,
        Phase::Reserving => 6,
        Phase::ReservedDeadline => 7,
        Phase::Reauthorizing => 8,
        Phase::Listing => 9,
        Phase::Capacity => 10,
        Phase::Inspecting => 11,
        Phase::Starting => 12,
        Phase::JournalingStage => 13,
        Phase::Staging => 14,
        Phase::StagedDeadline => 15,
        Phase::CleaningFailed => 16,
        Phase::JournalingFailed => 17,
        Phase::RemovingFailed => 18,
        Phase::Releasing => 19,
        Phase::JournalingCommit => 20,
        Phase::Committing => 21,
        Phase::Verifying => 22,
        Phase::JournalingApplied => 23,
        Phase::StoringApplied => 24,
        Phase::RollingBack => 25,
        Phase::JournalingRolledBack => 26,
        Phase::StoringRolledBack => 27,
        Phase::Salvaging => 28,
        Phase::JournalingRecovery => 29,
        Phase::StoringRecovery => 30,
        Phase::FinishCleaning => 31,
        Phase::FinishRetiring => 32,
        Phase::FinishRemoving => 33,
        Phase::FinishMarking => 34,
        Phase::PostCommitting => 35,
        Phase::MarkingSynchronized => 36,
        Phase::Finished => 37,
    }
}

/// Whether the preview was found to fit.
pub open spec fn found_fitting(phase: Phase) -> bool {
    12 <= rank(phase) && phase != Phase::Releasing && phase != Phase::Finished
}

/// What holds of an application at each moment.
pub open spec fn sound(s: ApplicationView) -> bool {
    &&& found_fitting(s.phase) ==> s.stored is Some && preview_mismatches(
        s.stored->0.preview.plan,
        s.current,
    ).len() == 0
    &&& found_fitting(s.phase) && s.phase != Phase::Starting ==> {
        let t = s.transaction->0;
        &&& s.transaction is Some
        &&& t.preview_id == s.preview_id
        &&& t.operations == s.stored->0.preview.plan.operations
        &&& t.before_manifest == s.stored->0.preview.plan.before_manifest
        &&& t.intended_manifest == s.stored->0.preview.plan.intended_manifest
    }
    &&& s.phase == Phase::JournalingCommit || s.phase == Phase::Committing ==> s.transaction->0.state
        == TransactionState::Committing
    &&& s.phase == Phase::JournalingApplied || s.phase == Phase::StoringApplied ==> s.committed
    &&& 25 <= rank(s.phase) <= 30 ==> !s.committed
    &&& 35 <= rank(s.phase) <= 36 ==> s.committed
    &&& s.committed && 23 <= rank(s.phase) < 37 ==> mismatches(
        s.stored->0.preview.plan.intended_manifest,
        s.transaction->0.observed_manifest,
    ).len() == 0
    &&& !s.committed && 26 <= rank(s.phase) < 37 && s.phase != Phase::Salvaging ==> s.transaction->0.state
        == TransactionState::CleanupPending || s.transaction->0.state == TransactionState::RecoveryRequired
}

proof fn lemma_unreserved_kept(s: ApplicationView, e: EventView)
    requires
        sound(s),
        s.expects(e),
        s.unreserved(),
    ensures
        sound(s.next(e).0),
{
}

proof fn lemma_unreserved_leads_on(s: ApplicationView, e: EventView)
    requires
        s.expects(e),
        s.unreserved(),
    ensures
        rank(s.next(e).0.phase) > rank(s.phase),
{
}

proof fn lemma_reserved_kept(s: ApplicationView, e: EventView)
    requires
        sound(s),
        s.expects(e),
        s.reserved_only(),
    ensures
        sound(s.next(e).0),
{
}

proof fn lemma_reserved_leads_on(s: ApplicationView, e: EventView)
    requires
        s.expects(e),
        s.reserved_only(),
    ensures
        rank(s.next(e).0.phase) > rank(s.phase),
{
}

proof fn lemma_staging_kept(s: ApplicationView, e: EventView)
    requires
        sound(s),
        s.expects(e),
        s.staging(),
    ensures
        sound(s.next(e).0),
{
}

proof fn lemma_staging_leads_on(s: ApplicationView, e: EventView)
    requires
        s.expects(e),
        s.staging(),
    ensures
        rank(s.next(e).0.phase) > rank(s.phase),
{
}

proof fn lemma_underway_kept(s: ApplicationView, e: EventView)
    requires
        sound(s),
        s.expects(e),
        s.underway(),
    ensures
        sound(s.next(e).0),
{
}

proof fn lemma_underway_leads_on(s: ApplicationView, e: EventView)
    requires
        s.expects(e),
        s.underway(),
    ensures
        rank(s.next(e).0.phase) > rank(s.phase),
{
}

proof fn lemma_stored_kept(s: ApplicationView, e: EventView)
    requires
        sound(s),
        s.expects(e),
        !s.unreserved(),
        !s.reserved_only(),
        !s.staging(),
        !s.underway(),
    ensures
        sound(s.next(e).0),
{
}

proof fn lemma_stored_leads_on(s: ApplicationView, e: EventView)
    requires
        s.expects(e),
        !s.unreserved(),
        !s.reserved_only(),
        !s.staging(),
        !s.underway(),
    ensures
        rank(s.next(e).0.phase) > rank(s.phase),
{
}

/// What holds at each moment holds after each step.
pub proof fn law_soundness_is_kept(s: ApplicationView, e: EventView)
    requires
        sound(s),
        s.expects(e),
    ensures
        sound(s.next(e).0),
{
    if s.unreserved() {
        lemma_unreserved_kept(s, e);
    } else if s.reserved_only() {
        lemma_reserved_kept(s, e);
    } else if s.staging() {
        lemma_staging_kept(s, e);
    } else if s.underway() {
        lemma_underway_kept(s, e);
    } else {
        lemma_stored_kept(s, e);
    }
}

/// Each step leads further on, so that an application ends.
pub proof fn law_each_step_leads_on(s: ApplicationView, e: EventView)
    requires
        s.expects(e),
    ensures
        rank(s.next(e).0.phase) > rank(s.phase),
{
    if s.unreserved() {
        lemma_unreserved_leads_on(s, e);
    } else if s.reserved_only() {
        lemma_reserved_leads_on(s, e);
    } else if s.staging() {
        lemma_staging_leads_on(s, e);
    } else if s.underway() {
        lemma_underway_leads_on(s, e);
    } else {
        lemma_stored_leads_on(s, e);
    }
}

/// Operations are carried out only after their journal was written: it names
/// them, says that they are under way, and belongs to a preview that fits what
/// was found in the workspace.
pub proof fn law_commit_is_journalled_and_fits(s: ApplicationView, e: EventView)
    requires
        sound(s),
        s.expects(e),
        s.next(e).1 is Commit,
    ensures
        s.phase == Phase::JournalingCommit,
        e is Done,
        s.transaction->0.state == TransactionState::Committing,
        s.transaction->0.operations == s.stored->0.preview.plan.operations,
        preview_mismatches(s.stored->0.preview.plan, s.current).len() == 0,
{
}

/// A preview that no longer fits what is found in the workspace is given up.
pub proof fn law_stale_preview_is_given_up(s: ApplicationView, e: EventView)
    requires
        s.expects(e),
        s.phase == Phase::Inspecting,
        e matches EventView::Manifest(current) && preview_mismatches(s.stored->0.preview.plan, current).len() > 0,
    ensures
        s.next(e).1 is ReleasePreview,
        s.next(e).0.phase == Phase::Releasing,
        s.next(e).0.pending is Some,
        s.next(e).0.pending->0.code == "preview_stale"@,
{
}

/// Once a receipt shows that a preview was applied, it is not applied again.
pub proof fn law_applied_once(s: ApplicationView, receipt: Option<crate::records::ReceiptView>)
    requires
        s.phase == Phase::FirstLookUp || s.phase == Phase::LookUpAfterUnknown || s.phase == Phase::LockedLookUp,
        shows_applied(receipt),
    ensures
        s.next(EventView::Receipt(receipt)).1 == ActionView::Finish(
            Ok::<JsonView, FailureView>(success_json(receipt->0, "already_applied"@)),
        ),
{
}

/// An application that reports success has left the workspace as it was
/// intended.
pub proof fn law_success_means_intended(s: ApplicationView, e: EventView)
    requires
        sound(s),
        s.expects(e),
        s.next(e).1 matches ActionView::Finish(r) && r is Ok,
        rank(s.phase) > 6,
    ensures
        s.committed,
        mismatches(s.stored->0.preview.plan.intended_manifest, s.transaction->0.observed_manifest).len() == 0,
{
}

/// From the moment that operations are carried out, an application ends only
/// once a receipt is stored, or where storing something failed.
pub proof fn law_receipt_before_the_end(s: ApplicationView, e: EventView)
    requires
        s.expects(e),
        s.underway(),
        s.next(e).1 is Finish,
    ensures
        e is Failed || (s.phase == Phase::StoringRecovery && e is Stored),
{
}

/// Where a reserved preview is not applied, the reservation is given up,
/// unless something stored could not be read or written, or the filesystem
/// could not be relied on.
pub proof fn law_refusal_gives_up_the_reservation(s: ApplicationView, e: EventView)
    requires
        s.expects(e),
        7 <= rank(s.phase) <= 12,
        s.next(e).1 is Finish,
    ensures
        e is Failed || e is Unsupported,
        s.phase != Phase::ReservedDeadline && s.phase != Phase::Reauthorizing,
{
}

/// The application after a row of events.
pub open spec fn after_events(s: ApplicationView, events: Seq<EventView>) -> ApplicationView
    decreases events.len(),
{
    if events.len() == 0 {
        s
    } else {
        after_events(s, events.drop_last()).next(events.last()).0
    }
}

/// Whether each event of a row can follow in its place.
pub open spec fn possible(s: ApplicationView, events: Seq<EventView>) -> bool
    decreases events.len(),
{
    events.len() == 0 || (possible(s, events.drop_last()) && after_events(s, events.drop_last()).expects(events.last()))
}

/// What holds at each moment holds after any row of events.
pub proof fn law_always_sound(s: ApplicationView, events: Seq<EventView>)
    requires
        s.phase == Phase::Start,
        possible(s, events),
    ensures
        sound(after_events(s, events)),
    decreases events.len(),
{
    if events.len() > 0 {
        law_always_sound(s, events.drop_last());
        law_soundness_is_kept(after_events(s, events.drop_last()), events.last());
    }
}

proof fn lemma_rank_grows(s: ApplicationView, events: Seq<EventView>, n: int)
    requires
        possible(s, events),
        0 <= n < events.len(),
    ensures
        rank(after_events(s, events.take(n)).phase) < rank(after_events(s, events).phase),
        possible(s, events.take(n)),
    decreases events.len(),
{
    let rest = events.drop_last();
    law_each_step_leads_on(after_events(s, rest), events.last());
    if n < rest.len() {
        lemma_rank_grows(s, rest, n);
        assert(rest.take(n) =~= events.take(n));
    } else {
        assert(rest =~= events.take(n));
    }
}

/// In one application the operations are carried out at most once: of two
/// moments in it, at most one comes to carrying them out.
pub proof fn law_commits_at_most_once(s: ApplicationView, events: Seq<EventView>, n: int)
    requires
        s.phase == Phase::Start,
        possible(s, events),
        0 <= n < events.len(),
    ensures
        !(after_events(s, events.take(n)).phase == Phase::Committing && after_events(s, events).phase
            == Phase::Committing),
{
    lemma_rank_grows(s, events, n);
}

} // verus!
