//! The command that applies a preview: which settings the application gets, and
//! how the session learns of what was changed.
//!
//! The caller carries out one action at a time and hands back what it came to.

use vstd::prelude::*;

use crate::failure::{ContractFailure, FailureView, result_view};
use crate::json::{Json, JsonView};
use crate::manifest::PathView;
use crate::mutation_reports::{
    receipt_to_synchronize,
    synchronize_application_receipt,
    synchronized_report,
    unsynchronized_receipt,
};
use crate::path::NativePath;
use crate::proposals::is_applied;
use crate::records::{StoredPreview, StoredPreviewView, StoredReceipt, StoredReceiptView};
use crate::text::{opt_view, views};

verus! {

/// What the command waits for.
#[derive(Clone, Copy, Debug, PartialEq, Eq, Structural)]
pub enum ApplyPhase {
    Start,
    LookingUp,
    ReadingPreview,
    Configuring,
    Applying,
    ReadingReceipt,
    Refreshing,
    Marking,
    Finished,
}

/// What an action of the command came to.
pub enum ApplyEvent {
    Begin,
    /// The receipt of the preview, where there is one.
    LookedUp(Option<StoredReceipt>),
    Preview(StoredPreview),
    Configured,
    Applied(Json),
    Receipt(StoredReceipt),
    /// The Owners that did not read their documents again.
    Refreshed(Vec<String>),
    Marked,
    Failed(ContractFailure),
}

/// What an [`ApplyEvent`] stands for.
pub ghost enum ApplyEventView {
    Begin,
    LookedUp(Option<StoredReceiptView>),
    Preview(StoredPreviewView),
    Configured,
    Applied(JsonView),
    Receipt(StoredReceiptView),
    Refreshed(Seq<Seq<char>>),
    Marked,
    Failed(FailureView),
}

impl View for ApplyEvent {
    type V = ApplyEventView;

    open spec fn view(&self) -> ApplyEventView {
        match self {
            ApplyEvent::Begin => ApplyEventView::Begin,
            ApplyEvent::LookedUp(receipt) => ApplyEventView::LookedUp(opt_view(*receipt)),
            ApplyEvent::Preview(stored) => ApplyEventView::Preview(stored@),
            ApplyEvent::Configured => ApplyEventView::Configured,
            ApplyEvent::Applied(application) => ApplyEventView::Applied(application@),
            ApplyEvent::Receipt(stored) => ApplyEventView::Receipt(stored@),
            ApplyEvent::Refreshed(failures) => ApplyEventView::Refreshed(views(failures@)),
            ApplyEvent::Marked => ApplyEventView::Marked,
            ApplyEvent::Failed(f) => ApplyEventView::Failed(f@),
        }
    }
}

/// What is to be done next.
pub enum ApplyAction {
    /// Look for the receipt of the preview.
    LookUp,
    ReadPreview,
    /// Load the configuration of a workspace.
    Configure(NativePath),
    /// Apply the preview: in its workspace as it is configured, where it is to be
    /// authorized again, or only report what was done before.
    Apply { again: bool },
    ReadReceipt(String),
    /// Have Owners read their documents again.
    Refresh { workspace_uri: String, server: Option<String>, session_identity: Option<String> },
    /// Note that the session knows what was changed.
    Mark(String),
    Finish(Result<Json, ContractFailure>),
}

/// What an [`ApplyAction`] stands for.
pub ghost enum ApplyActionView {
    LookUp,
    ReadPreview,
    Configure(PathView),
    Apply { again: bool },
    ReadReceipt(Seq<char>),
    Refresh { workspace_uri: Seq<char>, server: Option<Seq<char>>, session_identity: Option<Seq<char>> },
    Mark(Seq<char>),
    Finish(Result<JsonView, FailureView>),
}

impl View for ApplyAction {
    type V = ApplyActionView;

    open spec fn view(&self) -> ApplyActionView {
        match self {
            ApplyAction::LookUp => ApplyActionView::LookUp,
            ApplyAction::ReadPreview => ApplyActionView::ReadPreview,
            ApplyAction::Configure(path) => ApplyActionView::Configure(path@),
            ApplyAction::Apply { again } => ApplyActionView::Apply { again: *again },
            ApplyAction::ReadReceipt(id) => ApplyActionView::ReadReceipt(id@),
            ApplyAction::Refresh { workspace_uri, server, session_identity } => ApplyActionView::Refresh {
                workspace_uri: workspace_uri@,
                server: opt_view(*server),
                session_identity: opt_view(*session_identity),
            },
            ApplyAction::Mark(id) => ApplyActionView::Mark(id@),
            ApplyAction::Finish(outcome) => ApplyActionView::Finish(result_view(*outcome)),
        }
    }
}

/// The command that applies a preview.
pub struct ApplyRun {
    pub phase: ApplyPhase,
    /// The report of the application.
    pub application: Option<Json>,
    /// The receipt of an application that the session does not know of.
    pub receipt_id: String,
}

/// What an [`ApplyRun`] stands for.
#[verifier::ext_equal]
pub ghost struct ApplyRunView {
    pub phase: ApplyPhase,
    pub application: Option<JsonView>,
    pub receipt_id: Seq<char>,
}

impl View for ApplyRun {
    type V = ApplyRunView;

    open spec fn view(&self) -> ApplyRunView {
        ApplyRunView {
            phase: self.phase,
            application: opt_view(self.application),
            receipt_id: self.receipt_id@,
        }
    }
}

/// An application is already done: its receipt says that it was applied.
pub open spec fn done_before(receipt: Option<StoredReceiptView>) -> bool {
    receipt matches Some(stored) && stored.receipt.outcome == "applied"@
}

impl ApplyRunView {
    /// The report is there as long as it is needed.
    pub open spec fn sound(self) -> bool {
        match self.phase {
            ApplyPhase::ReadingReceipt | ApplyPhase::Refreshing | ApplyPhase::Marking => self.application is Some,
            _ => true,
        }
    }

    /// Whether what an action came to is what is waited for.
    pub open spec fn expects(self, e: ApplyEventView) -> bool {
        match self.phase {
            ApplyPhase::Start => e is Begin,
            ApplyPhase::LookingUp => e is LookedUp || e is Failed,
            ApplyPhase::ReadingPreview => e is Preview || e is Failed,
            ApplyPhase::Configuring => e is Configured || e is Failed,
            ApplyPhase::Applying => e is Applied || e is Failed,
            ApplyPhase::ReadingReceipt => e is Receipt || e is Failed,
            ApplyPhase::Refreshing => e is Refreshed,
            ApplyPhase::Marking => e is Marked || e is Failed,
            ApplyPhase::Finished => false,
        }
    }

    /// The command in another phase.
    pub open spec fn in_phase(self, phase: ApplyPhase) -> ApplyRunView {
        ApplyRunView { phase, ..self }
    }

    /// The command is at its end.
    pub open spec fn ended(self, outcome: Result<JsonView, FailureView>) -> (ApplyRunView, ApplyActionView) {
        ((ApplyRunView { application: None, ..self }).in_phase(ApplyPhase::Finished), ApplyActionView::Finish(outcome))
    }

    /// What follows an application.
    pub open spec fn after_application(self, application: JsonView) -> (ApplyRunView, ApplyActionView) {
        match unsynchronized_receipt(application) {
            None => self.ended(Ok(application)),
            Some(id) => (
                ApplyRunView {
                    phase: ApplyPhase::ReadingReceipt,
                    application: Some(application),
                    receipt_id: id,
                },
                ApplyActionView::ReadReceipt(id),
            ),
        }
    }

    /// What follows an event.
    pub open spec fn next(self, e: ApplyEventView) -> (ApplyRunView, ApplyActionView) {
        match e {
            ApplyEventView::Begin => (self.in_phase(ApplyPhase::LookingUp), ApplyActionView::LookUp),
            ApplyEventView::LookedUp(receipt) => if done_before(receipt) {
                (self.in_phase(ApplyPhase::Applying), ApplyActionView::Apply { again: false })
            } else {
                (self.in_phase(ApplyPhase::ReadingPreview), ApplyActionView::ReadPreview)
            },
            ApplyEventView::Preview(stored) => (
                self.in_phase(ApplyPhase::Configuring),
                ApplyActionView::Configure(stored.workspace_path),
            ),
            ApplyEventView::Configured => (
                self.in_phase(ApplyPhase::Applying),
                ApplyActionView::Apply { again: true },
            ),
            ApplyEventView::Applied(application) => self.after_application(application),
            ApplyEventView::Receipt(stored) => (
                self.in_phase(ApplyPhase::Refreshing),
                ApplyActionView::Refresh {
                    workspace_uri: stored.receipt.workspace_uri,
                    server: stored.receipt.server,
                    session_identity: stored.receipt.session_identity,
                },
            ),
            ApplyEventView::Refreshed(failures) => if failures.len() == 0 {
                (self.in_phase(ApplyPhase::Marking), ApplyActionView::Mark(self.receipt_id))
            } else {
                self.ended(Ok(synchronized_report(self.application->0, failures)))
            },
            ApplyEventView::Marked => self.ended(Ok(synchronized_report(self.application->0, seq![]))),
            ApplyEventView::Failed(f) => self.ended(Err(f)),
        }
    }
}

impl ApplyRun {
    /// A command that has not begun.
    pub fn new() -> (r: ApplyRun)
        ensures
            r@ == (ApplyRunView { phase: ApplyPhase::Start, application: None, receipt_id: ""@ }),
            r@.sound(),
    {
        ApplyRun { phase: ApplyPhase::Start, application: None, receipt_id: "".to_owned() }
    }

    fn report(&mut self, failures: &Vec<String>) -> (r: ApplyAction)
        requires
            old(self)@.application is Some,
        ensures
            (final(self)@, r@) == old(self)@.ended(
                Ok(synchronized_report(old(self)@.application->0, views(failures@))),
            ),
    {
        self.phase = ApplyPhase::Finished;
        match self.application.take() {
            Some(application) => ApplyAction::Finish(Ok(synchronize_application_receipt(application, failures))),
            None => ApplyAction::LookUp,
        }
    }

    /// Goes on after an event.
    pub fn step(&mut self, event: ApplyEvent) -> (r: ApplyAction)
        requires
            old(self)@.sound(),
            old(self)@.expects(event@),
        ensures
            (final(self)@, r@) == old(self)@.next(event@),
            final(self)@.sound(),
    {
        match event {
            ApplyEvent::Begin => {
                self.phase = ApplyPhase::LookingUp;
                ApplyAction::LookUp
            },
            ApplyEvent::LookedUp(receipt) => if is_applied(receipt.as_ref()) {
                self.phase = ApplyPhase::Applying;
                ApplyAction::Apply { again: false }
            } else {
                self.phase = ApplyPhase::ReadingPreview;
                ApplyAction::ReadPreview
            },
            ApplyEvent::Preview(stored) => {
                self.phase = ApplyPhase::Configuring;
                ApplyAction::Configure(stored.workspace_path)
            },
            ApplyEvent::Configured => {
                self.phase = ApplyPhase::Applying;
                ApplyAction::Apply { again: true }
            },
            ApplyEvent::Applied(application) => match receipt_to_synchronize(&application) {
                None => {
                    self.phase = ApplyPhase::Finished;
                    self.application = None;
                    ApplyAction::Finish(Ok(application))
                },
                Some(id) => {
                    self.phase = ApplyPhase::ReadingReceipt;
                    self.application = Some(application);
                    self.receipt_id = id.clone();
                    ApplyAction::ReadReceipt(id)
                },
            },
            ApplyEvent::Receipt(stored) => {
                self.phase = ApplyPhase::Refreshing;
                ApplyAction::Refresh {
                    workspace_uri: stored.receipt.workspace_uri,
                    server: stored.receipt.server,
                    session_identity: stored.receipt.session_identity,
                }
            },
            ApplyEvent::Refreshed(failures) => {
                assert(views(failures@).len() == failures@.len());
                if failures.len() == 0 {
                    self.phase = ApplyPhase::Marking;
                    ApplyAction::Mark(self.receipt_id.clone())
                } else {
                    self.report(&failures)
                }
            },
            ApplyEvent::Marked => {
                let none: Vec<String> = Vec::new();
                assert(views(none@) =~= seq![]);
                self.report(&none)
            },
            ApplyEvent::Failed(f) => {
                self.phase = ApplyPhase::Finished;
                self.application = None;
                ApplyAction::Finish(Err(f))
            },
        }
    }
}

/// A preview whose receipt says that it was applied is not applied again: what was
/// done is only reported.
pub proof fn law_applied_once(run: ApplyRunView, receipt: StoredReceiptView)
    ensures
        receipt.receipt.outcome == "applied"@ ==> run.next(ApplyEventView::LookedUp(Some(receipt))).1
            == (ApplyActionView::Apply { again: false }),
{
}

/// A session is noted to know of a change only after every Owner has taken notice,
/// and the receipt that is noted is the one of the application.
pub proof fn law_sessions_are_marked_when_all_know(run: ApplyRunView, e: ApplyEventView)
    requires
        run.sound(),
        run.expects(e),
    ensures
        run.next(e).1 matches ApplyActionView::Mark(id) ==> e == ApplyEventView::Refreshed(seq![]) && id
            == run.receipt_id,
{
    if let ApplyEventView::Refreshed(failures) = e {
        if failures.len() == 0 {
            assert(failures =~= seq![]);
        }
    }
}

} // verus!
