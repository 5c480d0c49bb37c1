//! Making a preview of an edit: the edit is planned, the files are inspected once
//! more, and the plan is stored.
//!
//! The caller carries out one action at a time and hands back what it came to.

use vstd::prelude::*;

use crate::application::{Journal, JournalView};
use crate::checks::preview_mismatches;
use crate::failure::{ContractFailure, FailureView};
use crate::json::{Json, JsonView};
use crate::manifest::{ManifestEntry, ManifestView};
use crate::plan::{PlannedWorkspaceEdit, ProblemView, WorkspaceEditProblem};
use crate::plan_edit::PlannedView;
use crate::proposals::{
    PreviewRecordContext,
    authorization_digest,
    authorized_by,
    check_unchanged,
    create_preview_record,
    current_recovery_manifest,
    invalid_edit_failed,
    invalid_workspace_edit,
    recovery_manifest,
    stale_proposal,
};
use crate::records::{PreviewRecord, PreviewView};
use crate::reports::{unsupported_failure, unsupported_filesystem_failure};
use crate::text::{opt_view, views};

verus! {

/// What the making of a preview waits for.
#[derive(Clone, Copy, Debug, PartialEq, Eq, Structural)]
pub enum PreviewPhase {
    Start,
    Planning,
    Inspecting,
    Naming,
    ReadingJournals,
    Storing,
    Finished,
}

/// What an action of the making of a preview came to.
pub enum PreviewEvent {
    Begin,
    /// The filesystem cannot be relied on.
    Unsupported(Vec<WorkspaceEditProblem>),
    /// No plan can be made of the edit.
    Invalid(Vec<WorkspaceEditProblem>),
    Planned(PlannedWorkspaceEdit),
    Inspected(Vec<ManifestEntry>),
    Named(String),
    Journals(Vec<Journal>),
    Stored,
    Failed(ContractFailure),
}

/// What a [`PreviewEvent`] stands for.
pub ghost enum PreviewEventView {
    Begin,
    Unsupported(Seq<ProblemView>),
    Invalid(Seq<ProblemView>),
    Planned(PlannedView),
    Inspected(Seq<ManifestView>),
    Named(Seq<char>),
    Journals(Seq<JournalView>),
    Stored,
    Failed(FailureView),
}

impl View for PreviewEvent {
    type V = PreviewEventView;

    open spec fn view(&self) -> PreviewEventView {
        match self {
            PreviewEvent::Begin => PreviewEventView::Begin,
            PreviewEvent::Unsupported(p) => PreviewEventView::Unsupported(views(p@)),
            PreviewEvent::Invalid(p) => PreviewEventView::Invalid(views(p@)),
            PreviewEvent::Planned(p) => PreviewEventView::Planned(p@),
            PreviewEvent::Inspected(m) => PreviewEventView::Inspected(views(m@)),
            PreviewEvent::Named(id) => PreviewEventView::Named(id@),
            PreviewEvent::Journals(j) => PreviewEventView::Journals(views(j@)),
            PreviewEvent::Stored => PreviewEventView::Stored,
            PreviewEvent::Failed(f) => PreviewEventView::Failed(f@),
        }
    }
}

/// What is to be done next.
pub enum PreviewAction {
    /// Open the workspace and plan the edit.
    Plan,
    /// Inspect what the plan found.
    Inspect,
    /// Draw the name of the preview.
    Name,
    ReadJournals,
    Store { preview: PreviewRecord, authorization_digest: String, recovery_digest: Option<String> },
    /// The preview that was made, where the edit changes anything.
    Finish(Result<Option<String>, ContractFailure>),
}

/// What a [`PreviewAction`] stands for.
pub ghost enum PreviewActionView {
    Plan,
    Inspect,
    Name,
    ReadJournals,
    Store { preview: PreviewView, authorization_digest: Seq<char>, recovery_digest: Option<Seq<char>> },
    Finish(Result<Option<Seq<char>>, FailureView>),
}

impl View for PreviewAction {
    type V = PreviewActionView;

    open spec fn view(&self) -> PreviewActionView {
        match self {
            PreviewAction::Plan => PreviewActionView::Plan,
            PreviewAction::Inspect => PreviewActionView::Inspect,
            PreviewAction::Name => PreviewActionView::Name,
            PreviewAction::ReadJournals => PreviewActionView::ReadJournals,
            PreviewAction::Store { preview, authorization_digest, recovery_digest } => PreviewActionView::Store {
                preview: preview@,
                authorization_digest: authorization_digest@,
                recovery_digest: opt_view(*recovery_digest),
            },
            PreviewAction::Finish(outcome) => PreviewActionView::Finish(
                match outcome {
                    Ok(id) => Ok(opt_view(*id)),
                    Err(f) => Err(f@),
                },
            ),
        }
    }
}

/// The making of a preview.
pub struct PreviewRun {
    pub workspace_uri: String,
    pub server: String,
    pub session_identity: String,
    pub declaration_digest: Option<String>,
    pub position_encoding: String,
    pub source: Json,
    pub edit: Json,
    pub command: Option<Json>,
    /// Whether a server asked for the edit on its own.
    pub callback: bool,
    pub planned: Option<PlannedWorkspaceEdit>,
    pub preview_id: String,
    pub phase: PreviewPhase,
}

/// What a [`PreviewRun`] stands for.
#[verifier::ext_equal]
pub ghost struct PreviewRunView {
    pub workspace_uri: Seq<char>,
    pub server: Seq<char>,
    pub session_identity: Seq<char>,
    pub declaration_digest: Option<Seq<char>>,
    pub position_encoding: Seq<char>,
    pub source: JsonView,
    pub edit: JsonView,
    pub command: Option<JsonView>,
    pub callback: bool,
    pub planned: Option<PlannedView>,
    pub preview_id: Seq<char>,
    pub phase: PreviewPhase,
}

impl View for PreviewRun {
    type V = PreviewRunView;

    open spec fn view(&self) -> PreviewRunView {
        PreviewRunView {
            workspace_uri: self.workspace_uri@,
            server: self.server@,
            session_identity: self.session_identity@,
            declaration_digest: opt_view(self.declaration_digest),
            position_encoding: self.position_encoding@,
            source: self.source@,
            edit: self.edit@,
            command: opt_view(self.command),
            callback: self.callback,
            planned: opt_view(self.planned),
            preview_id: self.preview_id@,
            phase: self.phase,
        }
    }
}

/// What is said of files that changed while an edit was planned.
pub open spec fn changed_message(callback: bool) -> Seq<char> {
    if callback {
        "The Workspace changed while the callback was being planned."@
    } else {
        "The Workspace changed while the Preview was being planned."@
    }
}

impl PreviewRunView {
    /// A plan is there as long as it is needed.
    pub open spec fn sound(self) -> bool {
        match self.phase {
            PreviewPhase::Inspecting | PreviewPhase::Naming | PreviewPhase::ReadingJournals => self.planned is Some,
            _ => true,
        }
    }

    /// Whether what an action came to is what is waited for.
    pub open spec fn expects(self, e: PreviewEventView) -> bool {
        match self.phase {
            PreviewPhase::Start => e is Begin,
            PreviewPhase::Planning => e is Planned || e is Unsupported || e is Invalid,
            PreviewPhase::Inspecting => e is Inspected || e is Unsupported,
            PreviewPhase::Naming => e is Named || e is Failed,
            PreviewPhase::ReadingJournals => e is Journals || e is Failed,
            PreviewPhase::Storing => e is Stored || e is Failed,
            PreviewPhase::Finished => false,
        }
    }

    /// The making in another phase.
    pub open spec fn in_phase(self, phase: PreviewPhase) -> PreviewRunView {
        PreviewRunView { phase, ..self }
    }

    /// The making is at its end.
    pub open spec fn ended(self, outcome: Result<Option<Seq<char>>, FailureView>) -> (
        PreviewRunView,
        PreviewActionView,
    ) {
        (self.in_phase(PreviewPhase::Finished), PreviewActionView::Finish(outcome))
    }

    /// The preview that is made of a plan.
    pub open spec fn preview(self, planned: PlannedView) -> PreviewView {
        PreviewView {
            preview_id: self.preview_id,
            workspace_uri: self.workspace_uri,
            server: Some(self.server),
            session_identity: self.session_identity,
            position_encoding: self.position_encoding,
            expires_at: ""@,
            source: self.source,
            summary: planned.summary,
            edit: self.edit,
            command: self.command,
            annotations: planned.annotations,
            plan: planned.plan,
            preconditions: planned.plan.before_manifest,
            conflicts: seq![],
            stale_reasons: seq![],
            diff: None,
            reserved: false,
        }
    }

    /// What follows once the edit is planned: one that changes nothing is done.
    pub open spec fn after_plan(self, planned: PlannedView) -> (PreviewRunView, PreviewActionView) {
        if planned.plan.operations.len() == 0 {
            self.ended(Ok(None))
        } else {
            (
                (PreviewRunView { planned: Some(planned), ..self }).in_phase(PreviewPhase::Inspecting),
                PreviewActionView::Inspect,
            )
        }
    }

    /// What follows once the files are inspected again: those that changed
    /// meanwhile are not planned for.
    pub open spec fn after_inspection(self, current: Seq<ManifestView>) -> (PreviewRunView, PreviewActionView) {
        let plan = self.planned->0.plan;
        let reasons = preview_mismatches(plan, current);
        if reasons.len() > 0 {
            self.ended(
                Err(stale_proposal(changed_message(self.callback), self.edit, reasons, plan.before_manifest)),
            )
        } else {
            (self.in_phase(PreviewPhase::Naming), PreviewActionView::Name)
        }
    }

    /// What follows once the journals are read.
    pub open spec fn after_journals(self, journals: Seq<JournalView>) -> (PreviewRunView, PreviewActionView) {
        match recovery_manifest(journals, self.workspace_uri) {
            Err(f) => self.ended(Err(f)),
            Ok(recovery_digest) => (
                (PreviewRunView { planned: None, ..self }).in_phase(PreviewPhase::Storing),
                PreviewActionView::Store {
                    preview: self.preview(self.planned->0),
                    authorization_digest: authorized_by(self.session_identity, self.declaration_digest),
                    recovery_digest,
                },
            ),
        }
    }

    /// What follows an event.
    pub open spec fn next(self, e: PreviewEventView) -> (PreviewRunView, PreviewActionView) {
        match e {
            PreviewEventView::Begin => (self.in_phase(PreviewPhase::Planning), PreviewActionView::Plan),
            PreviewEventView::Unsupported(problems) => self.ended(
                Err(unsupported_failure(self.workspace_uri, problems)),
            ),
            PreviewEventView::Invalid(problems) => self.ended(Err(invalid_edit_failed(self.edit, problems))),
            PreviewEventView::Planned(planned) => self.after_plan(planned),
            PreviewEventView::Inspected(current) => self.after_inspection(current),
            PreviewEventView::Named(id) => (
                (PreviewRunView { preview_id: id, ..self }).in_phase(PreviewPhase::ReadingJournals),
                PreviewActionView::ReadJournals,
            ),
            PreviewEventView::Journals(journals) => self.after_journals(journals),
            PreviewEventView::Stored => self.ended(Ok(Some(self.preview_id))),
            PreviewEventView::Failed(f) => self.ended(Err(f)),
        }
    }
}

impl PreviewRun {
    fn fail(&mut self, f: ContractFailure) -> (r: PreviewAction)
        ensures
            (final(self)@, r@) == old(self)@.ended(Err(f@)),
    {
        self.phase = PreviewPhase::Finished;
        PreviewAction::Finish(Err(f))
    }

    fn store(&mut self, planned: PlannedWorkspaceEdit, recovery_digest: Option<String>) -> (r: PreviewAction)
        ensures
            final(self)@ == old(self)@.in_phase(PreviewPhase::Storing),
            r@ == (PreviewActionView::Store {
                preview: old(self)@.preview(planned@),
                authorization_digest: authorized_by(old(self)@.session_identity, old(self)@.declaration_digest),
                recovery_digest: opt_view(recovery_digest),
            }),
    {
        let digest: String = authorization_digest(self.session_identity.as_str(), self.declaration_digest.as_ref());
        let command: Option<Json> = match &self.command {
            Some(c) => Some(c.copy()),
            None => None,
        };
        let preview: PreviewRecord = create_preview_record(
            PreviewRecordContext {
                preview_id: self.preview_id.clone(),
                workspace_uri: self.workspace_uri.clone(),
                server: Some(self.server.clone()),
                session_identity: self.session_identity.clone(),
                position_encoding: self.position_encoding.clone(),
                source: self.source.copy(),
                edit: self.edit.copy(),
                command,
            },
            planned,
        );
        self.phase = PreviewPhase::Storing;
        PreviewAction::Store { preview, authorization_digest: digest, recovery_digest }
    }

    /// Goes on after an event.
    pub fn step(&mut self, event: PreviewEvent) -> (r: PreviewAction)
        requires
            old(self)@.sound(),
            old(self)@.expects(event@),
        ensures
            (final(self)@, r@) == old(self)@.next(event@),
            final(self)@.sound(),
    {
        match event {
            PreviewEvent::Begin => {
                self.phase = PreviewPhase::Planning;
                PreviewAction::Plan
            },
            PreviewEvent::Unsupported(problems) => {
                let f: ContractFailure = unsupported_filesystem_failure(self.workspace_uri.as_str(), &problems);
                self.fail(f)
            },
            PreviewEvent::Invalid(problems) => {
                let f: ContractFailure = invalid_workspace_edit(&self.edit, &problems);
                self.fail(f)
            },
            PreviewEvent::Planned(planned) => {
                assert(planned.plan@.operations.len() == planned.plan.operations@.len());
                if planned.plan.operations.len() == 0 {
                    self.phase = PreviewPhase::Finished;
                    return PreviewAction::Finish(Ok(None));
                }
                self.planned = Some(planned);
                self.phase = PreviewPhase::Inspecting;
                PreviewAction::Inspect
            },
            PreviewEvent::Inspected(current) => {
                let message: &str = if self.callback {
                    "The Workspace changed while the callback was being planned."
                } else {
                    "The Workspace changed while the Preview was being planned."
                };
                let checked: Result<(), ContractFailure> = match &self.planned {
                    Some(planned) => check_unchanged(&planned.plan, &current, &self.edit, message),
                    None => Ok(()),
                };
                match checked {
                    Ok(_) => {
                        self.phase = PreviewPhase::Naming;
                        PreviewAction::Name
                    },
                    Err(f) => self.fail(f),
                }
            },
            PreviewEvent::Named(id) => {
                self.preview_id = id;
                self.phase = PreviewPhase::ReadingJournals;
                PreviewAction::ReadJournals
            },
            PreviewEvent::Journals(journals) => {
                match current_recovery_manifest(&journals, self.workspace_uri.as_str()) {
                    Err(f) => self.fail(f),
                    Ok(recovery_digest) => match self.planned.take() {
                        Some(planned) => self.store(planned, recovery_digest),
                        None => PreviewAction::Plan,
                    },
                }
            },
            PreviewEvent::Stored => {
                self.phase = PreviewPhase::Finished;
                PreviewAction::Finish(Ok(Some(self.preview_id.clone())))
            },
            PreviewEvent::Failed(f) => self.fail(f),
        }
    }
}

/// A preview is stored only of a plan, as the plan is, and rests on what was there
/// when the edit was planned. A preview that is stored was never applied.
pub proof fn law_previews_are_as_planned(run: PreviewRunView, e: PreviewEventView)
    requires
        run.sound(),
        run.expects(e),
    ensures
        run.next(e).1 matches PreviewActionView::Store { preview, authorization_digest, recovery_digest } ==> {
            &&& run.planned matches Some(planned)
            &&& preview.plan == planned.plan
            &&& preview.preconditions == planned.plan.before_manifest
            &&& preview.edit == run.edit
            &&& preview.workspace_uri == run.workspace_uri
            &&& preview.session_identity == run.session_identity
            &&& !preview.reserved
            &&& authorization_digest == authorized_by(run.session_identity, run.declaration_digest)
            &&& e matches PreviewEventView::Journals(journals)
            &&& recovery_manifest(journals, run.workspace_uri) == Ok::<Option<Seq<char>>, FailureView>(
                recovery_digest,
            )
        },
{
}

/// No preview is made of an edit that changes nothing, and none of files that
/// changed while the edit was planned.
pub proof fn law_no_preview_without_change(
    run: PreviewRunView,
    planned: PlannedView,
    current: Seq<ManifestView>,
)
    ensures
        planned.plan.operations.len() == 0 ==> run.next(PreviewEventView::Planned(planned)).1
            == PreviewActionView::Finish(Ok(None)),
        preview_mismatches(planned.plan, current).len() > 0 ==> (PreviewRunView {
            planned: Some(planned),
            ..run
        }).next(PreviewEventView::Inspected(current)).1 == PreviewActionView::Finish(
            Err(
                stale_proposal(
                    changed_message(run.callback),
                    run.edit,
                    preview_mismatches(planned.plan, current),
                    planned.plan.before_manifest,
                ),
            ),
        ),
{
}

} // verus!
