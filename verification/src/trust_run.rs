//! Granting trust: what is declared is held against the digest that was approved,
//! recorded, and told to the Owners that it concerns.
//!
//! The caller carries out one action at a time and hands back what it came to.

use vstd::prelude::*;

use crate::failure::{ContractFailure, FailureView, result_view};
use crate::json::{Json, JsonView, array_view, copy_items};
use crate::sorted::SortedMap;
use crate::text::{copy_opt, copy_strings, opt_view, views};
use crate::trust::{CurrentDeclaration, DeclarationView, TrustStateFile, TrustView, aggregate_digest, aggregate_of};
use crate::trust_commands::{
    change_result,
    denied_in,
    grant_trust,
    granted_json,
    granted_records,
    granted_servers,
    ok_json,
    replacement_failed,
    select_declarations,
    trust_change_envelope,
    with_trusted,
};

verus! {

/// What a grant waits for.
#[derive(Clone, Copy, Debug, PartialEq, Eq, Structural)]
pub enum GrantPhase {
    Start,
    Declaring,
    DeclaringAll,
    Locking,
    ReadingState,
    WritingState,
    ReadingBack,
    Signalling,
    Finished,
}

/// What an action of a grant came to.
pub enum GrantEvent {
    Begin,
    /// What the project declares: of every server, or of the one that was named.
    Declared(SortedMap<String, CurrentDeclaration>),
    /// What the project declares of every server, where it can be told.
    DeclaredAll(Option<SortedMap<String, CurrentDeclaration>>),
    /// The lock of the workspace is held.
    Locked,
    /// What is recorded of trust, and the time.
    State { state: TrustStateFile, now: String },
    Written,
    /// What is recorded of trust once it was written.
    ReadBack(TrustStateFile),
    /// The Owners that were told, and those that were not.
    Signalled { signalled: Vec<String>, failures: Vec<String> },
    Failed(ContractFailure),
}

/// What a [`GrantEvent`] stands for.
pub ghost enum GrantEventView {
    Begin,
    Declared(Map<Seq<char>, DeclarationView>),
    DeclaredAll(Option<Map<Seq<char>, DeclarationView>>),
    Locked,
    State { format_version: u32, records: Seq<TrustView>, now: Seq<char> },
    Written,
    ReadBack(Seq<TrustView>),
    Signalled { signalled: Seq<Seq<char>>, failures: Seq<Seq<char>> },
    Failed(FailureView),
}

impl View for GrantEvent {
    type V = GrantEventView;

    open spec fn view(&self) -> GrantEventView {
        match self {
            GrantEvent::Begin => GrantEventView::Begin,
            GrantEvent::Declared(declarations) => GrantEventView::Declared(declarations@),
            GrantEvent::DeclaredAll(declarations) => GrantEventView::DeclaredAll(opt_view(*declarations)),
            GrantEvent::Locked => GrantEventView::Locked,
            GrantEvent::State { state, now } => GrantEventView::State {
                format_version: state.format_version,
                records: views(state.records@),
                now: now@,
            },
            GrantEvent::Written => GrantEventView::Written,
            GrantEvent::ReadBack(state) => GrantEventView::ReadBack(views(state.records@)),
            GrantEvent::Signalled { signalled, failures } => GrantEventView::Signalled {
                signalled: views(signalled@),
                failures: views(failures@),
            },
            GrantEvent::Failed(f) => GrantEventView::Failed(f@),
        }
    }
}

/// What is to be done next.
pub enum GrantAction {
    /// Find out what the project declares: of every server, or of one.
    Declare(Option<String>),
    /// Find out what the project declares of every server, where that can be told.
    DeclareAll,
    /// Take the lock of the workspace.
    Lock,
    /// Take the lock of the trust state and read it.
    ReadState,
    WriteState(TrustStateFile),
    ReadBack,
    /// Stop the Owners of servers.
    Signal(Vec<String>),
    Finish(Result<Json, ContractFailure>),
}

/// What a [`GrantAction`] stands for.
pub ghost enum GrantActionView {
    Declare(Option<Seq<char>>),
    DeclareAll,
    Lock,
    ReadState,
    WriteState { format_version: u32, records: Seq<TrustView> },
    ReadBack,
    Signal(Seq<Seq<char>>),
    Finish(Result<JsonView, FailureView>),
}

impl View for GrantAction {
    type V = GrantActionView;

    open spec fn view(&self) -> GrantActionView {
        match self {
            GrantAction::Declare(server) => GrantActionView::Declare(opt_view(*server)),
            GrantAction::DeclareAll => GrantActionView::DeclareAll,
            GrantAction::Lock => GrantActionView::Lock,
            GrantAction::ReadState => GrantActionView::ReadState,
            GrantAction::WriteState(state) => GrantActionView::WriteState {
                format_version: state.format_version,
                records: views(state.records@),
            },
            GrantAction::ReadBack => GrantActionView::ReadBack,
            GrantAction::Signal(names) => GrantActionView::Signal(views(names@)),
            GrantAction::Finish(outcome) => GrantActionView::Finish(result_view(*outcome)),
        }
    }
}

/// A grant of trust.
pub struct GrantRun {
    pub command: Vec<String>,
    pub workspace_uri: String,
    /// The server that trust is granted to, or every one.
    pub server: Option<String>,
    /// The digest that was approved.
    pub expected: String,
    /// Whether denials give way.
    pub replace_denial: bool,
    pub declarations: SortedMap<String, CurrentDeclaration>,
    /// The servers that trust is granted to.
    pub names: Vec<String>,
    /// The digest of everything that the project declares.
    pub aggregate: Option<String>,
    /// What is recorded in the end.
    pub records: Vec<Json>,
    pub phase: GrantPhase,
}

/// What a [`GrantRun`] stands for.
#[verifier::ext_equal]
pub ghost struct GrantRunView {
    pub command: Seq<Seq<char>>,
    pub workspace_uri: Seq<char>,
    pub server: Option<Seq<char>>,
    pub expected: Seq<char>,
    pub replace_denial: bool,
    pub declarations: Map<Seq<char>, DeclarationView>,
    pub names: Seq<Seq<char>>,
    pub aggregate: Option<Seq<char>>,
    pub records: Seq<JsonView>,
    pub phase: GrantPhase,
}

impl View for GrantRun {
    type V = GrantRunView;

    open spec fn view(&self) -> GrantRunView {
        GrantRunView {
            command: views(self.command@),
            workspace_uri: self.workspace_uri@,
            server: opt_view(self.server),
            expected: self.expected@,
            replace_denial: self.replace_denial,
            declarations: self.declarations@,
            names: views(self.names@),
            aggregate: opt_view(self.aggregate),
            records: array_view(self.records@),
            phase: self.phase,
        }
    }
}

impl GrantRunView {
    /// Trust is granted only to what is declared.
    pub open spec fn sound(self) -> bool {
        forall|i: int| 0 <= i < self.names.len() ==> self.declarations.dom().contains(#[trigger] self.names[i])
    }

    /// Whether what an action came to is what is waited for.
    pub open spec fn expects(self, e: GrantEventView) -> bool {
        match self.phase {
            GrantPhase::Start => e is Begin,
            GrantPhase::Declaring => e is Failed || (e matches GrantEventView::Declared(d) && (self.server matches Some(
                name,
            ) ==> d.dom().contains(name))),
            GrantPhase::DeclaringAll => e is DeclaredAll,
            GrantPhase::Locking => e is Locked || e is Failed,
            GrantPhase::ReadingState => e is State || e is Failed,
            GrantPhase::WritingState => e is Written || e is Failed,
            GrantPhase::ReadingBack => e is ReadBack || e is Failed,
            GrantPhase::Signalling => e is Signalled,
            GrantPhase::Finished => false,
        }
    }

    /// The grant in another phase.
    pub open spec fn in_phase(self, phase: GrantPhase) -> GrantRunView {
        GrantRunView { phase, ..self }
    }

    /// The grant is at its end.
    pub open spec fn ended(self, outcome: Result<JsonView, FailureView>) -> (GrantRunView, GrantActionView) {
        (self.in_phase(GrantPhase::Finished), GrantActionView::Finish(outcome))
    }

    /// What follows once it is known what is declared: a digest that was not
    /// approved ends the grant.
    pub open spec fn declared(self, declarations: Map<Seq<char>, DeclarationView>) -> (GrantRunView, GrantActionView) {
        match granted_servers(declarations, self.server, self.expected, self.workspace_uri) {
            Err(f) => self.ended(Err(f)),
            Ok(names) => {
                let chosen = GrantRunView { declarations, names, ..self };
                if self.server is Some {
                    (chosen.in_phase(GrantPhase::DeclaringAll), GrantActionView::DeclareAll)
                } else {
                    (
                        (GrantRunView { aggregate: Some(aggregate_of(declarations)), ..chosen }).in_phase(
                            GrantPhase::Locking,
                        ),
                        GrantActionView::Lock,
                    )
                }
            },
        }
    }

    /// The servers that were denied.
    pub open spec fn denied(self, records: Seq<TrustView>) -> Seq<Seq<char>> {
        self.names.filter(denied_in(records, self.workspace_uri))
    }

    /// What follows once it is known what is recorded: a denial ends the grant,
    /// unless denials give way.
    pub open spec fn recorded(self, format_version: u32, records: Seq<TrustView>, now: Seq<char>) -> (
        GrantRunView,
        GrantActionView,
    ) {
        if self.denied(records).len() > 0 && !self.replace_denial {
            self.ended(Err(replacement_failed(self.denied(records), self.server is None)))
        } else {
            (
                self.in_phase(GrantPhase::WritingState),
                GrantActionView::WriteState {
                    format_version,
                    records: with_trusted(records, self.declarations, self.names, self.workspace_uri, now),
                },
            )
        }
    }

    /// What follows an event.
    pub open spec fn next(self, e: GrantEventView) -> (GrantRunView, GrantActionView) {
        match e {
            GrantEventView::Begin => (self.in_phase(GrantPhase::Declaring), GrantActionView::Declare(self.server)),
            GrantEventView::Declared(declarations) => self.declared(declarations),
            GrantEventView::DeclaredAll(declarations) => (
                (GrantRunView {
                    aggregate: match declarations {
                        Some(d) => Some(aggregate_of(d)),
                        None => None,
                    },
                    ..self
                }).in_phase(GrantPhase::Locking),
                GrantActionView::Lock,
            ),
            GrantEventView::Locked => (self.in_phase(GrantPhase::ReadingState), GrantActionView::ReadState),
            GrantEventView::State { format_version, records, now } => self.recorded(format_version, records, now),
            GrantEventView::Written => (self.in_phase(GrantPhase::ReadingBack), GrantActionView::ReadBack),
            GrantEventView::ReadBack(records) => (
                (GrantRunView {
                    records: granted_json(records, self.declarations, self.names, self.workspace_uri),
                    ..self
                }).in_phase(GrantPhase::Signalling),
                GrantActionView::Signal(self.names),
            ),
            GrantEventView::Signalled { signalled, failures } => self.ended(
                Ok(
                    ok_json(
                        self.command,
                        change_result(self.workspace_uri, self.aggregate, self.records, signalled, failures),
                    ),
                ),
            ),
            GrantEventView::Failed(f) => self.ended(Err(f)),
        }
    }
}

impl GrantRun {
    /// A grant that has not begun.
    pub fn new(
        command: Vec<String>,
        workspace_uri: String,
        server: Option<String>,
        expected: String,
        replace_denial: bool,
    ) -> (r: GrantRun)
        ensures
            r@ == (GrantRunView {
                command: views(command@),
                workspace_uri: workspace_uri@,
                server: opt_view(server),
                expected: expected@,
                replace_denial,
                declarations: Map::empty(),
                names: seq![],
                aggregate: None,
                records: seq![],
                phase: GrantPhase::Start,
            }),
            r@.sound(),
    {
        let names: Vec<String> = Vec::new();
        let records: Vec<Json> = Vec::new();
        assert(views(names@) =~= seq![]);
        assert(array_view(records@) =~= seq![]);
        GrantRun {
            command,
            workspace_uri,
            server,
            expected,
            replace_denial,
            declarations: SortedMap::new(),
            names,
            aggregate: None,
            records,
            phase: GrantPhase::Start,
        }
    }

    fn fail(&mut self, f: ContractFailure) -> (r: GrantAction)
        ensures
            (final(self)@, r@) == old(self)@.ended(Err(f@)),
    {
        self.phase = GrantPhase::Finished;
        GrantAction::Finish(Err(f))
    }

    fn choose_servers(&mut self, declarations: SortedMap<String, CurrentDeclaration>) -> (r: GrantAction)
        requires
            old(self)@.sound(),
            old(self)@.server matches Some(name) ==> declarations@.dom().contains(name),
        ensures
            (final(self)@, r@) == old(self)@.declared(declarations@),
            final(self)@.sound(),
    {
        match select_declarations(
            &declarations,
            self.server.as_ref(),
            self.expected.as_str(),
            self.workspace_uri.as_str(),
        ) {
            Err(f) => self.fail(f),
            Ok(names) => {
                let aggregate: String = aggregate_digest(&declarations);
                self.declarations = declarations;
                self.names = names;
                if self.server.is_some() {
                    self.phase = GrantPhase::DeclaringAll;
                    GrantAction::DeclareAll
                } else {
                    self.aggregate = Some(aggregate);
                    self.phase = GrantPhase::Locking;
                    GrantAction::Lock
                }
            },
        }
    }

    fn record(&mut self, state: TrustStateFile, now: &str) -> (r: GrantAction)
        requires
            old(self)@.sound(),
        ensures
            (final(self)@, r@) == old(self)@.recorded(state.format_version, views(state.records@), now@),
            final(self)@.sound(),
    {
        let mut state: TrustStateFile = state;
        proof {
            assert forall|i: int| 0 <= i < self.names@.len() implies self.declarations@.dom().contains(
                (#[trigger] self.names@[i])@,
            ) by {
                assert(self@.names[i] == self.names@[i]@);
            }
        }
        match grant_trust(
            &mut state,
            &self.declarations,
            &self.names,
            self.server.is_none(),
            self.replace_denial,
            self.workspace_uri.as_str(),
            now,
        ) {
            Err(f) => self.fail(f),
            Ok(_) => {
                self.phase = GrantPhase::WritingState;
                GrantAction::WriteState(state)
            },
        }
    }

    fn report(&mut self, signalled: &Vec<String>, failures: &Vec<String>) -> (r: GrantAction)
        ensures
            (final(self)@, r@) == old(self)@.ended(
                Ok(
                    ok_json(
                        old(self)@.command,
                        change_result(
                            old(self)@.workspace_uri,
                            old(self)@.aggregate,
                            old(self)@.records,
                            views(signalled@),
                            views(failures@),
                        ),
                    ),
                ),
            ),
    {
        self.phase = GrantPhase::Finished;
        GrantAction::Finish(
            Ok(
                trust_change_envelope(
                    &self.command,
                    self.workspace_uri.as_str(),
                    copy_opt(&self.aggregate),
                    copy_items(&self.records),
                    signalled,
                    failures,
                ),
            ),
        )
    }

    /// Goes on after an event.
    pub fn step(&mut self, event: GrantEvent) -> (r: GrantAction)
        requires
            old(self)@.sound(),
            old(self)@.expects(event@),
        ensures
            (final(self)@, r@) == old(self)@.next(event@),
            final(self)@.sound(),
    {
        match event {
            GrantEvent::Begin => {
                self.phase = GrantPhase::Declaring;
                GrantAction::Declare(copy_opt(&self.server))
            },
            GrantEvent::Declared(declarations) => self.choose_servers(declarations),
            GrantEvent::DeclaredAll(declarations) => {
                self.aggregate = match &declarations {
                    Some(d) => Some(aggregate_digest(d)),
                    None => None,
                };
                self.phase = GrantPhase::Locking;
                GrantAction::Lock
            },
            GrantEvent::Locked => {
                self.phase = GrantPhase::ReadingState;
                GrantAction::ReadState
            },
            GrantEvent::State { state, now } => self.record(state, now.as_str()),
            GrantEvent::Written => {
                self.phase = GrantPhase::ReadingBack;
                GrantAction::ReadBack
            },
            GrantEvent::ReadBack(state) => {
                self.records = granted_records(
                    &state.records,
                    &self.declarations,
                    &self.names,
                    self.workspace_uri.as_str(),
                );
                self.phase = GrantPhase::Signalling;
                GrantAction::Signal(copy_strings(&self.names))
            },
            GrantEvent::Signalled { signalled, failures } => self.report(&signalled, &failures),
            GrantEvent::Failed(f) => self.fail(f),
        }
    }
}

/// A grant goes on only under the digest that was approved, and writes over a
/// denial only where denials give way.
pub proof fn law_grants_are_approved(
    run: GrantRunView,
    declarations: Map<Seq<char>, DeclarationView>,
    format_version: u32,
    records: Seq<TrustView>,
    now: Seq<char>,
)
    ensures
        ({
            let (chosen, action) = run.next(GrantEventView::Declared(declarations));
            !(action is Finish) ==> {
                &&& run.expected == match run.server {
                    Some(name) => declarations[name].digest,
                    None => aggregate_of(declarations),
                }
                &&& chosen.declarations == declarations
            }
        }),
        run.next(GrantEventView::State { format_version, records, now }).1 is WriteState ==> run.denied(records).len()
            == 0 || run.replace_denial,
{
}

} // verus!
