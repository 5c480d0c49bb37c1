//! Running a Query through an Owner: what is asked of it, in which order, and
//! what the Query comes to.
//!
//! The caller carries out one action at a time and hands back what it came to.
//! Clocks are read in nanoseconds.

use vstd::prelude::*;

use crate::capabilities::{Capabilities, CapabilitiesView, copy_value, reported_capabilities};
use crate::compose::{
    ComposedQuery,
    ComposedView,
    DispatchRequest,
    KnownDiagnostics,
    KnownView,
    RequestView,
    compose,
    composed_query,
};
use crate::documents::{DocumentSnapshot, DocumentView};
use crate::failure::{ContractFailure, FailureView, result_view};
use crate::invocation::{InvocationView, ParsedInvocation};
use crate::json::{Json, JsonView, array_view, copy_items};
use crate::owner::{QueueDeadline, queue_deadline_remaining, time_left};
use crate::owner_query::{
    TextSynchronization,
    about_diagnostics,
    adopt_version,
    agreed_encoding,
    agreed_synchronization,
    awaits_published,
    command_is,
    initial_context,
    needs_diagnostics,
    position_encoding,
    published_pause,
    query_context,
    text_synchronization,
    told_version,
    wait_for_published,
};
use crate::position::PositionEncoding;
use crate::query_command::{command_method, positioned};
use crate::query_execute::{
    ContextView,
    DispatchFailure,
    DispatchFailureView,
    DispatchResponse,
    Execution,
    ExecutionFailureView,
    ExecutionView,
    Finish,
    Published,
    QueryContext,
    QueryExecutionFailure,
    ResponseView,
    answered_context,
    capabilities_answer,
    dispatch_failed,
    executed,
    execute,
    execution_context,
    failed_after,
    failed_before,
    finish_execution,
    finished,
    law_composed_queries_are_sendable,
    published_envelope,
    published_report,
    query_dispatch_failure,
    sendable,
};
use crate::query_inputs::{InputRead, InputView, QueryStop, StopView};
use crate::text::{opt_view, views};

verus! {

/// What a Query waits for.
#[derive(Clone, Copy, Debug, PartialEq, Eq, Structural)]
pub enum RunPhase {
    Start,
    AskingCapabilities,
    ReadingDocument,
    /// The first question for diagnostics brings the versions of documents.
    AskingDiagnostics { first: bool },
    Importing { first: bool },
    Pausing,
    ReadingInput,
    TakingPublished,
    Sending,
    FollowingUp,
    Finished,
}

/// What an action of a Query came to.
pub enum RunEvent {
    Begin { now: u128 },
    Failed(ContractFailure),
    /// What an Owner answered.
    Answered { answer: Json, now: u128 },
    Document { document: DocumentSnapshot, now: u128 },
    /// What is known of diagnostics, and whether those of the document are
    /// complete.
    Imported { known: KnownDiagnostics, complete: bool, now: u128 },
    Paused { now: u128 },
    Input(InputRead),
    Published(Published),
    Sent(Result<DispatchResponse, DispatchFailure>),
    FollowedUp(Finish),
}

/// What a [`RunEvent`] stands for.
pub ghost enum RunEventView {
    Begin { now: u128 },
    Failed(FailureView),
    Answered { answer: JsonView, now: u128 },
    Document { document: DocumentView, now: u128 },
    Imported { known: KnownView, complete: bool, now: u128 },
    Paused { now: u128 },
    Input(InputView),
    Published(Published),
    Sent(Result<ResponseView, DispatchFailureView>),
    FollowedUp(Finish),
}

impl View for RunEvent {
    type V = RunEventView;

    open spec fn view(&self) -> RunEventView {
        match self {
            RunEvent::Begin { now } => RunEventView::Begin { now: *now },
            RunEvent::Failed(f) => RunEventView::Failed(f@),
            RunEvent::Answered { answer, now } => RunEventView::Answered { answer: answer@, now: *now },
            RunEvent::Document { document, now } => RunEventView::Document { document: document@, now: *now },
            RunEvent::Imported { known, complete, now } => RunEventView::Imported {
                known: known@,
                complete: *complete,
                now: *now,
            },
            RunEvent::Paused { now } => RunEventView::Paused { now: *now },
            RunEvent::Input(read) => RunEventView::Input(read@),
            RunEvent::Published(published) => RunEventView::Published(*published),
            RunEvent::Sent(outcome) => RunEventView::Sent(result_view(*outcome)),
            RunEvent::FollowedUp(finish) => RunEventView::FollowedUp(*finish),
        }
    }
}

/// What the caller has to do next.
pub enum RunAction {
    AskCapabilities { within: Option<u128> },
    ReadDocument { path: String, synchronization: TextSynchronization },
    /// Ask for diagnostics, and hand the document over or not.
    AskDiagnostics { with_document: bool, within: Option<u128> },
    /// Take in what an Owner knows of diagnostics.
    Import(Json),
    /// Wait so many nanoseconds.
    Pause(u128),
    ReadInput(String),
    /// Look up the diagnostics that were published.
    TakePublished,
    Send(DispatchRequest),
    /// Take in a report, or make a preview.
    FollowUp(Execution),
    /// No such position is in the document.
    RefusePosition { line: u32, column: u32 },
    Finish(Result<Json, QueryExecutionFailure>),
}

/// What a [`RunAction`] stands for.
pub ghost enum RunActionView {
    AskCapabilities { within: Option<u128> },
    ReadDocument { path: Seq<char>, synchronization: TextSynchronization },
    AskDiagnostics { with_document: bool, within: Option<u128> },
    Import(JsonView),
    Pause(u128),
    ReadInput(Seq<char>),
    TakePublished,
    Send(RequestView),
    FollowUp(ExecutionView),
    RefusePosition { line: u32, column: u32 },
    Finish(Result<JsonView, ExecutionFailureView>),
}

impl View for RunAction {
    type V = RunActionView;

    open spec fn view(&self) -> RunActionView {
        match self {
            RunAction::AskCapabilities { within } => RunActionView::AskCapabilities { within: *within },
            RunAction::ReadDocument { path, synchronization } => RunActionView::ReadDocument {
                path: path@,
                synchronization: *synchronization,
            },
            RunAction::AskDiagnostics { with_document, within } => RunActionView::AskDiagnostics {
                with_document: *with_document,
                within: *within,
            },
            RunAction::Import(state) => RunActionView::Import(state@),
            RunAction::Pause(pause) => RunActionView::Pause(*pause),
            RunAction::ReadInput(path) => RunActionView::ReadInput(path@),
            RunAction::TakePublished => RunActionView::TakePublished,
            RunAction::Send(request) => RunActionView::Send(request@),
            RunAction::FollowUp(execution) => RunActionView::FollowUp(execution@),
            RunAction::RefusePosition { line, column } => RunActionView::RefusePosition {
                line: *line,
                column: *column,
            },
            RunAction::Finish(outcome) => RunActionView::Finish(result_view(*outcome)),
        }
    }
}

/// A Query under way.
pub struct QueryRun {
    pub invocation: ParsedInvocation,
    pub workspace_uri: String,
    pub server: String,
    pub session_identity: String,
    pub owner_generation: String,
    pub queue_deadline: Option<QueueDeadline>,
    /// How long published diagnostics are waited for, in milliseconds.
    pub published_wait: u128,
    pub phase: RunPhase,
    pub capabilities: Capabilities,
    pub encoding: PositionEncoding,
    pub document: Option<DocumentSnapshot>,
    pub known: KnownDiagnostics,
    /// Until when published diagnostics are waited for.
    pub until: u128,
    pub inputs: Vec<InputRead>,
    pub composed: Option<ComposedQuery>,
    /// What the report of an answer says besides the answer.
    pub context: Json,
    pub trace: Option<Json>,
    pub apply_edit_ledger: Vec<Json>,
}

/// What a [`QueryRun`] stands for.
#[verifier::ext_equal]
pub ghost struct RunView {
    pub invocation: InvocationView,
    pub workspace_uri: Seq<char>,
    pub server: Seq<char>,
    pub session_identity: Seq<char>,
    pub owner_generation: Seq<char>,
    pub queue_deadline: Option<QueueDeadline>,
    pub published_wait: u128,
    pub phase: RunPhase,
    pub capabilities: CapabilitiesView,
    pub encoding: PositionEncoding,
    pub document: Option<DocumentView>,
    pub known: KnownView,
    pub until: u128,
    pub inputs: Seq<InputView>,
    pub composed: Option<ComposedView>,
    pub context: JsonView,
    pub trace: Option<JsonView>,
    pub apply_edit_ledger: Seq<JsonView>,
}

impl View for QueryRun {
    type V = RunView;

    open spec fn view(&self) -> RunView {
        RunView {
            invocation: self.invocation@,
            workspace_uri: self.workspace_uri@,
            server: self.server@,
            session_identity: self.session_identity@,
            owner_generation: self.owner_generation@,
            queue_deadline: self.queue_deadline,
            published_wait: self.published_wait,
            phase: self.phase,
            capabilities: self.capabilities@,
            encoding: self.encoding,
            document: opt_view(self.document),
            known: self.known@,
            until: self.until,
            inputs: views(self.inputs@),
            composed: opt_view(self.composed),
            context: self.context@,
            trace: opt_view(self.trace),
            apply_edit_ledger: array_view(self.apply_edit_ledger@),
        }
    }
}

/// The state of an answer about diagnostics.
pub open spec fn state_of(answer: JsonView) -> JsonView {
    match answer.get("state"@) {
        Some(state) => state,
        None => JsonView::Null,
    }
}

/// The moment so many milliseconds after another, as far as it can be counted.
pub open spec fn moment_after(now: u128, wait: u128) -> u128 {
    if now + wait * 1_000_000 > u128::MAX {
        u128::MAX
    } else {
        (now + wait * 1_000_000) as u128
    }
}

impl RunView {
    /// Whether a Query waits for what it can go on from.
    pub open spec fn sound(self) -> bool {
        match self.phase {
            RunPhase::TakingPublished => self.composed is Some,
            RunPhase::Sending => self.composed matches Some(q) && sendable(q),
            RunPhase::FollowingUp => self.composed matches Some(q) && q.request is Some && command_method(
                q.command,
            ) is Some,
            _ => true,
        }
    }

    /// Whether what an action came to is what the Query waits for.
    pub open spec fn expects(self, e: RunEventView) -> bool {
        match self.phase {
            RunPhase::Start => e is Begin,
            RunPhase::AskingCapabilities | RunPhase::AskingDiagnostics { .. } => e is Answered || e is Failed,
            RunPhase::ReadingDocument => e is Document || e is Failed,
            RunPhase::Importing { .. } => e is Imported,
            RunPhase::Pausing => e is Paused,
            RunPhase::ReadingInput => e is Input,
            RunPhase::TakingPublished => e is Published,
            RunPhase::Sending => e is Sent,
            RunPhase::FollowingUp => e is FollowedUp,
            RunPhase::Finished => false,
        }
    }

    /// The Query in another phase.
    pub open spec fn in_phase(self, phase: RunPhase) -> RunView {
        RunView { phase, ..self }
    }

    /// The Query is at its end.
    pub open spec fn ended(self, outcome: Result<JsonView, ExecutionFailureView>) -> (RunView, RunActionView) {
        (self.in_phase(RunPhase::Finished), RunActionView::Finish(outcome))
    }

    /// The Query fails before anything is sent.
    pub open spec fn refused(self, f: FailureView) -> (RunView, RunActionView) {
        self.ended(Err(failed_before(f)))
    }

    /// The context in which the Query is sent.
    pub open spec fn place(self) -> ContextView {
        initial_context(
            self.invocation.command,
            self.document,
            self.workspace_uri,
            self.server,
            self.session_identity,
            self.owner_generation,
            self.encoding,
        )
    }

    /// Asks an Owner for what its server can do.
    pub open spec fn asking_capabilities(self, now: u128) -> (RunView, RunActionView) {
        match time_left(self.queue_deadline, now) {
            Err(f) => self.refused(f),
            Ok(within) => (
                self.in_phase(RunPhase::AskingCapabilities),
                RunActionView::AskCapabilities { within },
            ),
        }
    }

    /// Asks an Owner for diagnostics.
    pub open spec fn asking_diagnostics(self, first: bool, now: u128) -> (RunView, RunActionView) {
        match time_left(self.queue_deadline, now) {
            Err(f) => self.refused(f),
            Ok(within) => (
                self.in_phase(RunPhase::AskingDiagnostics { first }),
                RunActionView::AskDiagnostics { with_document: first && self.document is Some, within },
            ),
        }
    }

    /// What follows once the Query is composed.
    pub open spec fn dispatching(self, q: ComposedView) -> (RunView, RunActionView) {
        let ready = RunView { composed: Some(q), ..self };
        match q.capabilities {
            Some(c) => ready.ended(
                Ok(
                    crate::capabilities::capabilities_json(
                        self.place().json(positioned(q.command)),
                        c,
                        q.capabilities_raw,
                    ),
                ),
            ),
            None => match q.request {
                Some(request) => (ready.in_phase(RunPhase::Sending), RunActionView::Send(request)),
                None => (ready.in_phase(RunPhase::TakingPublished), RunActionView::TakePublished),
            },
        }
    }

    /// The Query is composed.
    pub open spec fn composing(self) -> (RunView, RunActionView) {
        match composed_query(
            self.invocation,
            self.document,
            self.encoding,
            self.capabilities,
            Some(self.known),
            self.inputs,
        ) {
            Err(StopView::Failed(f)) => self.refused(f),
            Err(StopView::Outside { line, column }) => (
                self.in_phase(RunPhase::Finished),
                RunActionView::RefusePosition { line, column },
            ),
            Err(StopView::Input(path)) => (self.in_phase(RunPhase::ReadingInput), RunActionView::ReadInput(path)),
            Ok(q) => self.dispatching(q),
        }
    }

    /// What follows once the document is read, where there is one.
    pub open spec fn with_document(self, now: u128) -> (RunView, RunActionView) {
        if about_diagnostics(self.invocation.command) {
            self.asking_diagnostics(true, now)
        } else {
            self.composing()
        }
    }

    /// What follows once an Owner told what its server can do.
    pub open spec fn with_capabilities(self, answer: JsonView, now: u128) -> (RunView, RunActionView) {
        let told = RunView {
            capabilities: reported_capabilities(answer),
            encoding: agreed_encoding(answer),
            ..self
        };
        match self.invocation.value("--file"@) {
            Some(path) => (
                told.in_phase(RunPhase::ReadingDocument),
                RunActionView::ReadDocument { path, synchronization: agreed_synchronization(answer) },
            ),
            None => told.with_document(now),
        }
    }

    /// The document in the version that an Owner tells.
    pub open spec fn versioned(self, answer: JsonView) -> RunView {
        RunView {
            document: match self.document {
                Some(d) => match told_version(answer, d.uri) {
                    Some(v) => Some(DocumentView { version: v as i64, ..d }),
                    None => Some(d),
                },
                None => None,
            },
            ..self
        }
    }

    /// What follows once an Owner told what it knows of diagnostics.
    pub open spec fn with_diagnostics(self, first: bool, answer: JsonView) -> (RunView, RunActionView) {
        let told = if first {
            self.versioned(answer)
        } else {
            self
        };
        (told.in_phase(RunPhase::Importing { first }), RunActionView::Import(state_of(answer)))
    }

    /// What follows once what is known of diagnostics is taken in.
    pub open spec fn imported(self, first: bool, known: KnownView, complete: bool, now: u128) -> (
        RunView,
        RunActionView,
    ) {
        let until = if first {
            moment_after(now, self.published_wait)
        } else {
            self.until
        };
        let aware = RunView { known, until, ..self };
        if command_is(self.invocation.command, "published-diagnostics"@) && self.invocation.has("--file"@) {
            match published_pause(complete, now, until) {
                Some(pause) => (aware.in_phase(RunPhase::Pausing), RunActionView::Pause(pause)),
                None => aware.composing(),
            }
        } else {
            aware.composing()
        }
    }

    /// What follows once the request was sent.
    pub open spec fn sent(self, q: ComposedView, outcome: Result<ResponseView, DispatchFailureView>) -> (
        RunView,
        RunActionView,
    ) {
        match outcome {
            Err(f) => self.ended(Err(dispatch_failed(q, self.place().json(positioned(q.command)), f))),
            Ok(r) => match executed(q, self.place(), r, self.known) {
                Err(f) => self.ended(Err(f)),
                Ok(ExecutionView::Answered(report)) => self.ended(Ok(report)),
                Ok(more) => (
                    RunView {
                        phase: RunPhase::FollowingUp,
                        context: answered_context(self.place(), r).json(positioned(q.command)),
                        trace: r.trace,
                        apply_edit_ledger: r.apply_edit_ledger,
                        ..self
                    },
                    RunActionView::FollowUp(more),
                ),
            },
        }
    }

    /// What a Query comes to whose answer was followed up.
    pub open spec fn followed_up(self, q: ComposedView, finish: Finish) -> (RunView, RunActionView) {
        match finished(q, self.context, finish, self.trace, self.apply_edit_ledger) {
            Ok(report) => self.ended(Ok(report)),
            Err(f) => self.ended(
                Err(failed_after(f, q.request->0.method, self.context, self.trace, self.apply_edit_ledger)),
            ),
        }
    }

    /// The Query after an action came to something, and what comes next.
    pub open spec fn next(self, e: RunEventView) -> (RunView, RunActionView) {
        match e {
            RunEventView::Failed(f) => self.refused(f),
            RunEventView::Begin { now } => self.asking_capabilities(now),
            RunEventView::Answered { answer, now } => match self.phase {
                RunPhase::AskingDiagnostics { first } => self.with_diagnostics(first, answer),
                _ => self.with_capabilities(answer, now),
            },
            RunEventView::Document { document, now } => (RunView {
                document: Some(document),
                ..self
            }).with_document(now),
            RunEventView::Imported { known, complete, now } => match self.phase {
                RunPhase::Importing { first } => self.imported(first, known, complete, now),
                _ => self.imported(true, known, complete, now),
            },
            RunEventView::Paused { now } => self.asking_diagnostics(false, now),
            RunEventView::Input(read) => (RunView { inputs: self.inputs.push(read), ..self }).composing(),
            RunEventView::Published(published) => match published_report(
                self.composed->0,
                self.place().json(positioned(self.composed->0.command)),
                published,
            ) {
                Ok(report) => self.ended(Ok(report)),
                Err(f) => self.refused(f),
            },
            RunEventView::Sent(outcome) => self.sent(self.composed->0, outcome),
            RunEventView::FollowedUp(finish) => self.followed_up(self.composed->0, finish),
        }
    }
}

impl QueryRun {
    fn finish(&mut self, outcome: Result<Json, QueryExecutionFailure>) -> (r: RunAction)
        ensures
            (final(self)@, r@) == old(self)@.ended(result_view(outcome)),
            final(self)@.sound(),
    {
        self.phase = RunPhase::Finished;
        RunAction::Finish(outcome)
    }

    fn refuse(&mut self, f: ContractFailure) -> (r: RunAction)
        ensures
            (final(self)@, r@) == old(self)@.refused(f@),
            final(self)@.sound(),
    {
        self.finish(Err(QueryExecutionFailure::before_dispatch(f)))
    }

    fn place(&self) -> (r: QueryContext)
        ensures
            r@ == self@.place(),
    {
        query_context(
            &self.invocation.command,
            self.document.as_ref(),
            self.workspace_uri.as_str(),
            self.server.as_str(),
            self.session_identity.as_str(),
            self.owner_generation.as_str(),
            self.encoding,
        )
    }

    fn ask_diagnostics(&mut self, first: bool, now: u128) -> (r: RunAction)
        ensures
            (final(self)@, r@) == old(self)@.asking_diagnostics(first, now),
            final(self)@.sound(),
    {
        match queue_deadline_remaining(self.queue_deadline, now) {
            Err(f) => self.refuse(f),
            Ok(within) => {
                self.phase = RunPhase::AskingDiagnostics { first };
                RunAction::AskDiagnostics { with_document: first && self.document.is_some(), within }
            },
        }
    }

    fn compose_next(&mut self) -> (r: RunAction)
        ensures
            (final(self)@, r@) == old(self)@.composing(),
            final(self)@.sound(),
    {
        proof {
            law_composed_queries_are_sendable(
                self@.invocation,
                self@.document,
                self.encoding,
                self@.capabilities,
                Some(self@.known),
                self@.inputs,
            );
        }
        let composed = compose(
            &self.invocation,
            self.document.as_ref(),
            self.encoding,
            &self.capabilities,
            Some(&self.known),
            &self.inputs,
        );
        match composed {
            Err(QueryStop::Failed(f)) => self.refuse(f),
            Err(QueryStop::Outside { line, column }) => {
                self.phase = RunPhase::Finished;
                RunAction::RefusePosition { line, column }
            },
            Err(QueryStop::Input(path)) => {
                self.phase = RunPhase::ReadingInput;
                RunAction::ReadInput(path)
            },
            Ok(query) => {
                let answer: Option<Json> = capabilities_answer(&query, &self.place());
                let request: Option<DispatchRequest> = match &query.request {
                    Some(request) => Some(request.copy()),
                    None => None,
                };
                self.composed = Some(query);
                match answer {
                    Some(report) => self.finish(Ok(report)),
                    None => match request {
                        Some(request) => {
                            self.phase = RunPhase::Sending;
                            RunAction::Send(request)
                        },
                        None => {
                            self.phase = RunPhase::TakingPublished;
                            RunAction::TakePublished
                        },
                    },
                }
            },
        }
    }

    fn go_on_with_document(&mut self, now: u128) -> (r: RunAction)
        ensures
            (final(self)@, r@) == old(self)@.with_document(now),
            final(self)@.sound(),
    {
        if needs_diagnostics(&self.invocation) {
            self.ask_diagnostics(true, now)
        } else {
            self.compose_next()
        }
    }

    fn import(&mut self, first: bool, known: KnownDiagnostics, complete: bool, now: u128) -> (r: RunAction)
        ensures
            (final(self)@, r@) == old(self)@.imported(first, known@, complete, now),
            final(self)@.sound(),
    {
        self.known = known;
        if first {
            self.until = if self.published_wait > (u128::MAX - now) / 1_000_000 {
                u128::MAX
            } else {
                now + self.published_wait * 1_000_000
            };
        }
        if awaits_published(&self.invocation) {
            match wait_for_published(complete, now, self.until) {
                Some(pause) => {
                    self.phase = RunPhase::Pausing;
                    RunAction::Pause(pause)
                },
                None => self.compose_next(),
            }
        } else {
            self.compose_next()
        }
    }

    fn take_answer(&mut self, outcome: Result<DispatchResponse, DispatchFailure>) -> (r: RunAction)
        requires
            old(self)@.sound(),
            old(self)@.phase == RunPhase::Sending,
        ensures
            (final(self)@, r@) == old(self)@.sent(old(self)@.composed->0, result_view(outcome)),
            final(self)@.sound(),
    {
        let context: QueryContext = self.place();
        let query: &ComposedQuery = match &self.composed {
            Some(query) => query,
            None => {
                return RunAction::TakePublished;
            },
        };
        let response: DispatchResponse = match outcome {
            Err(f) => {
                let place: Json = context.json(crate::query_command::has_source_position(query.command));
                let failure: QueryExecutionFailure = query_dispatch_failure(query, place, f);
                return self.finish(Err(failure));
            },
            Ok(response) => response,
        };
        let place: Json = execution_context(query, &context, &response);
        let trace: Option<Json> = copy_value(response.trace.as_ref());
        let ledger: Vec<Json> = copy_items(&response.apply_edit_ledger);
        match execute(query, &context, response, &self.known) {
            Err(f) => self.finish(Err(f)),
            Ok(Execution::Answered(report)) => self.finish(Ok(report)),
            Ok(more) => {
                self.context = place;
                self.trace = trace;
                self.apply_edit_ledger = ledger;
                self.phase = RunPhase::FollowingUp;
                RunAction::FollowUp(more)
            },
        }
    }

    /// What the caller has to do next, given what the last action came to.
    pub fn step(&mut self, event: RunEvent) -> (r: RunAction)
        requires
            old(self)@.sound(),
            old(self)@.expects(event@),
        ensures
            (final(self)@, r@) == old(self)@.next(event@),
            final(self)@.sound(),
    {
        match event {
            RunEvent::Failed(f) => self.refuse(f),
            RunEvent::Begin { now } => match queue_deadline_remaining(self.queue_deadline, now) {
                Err(f) => self.refuse(f),
                Ok(within) => {
                    self.phase = RunPhase::AskingCapabilities;
                    RunAction::AskCapabilities { within }
                },
            },
            RunEvent::Answered { answer, now } => match self.phase {
                RunPhase::AskingDiagnostics { first } => {
                    if first {
                        if let Some(mut document) = self.document.take() {
                            adopt_version(&mut document, &answer);
                            self.document = Some(document);
                        }
                    }
                    let state: Json = match answer.get("state") {
                        Some(state) => state.copy(),
                        None => Json::Null,
                    };
                    self.phase = RunPhase::Importing { first };
                    RunAction::Import(state)
                },
                _ => {
                    self.capabilities = Capabilities::from_owner_result(&answer);
                    self.encoding = position_encoding(&answer);
                    match self.invocation.option_string("--file") {
                        Some(path) => {
                            self.phase = RunPhase::ReadingDocument;
                            RunAction::ReadDocument { path, synchronization: text_synchronization(&answer) }
                        },
                        None => self.go_on_with_document(now),
                    }
                },
            },
            RunEvent::Document { document, now } => {
                self.document = Some(document);
                self.go_on_with_document(now)
            },
            RunEvent::Imported { known, complete, now } => {
                let first: bool = match self.phase {
                    RunPhase::Importing { first } => first,
                    _ => true,
                };
                self.import(first, known, complete, now)
            },
            RunEvent::Paused { now } => self.ask_diagnostics(false, now),
            RunEvent::Input(read) => {
                let ghost before = views(self.inputs@);
                self.inputs.push(read);
                assert(views(self.inputs@) =~= before.push(read@));
                self.compose_next()
            },
            RunEvent::Published(published) => {
                let report: Result<Json, ContractFailure> = match &self.composed {
                    Some(query) => published_envelope(
                        query,
                        self.place().json(crate::query_command::has_source_position(query.command)),
                        published,
                    ),
                    None => Ok(Json::Null),
                };
                match report {
                    Ok(report) => self.finish(Ok(report)),
                    Err(f) => self.refuse(f),
                }
            },
            RunEvent::Sent(outcome) => self.take_answer(outcome),
            RunEvent::FollowedUp(finish) => {
                let outcome: Result<Json, QueryExecutionFailure> = match &self.composed {
                    Some(query) => finish_execution(
                        query,
                        &self.context,
                        finish,
                        self.trace.as_ref(),
                        &self.apply_edit_ledger,
                    ),
                    None => Ok(Json::Null),
                };
                self.finish(outcome)
            },
        }
    }
}

/// Whatever comes back, a Query goes on from where it can go on.
pub proof fn law_queries_stay_sound(s: RunView, e: RunEventView)
    requires
        s.sound(),
        s.expects(e),
    ensures
        s.next(e).0.sound(),
{
    lemma_composing_is_sound(s);
    if let RunEventView::Input(read) = e {
        lemma_composing_is_sound(RunView { inputs: s.inputs.push(read), ..s });
    }
    if let RunEventView::Document { document, now } = e {
        lemma_composing_is_sound(RunView { document: Some(document), ..s });
    }
    if let RunEventView::Answered { answer, now } = e {
        lemma_composing_is_sound(
            RunView { capabilities: reported_capabilities(answer), encoding: agreed_encoding(answer), ..s },
        );
    }
    if let RunEventView::Imported { known, complete, now } = e {
        lemma_composing_is_sound(RunView { known, until: moment_after(now, s.published_wait), ..s });
        lemma_composing_is_sound(RunView { known, ..s });
    }
}

proof fn lemma_composing_is_sound(s: RunView)
    ensures
        s.composing().0.sound(),
{
    law_composed_queries_are_sendable(
        s.invocation,
        s.document,
        s.encoding,
        s.capabilities,
        Some(s.known),
        s.inputs,
    );
}

/// Only what can be sent is sent: a request leaves only with a Query that was
/// composed from what is known, and for which the server has what it needs.
pub proof fn law_sent_queries_were_composed(s: RunView, e: RunEventView, request: RequestView)
    requires
        s.sound(),
        s.expects(e),
        s.next(e).1 == RunActionView::Send(request),
    ensures
        s.next(e).0.composed matches Some(q) && q.request == Some(request) && sendable(q),
{
    law_queries_stay_sound(s, e);
}

} // verus!
