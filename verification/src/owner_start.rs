//! Connecting to the Owner of a session, or starting it.

use vstd::prelude::*;

use crate::configuration::{EffectiveServer, LoadedConfiguration};
use crate::failure::{ContractFailure, FailureView, failed, failure};
use crate::json::{
    Json,
    JsonView,
    array_view,
    object2,
    object3,
    object_view,
    opt_text_value,
    opt_text_view,
    push_field,
    text_value,
};
use crate::owner::{
    EndpointView,
    OwnerEndpoint,
    contract_failure_from_owner,
    duration_millis,
    no_session,
    owner_unavailable,
    owners_unavailable,
    reported_failure,
    unavailable_owner,
};
use crate::reports::texts_json;
use crate::settings::{MutationSettings, PreviewSettings, ReceiptSettings};
use crate::store::texts_value;
use crate::text::{concat, copy_opt, copy_strings, opt_ref_view, opt_view, same, same_opt, views};
use crate::timing::{LockAttempt, LockStep, LockStepView, duration_of, os_code_json, os_code_value};

verus! {

/// How far the start of an Owner is.
#[derive(Clone, Copy, Debug, PartialEq, Eq, Structural)]
pub enum StartPhase {
    /// Is there an Owner?
    Looking,
    /// May the server be launched still?
    Authorizing,
    /// The lock of the start is being taken.
    Locking,
    /// Is there an Owner by now?
    LookingAgain,
    /// The settings of the Owner are being written.
    Writing,
    /// The process is being started.
    Spawning,
    /// The Owner has until then to record itself.
    Waiting(u128),
    Done,
}

/// The start of the Owner of a session.
pub struct OwnerStart {
    pub session_identity: String,
    pub server: String,
    pub executable: String,
    pub workspace_uri: String,
    pub workspace: String,
    /// The digest of what the project declares, where it declares something.
    pub declaration_digest: Option<String>,
    /// How long the Owner has to record itself, in the unit in which the clock is
    /// read.
    pub timeout: u128,
    pub phase: StartPhase,
}

/// What an [`OwnerStart`] stands for.
#[verifier::ext_equal]
pub ghost struct StartView {
    pub session_identity: Seq<char>,
    pub server: Seq<char>,
    pub executable: Seq<char>,
    pub workspace_uri: Seq<char>,
    pub workspace: Seq<char>,
    pub declaration_digest: Option<Seq<char>>,
    pub timeout: u128,
    pub phase: StartPhase,
}

impl View for OwnerStart {
    type V = StartView;

    open spec fn view(&self) -> StartView {
        StartView {
            session_identity: self.session_identity@,
            server: self.server@,
            executable: self.executable@,
            workspace_uri: self.workspace_uri@,
            workspace: self.workspace@,
            declaration_digest: opt_view(self.declaration_digest),
            timeout: self.timeout,
            phase: self.phase,
        }
    }
}

/// What happened.
pub enum StartEvent {
    /// The Owner that is recorded and answers, where there is one.
    Looked(Option<OwnerEndpoint>),
    /// The digest of what the project declares now, or why it may not be
    /// launched.
    Authorized(Result<Option<String>, ContractFailure>),
    /// Whether the lock of the start is held.
    Locked(Result<(), ContractFailure>),
    /// Whether the settings of the Owner are written.
    Written(Result<(), ContractFailure>),
    /// Whether the process was started, and when.
    Spawned { outcome: Result<(), Option<i32>>, now: u128 },
    /// What is recorded, whether it answers, and when that was asked.
    Polled { found: Option<OwnerEndpoint>, answers: bool, now: u128 },
}

/// What a [`StartEvent`] stands for.
pub ghost enum StartEventView {
    Looked(Option<EndpointView>),
    Authorized(Result<Option<Seq<char>>, FailureView>),
    Locked(Result<(), FailureView>),
    Written(Result<(), FailureView>),
    Spawned { outcome: Result<(), Option<i32>>, now: u128 },
    Polled { found: Option<EndpointView>, answers: bool, now: u128 },
}

impl View for StartEvent {
    type V = StartEventView;

    open spec fn view(&self) -> StartEventView {
        match self {
            StartEvent::Looked(e) => StartEventView::Looked(opt_view(*e)),
            StartEvent::Authorized(r) => StartEventView::Authorized(
                match r {
                    Ok(digest) => Ok(opt_view(*digest)),
                    Err(f) => Err(f@),
                },
            ),
            StartEvent::Locked(r) => StartEventView::Locked(
                match r {
                    Ok(_) => Ok(()),
                    Err(f) => Err(f@),
                },
            ),
            StartEvent::Written(r) => StartEventView::Written(
                match r {
                    Ok(_) => Ok(()),
                    Err(f) => Err(f@),
                },
            ),
            StartEvent::Spawned { outcome, now } => StartEventView::Spawned { outcome: *outcome, now: *now },
            StartEvent::Polled { found, answers, now } => StartEventView::Polled {
                found: opt_view(*found),
                answers: *answers,
                now: *now,
            },
        }
    }
}

/// What is to be done.
pub enum StartAction {
    /// Read what is recorded and ask whether it answers.
    Look,
    /// Load the configuration again and authorize the server again.
    Authorize,
    /// Take the lock of the start.
    Lock,
    /// Write the settings of the Owner.
    Write,
    /// Start the process.
    Spawn,
    /// Wait so many milliseconds, and read what is recorded.
    Poll(u64),
    /// The Owner is there.
    Connect(OwnerEndpoint),
    /// Remove what is recorded, and fail.
    Forget(ContractFailure),
    Fail(ContractFailure),
}

/// What a [`StartAction`] stands for.
pub ghost enum StartActionView {
    Look,
    Authorize,
    Lock,
    Write,
    Spawn,
    Poll(u64),
    Connect(EndpointView),
    Forget(FailureView),
    Fail(FailureView),
}

impl View for StartAction {
    type V = StartActionView;

    open spec fn view(&self) -> StartActionView {
        match self {
            StartAction::Look => StartActionView::Look,
            StartAction::Authorize => StartActionView::Authorize,
            StartAction::Lock => StartActionView::Lock,
            StartAction::Write => StartActionView::Write,
            StartAction::Spawn => StartActionView::Spawn,
            StartAction::Poll(ms) => StartActionView::Poll(*ms),
            StartAction::Connect(e) => StartActionView::Connect(e@),
            StartAction::Forget(f) => StartActionView::Forget(f@),
            StartAction::Fail(f) => StartActionView::Fail(f@),
        }
    }
}

/// The command that shows how trust stands.
pub open spec fn status_command(workspace: Seq<char>, server: Seq<char>) -> JsonView {
    texts_json(seq!["trust"@, "status"@, "--workspace"@, workspace, "--server"@, server])
}

/// The failure of a declaration that changed before the start.
pub open spec fn changed_before_start(s: StartView, current: Option<Seq<char>>) -> FailureView {
    failed(
        3,
        "blocked"@,
        "project_trust_changed"@,
        "Project-controlled language-server configuration changed before Owner startup."@,
        "authorize"@,
        "not_sent"@,
        "after_change"@,
        JsonView::Object(
            seq![
                ("changedFields"@, JsonView::Array(seq![])),
                ("currentDigest"@, opt_text_view(current)),
                ("recordedDigest"@, opt_text_view(s.declaration_digest)),
                ("requiredCommand"@, status_command(s.workspace, s.server)),
                ("server"@, JsonView::Text(s.server)),
                ("workspaceUri"@, JsonView::Text(s.workspace_uri)),
            ],
        ),
    )
}

/// The failure of starting the process.
pub open spec fn spawn_failed(s: StartView, code: Option<i32>) -> FailureView {
    failed(
        5,
        "query"@,
        "server_start_failed"@,
        "The background Owner process could not start."@,
        "start_server"@,
        "not_sent"@,
        "after_change"@,
        JsonView::Object(
            seq![
                ("executable"@, JsonView::Text(s.executable)),
                ("osCode"@, os_code_json(code)),
                ("server"@, JsonView::Text(s.server)),
            ],
        ),
    )
}

/// What is said of an Owner that failed and recorded nothing of it.
pub open spec fn unexplained(server: Seq<char>) -> JsonView {
    JsonView::Object(
        seq![
            ("category"@, JsonView::Text("query"@)),
            ("code"@, JsonView::Text("initialization_failed"@)),
            (
                "data"@,
                JsonView::Object(
                    seq![
                        ("reason"@, JsonView::Text("owner_initialization_failed"@)),
                        ("server"@, JsonView::Text(server)),
                    ],
                ),
            ),
            ("delivery"@, JsonView::Text("not_sent"@)),
            ("message"@, JsonView::Text("The language server failed to initialize."@)),
            ("retry"@, JsonView::Text("after_change"@)),
            ("stage"@, JsonView::Text("initialize"@)),
        ],
    )
}

/// What an Owner recorded of its failure.
pub open spec fn recorded_failure(e: EndpointView, server: Seq<char>) -> FailureView {
    reported_failure(
        match e.failure {
            Some(f) => f,
            None => unexplained(server),
        },
    )
}

/// When so much time is over.
pub open spec fn later(now: u128, timeout: u128) -> u128 {
    if now + timeout > u128::MAX {
        u128::MAX
    } else {
        (now + timeout) as u128
    }
}

/// A start that ends.
pub open spec fn ended(s: StartView, a: StartActionView) -> (StartView, StartActionView) {
    (StartView { phase: StartPhase::Done, ..s }, a)
}

/// A start that goes on.
pub open spec fn going_on(s: StartView, phase: StartPhase, a: StartActionView) -> (StartView, StartActionView) {
    (StartView { phase, ..s }, a)
}

/// Whether an event is one that the phase waits for.
pub open spec fn awaited(s: StartView, e: StartEventView) -> bool {
    match s.phase {
        StartPhase::Looking | StartPhase::LookingAgain => e is Looked,
        StartPhase::Authorizing => e is Authorized,
        StartPhase::Locking => e is Locked,
        StartPhase::Writing => e is Written,
        StartPhase::Spawning => e is Spawned,
        StartPhase::Waiting(_) => e is Polled,
        StartPhase::Done => false,
    }
}

/// What follows what was recorded while the Owner is waited for.
pub open spec fn polled(
    s: StartView,
    deadline: u128,
    found: Option<EndpointView>,
    answers: bool,
    now: u128,
) -> (StartView, StartActionView) {
    if now >= deadline {
        ended(
            s,
            StartActionView::Fail(unavailable_owner(s.session_identity, "startup_deadline_exceeded"@)),
        )
    } else if found is Some && found->0.state == "failed"@ {
        ended(s, StartActionView::Forget(recorded_failure(found->0, s.server)))
    } else if found is Some && found->0.session_identity == s.session_identity && answers {
        ended(s, StartActionView::Connect(found->0))
    } else {
        going_on(s, StartPhase::Waiting(deadline), StartActionView::Poll(25))
    }
}

/// What follows an event.
pub open spec fn start_next(s: StartView, e: StartEventView) -> (StartView, StartActionView) {
    match (s.phase, e) {
        (StartPhase::Looking, StartEventView::Looked(Some(endpoint))) => ended(s, StartActionView::Connect(endpoint)),
        (StartPhase::Looking, StartEventView::Looked(None)) => if s.declaration_digest is Some {
            going_on(s, StartPhase::Authorizing, StartActionView::Authorize)
        } else {
            going_on(s, StartPhase::Locking, StartActionView::Lock)
        },
        (StartPhase::Authorizing, StartEventView::Authorized(Err(f))) => ended(s, StartActionView::Fail(f)),
        (StartPhase::Authorizing, StartEventView::Authorized(Ok(digest))) => if digest == s.declaration_digest {
            going_on(s, StartPhase::Locking, StartActionView::Lock)
        } else {
            ended(s, StartActionView::Fail(changed_before_start(s, digest)))
        },
        (StartPhase::Locking, StartEventView::Locked(Err(f))) => ended(s, StartActionView::Fail(f)),
        (StartPhase::Locking, StartEventView::Locked(Ok(_))) => going_on(
            s,
            StartPhase::LookingAgain,
            StartActionView::Look,
        ),
        (StartPhase::LookingAgain, StartEventView::Looked(Some(endpoint))) => ended(
            s,
            StartActionView::Connect(endpoint),
        ),
        (StartPhase::LookingAgain, StartEventView::Looked(None)) => going_on(
            s,
            StartPhase::Writing,
            StartActionView::Write,
        ),
        (StartPhase::Writing, StartEventView::Written(Err(f))) => ended(s, StartActionView::Fail(f)),
        (StartPhase::Writing, StartEventView::Written(Ok(_))) => going_on(
            s,
            StartPhase::Spawning,
            StartActionView::Spawn,
        ),
        (StartPhase::Spawning, StartEventView::Spawned { outcome: Err(code), now }) => ended(
            s,
            StartActionView::Fail(spawn_failed(s, code)),
        ),
        (StartPhase::Spawning, StartEventView::Spawned { outcome: Ok(_), now }) => going_on(
            s,
            StartPhase::Waiting(later(now, s.timeout)),
            StartActionView::Poll(0),
        ),
        (StartPhase::Waiting(deadline), StartEventView::Polled { found, answers, now }) => polled(
            s,
            deadline,
            found,
            answers,
            now,
        ),
        _ => (s, StartActionView::Poll(25)),
    }
}

impl OwnerStart {
    fn changed_failure(&self, current: &Option<String>) -> (r: ContractFailure)
        ensures
            r@ == changed_before_start(self@, opt_view(*current)),
    {
        let none: Vec<Json> = Vec::new();
        assert(array_view(none@) =~= Seq::<JsonView>::empty());
        let list: Vec<String> = vec![
            "trust".to_owned(),
            "status".to_owned(),
            "--workspace".to_owned(),
            self.workspace.clone(),
            "--server".to_owned(),
            self.server.clone(),
        ];
        assert(views(list@) =~= seq![
            "trust"@,
            "status"@,
            "--workspace"@,
            self@.workspace,
            "--server"@,
            self@.server,
        ]);
        let mut o: Vec<(String, Json)> = Vec::new();
        assert(object_view(o@) =~= Seq::<(Seq<char>, JsonView)>::empty());
        push_field(&mut o, "changedFields", Json::Array(none));
        push_field(&mut o, "currentDigest", opt_text_value(current.as_ref()));
        push_field(&mut o, "recordedDigest", opt_text_value(self.declaration_digest.as_ref()));
        push_field(&mut o, "requiredCommand", texts_value(&list));
        push_field(&mut o, "server", text_value(self.server.as_str()));
        push_field(&mut o, "workspaceUri", text_value(self.workspace_uri.as_str()));
        assert(object_view(o@) =~= changed_before_start(self@, opt_view(*current)).data->Object_0);
        failure(
            3,
            "blocked",
            "project_trust_changed",
            "Project-controlled language-server configuration changed before Owner startup.",
            "authorize",
            "not_sent",
            "after_change",
            Json::Object(o),
        )
    }

    fn spawn_failure(&self, code: Option<i32>) -> (r: ContractFailure)
        ensures
            r@ == spawn_failed(self@, code),
    {
        failure(
            5,
            "query",
            "server_start_failed",
            "The background Owner process could not start.",
            "start_server",
            "not_sent",
            "after_change",
            object3(
                "executable",
                text_value(self.executable.as_str()),
                "osCode",
                os_code_value(code),
                "server",
                text_value(self.server.as_str()),
            ),
        )
    }

    fn recorded(&self, failure: Option<&Json>) -> (r: ContractFailure)
        ensures
            r@ == reported_failure(
                match opt_ref_view(failure) {
                    Some(f) => f,
                    None => unexplained(self@.server),
                },
            ),
    {
        match failure {
            Some(f) => contract_failure_from_owner(f),
            None => {
                let mut o: Vec<(String, Json)> = Vec::new();
                assert(object_view(o@) =~= Seq::<(Seq<char>, JsonView)>::empty());
                push_field(&mut o, "category", text_value("query"));
                push_field(&mut o, "code", text_value("initialization_failed"));
                push_field(
                    &mut o,
                    "data",
                    object2(
                        "reason",
                        text_value("owner_initialization_failed"),
                        "server",
                        text_value(self.server.as_str()),
                    ),
                );
                push_field(&mut o, "delivery", text_value("not_sent"));
                push_field(&mut o, "message", text_value("The language server failed to initialize."));
                push_field(&mut o, "retry", text_value("after_change"));
                push_field(&mut o, "stage", text_value("initialize"));
                assert(object_view(o@) =~= unexplained(self@.server)->Object_0);
                contract_failure_from_owner(&Json::Object(o))
            },
        }
    }

    fn poll(&mut self, deadline: u128, found: Option<OwnerEndpoint>, answers: bool, now: u128) -> (r: StartAction)
        ensures
            (final(self)@, r@) == polled(old(self)@, deadline, opt_view(found), answers, now),
    {
        if now >= deadline {
            self.phase = StartPhase::Done;
            return StartAction::Fail(
                owner_unavailable(self.session_identity.as_str(), "startup_deadline_exceeded"),
            );
        }
        if let Some(endpoint) = found {
            if same(endpoint.state.as_str(), "failed") {
                self.phase = StartPhase::Done;
                return StartAction::Forget(self.recorded(endpoint.failure.as_ref()));
            }
            if same(endpoint.session_identity.as_str(), self.session_identity.as_str()) && answers {
                self.phase = StartPhase::Done;
                return StartAction::Connect(endpoint);
            }
        }
        self.phase = StartPhase::Waiting(deadline);
        StartAction::Poll(25)
    }

    /// Goes on after an event.
    pub fn step(&mut self, event: StartEvent) -> (r: StartAction)
        requires
            awaited(old(self)@, event@),
        ensures
            (final(self)@, r@) == start_next(old(self)@, event@),
    {
        match event {
            StartEvent::Looked(found) => match found {
                Some(endpoint) => {
                    self.phase = StartPhase::Done;
                    StartAction::Connect(endpoint)
                },
                None => {
                    if self.phase == StartPhase::LookingAgain {
                        self.phase = StartPhase::Writing;
                        StartAction::Write
                    } else if self.declaration_digest.is_some() {
                        self.phase = StartPhase::Authorizing;
                        StartAction::Authorize
                    } else {
                        self.phase = StartPhase::Locking;
                        StartAction::Lock
                    }
                },
            },
            StartEvent::Authorized(outcome) => match outcome {
                Err(f) => {
                    self.phase = StartPhase::Done;
                    StartAction::Fail(f)
                },
                Ok(digest) => if same_opt(&digest, &self.declaration_digest) {
                    self.phase = StartPhase::Locking;
                    StartAction::Lock
                } else {
                    let f: ContractFailure = self.changed_failure(&digest);
                    self.phase = StartPhase::Done;
                    StartAction::Fail(f)
                },
            },
            StartEvent::Locked(outcome) => match outcome {
                Err(f) => {
                    self.phase = StartPhase::Done;
                    StartAction::Fail(f)
                },
                Ok(_) => {
                    self.phase = StartPhase::LookingAgain;
                    StartAction::Look
                },
            },
            StartEvent::Written(outcome) => match outcome {
                Err(f) => {
                    self.phase = StartPhase::Done;
                    StartAction::Fail(f)
                },
                Ok(_) => {
                    self.phase = StartPhase::Spawning;
                    StartAction::Spawn
                },
            },
            StartEvent::Spawned { outcome, now } => match outcome {
                Err(code) => {
                    let f: ContractFailure = self.spawn_failure(code);
                    self.phase = StartPhase::Done;
                    StartAction::Fail(f)
                },
                Ok(_) => {
                    let deadline: u128 = if self.timeout > u128::MAX - now {
                        u128::MAX
                    } else {
                        now + self.timeout
                    };
                    self.phase = StartPhase::Waiting(deadline);
                    StartAction::Poll(0)
                },
            },
            StartEvent::Polled { found, answers, now } => match self.phase {
                StartPhase::Waiting(deadline) => self.poll(deadline, found, answers, now),
                _ => StartAction::Poll(25),
            },
        }
    }
}

/// What follows an attempt to take the lock that keeps Owners from starting
/// twice; `reason` says why it was not taken.
pub open spec fn startup_lock_step(attempt: LockAttempt, reason: Seq<char>, now: u128, deadline: u128) -> LockStepView {
    match attempt {
        LockAttempt::Taken => LockStepView::Hold,
        LockAttempt::Busy => if now < deadline {
            LockStepView::Wait(10)
        } else {
            LockStepView::Refuse(unavailable_owner(no_session(), reason))
        },
        LockAttempt::Failed(_) => LockStepView::Refuse(unavailable_owner(no_session(), reason)),
    }
}

/// What follows an attempt to take the lock that keeps Owners from starting
/// twice; `reason` says why it was not taken.
pub fn acquire_startup_lock(attempt: LockAttempt, reason: &str, now: u128, deadline: u128) -> (r: LockStep)
    ensures
        r@ == startup_lock_step(attempt, reason@, now, deadline),
{
    match attempt {
        LockAttempt::Taken => LockStep::Hold,
        LockAttempt::Busy => if now < deadline {
            LockStep::Wait(10)
        } else {
            LockStep::Refuse(owners_unavailable(reason))
        },
        LockAttempt::Failed(_) => LockStep::Refuse(owners_unavailable(reason)),
    }
}

/// The failure of writing the settings of an Owner.
pub fn launch_state_failure(session_identity: &str, reason: &str) -> (r: ContractFailure)
    ensures
        r@ == unavailable_owner(session_identity@, "launch_state_failed: "@ + reason@),
{
    owner_unavailable(session_identity, concat("launch_state_failed: ", reason).as_str())
}

/// A server that may be launched.
pub struct AuthorizedServer {
    pub server: EffectiveServer,
    pub executable: String,
    pub declaration_digest: Option<String>,
    pub session_identity: String,
}

/// The settings that an Owner is started with.
pub struct OwnerLaunchSettings {
    pub session_identity: String,
    pub owner_generation: String,
    pub token: String,
    pub workspace_uri: String,
    pub server: String,
    pub declaration_digest: Option<String>,
    pub server_args: Vec<String>,
    pub initialization_options: Option<Json>,
    pub settings: Json,
    pub initialization_timeout_ms: u64,
    pub cancellation_grace_ms: u64,
    pub shutdown_timeout_ms: u64,
    pub idle_timeout_ms: u64,
    pub max_message_bytes: u64,
    pub max_partial_result_bytes: u64,
    pub max_diagnostic_snapshots: u64,
    pub max_diagnostic_bytes: u64,
    pub max_open_documents: u64,
    pub max_document_bytes: u64,
    pub max_total_text_bytes: u64,
    pub previews: PreviewSettings,
    pub receipts: ReceiptSettings,
    pub mutation: MutationSettings,
    pub trace_initialization: bool,
}

/// Whether the durations that an Owner is started with can be read.
pub open spec fn durations_readable(c: LoadedConfiguration) -> bool {
    &&& duration_of(c.settings.session.initialization_timeout@) is Some
    &&& duration_of(c.settings.session.cancellation_grace@) is Some
    &&& duration_of(c.settings.session.shutdown_timeout@) is Some
    &&& duration_of(c.settings.session.idle_timeout@) is Some
}

/// The settings that an Owner is started with.
pub fn launch_settings(
    configuration: &LoadedConfiguration,
    authorized: &AuthorizedServer,
    owner_generation: String,
    token: String,
    trace_initialization: bool,
) -> (r: OwnerLaunchSettings)
    requires
        durations_readable(*configuration),
    ensures
        r.session_identity@ == authorized.session_identity@,
        r.owner_generation@ == owner_generation@,
        r.token@ == token@,
        r.workspace_uri@ == configuration.workspace_uri@,
        r.server@ == authorized.server.name@,
        opt_view(r.declaration_digest) == opt_view(authorized.declaration_digest),
        views(r.server_args@) == authorized.server@.args.value,
        opt_view(r.initialization_options) == match authorized.server@.initialization_options {
            Some(o) => Some(o.value),
            None => None,
        },
        r.settings@ == authorized.server@.settings.value,
        r.initialization_timeout_ms == duration_of(configuration.settings.session.initialization_timeout@)->0 as u64,
        r.cancellation_grace_ms == duration_of(configuration.settings.session.cancellation_grace@)->0 as u64,
        r.shutdown_timeout_ms == duration_of(configuration.settings.session.shutdown_timeout@)->0 as u64,
        r.idle_timeout_ms == duration_of(configuration.settings.session.idle_timeout@)->0 as u64,
        r.max_message_bytes == configuration.settings.protocol.max_message_bytes,
        r.max_partial_result_bytes == configuration.settings.protocol.max_partial_result_bytes,
        r.max_diagnostic_snapshots == configuration.settings.synchronization.max_diagnostic_snapshots,
        r.max_diagnostic_bytes == configuration.settings.synchronization.max_diagnostic_bytes,
        r.max_open_documents == configuration.settings.synchronization.max_open_documents,
        r.max_document_bytes == configuration.settings.synchronization.max_document_bytes,
        r.max_total_text_bytes == configuration.settings.synchronization.max_total_text_bytes,
        r.previews == configuration.settings.previews,
        r.receipts == configuration.settings.receipts,
        r.mutation@ == configuration.settings.mutation@,
        r.trace_initialization == trace_initialization,
{
    let session = &configuration.settings.session;
    let synchronization = &configuration.settings.synchronization;
    let mutation: &MutationSettings = &configuration.settings.mutation;
    OwnerLaunchSettings {
        session_identity: authorized.session_identity.clone(),
        owner_generation,
        token,
        workspace_uri: configuration.workspace_uri.clone(),
        server: authorized.server.name.clone(),
        declaration_digest: copy_opt(&authorized.declaration_digest),
        server_args: copy_strings(&authorized.server.args.value.items),
        initialization_options: match &authorized.server.initialization_options {
            Some(o) => Some(o.value.copy()),
            None => None,
        },
        settings: authorized.server.settings.value.copy(),
        initialization_timeout_ms: duration_millis(session.initialization_timeout.as_str()),
        cancellation_grace_ms: duration_millis(session.cancellation_grace.as_str()),
        shutdown_timeout_ms: duration_millis(session.shutdown_timeout.as_str()),
        idle_timeout_ms: duration_millis(session.idle_timeout.as_str()),
        max_message_bytes: configuration.settings.protocol.max_message_bytes,
        max_partial_result_bytes: configuration.settings.protocol.max_partial_result_bytes,
        max_diagnostic_snapshots: synchronization.max_diagnostic_snapshots,
        max_diagnostic_bytes: synchronization.max_diagnostic_bytes,
        max_open_documents: synchronization.max_open_documents,
        max_document_bytes: synchronization.max_document_bytes,
        max_total_text_bytes: synchronization.max_total_text_bytes,
        previews: configuration.settings.previews,
        receipts: configuration.settings.receipts,
        mutation: MutationSettings {
            application_lock_timeout: mutation.application_lock_timeout.clone(),
            max_entries: mutation.max_entries,
            max_recursion_depth: mutation.max_recursion_depth,
            max_rollback_bytes: mutation.max_rollback_bytes,
            max_staged_text_bytes: mutation.max_staged_text_bytes,
            max_preauthorized_callbacks: mutation.max_preauthorized_callbacks,
        },
        trace_initialization,
    }
}

/// The state after some events, each of which was awaited.
pub open spec fn after_start_events(s: StartView, events: Seq<StartEventView>) -> StartView
    decreases events.len(),
{
    if events.len() == 0 {
        s
    } else {
        start_next(after_start_events(s, events.drop_last()), events.last()).0
    }
}

/// Whether each of some events was awaited.
pub open spec fn all_awaited(s: StartView, events: Seq<StartEventView>) -> bool
    decreases events.len(),
{
    events.len() == 0 || all_awaited(s, events.drop_last()) && awaited(
        after_start_events(s, events.drop_last()),
        events.last(),
    )
}

/// How far a phase is.
pub open spec fn start_rank(p: StartPhase) -> int {
    match p {
        StartPhase::Looking => 0,
        StartPhase::Authorizing => 1,
        StartPhase::Locking => 2,
        StartPhase::LookingAgain => 3,
        StartPhase::Writing => 4,
        StartPhase::Spawning => 5,
        StartPhase::Waiting(_) => 6,
        StartPhase::Done => 7,
    }
}

/// The process is started only after the lock of the start was taken and no
/// Owner was found under it, and only where what the project declares was still
/// what was authorized.
pub proof fn law_spawning_needs_lock_and_authorization(s: StartView, e: StartEventView)
    requires
        awaited(s, e),
    ensures
        ({
            let (next, action) = start_next(s, e);
            &&& action is Spawn ==> s.phase == StartPhase::Writing
            &&& action is Write ==> s.phase == StartPhase::LookingAgain && e == StartEventView::Looked(None)
            &&& action is Look ==> s.phase == StartPhase::Locking && e is Locked && e->Locked_0 is Ok
            &&& action is Lock ==> (s.declaration_digest is Some ==> e == StartEventView::Authorized(
                Ok(s.declaration_digest),
            ))
        }),
{
}

/// Each step leads on, except that an Owner is asked for again until its time is
/// over: so the process is started at most once.
pub proof fn law_start_leads_on(s: StartView, e: StartEventView)
    requires
        awaited(s, e),
    ensures
        ({
            let (next, action) = start_next(s, e);
            &&& start_rank(next.phase) > start_rank(s.phase) || (action is Poll && next.phase == s.phase)
            &&& (next.phase == StartPhase::Done) <==> (action is Connect || action is Forget || action is Fail)
            &&& next.session_identity == s.session_identity
            &&& next.declaration_digest == s.declaration_digest
        }),
{
}

/// Whatever happens, an Owner that is connected to answered; one that was waited
/// for is of the session, and its time was not over.
pub proof fn law_connected_owners_answered(s: StartView, e: StartEventView)
    requires
        awaited(s, e),
    ensures
        start_next(s, e).1 matches StartActionView::Connect(endpoint) ==> (e == StartEventView::Looked(Some(endpoint))
            || (e matches StartEventView::Polled { found, answers, now } && found == Some(endpoint) && answers
            && endpoint.session_identity == s.session_identity && endpoint.state != "failed"@)),
{
}

proof fn lemma_events_rank(s: StartView, events: Seq<StartEventView>)
    requires
        all_awaited(s, events),
    ensures
        start_rank(after_start_events(s, events).phase) >= start_rank(s.phase),
    decreases events.len(),
{
    if events.len() > 0 {
        lemma_events_rank(s, events.drop_last());
        law_start_leads_on(after_start_events(s, events.drop_last()), events.last());
    }
}

/// Once the process was started it is never started again.
pub proof fn law_spawned_once(s: StartView, events: Seq<StartEventView>, e: StartEventView)
    requires
        start_rank(s.phase) >= 5,
        all_awaited(s, events),
        awaited(after_start_events(s, events), e),
    ensures
        !(start_next(after_start_events(s, events), e).1 is Spawn),
{
    lemma_events_rank(s, events);
}

} // verus!
