//! Owners of sessions: their endpoints, their answers and their start.

use lspctl::commands::{
    MutationCommand, SessionCommand, TrustCommand, dispatch_mutation_command, dispatch_session_command,
    dispatch_trust_command,
};
use lspctl::compose::DispatchRequest;
use lspctl::dispatch_run::{DispatchAction, DispatchEvent, DispatchRun};
use lspctl::documents::DocumentSnapshot;
use lspctl::invocation::ParsedInvocation;
use lspctl::json::Json;
use lspctl::owner::{
    OwnerEndpoint, OwnerResponse, OwnerStatePaths, QueueDeadline, accept_answer, accept_dispatch, check_protocol,
    check_response, contract_failure_from_owner, decimal_wide, duration_millis, endpoint_identity_from_path,
    format_duration, hex_from, identity_shaped, owner_transport_failure, queue_deadline_remaining, random_hex,
    read_endpoint,
};
use lspctl::owner_query::{
    TextSynchronization, needed_tokens, position_encoding, text_synchronization, wait_for_published, with_tokens,
};
use lspctl::owner_sessions::{
    EndpointVerdict, ExitStep, OwnerStatus, list_sessions, live_endpoint, logs_tail, owners_to_signal,
    select_live_endpoint, settle, was_delivered, wait_for_owner_exit,
};
use lspctl::owner_start::{OwnerStart, StartAction, StartEvent, StartPhase};
use lspctl::path::NativePath;
use lspctl::position::PositionEncoding;
use serde_json::Value;

fn from_value(value: &Value) -> Json {
    match value {
        Value::Null => Json::Null,
        Value::Bool(b) => Json::Bool(*b),
        Value::Number(n) => match (n.as_u64(), n.as_i64()) {
            (Some(u), _) => Json::Unsigned(u),
            (None, Some(i)) => Json::Negative(i),
            (None, None) => Json::Decimal(n.to_string()),
        },
        Value::String(s) => Json::Text(s.clone()),
        Value::Array(items) => Json::Array(items.iter().map(from_value).collect()),
        Value::Object(fields) => Json::Object(fields.iter().map(|(k, v)| (k.clone(), from_value(v))).collect()),
    }
}

fn value(json: &Json) -> Value {
    match json {
        Json::Null => Value::Null,
        Json::Bool(b) => Value::from(*b),
        Json::Unsigned(n) => Value::from(*n),
        Json::Negative(n) => Value::from(*n),
        Json::Decimal(s) => serde_json::from_str(s).unwrap(),
        Json::Text(s) => Value::from(s.as_str()),
        Json::Array(items) => Value::Array(items.iter().map(value).collect()),
        Json::Object(fields) => Value::Object(fields.iter().map(|(k, v)| (k.clone(), value(v))).collect()),
    }
}

fn parsed(text: &str) -> Value {
    serde_json::from_str(text).unwrap()
}

fn json(text: &str) -> Json {
    from_value(&parsed(text))
}

fn words(list: &[&str]) -> Vec<String> {
    list.iter().map(|w| w.to_string()).collect()
}

fn identity(digit: &str) -> String {
    format!("sid_{}", digit.repeat(64))
}

fn endpoint(digit: &str, generation: &str, server: &str) -> OwnerEndpoint {
    OwnerEndpoint {
        format_version: 1,
        owner_protocol_version: 1,
        session_identity: identity(digit),
        owner_generation: generation.to_owned(),
        workspace_uri: "file:///workspace/".to_owned(),
        server: server.to_owned(),
        address: "127.0.0.1:1".to_owned(),
        token: "token".to_owned(),
        state: "ready".to_owned(),
        failure: None,
    }
}

#[test]
fn sessions_are_named_by_their_identity() {
    assert!(identity_shaped(&identity("a")));
    assert!(!identity_shaped("sid_abc"));
    assert!(!identity_shaped(&format!("sid_{}", "g".repeat(64))));
    assert_eq!(endpoint_identity_from_path(Some(identity("0"))), Some(identity("0")));
    assert_eq!(endpoint_identity_from_path(Some("notes".to_owned())), None);
    assert_eq!(endpoint_identity_from_path(None), None);
    assert_eq!(hex_from(Ok(vec![0, 255, 16])).ok(), Some("00ff10".to_owned()));
    assert!(hex_from(Err("none".to_owned())).is_err());
    let drawn = random_hex(32).ok().unwrap();
    assert_eq!(drawn.len(), 64);
    assert!(identity_shaped(&format!("sid_{drawn}")));
    assert_ne!(drawn, random_hex(32).ok().unwrap());
}

#[test]
fn owners_keep_their_files_in_the_user_state() {
    let state = NativePath { components: words(&["/", "home", "state"]) };
    let paths = OwnerStatePaths::new(&Some(state)).ok().unwrap();
    let place = paths.endpoint_path(&identity("0")).to_text();
    assert!(place.starts_with("/home/state/") && place.ends_with(&format!("{}.json", identity("0"))));
    assert_ne!(paths.owner_lock_path(&identity("0")).to_text(), paths.startup_lock_path(&identity("0")).to_text());
    assert!(OwnerStatePaths::new(&None).is_err());
}

#[test]
fn durations_are_written_in_their_unit() {
    assert_eq!(format_duration(1_500_000_000), "1500ms");
    assert_eq!(format_duration(2_000_000_000), "2s");
    assert_eq!(format_duration(0), "0s");
    assert_eq!(decimal_wide(340_282_366_920_938_463_463_374_607_431_768_211_455), u128::MAX.to_string());
    assert_eq!(duration_millis("3s"), 3_000);
    assert_eq!(duration_millis("2m"), 120_000);
}

#[test]
fn queues_have_deadlines() {
    let deadline = QueueDeadline::new(1_000, 50);
    assert_eq!(queue_deadline_remaining(None, 99).ok(), Some(None));
    assert_eq!(queue_deadline_remaining(Some(deadline), 60).ok(), Some(Some(990)));
    assert!(queue_deadline_remaining(Some(QueueDeadline::new(1_000, 50)), 2_000).is_err());
}

#[test]
fn answers_are_accepted_from_the_owner_that_was_asked() {
    let owner = endpoint("0", "gen_1", "rust");
    assert!(check_protocol(&owner, 1).is_ok());
    assert!(check_protocol(&owner, 2).is_err());
    assert!(check_response(&owner, 1, 1, "gen_1").is_ok());
    assert!(check_response(&owner, 1, 1, "gen_2").is_err());
    assert!(check_response(&owner, 1, 3, "gen_1").is_err());
    let answer = |ok: bool, result: Option<&str>, error: Option<&str>| OwnerResponse {
        owner_protocol_version: 1,
        owner_generation: "gen_1".to_owned(),
        ok,
        result: result.map(json),
        error: error.map(json),
    };
    assert_eq!(accept_answer(answer(true, Some("[1]"), None)).ok().as_ref().map(value), Some(parsed("[1]")));
    let reported = r#"{"exitCode": 5, "category": "query", "code": "request_timeout", "message": "late",
        "stage": "await_response", "delivery": "uncertain", "retry": "unsafe", "data": {"timeout": "1s"}}"#;
    let failure = accept_answer(answer(false, None, Some(reported))).err().unwrap();
    assert_eq!((failure.code.as_str(), failure.retry.as_str()), ("request_timeout", "unsafe"));
    assert_eq!(value(&failure.data)["timeout"], "1s");
    assert_eq!(contract_failure_from_owner(&json(reported)).message, "late");
    assert!(accept_dispatch(answer(false, None, Some(reported))).is_err());
    let accepted = accept_dispatch(answer(true, Some(r#"{"result": [2]}"#), None)).ok().unwrap();
    assert_eq!(value(&accepted.result), parsed("[2]"));
}

#[test]
fn lost_owners_are_told_apart() {
    let owner = endpoint("0", "gen_1", "rust");
    let gone = owner_transport_failure(&owner, None, "closed");
    assert_eq!(gone.code, "owner_unavailable");
    assert_eq!(value(&gone.data)["reason"], "closed");
    let mut failed = endpoint("0", "gen_1", "rust");
    failed.state = "failed".to_owned();
    failed.failure = Some(json(r#"{"code": "server_exited", "message": "gone"}"#));
    assert_eq!(owner_transport_failure(&owner, Some(&failed), "closed").code, "server_exited");
    failed.owner_generation = "gen_2".to_owned();
    assert_eq!(owner_transport_failure(&owner, Some(&failed), "closed").code, "owner_unavailable");
    let mut old = endpoint("0", "gen_1", "rust");
    old.format_version = 7;
    assert!(read_endpoint(Some(old)).is_none());
    assert!(read_endpoint(None).is_none());
    assert!(read_endpoint(Some(endpoint("0", "gen_1", "rust"))).is_some());
}

#[test]
fn endpoints_live_while_they_answer() {
    let owner = endpoint("0", "gen_1", "rust");
    assert_eq!(live_endpoint(&identity("0"), Some(&owner), true, false), EndpointVerdict::Live);
    assert_eq!(live_endpoint(&identity("0"), Some(&owner), false, true), EndpointVerdict::Remove);
    assert_eq!(live_endpoint(&identity("0"), Some(&owner), false, false), EndpointVerdict::Skip);
    assert_eq!(live_endpoint(&identity("1"), Some(&owner), true, true), EndpointVerdict::Skip);
    assert_eq!(live_endpoint(&identity("0"), None, false, true), EndpointVerdict::Remove);
}

#[test]
fn one_session_is_selected() {
    let owners = vec![endpoint("0", "gen_1", "rust"), endpoint("1", "gen_2", "typescript")];
    let chosen = select_live_endpoint(&owners, Some(&"gen_2".to_owned()), None, None).ok().unwrap();
    assert_eq!(chosen.server, "typescript");
    let chosen = select_live_endpoint(&owners, None, None, Some(&"rust".to_owned())).ok().unwrap();
    assert_eq!(chosen.owner_generation, "gen_1");
    assert!(select_live_endpoint(&owners, None, None, None).is_err());
    assert!(select_live_endpoint(&owners, Some(&"gen_9".to_owned()), None, None).is_err());
    let signalled = owners_to_signal(&owners, "file:///workspace/", &words(&["rust"]));
    assert_eq!(signalled.len(), 1);
    assert_eq!(signalled[0].session_identity, identity("0"));
    assert!(owners_to_signal(&owners, "file:///other/", &words(&["rust"])).is_empty());
}

#[test]
fn outcomes_are_settled_in_order() {
    let outcomes = vec![("c".to_owned(), true), ("b".to_owned(), false), ("a".to_owned(), true)];
    assert_eq!(settle(&outcomes), (words(&["a", "c"]), words(&["b"])));
    assert!(!was_delivered(None));
    let statuses = vec![
        OwnerStatus { value: json(r#"{"sessionIdentity": "sid_b", "workspaceUri": "file:///b/", "server": "rust"}"#) },
        OwnerStatus { value: json(r#"{"sessionIdentity": "sid_a", "workspaceUri": "file:///a/", "server": "rust"}"#) },
    ];
    let listed = value(&list_sessions(statuses, &words(&["session", "list"])));
    assert_eq!(listed["ok"], true);
    let logs = |tail: &[&str]| ParsedInvocation {
        command: words(&["session", "logs"]),
        options: vec![("--tail".to_owned(), words(tail))],
        positionals: Vec::new(),
    };
    assert_eq!(logs_tail(&logs(&["7"])), 7);
}

#[test]
fn restarts_wait_for_the_old_owner() {
    let owner = endpoint("0", "gen_1", "rust");
    assert!(matches!(wait_for_owner_exit(&owner, Some(&owner), true, false, 5, 100), ExitStep::Wait(10)));
    assert!(matches!(wait_for_owner_exit(&owner, Some(&owner), true, false, 100, 100), ExitStep::Fail(_)));
    assert!(matches!(wait_for_owner_exit(&owner, None, false, true, 5, 100), ExitStep::Gone));
    let newer = endpoint("0", "gen_2", "rust");
    assert!(matches!(wait_for_owner_exit(&owner, Some(&newer), true, false, 5, 100), ExitStep::Gone));
}

fn start() -> OwnerStart {
    OwnerStart {
        session_identity: identity("0"),
        server: "rust".to_owned(),
        executable: "/bin/ra".to_owned(),
        workspace_uri: "file:///workspace/".to_owned(),
        workspace: "/workspace".to_owned(),
        declaration_digest: Some("sha256:declared".to_owned()),
        timeout: 1_000,
        phase: StartPhase::Looking,
    }
}

fn trusted() -> StartEvent {
    StartEvent::Authorized(Ok(Some("sha256:declared".to_owned())))
}

#[test]
fn changed_declarations_start_no_owner() {
    let mut machine = start();
    assert!(matches!(machine.step(StartEvent::Looked(None)), StartAction::Authorize));
    let changed = StartEvent::Authorized(Ok(Some("sha256:other".to_owned())));
    assert!(matches!(machine.step(changed), StartAction::Fail(_)));
}

#[test]
fn owners_are_started_behind_the_lock() {
    let mut machine = start();
    assert!(matches!(machine.step(StartEvent::Looked(None)), StartAction::Authorize));
    assert!(matches!(machine.step(trusted()), StartAction::Lock));
    assert!(matches!(machine.step(StartEvent::Locked(Ok(()))), StartAction::Look));
    assert!(matches!(machine.step(StartEvent::Looked(None)), StartAction::Write));
    assert!(matches!(machine.step(StartEvent::Written(Ok(()))), StartAction::Spawn));
    assert!(matches!(machine.step(StartEvent::Spawned { outcome: Ok(()), now: 0 }), StartAction::Poll(_)));
    let polled = StartEvent::Polled { found: Some(endpoint("0", "gen_1", "rust")), answers: true, now: 10 };
    match machine.step(polled) {
        StartAction::Connect(found) => assert_eq!(found.owner_generation, "gen_1"),
        _ => panic!("the owner answers"),
    }
}

#[test]
fn running_owners_are_connected_to() {
    let mut machine = start();
    assert!(matches!(
        machine.step(StartEvent::Looked(Some(endpoint("0", "gen_1", "rust")))),
        StartAction::Connect(_)
    ));
}

#[test]
fn starting_ends_at_its_deadline() {
    let mut machine = start();
    machine.step(StartEvent::Looked(None));
    machine.step(trusted());
    machine.step(StartEvent::Locked(Ok(())));
    machine.step(StartEvent::Looked(None));
    machine.step(StartEvent::Written(Ok(())));
    machine.step(StartEvent::Spawned { outcome: Ok(()), now: 0 });
    let late = StartEvent::Polled { found: None, answers: false, now: 2_000 };
    assert!(matches!(machine.step(late), StartAction::Forget(_) | StartAction::Fail(_)));
}

#[test]
fn owners_tell_what_was_agreed_upon() {
    assert_eq!(position_encoding(&json(r#"{"positionEncoding": "utf-8"}"#)), PositionEncoding::Utf8);
    assert_eq!(position_encoding(&json("{}")), PositionEncoding::Utf16);
    assert_eq!(text_synchronization(&json(r#"{"textSynchronization": "open_close"}"#)), TextSynchronization::OpenClose);
    assert_eq!(text_synchronization(&json("{}")), TextSynchronization::Unsynchronized);
    assert_eq!(wait_for_published(true, 0, 10), None);
    assert_eq!(wait_for_published(false, 10, 10), None);
    assert!(wait_for_published(false, 0, 10).is_some());
}

#[test]
fn tokens_stand_in_the_requests_that_need_them() {
    let request = |partial_results: bool, work_done_progress: bool| DispatchRequest {
        method: "textDocument/references".to_owned(),
        params: Some(json(r#"{"textDocument": {"uri": "file:///one"}}"#)),
        synchronized_files: Vec::new(),
        refresh_open_documents: false,
        raw_request: false,
        partial_results,
        work_done_progress,
        trace_protocol: false,
        apply_edits: false,
    };
    assert_eq!(needed_tokens(&request(true, false)), (true, false));
    assert_eq!(
        value(&with_tokens(&request(true, true), "1", "2").unwrap()),
        parsed(
            r#"{"textDocument": {"uri": "file:///one"}, "partialResultToken": "lspctl-partial-1",
                "workDoneToken": "lspctl-work-2"}"#
        )
    );
    assert_eq!(
        value(&with_tokens(&request(false, false), "1", "2").unwrap()),
        parsed(r#"{"textDocument": {"uri": "file:///one"}}"#)
    );
}

#[test]
fn commands_are_found_by_their_words() {
    assert_eq!(dispatch_mutation_command(&words(&["preview", "show"])), Some(MutationCommand::PreviewShow));
    assert_eq!(dispatch_mutation_command(&words(&["apply"])), Some(MutationCommand::Apply));
    assert_eq!(
        dispatch_mutation_command(&words(&["recovery", "accept-current"])),
        Some(MutationCommand::RecoveryAcceptCurrent)
    );
    assert_eq!(dispatch_mutation_command(&words(&["preview"])), None);
    assert_eq!(dispatch_session_command(&words(&["session", "restart"])), Some(SessionCommand::Restart));
    assert_eq!(dispatch_session_command(&words(&["session"])), None);
    assert_eq!(dispatch_trust_command(&words(&["trust", "deny"])), Some(TrustCommand::Deny));
    assert_eq!(dispatch_trust_command(&words(&["trust", "other"])), None);
}

fn dispatch_request(files: &[&str]) -> DispatchRequest {
    DispatchRequest {
        method: "textDocument/references".to_owned(),
        params: Some(Json::Object(vec![("position".to_owned(), Json::Null)])),
        synchronized_files: files.iter().map(|file| file.to_string()).collect(),
        refresh_open_documents: false,
        raw_request: false,
        partial_results: true,
        work_done_progress: true,
        trace_protocol: true,
        apply_edits: false,
    }
}

fn snapshot(name: &str) -> DocumentSnapshot {
    DocumentSnapshot {
        uri: format!("file:///workspace/{name}"),
        path: NativePath { components: vec!["/".to_owned(), "workspace".to_owned(), name.to_owned()] },
        language_id: "rust".to_owned(),
        version: 1,
        digest: format!("sha256:{name}"),
        text: String::new(),
    }
}

#[test]
fn requests_are_sent_once_their_files_are_read() {
    let deadline = Some(QueueDeadline::new(10_000_000, 0));
    let mut run = DispatchRun::new(dispatch_request(&["a.rs", "b.rs"]), 30_000, deadline);
    assert!(matches!(run.step(DispatchEvent::Begin), DispatchAction::ReadDocument(path) if path == "a.rs"));
    let second = run.step(DispatchEvent::Document(snapshot("a.rs")));
    assert!(matches!(second, DispatchAction::ReadDocument(path) if path == "b.rs"));
    assert!(matches!(run.step(DispatchEvent::Document(snapshot("b.rs"))), DispatchAction::Draw));
    assert!(matches!(run.step(DispatchEvent::Drawn("00".to_owned())), DispatchAction::Draw));
    assert!(matches!(run.step(DispatchEvent::Drawn("11".to_owned())), DispatchAction::ReadClock));
    match run.step(DispatchEvent::Clock { now: 4_000_000 }) {
        DispatchAction::Send(sent) => {
            let digests: Vec<&str> = sent.documents.iter().map(|d| d.expected_digest.as_str()).collect();
            assert_eq!(digests, ["sha256:a.rs", "sha256:b.rs"]);
            let params = value(sent.params.as_ref().unwrap());
            assert_eq!(params["partialResultToken"], "lspctl-partial-00");
            assert_eq!(params["workDoneToken"], "lspctl-work-11");
            assert_eq!(sent.request_timeout_ms, 30_000);
            assert_eq!(sent.within, Some(6_000_000));
        }
        _ => panic!("there is time left"),
    }
    let response = OwnerResponse {
        owner_protocol_version: 1,
        owner_generation: "gen_1".to_owned(),
        ok: true,
        result: Some(Json::Object(vec![("result".to_owned(), Json::Unsigned(5))])),
        error: None,
    };
    match run.step(DispatchEvent::Answered(response)) {
        DispatchAction::Finish(Ok(answer)) => assert_eq!(value(&answer.result), Value::from(5)),
        _ => panic!("the answer is reported"),
    }
}

#[test]
fn requests_are_not_sent_too_late() {
    let mut plain = dispatch_request(&[]);
    plain.partial_results = false;
    plain.work_done_progress = false;
    let mut run = DispatchRun::new(plain, 30_000, Some(QueueDeadline::new(10_000_000, 0)));
    assert!(matches!(run.step(DispatchEvent::Begin), DispatchAction::ReadClock));
    match run.step(DispatchEvent::Clock { now: 10_000_001 }) {
        DispatchAction::Finish(Err(failure)) => {
            assert_eq!(failure.failure.code, "queue_deadline_exceeded");
            assert!(failure.server_error.is_none());
        }
        _ => panic!("the deadline is over"),
    }
}
