//! Durations, deadlines and waiting for the lock of a workspace.

use vstd::prelude::*;

use crate::failure::{ContractFailure, FailureView, failed, failure};
use crate::json::{Json, JsonView, object2, object3, text_value};
use crate::reports::{application_cancelled, cancelled_failure};
use crate::text::{opt_view, parse_u64, parsed_unsigned, strip_suffix};

verus! {

/// The number in front of a unit.
pub open spec fn count_before(text: Seq<char>, unit: Seq<char>) -> Option<nat> {
    parsed_unsigned(text.take(text.len() - unit.len()), u64::MAX as nat)
}

/// The whole seconds in so many minutes, as far as they can be counted.
pub open spec fn seconds_in(minutes: nat) -> nat {
    if minutes * 60 > u64::MAX {
        u64::MAX as nat
    } else {
        minutes * 60
    }
}

/// The milliseconds that a text with a unit stands for.
pub open spec fn duration_of(text: Seq<char>) -> Option<nat> {
    if "ms"@.is_suffix_of(text) {
        count_before(text, "ms"@)
    } else if "s"@.is_suffix_of(text) {
        match count_before(text, "s"@) {
            Some(n) => Some(n * 1000),
            None => None,
        }
    } else if "m"@.is_suffix_of(text) {
        match count_before(text, "m"@) {
            Some(n) => Some(seconds_in(n) * 1000),
            None => None,
        }
    } else {
        None
    }
}

/// The milliseconds that a text with a unit stands for.
pub fn parse_duration(value: &str) -> (r: Option<u128>)
    ensures
        match r {
            Some(n) => duration_of(value@) == Some(n as nat),
            None => duration_of(value@) is None,
        },
{
    if let Some(count) = strip_suffix(value, "ms") {
        return match parse_u64(count.as_str()) {
            Some(n) => Some(n as u128),
            None => None,
        };
    }
    if let Some(count) = strip_suffix(value, "s") {
        return match parse_u64(count.as_str()) {
            Some(n) => Some(n as u128 * 1000),
            None => None,
        };
    }
    if let Some(count) = strip_suffix(value, "m") {
        return match parse_u64(count.as_str()) {
            Some(n) => {
                let seconds: u64 = if n > u64::MAX / 60 { u64::MAX } else { n * 60 };
                Some(seconds as u128 * 1000)
            },
            None => None,
        };
    }
    None
}

/// How long to wait for the lock of a workspace, in milliseconds.
pub open spec fn lock_timeout_of(text: Seq<char>) -> nat {
    match duration_of(text) {
        Some(n) => n,
        None => 30000,
    }
}

/// How long to wait for the lock of a workspace, in milliseconds.
pub fn lock_timeout(timeout_text: &str) -> (r: u128)
    ensures
        r == lock_timeout_of(timeout_text@),
{
    match parse_duration(timeout_text) {
        Some(n) => n,
        None => 30000,
    }
}

/// Whether a deadline has passed, on a clock that counts from some start.
pub fn deadline_expired(deadline: Option<u128>, now: u128) -> (r: bool)
    ensures
        r == (deadline matches Some(d) && now >= d),
{
    match deadline {
        Some(d) => now >= d,
        None => false,
    }
}

/// What an attempt to take a lock came to.
#[derive(Clone, Copy, Debug, PartialEq, Eq, Structural)]
pub enum LockAttempt {
    Taken,
    Busy,
    Failed(Option<i32>),
}

/// What follows an attempt to take a lock.
pub enum LockStep {
    Hold,
    /// Wait this many milliseconds and try again.
    Wait(u64),
    Refuse(ContractFailure),
}

/// What a [`LockStep`] stands for.
pub ghost enum LockStepView {
    Hold,
    Wait(u64),
    Refuse(FailureView),
}

impl View for LockStep {
    type V = LockStepView;

    open spec fn view(&self) -> LockStepView {
        match self {
            LockStep::Hold => LockStepView::Hold,
            LockStep::Wait(n) => LockStepView::Wait(*n),
            LockStep::Refuse(f) => LockStepView::Refuse(f@),
        }
    }
}

/// The code of an operating system, in JSON.
pub open spec fn os_code_json(os_code: Option<i32>) -> JsonView {
    match os_code {
        Some(code) => JsonView::Int(code as int),
        None => JsonView::Null,
    }
}

/// The code of an operating system, in JSON.
pub fn os_code_value(os_code: Option<i32>) -> (r: Json)
    ensures
        r@ == os_code_json(os_code),
{
    match os_code {
        Some(code) => if code >= 0 {
            Json::Unsigned(code as u64)
        } else {
            Json::Negative(code as i64)
        },
        None => Json::Null,
    }
}

/// The failure of waiting too long for the lock of a workspace.
pub open spec fn lock_timeout_failed(workspace_uri: Seq<char>, timeout_text: Seq<char>) -> FailureView {
    failed(
        4,
        "unavailable"@,
        "workspace_lock_timeout"@,
        "The Workspace Application lock timed out."@,
        "lock_workspace"@,
        "not_applicable"@,
        "safe"@,
        JsonView::Object(
            seq![
                ("timeout"@, JsonView::Text(timeout_text)),
                ("workspaceUri"@, JsonView::Text(workspace_uri)),
            ],
        ),
    )
}

/// The failure of taking the lock of a workspace.
pub open spec fn lock_failed(path: Seq<char>, os_code: Option<i32>) -> FailureView {
    failed(
        4,
        "unavailable"@,
        "state_unavailable"@,
        "The Workspace Application lock failed."@,
        "persist"@,
        "not_applicable"@,
        "after_change"@,
        JsonView::Object(
            seq![
                ("osCode"@, os_code_json(os_code)),
                ("path"@, JsonView::Text(path)),
                ("recordType"@, JsonView::Text("transaction"@)),
            ],
        ),
    )
}

/// The failure of taking the lock of a workspace.
pub fn lock_failure(path: &str, os_code: Option<i32>) -> (r: ContractFailure)
    ensures
        r@ == lock_failed(path@, os_code),
{
    failure(
        4,
        "unavailable",
        "state_unavailable",
        "The Workspace Application lock failed.",
        "persist",
        "not_applicable",
        "after_change",
        object3("osCode", os_code_value(os_code), "path", text_value(path), "recordType", text_value("transaction")),
    )
}

/// What follows an attempt to take the lock of a workspace.
pub open spec fn after_attempt(
    attempt: LockAttempt,
    now: u128,
    lock_deadline: u128,
    workspace_uri: Seq<char>,
    timeout_text: Seq<char>,
) -> LockStepView {
    match attempt {
        LockAttempt::Taken => LockStepView::Hold,
        LockAttempt::Busy => if now < lock_deadline {
            LockStepView::Wait(20)
        } else {
            LockStepView::Refuse(lock_timeout_failed(workspace_uri, timeout_text))
        },
        LockAttempt::Failed(os_code) => LockStepView::Refuse(lock_failed(""@, os_code)),
    }
}

/// What follows an attempt to take the lock of a workspace.
pub fn lock_workspace(
    attempt: LockAttempt,
    now: u128,
    lock_deadline: u128,
    workspace_uri: &str,
    timeout_text: &str,
) -> (r: LockStep)
    ensures
        r@ == after_attempt(attempt, now, lock_deadline, workspace_uri@, timeout_text@),
{
    match attempt {
        LockAttempt::Taken => LockStep::Hold,
        LockAttempt::Busy => if now < lock_deadline {
            LockStep::Wait(20)
        } else {
            LockStep::Refuse(
                failure(
                    4,
                    "unavailable",
                    "workspace_lock_timeout",
                    "The Workspace Application lock timed out.",
                    "lock_workspace",
                    "not_applicable",
                    "safe",
                    object2("timeout", text_value(timeout_text), "workspaceUri", text_value(workspace_uri)),
                ),
            )
        },
        LockAttempt::Failed(os_code) => LockStep::Refuse(lock_failure("", os_code)),
    }
}

/// What follows an attempt of an application to take the lock of a workspace.
/// An application whose caller has given up does not wait.
pub fn lock_workspace_for_application(
    attempt: LockAttempt,
    now: u128,
    lock_deadline: u128,
    caller_deadline: Option<u128>,
    workspace_uri: &str,
    timeout_text: &str,
    preview_id: &str,
) -> (r: LockStep)
    ensures
        r@ == if attempt == LockAttempt::Busy && (caller_deadline matches Some(d) && now >= d) {
            LockStepView::Refuse(cancelled_failure(preview_id@))
        } else {
            after_attempt(attempt, now, lock_deadline, workspace_uri@, timeout_text@)
        },
{
    if attempt == LockAttempt::Busy && deadline_expired(caller_deadline, now) {
        return LockStep::Refuse(application_cancelled(preview_id));
    }
    lock_workspace(attempt, now, lock_deadline, workspace_uri, timeout_text)
}

/// A moment in UTC as a timestamp of RFC 3339, where it can be written as one.
pub uninterp spec fn rfc3339_text(seconds: i64, nanoseconds: u32) -> Option<Seq<char>>;

/// `time::OffsetDateTime::format` with the format `Rfc3339` writes a moment as
/// a timestamp. The moment is given by the seconds since the epoch and the
/// nanoseconds in the second; there is no timestamp for moments that the crate
/// cannot hold or the format cannot write.
#[verifier::external_body]
pub(crate) fn format_rfc3339(seconds: i64, nanoseconds: u32) -> (r: Option<String>)
    ensures
        opt_view(r) == rfc3339_text(seconds, nanoseconds),
{
    let moment = time::OffsetDateTime::from_unix_timestamp(seconds).ok()?;
    let moment = moment.replace_nanosecond(nanoseconds).ok()?;
    moment.format(&time::format_description::well_known::Rfc3339).ok()
}

/// The timestamp of a moment.
pub fn now_rfc3339(seconds: i64, nanoseconds: u32) -> (r: Option<String>)
    ensures
        opt_view(r) == rfc3339_text(seconds, nanoseconds),
{
    format_rfc3339(seconds, nanoseconds)
}

} // verus!
