//! The limits that the user can set.

use vstd::prelude::*;

use crate::config_checks::{
    limit_failed,
    limit_of,
    positive_or_default,
    simple_configuration_failure,
    simple_failed,
    valid_duration,
    validate_duration,
};
use crate::configuration::{
    MutationConfig,
    PreviewConfig,
    ProtocolConfig,
    ProtocolSettings,
    ReceiptConfig,
    SessionConfig,
    SessionSettings,
    SessionView,
    SynchronizationConfig,
    SynchronizationSettings,
    UserConfigFile,
    UserSettings,
};
use crate::failure::{ContractFailure, FailureView};
use crate::settings::{MutationSettings, MutationView, PreviewSettings, ReceiptSettings};

verus! {

/// What [`UserSettings`] stand for.
#[verifier::ext_equal]
pub ghost struct SettingsView {
    pub session: SessionView,
    pub synchronization: SynchronizationSettings,
    pub protocol: ProtocolSettings,
    pub previews: PreviewSettings,
    pub receipts: ReceiptSettings,
    pub mutation: MutationView,
}

impl View for UserSettings {
    type V = SettingsView;

    open spec fn view(&self) -> SettingsView {
        SettingsView {
            session: self.session@,
            synchronization: self.synchronization,
            protocol: self.protocol,
            previews: self.previews,
            receipts: self.receipts,
            mutation: self.mutation@,
        }
    }
}

/// A declared text, or the one that holds where none is declared.
pub open spec fn text_or(value: Option<String>, default: Seq<char>) -> Seq<char> {
    match value {
        Some(s) => s@,
        None => default,
    }
}

fn text_or_default(value: &Option<String>, default: &str) -> (r: String)
    ensures
        r@ == text_or(*value, default@),
{
    match value {
        Some(s) => s.clone(),
        None => default.to_owned(),
    }
}

/// The limits on sessions.
pub open spec fn session_of(c: Option<SessionConfig>) -> SessionView {
    match c {
        Some(s) => SessionView {
            owner_startup_timeout: text_or(s.owner_startup_timeout, "30s"@),
            initialization_timeout: text_or(s.initialization_timeout, "30s"@),
            request_timeout: text_or(s.request_timeout, "30s"@),
            cancellation_grace: text_or(s.cancellation_grace, "5s"@),
            shutdown_timeout: text_or(s.shutdown_timeout, "5s"@),
            idle_timeout: text_or(s.idle_timeout, "10m"@),
        },
        None => SessionView {
            owner_startup_timeout: "30s"@,
            initialization_timeout: "30s"@,
            request_timeout: "30s"@,
            cancellation_grace: "5s"@,
            shutdown_timeout: "5s"@,
            idle_timeout: "10m"@,
        },
    }
}

/// The first of two problems.
pub open spec fn first_problem(a: Result<nat, FailureView>, rest: Option<FailureView>) -> Option<FailureView> {
    match a {
        Err(f) => Some(f),
        Ok(_) => rest,
    }
}

/// Why limits on sessions do not hold.
pub open spec fn session_problem(s: SessionView) -> Option<FailureView> {
    first_problem(
        valid_duration(s.owner_startup_timeout, "session.owner_startup_timeout"@),
        first_problem(
            valid_duration(s.initialization_timeout, "session.initialization_timeout"@),
            first_problem(
                valid_duration(s.request_timeout, "session.request_timeout"@),
                first_problem(
                    valid_duration(s.cancellation_grace, "session.cancellation_grace"@),
                    first_problem(
                        valid_duration(s.shutdown_timeout, "session.shutdown_timeout"@),
                        first_problem(valid_duration(s.idle_timeout, "session.idle_timeout"@), None),
                    ),
                ),
            ),
        ),
    )
}

/// Limits on synchronization, where none are declared.
pub open spec fn no_synchronization() -> SynchronizationConfig {
    SynchronizationConfig {
        max_open_documents: None,
        max_document_bytes: None,
        max_total_text_bytes: None,
        max_diagnostic_snapshots: None,
        max_diagnostic_bytes: None,
    }
}

/// The limits on synchronization.
pub open spec fn synchronization_of(c: Option<SynchronizationConfig>) -> SynchronizationSettings {
    let c = match c {
        Some(c) => c,
        None => no_synchronization(),
    };
    SynchronizationSettings {
        max_open_documents: limit_of(c.max_open_documents, 128),
        max_document_bytes: limit_of(c.max_document_bytes, 16777216),
        max_total_text_bytes: limit_of(c.max_total_text_bytes, 67108864),
        max_diagnostic_snapshots: limit_of(c.max_diagnostic_snapshots, 128),
        max_diagnostic_bytes: limit_of(c.max_diagnostic_bytes, 134217728),
    }
}

/// Why limits on synchronization do not hold.
pub open spec fn synchronization_problem(s: SynchronizationSettings) -> Option<FailureView> {
    if s.max_open_documents == 0 || s.max_document_bytes == 0 || s.max_total_text_bytes == 0
        || s.max_diagnostic_snapshots == 0 || s.max_diagnostic_bytes == 0 {
        Some(limit_failed())
    } else if s.max_total_text_bytes < s.max_document_bytes {
        Some(simple_failed("synchronization.max_total_text_bytes must be at least max_document_bytes"@))
    } else {
        None
    }
}

/// The limits on messages.
pub open spec fn protocol_of(c: Option<ProtocolConfig>) -> ProtocolSettings {
    let c = match c {
        Some(c) => c,
        None => ProtocolConfig { max_message_bytes: None, max_partial_result_bytes: None },
    };
    ProtocolSettings {
        max_message_bytes: limit_of(c.max_message_bytes, 67108864),
        max_partial_result_bytes: limit_of(c.max_partial_result_bytes, 67108864),
    }
}

/// Why limits on messages do not hold.
pub open spec fn protocol_problem(s: ProtocolSettings) -> Option<FailureView> {
    if s.max_message_bytes == 0 || s.max_partial_result_bytes == 0 {
        Some(limit_failed())
    } else {
        None
    }
}

/// The limits on previews.
pub open spec fn previews_of(c: Option<PreviewConfig>) -> PreviewSettings {
    let c = match c {
        Some(c) => c,
        None => PreviewConfig {
            max_count: None,
            max_total_bytes: None,
            max_document_text_bytes: None,
            max_text_bytes: None,
        },
    };
    PreviewSettings {
        max_count: limit_of(c.max_count, 64),
        max_total_bytes: limit_of(c.max_total_bytes, 268435456),
        max_document_text_bytes: limit_of(c.max_document_text_bytes, 16777216),
        max_text_bytes: limit_of(c.max_text_bytes, 67108864),
    }
}

/// Why limits on previews do not hold.
pub open spec fn previews_problem(s: PreviewSettings) -> Option<FailureView> {
    if s.max_count == 0 || s.max_total_bytes == 0 || s.max_document_text_bytes == 0 || s.max_text_bytes == 0 {
        Some(limit_failed())
    } else if s.max_total_bytes < s.max_text_bytes || s.max_text_bytes < s.max_document_text_bytes {
        Some(simple_failed("Preview byte limits are inconsistent."@))
    } else {
        None
    }
}

/// The limits on receipts.
pub open spec fn receipts_of(c: Option<ReceiptConfig>) -> ReceiptSettings {
    ReceiptSettings {
        max_count: limit_of(
            match c {
                Some(c) => c.max_count,
                None => None,
            },
            1024,
        ),
    }
}

/// The limits on mutations.
pub open spec fn mutation_of(c: Option<MutationConfig>) -> MutationView {
    match c {
        Some(c) => MutationView {
            application_lock_timeout: text_or(c.application_lock_timeout, "30s"@),
            max_entries: limit_of(c.max_entries, 10000),
            max_recursion_depth: limit_of(c.max_recursion_depth, 64),
            max_rollback_bytes: limit_of(c.max_rollback_bytes, 1073741824),
            max_staged_text_bytes: limit_of(c.max_staged_text_bytes, 67108864),
            max_preauthorized_callbacks: limit_of(c.max_preauthorized_callbacks, 64),
        },
        None => crate::settings::default_mutations(),
    }
}

/// Why limits on mutations do not hold.
pub open spec fn mutation_problem(s: MutationView) -> Option<FailureView> {
    if s.max_entries == 0 || s.max_recursion_depth == 0 || s.max_rollback_bytes == 0 || s.max_staged_text_bytes == 0
        || s.max_preauthorized_callbacks == 0 {
        Some(limit_failed())
    } else {
        first_problem(valid_duration(s.application_lock_timeout, "mutation.application_lock_timeout"@), None)
    }
}

/// The limits that the user set.
pub open spec fn settings_of(user: Option<UserConfigFile>) -> SettingsView {
    match user {
        Some(u) => SettingsView {
            session: session_of(u.session),
            synchronization: synchronization_of(u.synchronization),
            protocol: protocol_of(u.protocol),
            previews: previews_of(u.previews),
            receipts: receipts_of(u.receipts),
            mutation: mutation_of(u.mutation),
        },
        None => SettingsView {
            session: session_of(None),
            synchronization: synchronization_of(None),
            protocol: protocol_of(None),
            previews: previews_of(None),
            receipts: receipts_of(None),
            mutation: mutation_of(None),
        },
    }
}

/// Why the limits do not hold.
pub open spec fn settings_problem(s: SettingsView) -> Option<FailureView> {
    match session_problem(s.session) {
        Some(f) => Some(f),
        None => match synchronization_problem(s.synchronization) {
            Some(f) => Some(f),
            None => match protocol_problem(s.protocol) {
                Some(f) => Some(f),
                None => match previews_problem(s.previews) {
                    Some(f) => Some(f),
                    None => if s.receipts.max_count == 0 {
                        Some(limit_failed())
                    } else {
                        mutation_problem(s.mutation)
                    },
                },
            },
        },
    }
}

fn session_settings(c: Option<&SessionConfig>) -> (r: SessionSettings)
    ensures
        r@ == session_of(
            match c {
                Some(c) => Some(*c),
                None => None,
            },
        ),
{
    match c {
        Some(s) => SessionSettings {
            owner_startup_timeout: text_or_default(&s.owner_startup_timeout, "30s"),
            initialization_timeout: text_or_default(&s.initialization_timeout, "30s"),
            request_timeout: text_or_default(&s.request_timeout, "30s"),
            cancellation_grace: text_or_default(&s.cancellation_grace, "5s"),
            shutdown_timeout: text_or_default(&s.shutdown_timeout, "5s"),
            idle_timeout: text_or_default(&s.idle_timeout, "10m"),
        },
        None => SessionSettings {
            owner_startup_timeout: "30s".to_owned(),
            initialization_timeout: "30s".to_owned(),
            request_timeout: "30s".to_owned(),
            cancellation_grace: "5s".to_owned(),
            shutdown_timeout: "5s".to_owned(),
            idle_timeout: "10m".to_owned(),
        },
    }
}

fn check_session(s: &SessionSettings) -> (r: Result<(), ContractFailure>)
    ensures
        match r {
            Ok(_) => session_problem(s@) is None,
            Err(f) => session_problem(s@) == Some(f@),
        },
{
    if let Err(f) = validate_duration(s.owner_startup_timeout.as_str(), "session.owner_startup_timeout") {
        return Err(f);
    }
    if let Err(f) = validate_duration(s.initialization_timeout.as_str(), "session.initialization_timeout") {
        return Err(f);
    }
    if let Err(f) = validate_duration(s.request_timeout.as_str(), "session.request_timeout") {
        return Err(f);
    }
    if let Err(f) = validate_duration(s.cancellation_grace.as_str(), "session.cancellation_grace") {
        return Err(f);
    }
    if let Err(f) = validate_duration(s.shutdown_timeout.as_str(), "session.shutdown_timeout") {
        return Err(f);
    }
    if let Err(f) = validate_duration(s.idle_timeout.as_str(), "session.idle_timeout") {
        return Err(f);
    }
    Ok(())
}

/// Refuses limits of which one is nothing.
fn check_limits(values: &Vec<(Option<u64>, u64)>) -> (r: Result<Vec<u64>, ContractFailure>)
    ensures
        match r {
            Ok(list) => list@.len() == values@.len() && forall|i: int|
                0 <= i < list@.len() ==> #[trigger] list@[i] == limit_of(values@[i].0, values@[i].1) && list@[i] > 0,
            Err(f) => f@ == limit_failed() && exists|i: int|
                0 <= i < values@.len() && limit_of((#[trigger] values@[i]).0, values@[i].1) == 0,
        },
{
    let mut list: Vec<u64> = Vec::new();
    let mut i: usize = 0;
    while i < values.len()
        invariant
            i <= values@.len(),
            list@.len() == i,
            forall|j: int|
                0 <= j < i ==> #[trigger] list@[j] == limit_of(values@[j].0, values@[j].1) && list@[j] > 0,
        decreases values.len() - i,
    {
        match positive_or_default(values[i].0, values[i].1) {
            Ok(n) => {
                list.push(n);
            },
            Err(f) => {
                assert(limit_of(values@[i as int].0, values@[i as int].1) == 0);
                return Err(f);
            },
        }
        i += 1;
    }
    Ok(list)
}

fn synchronization_settings(c: Option<SynchronizationConfig>) -> (r: Result<SynchronizationSettings, ContractFailure>)
    ensures
        match r {
            Ok(s) => s == synchronization_of(c) && synchronization_problem(s) is None,
            Err(f) => synchronization_problem(synchronization_of(c)) == Some(f@),
        },
{
    let c: SynchronizationConfig = match c {
        Some(c) => c,
        None => SynchronizationConfig {
            max_open_documents: None,
            max_document_bytes: None,
            max_total_text_bytes: None,
            max_diagnostic_snapshots: None,
            max_diagnostic_bytes: None,
        },
    };
    let limits: Vec<(Option<u64>, u64)> = vec![
        (c.max_open_documents, 128),
        (c.max_document_bytes, 16777216),
        (c.max_total_text_bytes, 67108864),
        (c.max_diagnostic_snapshots, 128),
        (c.max_diagnostic_bytes, 134217728),
    ];
    let n: Vec<u64> = match check_limits(&limits) {
        Ok(n) => n,
        Err(f) => {
            return Err(f);
        },
    };
    let s = SynchronizationSettings {
        max_open_documents: n[0],
        max_document_bytes: n[1],
        max_total_text_bytes: n[2],
        max_diagnostic_snapshots: n[3],
        max_diagnostic_bytes: n[4],
    };
    if s.max_total_text_bytes < s.max_document_bytes {
        return Err(
            simple_configuration_failure(
                "synchronization.max_total_text_bytes must be at least max_document_bytes",
            ),
        );
    }
    Ok(s)
}

fn protocol_settings(c: Option<ProtocolConfig>) -> (r: Result<ProtocolSettings, ContractFailure>)
    ensures
        match r {
            Ok(s) => s == protocol_of(c) && protocol_problem(s) is None,
            Err(f) => protocol_problem(protocol_of(c)) == Some(f@),
        },
{
    let c: ProtocolConfig = match c {
        Some(c) => c,
        None => ProtocolConfig { max_message_bytes: None, max_partial_result_bytes: None },
    };
    let limits: Vec<(Option<u64>, u64)> = vec![
        (c.max_message_bytes, 67108864),
        (c.max_partial_result_bytes, 67108864),
    ];
    match check_limits(&limits) {
        Ok(n) => Ok(ProtocolSettings { max_message_bytes: n[0], max_partial_result_bytes: n[1] }),
        Err(f) => Err(f),
    }
}

fn preview_settings(c: Option<PreviewConfig>) -> (r: Result<PreviewSettings, ContractFailure>)
    ensures
        match r {
            Ok(s) => s == previews_of(c) && previews_problem(s) is None,
            Err(f) => previews_problem(previews_of(c)) == Some(f@),
        },
{
    let c: PreviewConfig = match c {
        Some(c) => c,
        None => PreviewConfig {
            max_count: None,
            max_total_bytes: None,
            max_document_text_bytes: None,
            max_text_bytes: None,
        },
    };
    let limits: Vec<(Option<u64>, u64)> = vec![
        (c.max_count, 64),
        (c.max_total_bytes, 268435456),
        (c.max_document_text_bytes, 16777216),
        (c.max_text_bytes, 67108864),
    ];
    let n: Vec<u64> = match check_limits(&limits) {
        Ok(n) => n,
        Err(f) => {
            return Err(f);
        },
    };
    let s = PreviewSettings {
        max_count: n[0],
        max_total_bytes: n[1],
        max_document_text_bytes: n[2],
        max_text_bytes: n[3],
    };
    if s.max_total_bytes < s.max_text_bytes || s.max_text_bytes < s.max_document_text_bytes {
        return Err(simple_configuration_failure("Preview byte limits are inconsistent."));
    }
    Ok(s)
}

fn mutation_settings(c: Option<&MutationConfig>) -> (r: Result<MutationSettings, ContractFailure>)
    ensures
        ({
            let c = match c {
                Some(c) => Some(*c),
                None => None,
            };
            match r {
                Ok(s) => s@ == mutation_of(c) && mutation_problem(s@) is None,
                Err(f) => mutation_problem(mutation_of(c)) == Some(f@),
            }
        }),
{
    let timeout: String = match c {
        Some(c) => text_or_default(&c.application_lock_timeout, "30s"),
        None => "30s".to_owned(),
    };
    let limits: Vec<(Option<u64>, u64)> = match c {
        Some(c) => vec![
            (c.max_entries, 10000),
            (c.max_recursion_depth, 64),
            (c.max_rollback_bytes, 1073741824),
            (c.max_staged_text_bytes, 67108864),
            (c.max_preauthorized_callbacks, 64),
        ],
        None => vec![
            (None, 10000),
            (None, 64),
            (None, 1073741824),
            (None, 67108864),
            (None, 64),
        ],
    };
    let n: Vec<u64> = match check_limits(&limits) {
        Ok(n) => n,
        Err(f) => {
            return Err(f);
        },
    };
    assert(n@[0] > 0 && n@[1] > 0 && n@[2] > 0 && n@[3] > 0 && n@[4] > 0);
    if let Err(f) = validate_duration(timeout.as_str(), "mutation.application_lock_timeout") {
        return Err(f);
    }
    Ok(
        MutationSettings {
            application_lock_timeout: timeout,
            max_entries: n[0],
            max_recursion_depth: n[1],
            max_rollback_bytes: n[2],
            max_staged_text_bytes: n[3],
            max_preauthorized_callbacks: n[4],
        },
    )
}

/// The limits that the user set, unless they do not hold.
pub fn user_settings(user: Option<&UserConfigFile>) -> (r: Result<UserSettings, ContractFailure>)
    ensures
        ({
            let s = settings_of(
                match user {
                    Some(u) => Some(*u),
                    None => None,
                },
            );
            match r {
                Ok(settings) => settings@ == s && settings_problem(s) is None,
                Err(f) => settings_problem(s) == Some(f@),
            }
        }),
{
    let session: SessionSettings = session_settings(
        match user {
            Some(u) => u.session.as_ref(),
            None => None,
        },
    );
    if let Err(f) = check_session(&session) {
        return Err(f);
    }
    let synchronization: SynchronizationSettings = match synchronization_settings(
        match user {
            Some(u) => u.synchronization,
            None => None,
        },
    ) {
        Ok(s) => s,
        Err(f) => {
            return Err(f);
        },
    };
    let protocol: ProtocolSettings = match protocol_settings(
        match user {
            Some(u) => u.protocol,
            None => None,
        },
    ) {
        Ok(s) => s,
        Err(f) => {
            return Err(f);
        },
    };
    let previews: PreviewSettings = match preview_settings(
        match user {
            Some(u) => u.previews,
            None => None,
        },
    ) {
        Ok(s) => s,
        Err(f) => {
            return Err(f);
        },
    };
    let receipt_count: Option<u64> = match user {
        Some(u) => match u.receipts {
            Some(c) => c.max_count,
            None => None,
        },
        None => None,
    };
    let receipts: ReceiptSettings = match positive_or_default(receipt_count, 1024) {
        Ok(n) => ReceiptSettings { max_count: n },
        Err(f) => {
            return Err(f);
        },
    };
    let mutation: MutationSettings = match mutation_settings(
        match user {
            Some(u) => u.mutation.as_ref(),
            None => None,
        },
    ) {
        Ok(s) => s,
        Err(f) => {
            return Err(f);
        },
    };
    Ok(UserSettings { session, synchronization, protocol, previews, receipts, mutation })
}

/// Where nothing is declared, the limits hold, and they are those that hold for
/// mutations by default.
pub proof fn law_default_limits_hold()
    ensures
        synchronization_problem(synchronization_of(None)) is None,
        protocol_problem(protocol_of(None)) is None,
        previews_problem(previews_of(None)) is None,
        previews_of(None) == crate::settings::default_previews(),
        receipts_of(None) == crate::settings::default_receipts(),
        mutation_of(None) == crate::settings::default_mutations(),
{
}

/// Limits that are accepted are positive and consistent with each other.
pub proof fn law_accepted_limits_are_consistent(user: Option<UserConfigFile>)
    requires
        settings_problem(settings_of(user)) is None,
    ensures
        ({
            let s = settings_of(user);
            &&& 0 < s.synchronization.max_document_bytes <= s.synchronization.max_total_text_bytes
            &&& 0 < s.previews.max_document_text_bytes <= s.previews.max_text_bytes <= s.previews.max_total_bytes
            &&& s.receipts.max_count > 0
            &&& s.previews.max_count > 0
            &&& s.mutation.max_entries > 0
            &&& s.protocol.max_message_bytes > 0
        }),
{
}

} // verus!
