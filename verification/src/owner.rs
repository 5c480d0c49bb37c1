//! Owners: the processes that hold a language server, and how they are spoken to.

use vstd::prelude::*;

use crate::capabilities::copy_value;
use crate::digest::{hex_encode, hex_text};
use crate::failure::{ContractFailure, FailureView, failed, failure, result_view};
use crate::json::{
    Json,
    JsonView,
    array_view,
    copy_items,
    empty_object,
    object2,
    object3,
    text_value,
};
use crate::path::NativePath;
use crate::query_execute::{
    DispatchFailure,
    DispatchFailureView,
    DispatchResponse,
    ResponseView,
};
use crate::reports::texts_json;
use crate::store::{random_bytes, texts_value};
use crate::text::{chars_of, concat, decimal, decimal_text, opt_ref_view, opt_view, same, views};
use crate::timing::{duration_of, parse_duration};

verus! {

/// Where an Owner is reached, as it records itself.
pub struct OwnerEndpoint {
    pub format_version: u32,
    pub owner_protocol_version: u32,
    pub session_identity: String,
    pub owner_generation: String,
    pub workspace_uri: String,
    pub server: String,
    pub address: String,
    pub token: String,
    pub state: String,
    pub failure: Option<Json>,
}

/// What an [`OwnerEndpoint`] stands for.
#[verifier::ext_equal]
pub ghost struct EndpointView {
    pub format_version: u32,
    pub owner_protocol_version: u32,
    pub session_identity: Seq<char>,
    pub owner_generation: Seq<char>,
    pub workspace_uri: Seq<char>,
    pub server: Seq<char>,
    pub address: Seq<char>,
    pub token: Seq<char>,
    pub state: Seq<char>,
    pub failure: Option<JsonView>,
}

impl View for OwnerEndpoint {
    type V = EndpointView;

    open spec fn view(&self) -> EndpointView {
        EndpointView {
            format_version: self.format_version,
            owner_protocol_version: self.owner_protocol_version,
            session_identity: self.session_identity@,
            owner_generation: self.owner_generation@,
            workspace_uri: self.workspace_uri@,
            server: self.server@,
            address: self.address@,
            token: self.token@,
            state: self.state@,
            failure: opt_view(self.failure),
        }
    }
}

impl OwnerEndpoint {
    /// An endpoint with the same view.
    pub fn copy(&self) -> (r: OwnerEndpoint)
        ensures
            r@ == self@,
    {
        OwnerEndpoint {
            format_version: self.format_version,
            owner_protocol_version: self.owner_protocol_version,
            session_identity: self.session_identity.clone(),
            owner_generation: self.owner_generation.clone(),
            workspace_uri: self.workspace_uri.clone(),
            server: self.server.clone(),
            address: self.address.clone(),
            token: self.token.clone(),
            state: self.state.clone(),
            failure: copy_value(self.failure.as_ref()),
        }
    }
}

/// The endpoint that a file holds, where it is of the known format.
pub fn read_endpoint(found: Option<OwnerEndpoint>) -> (r: Option<OwnerEndpoint>)
    ensures
        r == if found is Some && found->0.format_version == 1 {
            found
        } else {
            None
        },
{
    match found {
        Some(endpoint) => if endpoint.format_version == 1 {
            Some(endpoint)
        } else {
            None
        },
        None => None,
    }
}

/// The identity that stands for no session.
pub open spec fn no_session() -> Seq<char> {
    "sid_0000000000000000000000000000000000000000000000000000000000000000"@
}

/// The failure of reaching an Owner.
pub open spec fn unavailable_owner(identity: Seq<char>, reason: Seq<char>) -> FailureView {
    failed(
        4,
        "unavailable"@,
        "owner_unavailable"@,
        "The background Owner is unavailable."@,
        "discover_owner"@,
        "not_sent"@,
        "safe"@,
        JsonView::Object(
            seq![("reason"@, JsonView::Text(reason)), ("sessionIdentity"@, JsonView::Text(identity))],
        ),
    )
}

/// The failure of reaching an Owner.
pub fn owner_unavailable(identity: &str, reason: &str) -> (r: ContractFailure)
    ensures
        r@ == unavailable_owner(identity@, reason@),
{
    failure(
        4,
        "unavailable",
        "owner_unavailable",
        "The background Owner is unavailable.",
        "discover_owner",
        "not_sent",
        "safe",
        object2("reason", text_value(reason), "sessionIdentity", text_value(identity)),
    )
}

/// The failure of reaching an Owner, of whatever session.
pub fn owners_unavailable(reason: &str) -> (r: ContractFailure)
    ensures
        r@ == unavailable_owner(no_session(), reason@),
{
    owner_unavailable("sid_0000000000000000000000000000000000000000000000000000000000000000", reason)
}

/// A text that a failure is made of.
pub fn leak_contract_string(value: &str) -> (r: String)
    ensures
        r@ == value@,
{
    value.to_owned()
}

/// The text of a field, or another.
pub open spec fn text_or(value: JsonView, name: Seq<char>, other: Seq<char>) -> Seq<char> {
    match value.text_at(name) {
        Some(s) => s,
        None => other,
    }
}

fn text_field_or(value: &Json, name: &str, other: &str) -> (r: String)
    ensures
        r@ == text_or(value@, name@, other@),
{
    match value.text_at(name) {
        Some(s) => leak_contract_string(s.as_str()),
        None => leak_contract_string(other),
    }
}

/// The exit code of a failure that an Owner reports.
pub open spec fn reported_exit_code(category: Option<Seq<char>>) -> u8 {
    if category == Some("blocked"@) {
        3
    } else if category == Some("unavailable"@) {
        4
    } else if category == Some("query"@) {
        5
    } else {
        70
    }
}

/// A failure that an Owner reports, with what it does not say filled in.
pub open spec fn reported_failure(error: JsonView) -> FailureView {
    failed(
        reported_exit_code(error.text_at("category"@)),
        text_or(error, "category"@, "internal"@),
        text_or(error, "code"@, "owner_unavailable"@),
        text_or(error, "message"@, "The Owner request failed."@),
        text_or(error, "stage"@, "discover_owner"@),
        text_or(error, "delivery"@, "not_sent"@),
        text_or(error, "retry"@, "safe"@),
        match error.get("data"@) {
            Some(data) => data,
            None => JsonView::Object(seq![]),
        },
    )
}

/// A failure that an Owner reports.
pub fn contract_failure_from_owner(error: &Json) -> (r: ContractFailure)
    ensures
        r@ == reported_failure(error@),
{
    let exit_code: u8 = match error.text_at("category") {
        Some(category) => if same(category.as_str(), "blocked") {
            3
        } else if same(category.as_str(), "unavailable") {
            4
        } else if same(category.as_str(), "query") {
            5
        } else {
            70
        },
        None => 70,
    };
    ContractFailure {
        exit_code,
        category: text_field_or(error, "category", "internal"),
        code: text_field_or(error, "code", "owner_unavailable"),
        message: text_field_or(error, "message", "The Owner request failed."),
        stage: text_field_or(error, "stage", "discover_owner"),
        delivery: text_field_or(error, "delivery", "not_sent"),
        retry: text_field_or(error, "retry", "safe"),
        data: match error.get("data") {
            Some(data) => data.copy(),
            None => empty_object(),
        },
    }
}

/// The items of a field that is a row, or none.
pub open spec fn row_of(value: JsonView, name: Seq<char>) -> Seq<JsonView> {
    match value.get(name) {
        Some(JsonView::Array(items)) => items,
        _ => seq![],
    }
}

fn row_field(value: &Json, name: &str) -> (r: Vec<Json>)
    ensures
        array_view(r@) == row_of(value@, name@),
{
    let r: Vec<Json> = match value.get(name) {
        Some(Json::Array(items)) => copy_items(items),
        _ => Vec::new(),
    };
    assert(array_view(r@) =~= row_of(value@, name@));
    r
}

/// A request that failed at the Owner, with what was seen before it failed.
pub open spec fn reported_dispatch_failure(error: JsonView) -> DispatchFailureView {
    DispatchFailureView {
        failure: reported_failure(error),
        server_error: error.get("serverError"@),
        partial_results: match error.get("partialResult"@) {
            Some(partial) => row_of(partial, "items"@),
            None => seq![],
        },
        trace: error.get("trace"@),
        apply_edit_ledger: row_of(error, "applyEditLedger"@),
    }
}

/// A request that failed at the Owner.
pub fn dispatch_failure_from_owner(error: &Json) -> (r: DispatchFailure)
    ensures
        r@ == reported_dispatch_failure(error@),
{
    let partial_results: Vec<Json> = match error.get("partialResult") {
        Some(partial) => row_field(partial, "items"),
        None => Vec::new(),
    };
    assert(array_view(partial_results@) =~= reported_dispatch_failure(error@).partial_results);
    DispatchFailure {
        failure: contract_failure_from_owner(error),
        server_error: copy_value(error.get("serverError")),
        partial_results,
        trace: copy_value(error.get("trace")),
        apply_edit_ledger: row_field(error, "applyEditLedger"),
    }
}

/// The answer to a request as an Owner hands it on.
pub open spec fn reported_response(response: JsonView) -> ResponseView {
    ResponseView {
        result: match response.get("result"@) {
            Some(result) => result,
            None => JsonView::Null,
        },
        partial_results: row_of(response, "partialResults"@),
        trace: response.get("trace"@),
        apply_edit_ledger: row_of(response, "applyEditLedger"@),
        server_progress: row_of(response, "serverProgress"@),
        synchronization: response.get("synchronization"@),
    }
}

/// The answer to a request as an Owner hands it on.
pub fn dispatch_response_from_owner(response: &Json) -> (r: DispatchResponse)
    ensures
        r@ == reported_response(response@),
{
    DispatchResponse {
        result: match response.get("result") {
            Some(result) => result.copy(),
            None => Json::Null,
        },
        partial_results: row_field(response, "partialResults"),
        trace: copy_value(response.get("trace")),
        apply_edit_ledger: row_field(response, "applyEditLedger"),
        server_progress: row_field(response, "serverProgress"),
        synchronization: copy_value(response.get("synchronization")),
    }
}

/// What an Owner answers.
pub struct OwnerResponse {
    pub owner_protocol_version: u32,
    pub owner_generation: String,
    pub ok: bool,
    pub result: Option<Json>,
    pub error: Option<Json>,
}

/// The failure of speaking another version than the Owner.
pub open spec fn incompatible_failed(client: u32, endpoint: EndpointView) -> FailureView {
    failed(
        4,
        "unavailable"@,
        "owner_protocol_incompatible"@,
        "The Owner protocol version is incompatible with this client."@,
        "discover_owner"@,
        "not_sent"@,
        "after_change"@,
        JsonView::Object(
            seq![
                ("clientVersion"@, JsonView::Int(client as int)),
                ("ownerGeneration"@, JsonView::Text(endpoint.owner_generation)),
                ("ownerVersion"@, JsonView::Int(endpoint.owner_protocol_version as int)),
            ],
        ),
    )
}

/// Refuses to speak to an Owner of another version.
pub fn check_protocol(endpoint: &OwnerEndpoint, client: u32) -> (r: Result<(), ContractFailure>)
    ensures
        match r {
            Ok(_) => endpoint@.owner_protocol_version == client,
            Err(f) => endpoint@.owner_protocol_version != client && f@ == incompatible_failed(client, endpoint@),
        },
{
    if endpoint.owner_protocol_version != client {
        return Err(
            failure(
                4,
                "unavailable",
                "owner_protocol_incompatible",
                "The Owner protocol version is incompatible with this client.",
                "discover_owner",
                "not_sent",
                "after_change",
                object3(
                    "clientVersion",
                    Json::Unsigned(client as u64),
                    "ownerGeneration",
                    text_value(endpoint.owner_generation.as_str()),
                    "ownerVersion",
                    Json::Unsigned(endpoint.owner_protocol_version as u64),
                ),
            ),
        );
    }
    Ok(())
}

/// Refuses an answer of another Owner than the one that was asked.
pub fn check_response(endpoint: &OwnerEndpoint, client: u32, version: u32, generation: &str) -> (r: Result<
    (),
    ContractFailure,
>)
    ensures
        ({
            let same_owner = version == client && generation@ == endpoint@.owner_generation;
            match r {
                Ok(_) => same_owner,
                Err(f) => !same_owner && f@ == unavailable_owner(
                    endpoint@.session_identity,
                    "response_identity_mismatch"@,
                ),
            }
        }),
{
    if version != client || !same(generation, endpoint.owner_generation.as_str()) {
        return Err(owner_unavailable(endpoint.session_identity.as_str(), "response_identity_mismatch"));
    }
    Ok(())
}

/// The error of an answer, or an empty one.
pub open spec fn error_or_empty(error: Option<JsonView>) -> JsonView {
    match error {
        Some(e) => e,
        None => JsonView::Object(seq![]),
    }
}

/// What an answer comes to.
pub open spec fn owner_answer(r: OwnerResponse) -> Result<JsonView, FailureView> {
    if r.ok {
        Ok(
            match r.result {
                Some(result) => result@,
                None => JsonView::Null,
            },
        )
    } else {
        Err(reported_failure(error_or_empty(opt_view(r.error))))
    }
}

/// What an answer comes to.
pub fn accept_answer(response: OwnerResponse) -> (r: Result<Json, ContractFailure>)
    ensures
        result_view(r) == owner_answer(response),
{
    if response.ok {
        Ok(
            match response.result {
                Some(result) => result,
                None => Json::Null,
            },
        )
    } else {
        let error: Json = match response.error {
            Some(error) => error,
            None => empty_object(),
        };
        Err(contract_failure_from_owner(&error))
    }
}

/// What an answer to a request for the server comes to.
pub open spec fn dispatch_answer(r: OwnerResponse) -> Result<ResponseView, DispatchFailureView> {
    if r.ok {
        Ok(
            reported_response(
                match r.result {
                    Some(result) => result@,
                    None => JsonView::Null,
                },
            ),
        )
    } else {
        Err(reported_dispatch_failure(error_or_empty(opt_view(r.error))))
    }
}

/// What an answer to a request for the server comes to.
pub fn accept_dispatch(response: OwnerResponse) -> (r: Result<DispatchResponse, DispatchFailure>)
    ensures
        result_view(r) == dispatch_answer(response),
{
    if response.ok {
        let result: Json = match response.result {
            Some(result) => result,
            None => Json::Null,
        };
        Ok(dispatch_response_from_owner(&result))
    } else {
        let error: Json = match response.error {
            Some(error) => error,
            None => empty_object(),
        };
        Err(dispatch_failure_from_owner(&error))
    }
}

/// Whether an endpoint that is recorded now says why the one before failed.
pub open spec fn same_owner_failed(current: EndpointView, endpoint: EndpointView) -> bool {
    &&& current.session_identity == endpoint.session_identity
    &&& current.owner_generation == endpoint.owner_generation
    &&& current.token == endpoint.token
    &&& current.state == "failed"@
}

/// The failure of speaking to an Owner: what the Owner recorded of it, or else
/// that it cannot be reached.
pub open spec fn transport_failed(endpoint: EndpointView, current: Option<EndpointView>, reason: Seq<char>) -> FailureView {
    if current is Some && same_owner_failed(current->0, endpoint) && current->0.failure is Some {
        reported_failure(current->0.failure->0)
    } else {
        unavailable_owner(endpoint.session_identity, reason)
    }
}

/// The failure of speaking to an Owner, given what is recorded now.
pub fn owner_transport_failure(endpoint: &OwnerEndpoint, current: Option<&OwnerEndpoint>, reason: &str) -> (r:
    ContractFailure)
    ensures
        r@ == transport_failed(endpoint@, opt_ref_view(current), reason@),
{
    if let Some(now) = current {
        if same(now.session_identity.as_str(), endpoint.session_identity.as_str()) && same(
            now.owner_generation.as_str(),
            endpoint.owner_generation.as_str(),
        ) && same(now.token.as_str(), endpoint.token.as_str()) && same(now.state.as_str(), "failed") {
            if let Some(failure) = &now.failure {
                return contract_failure_from_owner(failure);
            }
        }
    }
    owner_unavailable(endpoint.session_identity.as_str(), reason)
}

/// The failure of a selection that finds no Owner, or more than one.
pub open spec fn selection_failed(reason: Seq<char>, candidates: Seq<Seq<char>>) -> FailureView {
    failed(
        4,
        "unavailable"@,
        "session_selection_failed"@,
        "The Session selector did not resolve one live Owner."@,
        "discover_owner"@,
        "not_applicable"@,
        "after_change"@,
        JsonView::Object(seq![("candidates"@, texts_json(candidates)), ("reason"@, JsonView::Text(reason))]),
    )
}

/// The failure of a selection that finds no Owner, or more than one.
pub fn session_selection_failure(reason: &str, candidates: &Vec<String>) -> (r: ContractFailure)
    ensures
        r@ == selection_failed(reason@, views(candidates@)),
{
    failure(
        4,
        "unavailable",
        "session_selection_failed",
        "The Session selector did not resolve one live Owner.",
        "discover_owner",
        "not_applicable",
        "after_change",
        object2("candidates", texts_value(candidates), "reason", text_value(reason)),
    )
}

/// Where the files of Owners are.
pub struct OwnerStatePaths {
    pub endpoints: NativePath,
    pub locks: NativePath,
    pub launches: NativePath,
}

impl OwnerStatePaths {
    /// Where the files of Owners are, where the user has a directory for state.
    pub fn new(user_state: &Option<NativePath>) -> (r: Result<Self, ContractFailure>)
        ensures
            match opt_view(*user_state) {
                Some(d) => r matches Ok(p) && p.endpoints@ == d.push("owners"@).push("endpoints"@) && p.locks@
                    == d.push("owners"@).push("locks"@) && p.launches@ == d.push("owners"@).push("launches"@),
                None => r matches Err(f) && f@ == unavailable_owner(
                    no_session(),
                    "user_state_directory_unavailable"@,
                ),
            },
    {
        match user_state {
            Some(d) => {
                let root: NativePath = d.join("owners");
                Ok(
                    OwnerStatePaths {
                        endpoints: root.join("endpoints"),
                        locks: root.join("locks"),
                        launches: root.join("launches"),
                    },
                )
            },
            None => Err(owners_unavailable("user_state_directory_unavailable")),
        }
    }

    /// The file with the endpoint of a session.
    pub fn endpoint_path(&self, identity: &str) -> (r: NativePath)
        ensures
            r@ == self.endpoints@.push(identity@ + ".json"@),
    {
        self.endpoints.join(concat(identity, ".json").as_str())
    }

    /// The lock that the Owner of a session holds.
    pub fn owner_lock_path(&self, identity: &str) -> (r: NativePath)
        ensures
            r@ == self.locks@.push(identity@ + ".lock"@),
    {
        self.locks.join(concat(identity, ".lock").as_str())
    }

    /// The lock that is held while the Owner of a session starts.
    pub fn startup_lock_path(&self, identity: &str) -> (r: NativePath)
        ensures
            r@ == self.locks@.push(identity@ + ".startup.lock"@),
    {
        self.locks.join(concat(identity, ".startup.lock").as_str())
    }

    /// The file with the settings of an Owner.
    pub fn launch_path(&self, generation: &str) -> (r: NativePath)
        ensures
            r@ == self.launches@.push(generation@ + ".json"@),
    {
        self.launches.join(concat(generation, ".json").as_str())
    }
}

/// Whether a character is a digit to the base sixteen.
pub open spec fn is_hex(c: char) -> bool {
    '0' <= c <= '9' || 'a' <= c <= 'f' || 'A' <= c <= 'F'
}

/// Whether a text is the identity of a session.
pub open spec fn is_identity(s: Seq<char>) -> bool {
    &&& s.len() == 68
    &&& s.take(4) == "sid_"@
    &&& forall|i: int| 4 <= i < s.len() ==> is_hex(#[trigger] s[i])
}

/// Whether a text is the identity of a session.
pub fn identity_shaped(s: &str) -> (r: bool)
    ensures
        r == is_identity(s@),
{
    proof {
        reveal_strlit("sid_");
    }
    let c: Vec<char> = chars_of(s);
    if c.len() != 68 {
        return false;
    }
    if c[0] != 's' || c[1] != 'i' || c[2] != 'd' || c[3] != '_' {
        proof {
            let t = s@.take(4);
            assert(t[0] == s@[0] && t[1] == s@[1] && t[2] == s@[2] && t[3] == s@[3]);
        }
        return false;
    }
    assert(s@.take(4) =~= "sid_"@);
    let mut i: usize = 4;
    while i < c.len()
        invariant
            4 <= i <= c@.len(),
            c@ == s@,
            forall|k: int| 4 <= k < i ==> is_hex(#[trigger] s@[k]),
        decreases c.len() - i,
    {
        let d: char = c[i];
        if !(d >= '0' && d <= '9' || d >= 'a' && d <= 'f' || d >= 'A' && d <= 'F') {
            assert(!is_hex(s@[i as int]));
            return false;
        }
        i += 1;
    }
    true
}

/// The identity of the session whose endpoint a file holds, by the name of the
/// file without its ending.
pub fn endpoint_identity_from_path(stem: Option<String>) -> (r: Option<String>)
    ensures
        opt_view(r) == match opt_view(stem) {
            Some(s) => if is_identity(s) {
                Some(s)
            } else {
                None
            },
            None => None,
        },
{
    match stem {
        Some(s) => if identity_shaped(s.as_str()) {
            Some(s)
        } else {
            None
        },
        None => None,
    }
}

/// The failure to draw random bytes.
pub open spec fn undrawn_bytes(reason: Seq<char>) -> FailureView {
    unavailable_owner(no_session(), "secure_random_failed: "@ + reason)
}

/// Random bytes in digits to the base sixteen, or the failure to draw them.
pub fn hex_from(drawn: Result<Vec<u8>, String>) -> (r: Result<String, ContractFailure>)
    ensures
        match drawn {
            Ok(bytes) => r matches Ok(s) && s@ == hex_text(bytes@),
            Err(reason) => r matches Err(f) && f@ == undrawn_bytes(reason@),
        },
{
    match drawn {
        Ok(bytes) => Ok(hex_encode(&bytes)),
        Err(reason) => Err(owners_unavailable(concat("secure_random_failed: ", reason.as_str()).as_str())),
    }
}

/// So many random bytes in digits to the base sixteen. Which bytes they are is
/// not said.
pub fn random_hex(bytes: usize) -> (r: Result<String, ContractFailure>)
    requires
        bytes <= isize::MAX / 2,
    ensures
        match r {
            Ok(s) => exists|b: Seq<u8>| b.len() == bytes && s@ == #[trigger] hex_text(b),
            Err(f) => exists|reason: Seq<char>| f@ == #[trigger] undrawn_bytes(reason),
        },
{
    let drawn = random_bytes(bytes);
    hex_from(drawn)
}

/// The whole milliseconds of a duration, in so many bits as a count of them has.
pub fn duration_millis(value: &str) -> (r: u64)
    requires
        duration_of(value@) is Some,
    ensures
        r == duration_of(value@)->0 as u64,
{
    match parse_duration(value) {
        Some(ms) => ms as u64,
        None => 0,
    }
}

/// A number in decimal.
pub fn decimal_wide(n: u128) -> (r: String)
    ensures
        r@ == decimal_text(n as nat),
    decreases n,
{
    if n <= 0xffff_ffff_ffff_ffff {
        return decimal(n as u64);
    }
    let rest: String = decimal_wide(n / 10);
    let last: String = decimal((n % 10) as u64);
    assert(last@ == seq![crate::text::digit_of((n % 10) as nat)]);
    let r: String = concat(rest.as_str(), last.as_str());
    assert(r@ =~= rest@.push(crate::text::digit_of((n % 10) as nat)));
    r
}

/// A duration of so many nanoseconds in text: in seconds where the milliseconds
/// make whole ones, else in milliseconds.
pub open spec fn duration_text(nanos: nat) -> Seq<char> {
    let ms = nanos / 1_000_000;
    if ms % 1000 == 0 {
        decimal_text(ms / 1000) + "s"@
    } else {
        decimal_text(ms) + "ms"@
    }
}

/// A duration of so many nanoseconds in text.
pub fn format_duration(nanos: u128) -> (r: String)
    ensures
        r@ == duration_text(nanos as nat),
{
    let ms: u128 = nanos / 1_000_000;
    if ms % 1000 == 0 {
        concat(decimal_wide(ms / 1000).as_str(), "s")
    } else {
        concat(decimal_wide(ms).as_str(), "ms")
    }
}

/// How long a request may wait, in nanoseconds on some clock.
#[derive(Clone, Copy, Debug, PartialEq, Eq, Structural)]
pub struct QueueDeadline {
    pub started: u128,
    pub duration: u128,
}

impl QueueDeadline {
    /// A deadline that starts now.
    pub fn new(duration: u128, now: u128) -> (r: Self)
        ensures
            r.started == now,
            r.duration == duration,
    {
        Self { started: now, duration }
    }
}

/// The time since a deadline started.
pub open spec fn waited(d: QueueDeadline, now: u128) -> nat {
    if now >= d.started {
        (now - d.started) as nat
    } else {
        0
    }
}

/// The failure of waiting too long.
pub open spec fn queue_failed(d: QueueDeadline, now: u128) -> FailureView {
    failed(
        4,
        "unavailable"@,
        "queue_deadline_exceeded"@,
        "The invocation deadline expired before the operation was dispatched."@,
        "queue"@,
        "not_sent"@,
        "safe"@,
        JsonView::Object(
            seq![
                ("deadline"@, JsonView::Text(duration_text(d.duration as nat))),
                ("waitedMs"@, JsonView::Int(((waited(d, now) / 1_000_000) as u64) as int)),
            ],
        ),
    )
}

/// The time that is left, or the failure of having waited too long.
pub open spec fn time_left(deadline: Option<QueueDeadline>, now: u128) -> Result<Option<u128>, FailureView> {
    match deadline {
        None => Ok(None),
        Some(d) => if waited(d, now) <= d.duration {
            Ok(Some((d.duration - waited(d, now)) as u128))
        } else {
            Err(queue_failed(d, now))
        },
    }
}

/// The time that is left, or the failure of having waited too long.
pub fn queue_deadline_remaining(deadline: Option<QueueDeadline>, now: u128) -> (r: Result<Option<u128>, ContractFailure>)
    ensures
        match r {
            Ok(left) => time_left(deadline, now) == Ok::<Option<u128>, FailureView>(left),
            Err(f) => time_left(deadline, now) == Err::<Option<u128>, FailureView>(f@),
        },
{
    let d: QueueDeadline = match deadline {
        Some(d) => d,
        None => {
            return Ok(None);
        },
    };
    let elapsed: u128 = if now >= d.started {
        now - d.started
    } else {
        0
    };
    if elapsed > d.duration {
        let ms: u64 = (elapsed / 1_000_000) as u64;
        return Err(
            failure(
                4,
                "unavailable",
                "queue_deadline_exceeded",
                "The invocation deadline expired before the operation was dispatched.",
                "queue",
                "not_sent",
                "safe",
                object2(
                    "deadline",
                    Json::Text(format_duration(d.duration)),
                    "waitedMs",
                    Json::Unsigned(ms),
                ),
            ),
        );
    }
    Ok(Some(d.duration - elapsed))
}

/// The digits of thirty-two bytes behind `sid_` are the identity of a session.
pub proof fn law_random_identities_are_shaped(bytes: Seq<u8>)
    requires
        bytes.len() == 32,
    ensures
        is_identity("sid_"@ + hex_text(bytes)),
{
    reveal_strlit("sid_");
    let s = "sid_"@ + hex_text(bytes);
    crate::digest::lemma_hex_len(bytes);
    assert(s.take(4) =~= "sid_"@);
    assert forall|i: int| 4 <= i < s.len() implies is_hex(#[trigger] s[i]) by {
        assert(s[i] == hex_text(bytes)[i - 4]);
        lemma_hex_digits(bytes, i - 4);
    }
}

proof fn lemma_hex_digits(bytes: Seq<u8>, i: int)
    requires
        0 <= i < hex_text(bytes).len(),
    ensures
        is_hex(hex_text(bytes)[i]),
    decreases bytes.len(),
{
    if bytes.len() > 0 {
        let rest = hex_text(bytes.drop_last());
        if i < rest.len() {
            lemma_hex_digits(bytes.drop_last(), i);
            assert(hex_text(bytes)[i] == rest[i]);
        }
    }
}

/// A failure that an Owner reports in full is handed on as it is.
pub proof fn law_reported_failures_are_kept(f: FailureView)
    requires
        f.category == "blocked"@ && f.exit_code == 3 || f.category == "unavailable"@ && f.exit_code == 4 || f.category
            == "query"@ && f.exit_code == 5,
    ensures
        reported_failure(
            JsonView::Object(
                seq![
                    ("category"@, JsonView::Text(f.category)),
                    ("code"@, JsonView::Text(f.code)),
                    ("data"@, f.data),
                    ("delivery"@, JsonView::Text(f.delivery)),
                    ("message"@, JsonView::Text(f.message)),
                    ("retry"@, JsonView::Text(f.retry)),
                    ("stage"@, JsonView::Text(f.stage)),
                ],
            ),
        ) == f,
{
    reveal_strlit("blocked");
    reveal_strlit("unavailable");
    reveal_strlit("query");
    reveal_strlit("category");
    reveal_strlit("code");
    reveal_strlit("data");
    reveal_strlit("delivery");
    reveal_strlit("message");
    reveal_strlit("retry");
    reveal_strlit("stage");
    reveal_with_fuel(crate::json::field, 8);
    assert("blocked"@.len() == 7 && "unavailable"@.len() == 11 && "query"@.len() == 5);
    assert("category"@.len() == 8 && "code"@.len() == 4 && "data"@.len() == 4 && "delivery"@.len() == 8);
    assert("message"@.len() == 7 && "retry"@.len() == 5 && "stage"@.len() == 5);
    assert("category"@[0] != "delivery"@[0]);
    assert("code"@[0] != "data"@[0]);
    assert("retry"@[0] != "stage"@[0]);
    let o = seq![
        ("category"@, JsonView::Text(f.category)),
        ("code"@, JsonView::Text(f.code)),
        ("data"@, f.data),
        ("delivery"@, JsonView::Text(f.delivery)),
        ("message"@, JsonView::Text(f.message)),
        ("retry"@, JsonView::Text(f.retry)),
        ("stage"@, JsonView::Text(f.stage)),
    ];
    let o1 = o.drop_first();
    let o2 = o1.drop_first();
    let o3 = o2.drop_first();
    let o4 = o3.drop_first();
    let o5 = o4.drop_first();
    let o6 = o5.drop_first();
    assert(o1[0] == o[1] && o2[0] == o[2] && o3[0] == o[3] && o4[0] == o[4] && o5[0] == o[5] && o6[0] == o[6]);
}

} // verus!
