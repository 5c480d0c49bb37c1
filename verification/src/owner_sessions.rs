//! Finding live Owners, and what is asked of several of them.

use vstd::prelude::*;

use crate::failure::{ContractFailure, FailureView};
use crate::invocation::{InvocationView, ParsedInvocation};
use crate::json::{Json, JsonView, array_view, object2, text_value};
use crate::order::{Order, text_order, text_precedes};
use crate::owner::{
    EndpointView,
    OwnerEndpoint,
    owner_unavailable,
    selection_failed,
    session_selection_failure,
    unavailable_owner,
};
use crate::path::NativePath;
use crate::plan_tree::lemma_filter_take;
use crate::ranking::{Ranked, rank, ranked};
use crate::text::{contains_string, opt_ref_view, parse_u64, parsed_unsigned, same, views};
use crate::trust_commands::{ok_json, ok_value};
use crate::uri::{UriPath, UriPathView, path_of_uri, uri_file_path};

verus! {

/// What is to be done with a file that should hold an endpoint.
#[derive(Clone, Copy, Debug, PartialEq, Eq, Structural)]
pub enum EndpointVerdict {
    /// The Owner is alive.
    Live,
    /// Nobody holds the lock of the session: the file is to be removed.
    Remove,
    Skip,
}

/// What is to be done with a file that should hold the endpoint of a session: a
/// live Owner answers and is of that session; a file that no live Owner can
/// have written is removed.
pub open spec fn endpoint_verdict(
    identity: Seq<char>,
    endpoint: Option<EndpointView>,
    answers: bool,
    lock_free: bool,
) -> EndpointVerdict {
    match endpoint {
        None => if lock_free {
            EndpointVerdict::Remove
        } else {
            EndpointVerdict::Skip
        },
        Some(e) => if e.session_identity != identity {
            EndpointVerdict::Skip
        } else if answers {
            EndpointVerdict::Live
        } else if lock_free {
            EndpointVerdict::Remove
        } else {
            EndpointVerdict::Skip
        },
    }
}

/// What is to be done with a file that should hold the endpoint of a session.
pub fn live_endpoint(identity: &str, endpoint: Option<&OwnerEndpoint>, answers: bool, lock_free: bool) -> (r:
    EndpointVerdict)
    ensures
        r == endpoint_verdict(identity@, opt_ref_view(endpoint), answers, lock_free),
{
    match endpoint {
        None => if lock_free {
            EndpointVerdict::Remove
        } else {
            EndpointVerdict::Skip
        },
        Some(e) => if !same(e.session_identity.as_str(), identity) {
            EndpointVerdict::Skip
        } else if answers {
            EndpointVerdict::Live
        } else if lock_free {
            EndpointVerdict::Remove
        } else {
            EndpointVerdict::Skip
        },
    }
}

/// Refuses an Owner whose status is that of another.
pub fn probe_endpoint(endpoint: &OwnerEndpoint, status: &Json) -> (r: Result<(), ContractFailure>)
    ensures
        ({
            let same_owner = status@.text_at("ownerGeneration"@) == Some(endpoint@.owner_generation);
            match r {
                Ok(_) => same_owner,
                Err(f) => !same_owner && f@ == unavailable_owner(
                    endpoint@.session_identity,
                    "generation_mismatch"@,
                ),
            }
        }),
{
    if let Some(generation) = status.text_at("ownerGeneration") {
        if same(generation.as_str(), endpoint.owner_generation.as_str()) {
            return Ok(());
        }
    }
    Err(owner_unavailable(endpoint.session_identity.as_str(), "generation_mismatch"))
}

/// Whether a text is the one that is asked for, where one is.
pub open spec fn fits(wanted: Option<Seq<char>>, s: Seq<char>) -> bool {
    wanted matches Some(w) ==> w == s
}

fn is_wanted(wanted: Option<&String>, s: &str) -> (r: bool)
    ensures
        r == fits(opt_ref_view(wanted), s@),
{
    match wanted {
        Some(w) => same(w.as_str(), s),
        None => true,
    }
}

/// Which Owners are those of a workspace and a server.
pub open spec fn owner_of(workspace_uri: Option<Seq<char>>, server: Option<Seq<char>>) -> spec_fn(EndpointView) -> bool {
    |e: EndpointView| fits(workspace_uri, e.workspace_uri) && fits(server, e.server)
}

/// Which Owners are those of a generation.
pub open spec fn owner_of_generation(generation: Seq<char>) -> spec_fn(EndpointView) -> bool {
    |e: EndpointView| e.owner_generation == generation
}

/// The Owners that a selection asks for.
pub open spec fn selected_owners(
    endpoints: Seq<EndpointView>,
    generation: Option<Seq<char>>,
    workspace_uri: Option<Seq<char>>,
    server: Option<Seq<char>>,
) -> Seq<EndpointView> {
    match generation {
        Some(g) => endpoints.filter(owner_of_generation(g)),
        None => endpoints.filter(owner_of(workspace_uri, server)),
    }
}

/// The generations of Owners.
pub open spec fn generations(endpoints: Seq<EndpointView>) -> Seq<Seq<char>> {
    endpoints.map_values(|e: EndpointView| e.owner_generation)
}

/// The one Owner that a selection asks for, or the failure of asking for none or
/// for more than one.
pub open spec fn selected_owner(selected: Seq<EndpointView>) -> Result<EndpointView, FailureView> {
    if selected.len() == 1 {
        Ok(selected[0])
    } else {
        Err(
            selection_failed(
                if selected.len() == 0 {
                    "No live Owner matches the selector."@
                } else {
                    "The selector matches more than one live Owner."@
                },
                generations(selected),
            ),
        )
    }
}

fn owners_where(
    endpoints: &Vec<OwnerEndpoint>,
    generation: Option<&String>,
    workspace_uri: Option<&String>,
    server: Option<&String>,
) -> (r: Vec<OwnerEndpoint>)
    ensures
        views(r@) == selected_owners(
            views(endpoints@),
            opt_ref_view(generation),
            opt_ref_view(workspace_uri),
            opt_ref_view(server),
        ),
{
    let ghost all = views(endpoints@);
    let ghost p = match opt_ref_view(generation) {
        Some(g) => owner_of_generation(g),
        None => owner_of(opt_ref_view(workspace_uri), opt_ref_view(server)),
    };
    let mut r: Vec<OwnerEndpoint> = Vec::new();
    let mut i: usize = 0;
    proof {
        assert(all.take(0).filter(p) =~= seq![]) by {
            reveal(Seq::filter);
        }
        assert(views(r@) =~= Seq::<EndpointView>::empty());
    }
    while i < endpoints.len()
        invariant
            i <= endpoints@.len(),
            all == views(endpoints@),
            p == match opt_ref_view(generation) {
                Some(g) => owner_of_generation(g),
                None => owner_of(opt_ref_view(workspace_uri), opt_ref_view(server)),
            },
            views(r@) == all.take(i as int).filter(p),
        decreases endpoints.len() - i,
    {
        proof { lemma_filter_take(all, p, i as int); }
        assert(all[i as int] == endpoints@[i as int]@);
        let ghost before = views(r@);
        let wanted: bool = match generation {
            Some(g) => same(endpoints[i].owner_generation.as_str(), g.as_str()),
            None => is_wanted(workspace_uri, endpoints[i].workspace_uri.as_str()) && is_wanted(
                server,
                endpoints[i].server.as_str(),
            ),
        };
        if wanted {
            r.push(endpoints[i].copy());
            assert(views(r@) =~= before.push(all[i as int]));
        }
        i += 1;
    }
    assert(all.take(i as int) =~= all);
    r
}

fn generations_of(endpoints: &Vec<OwnerEndpoint>) -> (r: Vec<String>)
    ensures
        views(r@) == generations(views(endpoints@)),
{
    let ghost all = generations(views(endpoints@));
    let mut r: Vec<String> = Vec::new();
    let mut i: usize = 0;
    while i < endpoints.len()
        invariant
            i <= endpoints@.len(),
            all == generations(views(endpoints@)),
            r@.len() == i,
            forall|k: int| 0 <= k < i ==> (#[trigger] r@[k])@ == all[k],
        decreases endpoints.len() - i,
    {
        assert(all[i as int] == endpoints@[i as int]@.owner_generation);
        r.push(endpoints[i].owner_generation.clone());
        i += 1;
    }
    assert(views(r@) =~= all);
    r
}

/// The one live Owner that is asked for, by its generation or by its workspace
/// and its server.
pub fn select_live_endpoint(
    endpoints: &Vec<OwnerEndpoint>,
    generation: Option<&String>,
    workspace_uri: Option<&String>,
    server: Option<&String>,
) -> (r: Result<OwnerEndpoint, ContractFailure>)
    ensures
        ({
            let one = selected_owner(
                selected_owners(
                    views(endpoints@),
                    opt_ref_view(generation),
                    opt_ref_view(workspace_uri),
                    opt_ref_view(server),
                ),
            );
            match r {
                Ok(e) => one == Ok::<EndpointView, FailureView>(e@),
                Err(f) => one == Err::<EndpointView, FailureView>(f@),
            }
        }),
{
    let mut selected: Vec<OwnerEndpoint> = owners_where(endpoints, generation, workspace_uri, server);
    let ghost all = views(selected@);
    assert(all.len() == selected@.len());
    if selected.len() != 1 {
        let candidates: Vec<String> = generations_of(&selected);
        let reason: &str = if selected.len() == 0 {
            "No live Owner matches the selector."
        } else {
            "The selector matches more than one live Owner."
        };
        return Err(session_selection_failure(reason, &candidates));
    }
    assert(all[0] == selected@[0]@);
    match selected.pop() {
        Some(e) => Ok(e),
        None => Err(owner_unavailable("", "")),
    }
}

/// The Owners whose status is asked for.
pub fn sessions_to_list(endpoints: &Vec<OwnerEndpoint>, workspace_uri: Option<&String>, server: Option<&String>) -> (r:
    Vec<OwnerEndpoint>)
    ensures
        views(r@) == views(endpoints@).filter(owner_of(opt_ref_view(workspace_uri), opt_ref_view(server))),
{
    owners_where(endpoints, None, workspace_uri, server)
}

/// The status of an Owner.
pub struct OwnerStatus {
    pub value: Json,
}

impl View for OwnerStatus {
    type V = JsonView;

    open spec fn view(&self) -> JsonView {
        self.value@
    }
}

/// Whether one text that may be absent comes before another: none comes first.
pub open spec fn optional_precedes(a: Option<Seq<char>>, b: Option<Seq<char>>) -> bool {
    match (a, b) {
        (None, Some(_)) => true,
        (Some(x), Some(y)) => text_precedes(x, y),
        _ => false,
    }
}

impl Ranked for OwnerStatus {
    open spec fn before(a: JsonView, b: JsonView) -> bool {
        optional_precedes(a.text_at("ownerGeneration"@), b.text_at("ownerGeneration"@))
    }

    proof fn lemma_not_before(a: JsonView, b: JsonView, c: JsonView) {
        let x = a.text_at("ownerGeneration"@);
        let y = b.text_at("ownerGeneration"@);
        let z = c.text_at("ownerGeneration"@);
        if optional_precedes(z, x) {
            if x is Some && y is Some && z is Some {
                <String as Ranked>::lemma_not_before(x->0, y->0, z->0);
            }
        }
    }

    proof fn lemma_one_way(a: JsonView, b: JsonView) {
        let x = a.text_at("ownerGeneration"@);
        let y = b.text_at("ownerGeneration"@);
        if x is Some && y is Some {
            <String as Ranked>::lemma_one_way(x->0, y->0);
        }
    }

    fn comes_before(&self, other: &Self) -> (r: bool) {
        match (self.value.text_at("ownerGeneration"), other.value.text_at("ownerGeneration")) {
            (None, Some(_)) => true,
            (Some(x), Some(y)) => match text_order(x.as_str(), y.as_str()) {
                Order::Less => true,
                _ => false,
            },
            _ => false,
        }
    }
}

/// The report of the live sessions, in the order of their generations.
pub fn list_sessions(statuses: Vec<OwnerStatus>, command: &Vec<String>) -> (r: Json)
    ensures
        r@ == ok_json(views(command@), JsonView::Array(ranked::<OwnerStatus>(views(statuses@)))),
{
    let sorted: Vec<OwnerStatus> = rank(statuses);
    let ghost all = views(sorted@);
    let mut items: Vec<Json> = Vec::new();
    let mut i: usize = 0;
    while i < sorted.len()
        invariant
            i <= sorted@.len(),
            all == views(sorted@),
            items@.len() == i,
            forall|k: int| 0 <= k < i ==> (#[trigger] items@[k])@ == all[k],
        decreases sorted.len() - i,
    {
        assert(all[i as int] == sorted@[i as int]@);
        items.push(sorted[i].value.copy());
        i += 1;
    }
    assert(array_view(items@) =~= all);
    ok_value(command, Json::Array(items))
}

/// How many lines of a log are asked for.
pub open spec fn tail_of(inv: InvocationView) -> nat {
    match inv.value("--tail"@) {
        Some(value) => match parsed_unsigned(value, u64::MAX as nat) {
            Some(n) => n,
            None => 100,
        },
        None => 100,
    }
}

/// How many lines of a log are asked for.
pub fn logs_tail(invocation: &ParsedInvocation) -> (r: u64)
    ensures
        r == tail_of(invocation@),
{
    match invocation.option_string("--tail") {
        Some(value) => match parse_u64(value.as_str()) {
            Some(n) => n,
            None => 100,
        },
        None => 100,
    }
}

/// Which Owners are to be told that their authorization may have changed.
pub open spec fn concerned(workspace_uri: Seq<char>, servers: Seq<Seq<char>>) -> spec_fn(EndpointView) -> bool {
    |e: EndpointView| e.workspace_uri == workspace_uri && servers.contains(e.server)
}

/// The Owners that are to be told that their authorization may have changed.
pub fn owners_to_signal(endpoints: &Vec<OwnerEndpoint>, workspace_uri: &str, servers: &Vec<String>) -> (r: Vec<
    OwnerEndpoint,
>)
    ensures
        views(r@) == views(endpoints@).filter(concerned(workspace_uri@, views(servers@))),
{
    let ghost all = views(endpoints@);
    let ghost p = concerned(workspace_uri@, views(servers@));
    let mut r: Vec<OwnerEndpoint> = Vec::new();
    let mut i: usize = 0;
    proof {
        assert(all.take(0).filter(p) =~= seq![]) by {
            reveal(Seq::filter);
        }
        assert(views(r@) =~= Seq::<EndpointView>::empty());
    }
    while i < endpoints.len()
        invariant
            i <= endpoints@.len(),
            all == views(endpoints@),
            p == concerned(workspace_uri@, views(servers@)),
            views(r@) == all.take(i as int).filter(p),
        decreases endpoints.len() - i,
    {
        proof { lemma_filter_take(all, p, i as int); }
        assert(all[i as int] == endpoints@[i as int]@);
        let ghost before = views(r@);
        if same(endpoints[i].workspace_uri.as_str(), workspace_uri) && contains_string(
            servers,
            endpoints[i].server.as_str(),
        ) {
            r.push(endpoints[i].copy());
            assert(views(r@) =~= before.push(all[i as int]));
        }
        i += 1;
    }
    assert(all.take(i as int) =~= all);
    r
}

/// Which Owners hold documents that a change of a workspace touches.
pub open spec fn holding(
    workspace_uri: Seq<char>,
    server: Option<Seq<char>>,
    session_identity: Option<Seq<char>>,
) -> spec_fn(EndpointView) -> bool {
    |e: EndpointView|
        e.workspace_uri == workspace_uri && fits(server, e.server) && fits(session_identity, e.session_identity)
}

/// The Owners that hold documents which a change of a workspace touches.
pub fn owners_to_refresh(
    endpoints: &Vec<OwnerEndpoint>,
    workspace_uri: &str,
    server: Option<&String>,
    session_identity: Option<&String>,
) -> (r: Vec<OwnerEndpoint>)
    ensures
        views(r@) == views(endpoints@).filter(
            holding(workspace_uri@, opt_ref_view(server), opt_ref_view(session_identity)),
        ),
{
    let ghost all = views(endpoints@);
    let ghost p = holding(workspace_uri@, opt_ref_view(server), opt_ref_view(session_identity));
    let mut r: Vec<OwnerEndpoint> = Vec::new();
    let mut i: usize = 0;
    proof {
        assert(all.take(0).filter(p) =~= seq![]) by {
            reveal(Seq::filter);
        }
        assert(views(r@) =~= Seq::<EndpointView>::empty());
    }
    while i < endpoints.len()
        invariant
            i <= endpoints@.len(),
            all == views(endpoints@),
            p == holding(workspace_uri@, opt_ref_view(server), opt_ref_view(session_identity)),
            views(r@) == all.take(i as int).filter(p),
        decreases endpoints.len() - i,
    {
        proof { lemma_filter_take(all, p, i as int); }
        assert(all[i as int] == endpoints@[i as int]@);
        let ghost before = views(r@);
        if same(endpoints[i].workspace_uri.as_str(), workspace_uri) && is_wanted(server, endpoints[i].server.as_str())
            && is_wanted(session_identity, endpoints[i].session_identity.as_str()) {
            r.push(endpoints[i].copy());
            assert(views(r@) =~= before.push(all[i as int]));
        }
        i += 1;
    }
    assert(all.take(i as int) =~= all);
    r
}

/// Whether an Owner read its documents again, by its answer.
pub open spec fn delivered(answer: Option<JsonView>) -> bool {
    answer matches Some(v) && v.get("delivered"@) == Some(JsonView::Bool(true))
}

/// Whether an Owner read its documents again, by its answer.
pub fn was_delivered(answer: Option<&Json>) -> (r: bool)
    ensures
        r == delivered(opt_ref_view(answer)),
{
    match answer {
        Some(v) => match v.get("delivered") {
            Some(Json::Bool(b)) => *b,
            _ => false,
        },
        None => false,
    }
}

/// The generations of the Owners for which a step succeeded, or failed.
pub open spec fn settled(outcomes: Seq<(String, bool)>, success: bool) -> Seq<Seq<char>>
    decreases outcomes.len(),
{
    if outcomes.len() == 0 {
        seq![]
    } else {
        let rest = settled(outcomes.drop_last(), success);
        if outcomes.last().1 == success {
            rest.push(outcomes.last().0@)
        } else {
            rest
        }
    }
}

/// The generations for which a step succeeded, and those for which it failed,
/// each in order.
pub fn settle(outcomes: &Vec<(String, bool)>) -> (r: (Vec<String>, Vec<String>))
    ensures
        views(r.0@) == ranked::<String>(settled(outcomes@, true)),
        views(r.1@) == ranked::<String>(settled(outcomes@, false)),
{
    let mut done: Vec<String> = Vec::new();
    let mut failed: Vec<String> = Vec::new();
    let mut i: usize = 0;
    assert(outcomes@.take(0) =~= Seq::<(String, bool)>::empty());
    assert(views(done@) =~= Seq::<Seq<char>>::empty());
    assert(views(failed@) =~= Seq::<Seq<char>>::empty());
    while i < outcomes.len()
        invariant
            i <= outcomes@.len(),
            views(done@) == settled(outcomes@.take(i as int), true),
            views(failed@) == settled(outcomes@.take(i as int), false),
        decreases outcomes.len() - i,
    {
        proof {
            assert(outcomes@.take(i + 1).drop_last() =~= outcomes@.take(i as int));
            assert(outcomes@.take(i + 1).last() == outcomes@[i as int]);
        }
        let ghost a = views(done@);
        let ghost b = views(failed@);
        if outcomes[i].1 {
            done.push(outcomes[i].0.clone());
            assert(views(done@) =~= a.push(outcomes@[i as int].0@));
        } else {
            failed.push(outcomes[i].0.clone());
            assert(views(failed@) =~= b.push(outcomes@[i as int].0@));
        }
        i += 1;
    }
    assert(outcomes@.take(i as int) =~= outcomes@);
    (rank(done), rank(failed))
}

/// What follows while an Owner is waited for to end.
pub enum ExitStep {
    Gone,
    /// Look again in so many milliseconds.
    Wait(u64),
    Fail(ContractFailure),
}

/// What an [`ExitStep`] stands for.
pub ghost enum ExitView {
    Gone,
    Wait(u64),
    Fail(FailureView),
}

impl View for ExitStep {
    type V = ExitView;

    open spec fn view(&self) -> ExitView {
        match self {
            ExitStep::Gone => ExitView::Gone,
            ExitStep::Wait(ms) => ExitView::Wait(*ms),
            ExitStep::Fail(f) => ExitView::Fail(f@),
        }
    }
}

/// Whether an Owner is gone: another one answers in its place, or nothing is
/// recorded and nobody holds its lock.
pub open spec fn owner_gone(endpoint: EndpointView, current: Option<EndpointView>, answers: bool, lock_free: bool) -> bool {
    match current {
        Some(c) => c.owner_generation != endpoint.owner_generation && answers,
        None => lock_free,
    }
}

/// What follows while an Owner is waited for to end.
pub open spec fn exit_step(
    endpoint: EndpointView,
    current: Option<EndpointView>,
    answers: bool,
    lock_free: bool,
    now: u128,
    deadline: u128,
) -> ExitView {
    if owner_gone(endpoint, current, answers, lock_free) {
        ExitView::Gone
    } else if now >= deadline {
        ExitView::Fail(unavailable_owner(endpoint.session_identity, "restart_shutdown_deadline_exceeded"@))
    } else {
        ExitView::Wait(10)
    }
}

/// What follows while an Owner is waited for to end.
pub fn wait_for_owner_exit(
    endpoint: &OwnerEndpoint,
    current: Option<&OwnerEndpoint>,
    answers: bool,
    lock_free: bool,
    now: u128,
    deadline: u128,
) -> (r: ExitStep)
    ensures
        r@ == exit_step(endpoint@, opt_ref_view(current), answers, lock_free, now, deadline),
{
    let gone: bool = match current {
        Some(c) => !same(c.owner_generation.as_str(), endpoint.owner_generation.as_str()) && answers,
        None => lock_free,
    };
    if gone {
        ExitStep::Gone
    } else if now >= deadline {
        ExitStep::Fail(owner_unavailable(endpoint.session_identity.as_str(), "restart_shutdown_deadline_exceeded"))
    } else {
        ExitStep::Wait(10)
    }
}

/// The directory of the workspace of an Owner that is started again.
pub fn owner_workspace(workspace_uri: &str) -> (r: Result<NativePath, ContractFailure>)
    ensures
        match path_of_uri(workspace_uri@) {
            UriPathView::Path(path) => r matches Ok(p) && p@ == path,
            _ => r matches Err(f) && f@ == selection_failed("The Owner Workspace URI is invalid."@, seq![]),
        },
{
    match uri_file_path(workspace_uri) {
        UriPath::Path(path) => Ok(path),
        _ => {
            let none: Vec<String> = Vec::new();
            assert(views(none@) =~= seq![]);
            Err(session_selection_failure("The Owner Workspace URI is invalid.", &none))
        },
    }
}

/// The report of a session that was started again.
pub fn restart_session(command: &Vec<String>, previous: &str, replacement: &str) -> (r: Json)
    ensures
        r@ == ok_json(
            views(command@),
            JsonView::Object(
                seq![
                    ("ownerGeneration"@, JsonView::Text(replacement@)),
                    ("previousOwnerGeneration"@, JsonView::Text(previous@)),
                ],
            ),
        ),
{
    ok_value(
        command,
        object2("ownerGeneration", text_value(replacement), "previousOwnerGeneration", text_value(previous)),
    )
}

/// An Owner that is selected is live, and is the only one that fits.
pub proof fn law_selected_owner_is_the_only_one(
    endpoints: Seq<EndpointView>,
    workspace_uri: Option<Seq<char>>,
    server: Option<Seq<char>>,
)
    ensures
        selected_owner(selected_owners(endpoints, None, workspace_uri, server)) matches Ok(e) ==> endpoints.contains(e)
            && owner_of(workspace_uri, server)(e) && forall|other: EndpointView| #[trigger]
            endpoints.contains(other) && owner_of(workspace_uri, server)(other) ==> other == e,
{
    let p = owner_of(workspace_uri, server);
    let s = endpoints.filter(p);
    if s.len() == 1 {
        let e = s[0];
        assert(s.contains(e));
        assert(endpoints.contains(e) && p(e)) by {
            broadcast use vstd::seq_lib::group_filter_ensures;

            endpoints.lemma_filter_contains_rev(p, e);
        }
        assert forall|other: EndpointView| #[trigger] endpoints.contains(other) && p(other) implies other == e by {
            broadcast use vstd::seq_lib::group_filter_ensures;

            let k = endpoints.index_of(other);
            assert(endpoints[k] == other);
            assert(s.contains(other));
        }
    }
}

/// Nothing that a live Owner may have written is removed: a file is removed only
/// where nobody holds the lock of its session.
pub proof fn law_live_owners_keep_their_files(
    identity: Seq<char>,
    endpoint: Option<EndpointView>,
    answers: bool,
    lock_free: bool,
)
    ensures
        endpoint_verdict(identity, endpoint, answers, lock_free) == EndpointVerdict::Remove ==> lock_free && !(answers
            && endpoint is Some && endpoint->0.session_identity == identity),
        endpoint_verdict(identity, endpoint, answers, lock_free) == EndpointVerdict::Live ==> answers && endpoint is Some
            && endpoint->0.session_identity == identity,
{
}

} // verus!
