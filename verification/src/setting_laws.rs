//! Which settings and configuration files are accepted, and what counts where
//! nothing is declared.

use vstd::prelude::*;

use crate::config_checks::valid_duration;
use crate::config_paths::user_config_path;
use crate::config_routes::{is_extension, repeats, routes_problem, selectors_before, selectors_of};
use crate::config_servers::{
    convertible,
    project_file_problem,
    user_file_problem,
};
use crate::config_settings::{
    SettingsView,
    mutation_of,
    previews_of,
    protocol_of,
    receipts_of,
    session_of,
    settings_problem,
    synchronization_of,
};
use crate::configuration::{
    MutationConfig,
    PreviewConfig,
    ProjectServerView,
    ProtocolConfig,
    ReceiptConfig,
    RouteView,
    SessionConfig,
    SynchronizationConfig,
    UserServerView,
};
use crate::failure::FailureView;
use crate::manifest::PathView;
use crate::text::folded;

verus! {

/// Each time that the user declares for sessions counts as declared, and each
/// that is not declared has its usual length.
pub proof fn law_declared_times_count(s: SessionConfig)
    ensures
        s.owner_startup_timeout matches Some(t) ==> session_of(Some(s)).owner_startup_timeout == t@,
        s.owner_startup_timeout is None ==> session_of(Some(s)).owner_startup_timeout == "30s"@,
        session_of(None).owner_startup_timeout == "30s"@,
        s.initialization_timeout matches Some(t) ==> session_of(Some(s)).initialization_timeout == t@,
        s.initialization_timeout is None ==> session_of(Some(s)).initialization_timeout == "30s"@,
        session_of(None).initialization_timeout == "30s"@,
        s.request_timeout matches Some(t) ==> session_of(Some(s)).request_timeout == t@,
        s.request_timeout is None ==> session_of(Some(s)).request_timeout == "30s"@,
        session_of(None).request_timeout == "30s"@,
        s.cancellation_grace matches Some(t) ==> session_of(Some(s)).cancellation_grace == t@,
        s.cancellation_grace is None ==> session_of(Some(s)).cancellation_grace == "5s"@,
        session_of(None).cancellation_grace == "5s"@,
        s.shutdown_timeout matches Some(t) ==> session_of(Some(s)).shutdown_timeout == t@,
        s.shutdown_timeout is None ==> session_of(Some(s)).shutdown_timeout == "5s"@,
        session_of(None).shutdown_timeout == "5s"@,
        s.idle_timeout matches Some(t) ==> session_of(Some(s)).idle_timeout == t@,
        s.idle_timeout is None ==> session_of(Some(s)).idle_timeout == "10m"@,
        session_of(None).idle_timeout == "10m"@,
{
}

/// Each limit that the user declares on what is synchronized counts as
/// declared, and each that is not declared has its usual value.
pub proof fn law_declared_synchronization_limits_count(c: SynchronizationConfig)
    ensures
        c.max_open_documents matches Some(n) ==> synchronization_of(Some(c)).max_open_documents == n,
        c.max_open_documents is None ==> synchronization_of(Some(c)).max_open_documents == 128,
        c.max_document_bytes matches Some(n) ==> synchronization_of(Some(c)).max_document_bytes == n,
        c.max_document_bytes is None ==> synchronization_of(Some(c)).max_document_bytes == 16777216,
        c.max_total_text_bytes matches Some(n) ==> synchronization_of(Some(c)).max_total_text_bytes == n,
        c.max_total_text_bytes is None ==> synchronization_of(Some(c)).max_total_text_bytes == 67108864,
        c.max_diagnostic_snapshots matches Some(n) ==> synchronization_of(Some(c)).max_diagnostic_snapshots == n,
        c.max_diagnostic_snapshots is None ==> synchronization_of(Some(c)).max_diagnostic_snapshots == 128,
        c.max_diagnostic_bytes matches Some(n) ==> synchronization_of(Some(c)).max_diagnostic_bytes == n,
        c.max_diagnostic_bytes is None ==> synchronization_of(Some(c)).max_diagnostic_bytes == 134217728,
{
}

/// Each limit that the user declares on messages counts as declared, and each
/// that is not declared has its usual value.
pub proof fn law_declared_protocol_limits_count(c: ProtocolConfig)
    ensures
        c.max_message_bytes matches Some(n) ==> protocol_of(Some(c)).max_message_bytes == n,
        c.max_message_bytes is None ==> protocol_of(Some(c)).max_message_bytes == 67108864,
        c.max_partial_result_bytes matches Some(n) ==> protocol_of(Some(c)).max_partial_result_bytes == n,
        c.max_partial_result_bytes is None ==> protocol_of(Some(c)).max_partial_result_bytes == 67108864,
{
}

/// Each limit that the user declares on previews and receipts counts as
/// declared, and each that is not declared has its usual value.
pub proof fn law_declared_retention_limits_count(c: PreviewConfig, r: ReceiptConfig)
    ensures
        c.max_count matches Some(n) ==> previews_of(Some(c)).max_count == n,
        c.max_count is None ==> previews_of(Some(c)).max_count == 64,
        c.max_total_bytes matches Some(n) ==> previews_of(Some(c)).max_total_bytes == n,
        c.max_total_bytes is None ==> previews_of(Some(c)).max_total_bytes == 268435456,
        c.max_document_text_bytes matches Some(n) ==> previews_of(Some(c)).max_document_text_bytes == n,
        c.max_document_text_bytes is None ==> previews_of(Some(c)).max_document_text_bytes == 16777216,
        c.max_text_bytes matches Some(n) ==> previews_of(Some(c)).max_text_bytes == n,
        c.max_text_bytes is None ==> previews_of(Some(c)).max_text_bytes == 67108864,
        r.max_count matches Some(n) ==> receipts_of(Some(r)).max_count == n,
        r.max_count is None ==> receipts_of(Some(r)).max_count == 1024,
{
}

/// Each limit that the user declares on changes counts as declared, and each
/// that is not declared has its usual value.
pub proof fn law_declared_change_limits_count(c: MutationConfig)
    ensures
        c.max_entries matches Some(n) ==> mutation_of(Some(c)).max_entries == n,
        c.max_entries is None ==> mutation_of(Some(c)).max_entries == 10000,
        c.max_recursion_depth matches Some(n) ==> mutation_of(Some(c)).max_recursion_depth == n,
        c.max_recursion_depth is None ==> mutation_of(Some(c)).max_recursion_depth == 64,
        c.max_rollback_bytes matches Some(n) ==> mutation_of(Some(c)).max_rollback_bytes == n,
        c.max_rollback_bytes is None ==> mutation_of(Some(c)).max_rollback_bytes == 1073741824,
        c.max_staged_text_bytes matches Some(n) ==> mutation_of(Some(c)).max_staged_text_bytes == n,
        c.max_staged_text_bytes is None ==> mutation_of(Some(c)).max_staged_text_bytes == 67108864,
        c.max_preauthorized_callbacks matches Some(n) ==> mutation_of(Some(c)).max_preauthorized_callbacks == n,
        c.max_preauthorized_callbacks is None ==> mutation_of(Some(c)).max_preauthorized_callbacks == 64,
        c.application_lock_timeout matches Some(t) ==> mutation_of(Some(c)).application_lock_timeout == t@,
        c.application_lock_timeout is None ==> mutation_of(Some(c)).application_lock_timeout == "30s"@,
{
}

/// Whether a text is a duration that may be declared.
pub open spec fn waits(value: Seq<char>) -> bool {
    valid_duration(value, ""@) is Ok
}

proof fn lemma_waits(value: Seq<char>, field: Seq<char>)
    ensures
        valid_duration(value, field) is Ok <==> waits(value),
{
}

/// Settings are accepted exactly where every time is a duration, every limit
/// is positive, and no limit on a part is above the limit on the whole.
pub proof fn law_settings_are_accepted(s: SettingsView)
    ensures
        settings_problem(s) is None <==> {
            &&& waits(s.session.owner_startup_timeout)
            &&& waits(s.session.initialization_timeout)
            &&& waits(s.session.request_timeout)
            &&& waits(s.session.cancellation_grace)
            &&& waits(s.session.shutdown_timeout)
            &&& waits(s.session.idle_timeout)
            &&& waits(s.mutation.application_lock_timeout)
            &&& s.synchronization.max_open_documents > 0
            &&& 0 < s.synchronization.max_document_bytes <= s.synchronization.max_total_text_bytes
            &&& s.synchronization.max_diagnostic_snapshots > 0
            &&& s.synchronization.max_diagnostic_bytes > 0
            &&& s.protocol.max_message_bytes > 0
            &&& s.protocol.max_partial_result_bytes > 0
            &&& s.previews.max_count > 0
            &&& 0 < s.previews.max_document_text_bytes <= s.previews.max_text_bytes <= s.previews.max_total_bytes
            &&& s.receipts.max_count > 0
            &&& s.mutation.max_entries > 0
            &&& s.mutation.max_recursion_depth > 0
            &&& s.mutation.max_rollback_bytes > 0
            &&& s.mutation.max_staged_text_bytes > 0
            &&& s.mutation.max_preauthorized_callbacks > 0
        },
{
    lemma_waits(s.session.owner_startup_timeout, "session.owner_startup_timeout"@);
    lemma_waits(s.session.initialization_timeout, "session.initialization_timeout"@);
    lemma_waits(s.session.request_timeout, "session.request_timeout"@);
    lemma_waits(s.session.cancellation_grace, "session.cancellation_grace"@);
    lemma_waits(s.session.shutdown_timeout, "session.shutdown_timeout"@);
    lemma_waits(s.session.idle_timeout, "session.idle_timeout"@);
    lemma_waits(s.mutation.application_lock_timeout, "mutation.application_lock_timeout"@);
}

/// Whether a server may be declared by the user as it is.
pub open spec fn declarable(name: Seq<char>, u: UserServerView, accepted: Seq<Seq<char>>) -> bool {
    &&& accepted.contains(name)
    &&& u.request_timeout matches Some(t) ==> waits(t)
    &&& u.published_diagnostics_wait matches Some(t) ==> waits(t)
    &&& convertible(u.initialization_options)
    &&& convertible(u.settings)
}

/// The servers of the user are accepted exactly where each has a proper name,
/// waits for proper times, and has options that can be written in JSON.
pub proof fn law_user_servers_are_accepted(
    names: Seq<Seq<char>>,
    servers: Map<Seq<char>, UserServerView>,
    accepted: Seq<Seq<char>>,
    path: Seq<char>,
)
    ensures
        user_file_problem(names, servers, accepted, path) is None <==> forall|i: int|
            0 <= i < names.len() ==> declarable(#[trigger] names[i], servers[names[i]], accepted),
    decreases names.len(),
{
    if names.len() > 0 {
        let rest = names.drop_first();
        let u = servers[names[0]];
        if let Some(t) = u.request_timeout {
            lemma_waits(t, "servers.request_timeout"@);
        }
        if let Some(t) = u.published_diagnostics_wait {
            lemma_waits(t, "servers.published_diagnostics_wait"@);
        }
        law_user_servers_are_accepted(rest, servers, accepted, path);
        if user_file_problem(names, servers, accepted, path) is None {
            assert forall|i: int| 0 <= i < names.len() implies declarable(
                #[trigger] names[i],
                servers[names[i]],
                accepted,
            ) by {
                if i > 0 {
                    assert(rest[i - 1] == names[i]);
                }
            }
        } else if user_file_problem(rest, servers, accepted, path) is Some {
            let i = choose|i: int|
                0 <= i < rest.len() && !declarable(#[trigger] rest[i], servers[rest[i]], accepted);
            assert(names[i + 1] == rest[i]);
        } else {
            assert(!declarable(names[0], servers[names[0]], accepted));
        }
    }
}

/// The servers of a project are accepted exactly where each has a proper name
/// and options that can be written in JSON.
pub proof fn law_project_servers_are_accepted(
    names: Seq<Seq<char>>,
    servers: Map<Seq<char>, ProjectServerView>,
    accepted: Seq<Seq<char>>,
    path: Seq<char>,
)
    ensures
        project_file_problem(names, servers, accepted, path) is None <==> forall|i: int|
            0 <= i < names.len() ==> accepted.contains(#[trigger] names[i]) && convertible(
                servers[names[i]].initialization_options,
            ) && convertible(servers[names[i]].settings),
    decreases names.len(),
{
    if names.len() > 0 {
        let rest = names.drop_first();
        law_project_servers_are_accepted(rest, servers, accepted, path);
        if project_file_problem(names, servers, accepted, path) is None {
            assert forall|i: int| 0 <= i < names.len() implies accepted.contains(#[trigger] names[i]) && convertible(
                servers[names[i]].initialization_options,
            ) && convertible(servers[names[i]].settings) by {
                if i > 0 {
                    assert(rest[i - 1] == names[i]);
                }
            }
        } else if project_file_problem(rest, servers, accepted, path) is Some {
            let i = choose|i: int|
                0 <= i < rest.len() && !(accepted.contains(#[trigger] rest[i]) && convertible(
                    servers[rest[i]].initialization_options,
                ) && convertible(servers[rest[i]].settings));
            assert(names[i + 1] == rest[i]);
        } else {
            assert(!(accepted.contains(names[0]) && convertible(servers[names[0]].initialization_options)
                && convertible(servers[names[0]].settings)));
        }
    }
}

/// Whether a route stands on its own: for a declared server under a proper
/// name, with a language, and with extensions that begin with a dot and hold
/// no separator.
pub open spec fn routable(r: RouteView, servers: Set<Seq<char>>, accepted: Seq<Seq<char>>) -> bool {
    &&& accepted.contains(r.server)
    &&& servers.contains(r.server)
    &&& r.language_id.len() > 0
    &&& r.extensions.len() > 0
    &&& forall|j: int|
        0 <= j < r.extensions.len() ==> (#[trigger] r.extensions[j]).len() > 0 && r.extensions[j][0] == '.'
            && !r.extensions[j].contains('/') && !r.extensions[j].contains('\\')
}

proof fn lemma_extensions(e: Seq<char>)
    ensures
        is_extension(e) <==> e.len() > 0 && e[0] == '.' && !e.contains('/') && !e.contains('\\'),
{
    reveal_strlit(".");
    assert("."@.len() == 1 && "."@[0] == '.');
    if e.len() > 0 && e[0] == '.' {
        assert("."@.is_prefix_of(e)) by {
            assert("."@ =~= e.subrange(0, 1));
        }
    }
}

/// Routes are accepted exactly where each stands on its own and none repeats a
/// selector of the same server.
pub proof fn law_routes_are_accepted(
    routes: Seq<RouteView>,
    from: int,
    servers: Set<Seq<char>>,
    accepted: Seq<Seq<char>>,
    path: Seq<char>,
)
    requires
        0 <= from,
    ensures
        routes_problem(routes, from, servers, accepted, path) is None <==> forall|i: int|
            from <= i < routes.len() ==> routable(#[trigger] routes[i], servers, accepted) && !repeats(routes, i),
    decreases routes.len() - from,
{
    if from < routes.len() {
        law_routes_are_accepted(routes, from + 1, servers, accepted, path);
        let r = routes[from];
        assert forall|j: int| 0 <= j < r.extensions.len() implies is_extension(#[trigger] r.extensions[j]) == (
        r.extensions[j].len() > 0 && r.extensions[j][0] == '.' && !r.extensions[j].contains('/')
            && !r.extensions[j].contains('\\')) by {
            lemma_extensions(r.extensions[j]);
        }
        if !routable(r, servers, accepted) && accepted.contains(r.server) && servers.contains(r.server)
            && r.language_id.len() > 0 && r.extensions.len() > 0 {
            let j = choose|j: int|
                0 <= j < r.extensions.len() && !((#[trigger] r.extensions[j]).len() > 0 && r.extensions[j][0] == '.'
                    && !r.extensions[j].contains('/') && !r.extensions[j].contains('\\'));
            assert(!is_extension(r.extensions[j]));
        }
    }
}

/// A route repeats a selector where an earlier route of the same server has
/// the same language and the same extension, whatever the case of its letters,
/// or where it names an extension twice.
pub proof fn law_repeated_routes_are_found(routes: Seq<RouteView>, i: int, k: int, j: int, l: int)
    requires
        0 <= k < i < routes.len(),
        0 <= j < routes[i].extensions.len(),
        0 <= l < routes[k].extensions.len(),
        routes[k].server == routes[i].server,
        routes[k].language_id == routes[i].language_id,
        folded(routes[k].extensions[l]) == folded(routes[i].extensions[j]),
    ensures
        repeats(routes, i),
{
    lemma_earlier_selectors(routes, i, k, l);
    let before = selectors_before(routes, i);
    let row = before + selectors_of(routes[i]).take(j);
    let s = selectors_of(routes[i])[j];
    assert(before.contains(s));
    let at = choose|at: int| 0 <= at < before.len() && before[at] == s;
    assert(row[at] == s);
    assert(row.contains(s));
}

proof fn lemma_earlier_selectors(routes: Seq<RouteView>, n: int, k: int, l: int)
    requires
        0 <= k < n <= routes.len(),
        0 <= l < routes[k].extensions.len(),
    ensures
        selectors_before(routes, n).contains(selectors_of(routes[k])[l]),
    decreases n,
{
    let before = selectors_before(routes, n - 1);
    let mine = selectors_of(routes[n - 1]);
    let all = before + mine;
    if k == n - 1 {
        assert(all[before.len() + l] == mine[l]);
    } else {
        lemma_earlier_selectors(routes, n - 1, k, l);
        let s = selectors_of(routes[k])[l];
        let at = choose|at: int| 0 <= at < before.len() && before[at] == s;
        assert(all[at] == s);
    }
}

/// The file of the user lies in the directory that the environment names,
/// which has to begin at the root, and else in the one of the system.
pub proof fn law_user_file_is_where_it_is_named(named: PathView, system: PathView)
    ensures
        named.len() > 0 && named[0] == "/"@ ==> user_config_path(Some(named), Some(system)) == Ok::<
            PathView,
            FailureView,
        >(named + seq!["lspctl"@, "config.toml"@]),
        named.len() == 0 || named[0] != "/"@ ==> user_config_path(Some(named), Some(system)) is Err,
        user_config_path(None, Some(system)) == Ok::<PathView, FailureView>(system.push("config.toml"@)),
        user_config_path(None, None) is Err,
{
    assert(named.push("lspctl"@).push("config.toml"@) =~= named + seq!["lspctl"@, "config.toml"@]);
}

} // verus!
