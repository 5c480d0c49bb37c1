//! What counts of what the user, the project and the command line declare.

use vstd::prelude::*;
use vstd::utf8::{encode_utf8, encode_utf8_decode_utf8};

use crate::config_load::{
    ConfigurationView,
    InheritedView,
    child_environment,
    handed_on,
    identity_json,
    is_transient,
    loaded,
    with_declared,
};
use crate::config_routes::{RouteTestView, file_ends, longest, selects};
use crate::config_select::{entered, key_of, names_server, names_twice, selected, sign_of, value_of, values_or_none};
use crate::configuration::{
    ConfigSource,
    ProjectConfigFile,
    RouteView,
    ServerView,
    SourcedView,
    UserConfigFile,
};
use crate::failure::FailureView;
use crate::invocation::InvocationView;
use crate::json::JsonView;
use crate::manifest::PathView;
use crate::reports::texts_json;
use crate::sorted::{lemma_listing_exists, listing, lists_keys};
use crate::text::views;

verus! {

proof fn lemma_entry(name: Seq<char>, value: Seq<char>)
    requires
        !name.contains('='),
    ensures
        (name + seq!['='] + value).contains('='),
        key_of(name + seq!['='] + value) == name,
        value_of(name + seq!['='] + value) == value,
{
    let entry = name + seq!['='] + value;
    assert(entry[name.len() as int] == '=');
    entry.index_of_first_ensures('=');
    let at = sign_of(entry);
    if at < name.len() {
        assert(name[at] == '=');
    }
    assert(at == name.len());
    assert(entry.take(at) =~= name);
    assert(entry.skip(at + 1) =~= value);
}

proof fn lemma_entered(
    environment: Map<Seq<char>, SourcedView<Seq<char>>>,
    entries: Seq<Seq<char>>,
    directory: PathView,
    variable: Seq<char>,
)
    requires
        !names_twice(entries),
    ensures
        forall|i: int|
            0 <= i < entries.len() && #[trigger] key_of(entries[i]) == variable ==> entered(
                environment,
                entries,
                directory,
            ).dom().contains(variable) && entered(environment, entries, directory)[variable] == (SourcedView {
                value: value_of(entries[i]),
                source: ConfigSource::Cli,
                declaring_directory: directory,
            }),
        (forall|i: int| 0 <= i < entries.len() ==> #[trigger] key_of(entries[i]) != variable) ==> (entered(
            environment,
            entries,
            directory,
        ).dom().contains(variable) <==> environment.dom().contains(variable)) && (environment.dom().contains(variable)
            ==> entered(environment, entries, directory)[variable] == environment[variable]),
    decreases entries.len(),
{
    if entries.len() > 0 {
        let rest = entries.drop_last();
        let n = entries.len() - 1;
        assert forall|i: int, j: int| 0 <= i < j < rest.len() implies #[trigger] key_of(rest[i]) != #[trigger] key_of(
            rest[j],
        ) by {
            assert(key_of(entries[i]) != key_of(entries[j]));
        }
        lemma_entered(environment, rest, directory, variable);
        assert forall|i: int| 0 <= i < entries.len() && #[trigger] key_of(entries[i]) == variable implies entered(
            environment,
            entries,
            directory,
        ).dom().contains(variable) && entered(environment, entries, directory)[variable] == (SourcedView {
            value: value_of(entries[i]),
            source: ConfigSource::Cli,
            declaring_directory: directory,
        }) by {
            if i < n {
                assert(key_of(entries[i]) != key_of(entries[n]));
                assert(key_of(rest[i]) == variable);
            }
        }
        if forall|i: int| 0 <= i < entries.len() ==> #[trigger] key_of(entries[i]) != variable {
            assert(key_of(entries[n]) != variable);
            assert forall|i: int| 0 <= i < rest.len() implies #[trigger] key_of(rest[i]) != variable by {
                assert(key_of(entries[i]) != variable);
            }
        }
    }
}

/// What the command line declares of a server counts before anything else, and
/// comes from the command line; what it does not declare stays as it is.
pub proof fn law_command_line_counts_first(
    s: ServerView,
    invocation: InvocationView,
    directory: PathView,
    options: Option<Result<JsonView, FailureView>>,
    settings: Option<Result<JsonView, FailureView>>,
)
    ensures
        s.overridden(invocation, directory, options, settings) matches Ok(t) ==> {
            &&& match invocation.value("--server-executable"@) {
                Some(v) => t.executable is Some && t.executable->0.value == v && t.executable->0.source
                    == ConfigSource::Cli && t.executable->0.declaring_directory == directory,
                None => t.executable == s.executable,
            }
            &&& match invocation.values("--server-arg"@) {
                Some(v) => t.args.value == v && t.args.source == ConfigSource::Cli && t.args.declaring_directory
                    == directory,
                None => t.args == s.args,
            }
            &&& match invocation.value("--server-cwd"@) {
                Some(v) => t.cwd is Some && t.cwd->0.value == v && t.cwd->0.source == ConfigSource::Cli
                    && t.cwd->0.declaring_directory == directory,
                None => t.cwd == s.cwd,
            }
            &&& match options {
                Some(Ok(v)) => t.initialization_options is Some && t.initialization_options->0.value == v
                    && t.initialization_options->0.source == ConfigSource::Cli,
                _ => t.initialization_options == s.initialization_options,
            }
            &&& match settings {
                Some(Ok(v)) => t.settings.value == v && t.settings.source == ConfigSource::Cli,
                _ => t.settings == s.settings,
            }
            &&& match invocation.value("--request-timeout"@) {
                Some(v) => t.request_timeout == v,
                None => t.request_timeout == s.request_timeout,
            }
            &&& t.name == s.name
            &&& t.published_diagnostics_wait == s.published_diagnostics_wait
        },
        s.overridden(invocation, directory, options, settings) is Ok <==> !names_twice(
            values_or_none(invocation, "--server-env"@),
        ) && !(options is Some && options->0 is Err) && !(settings is Some && settings->0 is Err),
{
}

/// A variable that the command line gives has the value behind its first equals
/// sign, and comes from the command line; every other variable stays as it is.
pub proof fn law_command_line_variables_count_first(
    s: ServerView,
    invocation: InvocationView,
    directory: PathView,
    options: Option<Result<JsonView, FailureView>>,
    settings: Option<Result<JsonView, FailureView>>,
    name: Seq<char>,
    value: Seq<char>,
)
    requires
        !name.contains('='),
        s.overridden(invocation, directory, options, settings) is Ok,
    ensures
        ({
            let t = s.overridden(invocation, directory, options, settings)->Ok_0;
            let given = values_or_none(invocation, "--server-env"@);
            &&& given.contains(name + seq!['='] + value) ==> t.environment.dom().contains(name)
                && t.environment[name].value == value && t.environment[name].source == ConfigSource::Cli
                && t.environment[name].declaring_directory == directory
            &&& (forall|i: int| 0 <= i < given.len() ==> key_of(#[trigger] given[i]) != name) ==> (
            t.environment.dom().contains(name) <==> s.environment.dom().contains(name)) && (s.environment.dom().contains(
                name,
            ) ==> t.environment[name] == s.environment[name])
        }),
{
    let given = values_or_none(invocation, "--server-env"@);
    lemma_entry(name, value);
    lemma_entered(s.environment, given, directory, name);
    let entry = name + seq!['='] + value;
    let t = s.overridden(invocation, directory, options, settings)->Ok_0;
    assert(s.with_launch(invocation, directory).environment == s.environment);
    assert(t.environment == entered(s.environment, given, directory));
    if given.contains(entry) {
        let i = choose|i: int| 0 <= i < given.len() && given[i] == entry;
        assert(key_of(given[i]) == name);
        assert(t.environment.dom().contains(name));
        assert(t.environment[name].value == value);
    }
    if forall|i: int| 0 <= i < given.len() ==> key_of(#[trigger] given[i]) != name {
        assert forall|i: int| 0 <= i < given.len() implies #[trigger] key_of(given[i]) != name by {
            assert(key_of(given[i]) != name);
        }
        assert(t.environment.dom().contains(name) <==> s.environment.dom().contains(name));
        assert(s.environment.dom().contains(name) ==> t.environment[name] == s.environment[name]);
    }
}

/// A server that is named is the one asked for, whatever else is given; a
/// language that is named counts before a file; and the default counts only
/// where nothing is given.
pub proof fn law_servers_are_asked_for_by_name_first(
    routes: Seq<RouteView>,
    default_server: Option<Seq<char>>,
    invocation: InvocationView,
    server: Seq<char>,
)
    requires
        names_server(routes, default_server, invocation, Ok(server)),
    ensures
        invocation.value("--server"@) is Some ==> invocation.value("--server"@) == Some(server),
        invocation.value("--server"@) is None && invocation.value("--language-id"@) is Some ==> {
            let language = invocation.value("--language-id"@)->0;
            &&& exists|i: int| 0 <= i < routes.len() && (#[trigger] routes[i]).language_id == language && routes[i].server
                == server
            &&& forall|i: int|
                0 <= i < routes.len() && (#[trigger] routes[i]).language_id == language ==> routes[i].server == server
        },
        invocation.value("--server"@) is None && invocation.value("--language-id"@) is None && invocation.value("--file"@)
            is None ==> default_server == Some(server),
{
    if let Some(language) = invocation.value("--language-id"@) {
        if invocation.value("--server"@) is None {
            let test = RouteTestView::Language(language);
            assert(selects(routes, test, server));
            assert forall|i: int| 0 <= i < routes.len() && (#[trigger] routes[i]).language_id == language implies routes[i].server
                == server by {
                assert(crate::config_routes::route_matches(test, routes[i]));
            }
        }
    }
}

/// A file is served by the server whose route has the longest extension in
/// which the file ends, whatever the case of its letters.
pub proof fn law_files_go_to_the_longest_extension(
    routes: Seq<RouteView>,
    default_server: Option<Seq<char>>,
    invocation: InvocationView,
    server: Seq<char>,
)
    requires
        names_server(routes, default_server, invocation, Ok(server)),
        invocation.value("--server"@) is None,
        invocation.value("--language-id"@) is None,
        invocation.value("--file"@) is Some,
    ensures
        ({
            let file = invocation.value("--file"@)->0;
            exists|i: int, j: int|
                {
                    &&& 0 <= i < routes.len() && 0 <= j < routes[i].extensions.len()
                    &&& file_ends(file, #[trigger] routes[i].extensions[j])
                    &&& routes[i].server == server
                    &&& forall|k: int, m: int|
                        0 <= k < routes.len() && 0 <= m < routes[k].extensions.len() && file_ends(
                            file,
                            #[trigger] routes[k].extensions[m],
                        ) ==> encode_utf8(routes[k].extensions[m]).len() <= encode_utf8(
                            routes[i].extensions[j],
                        ).len() && (encode_utf8(routes[k].extensions[m]).len() == encode_utf8(
                            routes[i].extensions[j],
                        ).len() ==> routes[k].server == server)
                }
        }),
{
    let file = invocation.value("--file"@)->0;
    let n = choose|n: nat| #[trigger]
        longest(routes, file, n) && selects(routes, RouteTestView::Extension { file, length: n }, server);
    let test = RouteTestView::Extension { file, length: n };
    let (i, j) = choose|i: int, j: int|
        0 <= i < routes.len() && 0 <= j < routes[i].extensions.len() && file_ends(
            file,
            #[trigger] routes[i].extensions[j],
        ) && encode_utf8(routes[i].extensions[j]).len() == n;
    assert(crate::config_routes::route_matches(test, routes[i]));
    assert(routes[i].server == server);
    assert forall|k: int, m: int|
        0 <= k < routes.len() && 0 <= m < routes[k].extensions.len() && file_ends(
            file,
            #[trigger] routes[k].extensions[m],
        ) implies encode_utf8(routes[k].extensions[m]).len() <= encode_utf8(routes[i].extensions[j]).len() && (encode_utf8(
        routes[k].extensions[m],
    ).len() == encode_utf8(routes[i].extensions[j]).len() ==> routes[k].server == server) by {
        if encode_utf8(routes[k].extensions[m]).len() == n {
            assert(crate::config_routes::route_matches(test, routes[k]));
        }
    }
}

/// A file ends in an extension that it is spelled with, whatever the case of
/// its ASCII letters, and in none that is longer than it or that its last
/// characters differ from otherwise.
pub proof fn law_extensions_ignore_case(stem: Seq<char>, spelled: Seq<char>, extension: Seq<char>)
    requires
        spelled.len() == extension.len(),
    ensures
        file_ends(stem + spelled, extension) <==> forall|i: int|
            0 <= i < extension.len() ==> crate::text::lower(#[trigger] spelled[i]) == crate::text::lower(extension[i]),
        file_ends(stem + extension, extension),
{
    let file = stem + spelled;
    let a = crate::text::folded(file);
    let b = crate::text::folded(extension);
    assert forall|i: int| 0 <= i < extension.len() implies a[stem.len() + i] == crate::text::lower(
        #[trigger] spelled[i],
    ) by {
        assert(file[stem.len() + i] == spelled[i]);
    }
    assert(a.subrange(a.len() - b.len(), a.len() as int) =~= Seq::new(
        extension.len(),
        |i: int| crate::text::lower(spelled[i]),
    ));
    if file_ends(file, extension) {
        assert(a.subrange(a.len() - b.len(), a.len() as int) =~= b);
        assert forall|i: int| 0 <= i < extension.len() implies crate::text::lower(#[trigger] spelled[i])
            == crate::text::lower(extension[i]) by {
            assert(b[i] == a.subrange(a.len() - b.len(), a.len() as int)[i]);
        }
    }
    if forall|i: int|
        0 <= i < extension.len() ==> crate::text::lower(#[trigger] spelled[i]) == crate::text::lower(extension[i]) {
        assert(a.subrange(a.len() - b.len(), a.len() as int) =~= b);
    }
    let c = crate::text::folded(stem + extension);
    assert(c.subrange(c.len() - b.len(), c.len() as int) =~= b);
}

/// A server that is selected is the declared server of its name, with what the
/// command line declares over it, and has an executable.
pub proof fn law_selected_servers_are_declared(
    servers: Map<Seq<char>, ServerView>,
    name: Seq<char>,
    invocation: InvocationView,
    directory: PathView,
    options: Option<Result<JsonView, FailureView>>,
    settings: Option<Result<JsonView, FailureView>>,
)
    ensures
        selected(servers, Ok(name), invocation, directory, options, settings) matches Ok(s) ==> servers.dom().contains(
            name,
        ) && s.executable is Some && servers[name].overridden(invocation, directory, options, settings) == Ok::<
            ServerView,
            FailureView,
        >(s),
        !servers.dom().contains(name) ==> selected(servers, Ok(name), invocation, directory, options, settings) is Err,
{
}

/// The routes and the default of the project, where it declares them, take the
/// place of the user's; every server that either declares is in effect, as the
/// declarations of both make it.
pub proof fn law_projects_declare_over_users(
    user: Option<&UserConfigFile>,
    project: Option<&ProjectConfigFile>,
    user_path: PathView,
    workspace: PathView,
    workspace_uri: Seq<char>,
    accepted: Seq<Seq<char>>,
)
    ensures
        loaded(user, project, user_path, workspace, workspace_uri, accepted) matches Ok(c) ==> {
            &&& project is Some && project->0.routes is Some ==> c.routes == views(project->0.routes->0@)
            &&& (project is None || project->0.routes is None) && user is Some && user->0.routes is Some ==> c.routes
                == views(user->0.routes->0@)
            &&& (project is None || project->0.routes is None) && (user is None || user->0.routes is None)
                ==> c.routes.len() == 0
            &&& project is Some && project->0.default_server is Some ==> c.default_server == Some(
                project->0.default_server->0@,
            )
            &&& (project is None || project->0.default_server is None) && user is Some && user->0.default_server is Some
                ==> c.default_server == Some(user->0.default_server->0@)
            &&& (project is None || project->0.default_server is None) && (user is None || user->0.default_server is None)
                ==> c.default_server is None
            &&& c.workspace == workspace && c.workspace_uri == workspace_uri
            &&& user is Some ==> user->0.version == 1
            &&& project is Some ==> project->0.version == 1
        },
{
}

proof fn lemma_declared_variables(
    environment: Map<Seq<u8>, Seq<u8>>,
    inherited: Seq<InheritedView>,
    declared: Map<Seq<char>, SourcedView<Seq<char>>>,
    names: Seq<Seq<char>>,
    key: Seq<u8>,
)
    ensures
        ({
            let r = with_declared(environment, inherited, declared, names, false);
            &&& forall|i: int|
                0 <= i < names.len() && encode_utf8(#[trigger] names[i]) == key ==> r.dom().contains(key) && r[key]
                    == encode_utf8(declared[names[i]].value)
            &&& (forall|i: int| 0 <= i < names.len() ==> encode_utf8(#[trigger] names[i]) != key) ==> (r.dom().contains(
                key,
            ) <==> environment.dom().contains(key)) && (environment.dom().contains(key) ==> r[key] == environment[key])
        }),
    decreases names.len(),
{
    if names.len() > 0 {
        let rest = names.drop_last();
        let n = names.len() - 1;
        lemma_declared_variables(environment, inherited, declared, rest, key);
        let r = with_declared(environment, inherited, declared, names, false);
        assert forall|i: int| 0 <= i < names.len() && encode_utf8(#[trigger] names[i]) == key implies r.dom().contains(
            key,
        ) && r[key] == encode_utf8(declared[names[i]].value) by {
            if i < n {
                assert(rest[i] == names[i]);
                if encode_utf8(names[n]) == key {
                    encode_utf8_decode_utf8(names[i]);
                    encode_utf8_decode_utf8(names[n]);
                }
            }
        }
        if forall|i: int| 0 <= i < names.len() ==> encode_utf8(#[trigger] names[i]) != key {
            assert(encode_utf8(names[n]) != key);
            assert forall|i: int| 0 <= i < rest.len() implies encode_utf8(#[trigger] rest[i]) != key by {
                assert(encode_utf8(names[i]) != key);
            }
        }
    }
}

proof fn lemma_handed_on(inherited: Seq<InheritedView>, i: int)
    requires
        0 <= i < inherited.len(),
        !is_transient(inherited[i].readable),
        forall|j: int| i < j < inherited.len() ==> (#[trigger] inherited[j]).key != inherited[i].key,
    ensures
        handed_on(inherited).dom().contains(inherited[i].key),
        handed_on(inherited)[inherited[i].key] == inherited[i].value,
    decreases inherited.len(),
{
    let rest = inherited.drop_last();
    if i < rest.len() {
        assert(inherited[inherited.len() - 1].key != inherited[i].key);
        assert forall|j: int| i < j < rest.len() implies (#[trigger] rest[j]).key != rest[i].key by {
            assert(inherited[j].key != inherited[i].key);
        }
        lemma_handed_on(rest, i);
    }
}

proof fn lemma_not_handed_on(inherited: Seq<InheritedView>, key: Seq<u8>)
    requires
        forall|j: int| 0 <= j < inherited.len() && (#[trigger] inherited[j]).key == key ==> is_transient(
            inherited[j].readable,
        ),
    ensures
        !handed_on(inherited).dom().contains(key),
    decreases inherited.len(),
{
    if inherited.len() > 0 {
        let rest = inherited.drop_last();
        assert forall|j: int| 0 <= j < rest.len() && (#[trigger] rest[j]).key == key implies is_transient(
            rest[j].readable,
        ) by {
            assert(inherited[j].key == key);
        }
        lemma_not_handed_on(rest, key);
        assert(inherited[inherited.len() - 1].key == key ==> is_transient(inherited.last().readable));
    }
}

/// The process of a server has the variables that are declared for it, with
/// the declared values; of the others, those of this process that are not
/// transient, with their own values; and its own directory.
pub proof fn law_processes_have_the_declared_variables(
    inherited: Seq<InheritedView>,
    declared: Map<Seq<char>, SourcedView<Seq<char>>>,
    cwd: Seq<u8>,
    name: Seq<char>,
    i: int,
)
    requires
        declared.dom().finite(),
        0 <= i < inherited.len(),
        forall|j: int| i < j < inherited.len() ==> (#[trigger] inherited[j]).key != inherited[i].key,
    ensures
        ({
            let r = child_environment(inherited, declared, cwd, false);
            let key = inherited[i].key;
            let overridden = exists|k: Seq<char>| #[trigger] declared.dom().contains(k) && encode_utf8(k) == key;
            &&& declared.dom().contains(name) ==> r.dom().contains(encode_utf8(name)) && r[encode_utf8(name)]
                == encode_utf8(declared[name].value)
            &&& !overridden && key != encode_utf8("PWD"@) && !is_transient(inherited[i].readable) ==> r.dom().contains(key)
                && r[key] == inherited[i].value
            &&& !overridden && key != encode_utf8("PWD"@) && (forall|j: int|
                0 <= j < inherited.len() && (#[trigger] inherited[j]).key == key ==> is_transient(inherited[j].readable))
                ==> !r.dom().contains(key)
            &&& !declared.dom().contains("PWD"@) ==> r.dom().contains(encode_utf8("PWD"@)) && r[encode_utf8("PWD"@)] == cwd
        }),
{
    let names = listing::<String>(declared.dom());
    lemma_listing_exists::<String>(declared.dom());
    assert(lists_keys::<String>(names, declared.dom()));
    let own = handed_on(inherited).insert(encode_utf8("PWD"@), cwd);
    let r = child_environment(inherited, declared, cwd, false);
    let key = inherited[i].key;
    if declared.dom().contains(name) {
        lemma_declared_variables(own, inherited, declared, names, encode_utf8(name));
        let k = choose|k: int| 0 <= k < names.len() && names[k] == name;
        assert(names.contains(name));
        assert(encode_utf8(names[k]) == encode_utf8(name));
    }
    let overridden = exists|k: Seq<char>| #[trigger] declared.dom().contains(k) && encode_utf8(k) == key;
    lemma_declared_variables(own, inherited, declared, names, key);
    if !overridden {
        assert forall|k: int| 0 <= k < names.len() implies encode_utf8(#[trigger] names[k]) != key by {
            assert(names.contains(names[k]));
            assert(declared.dom().contains(names[k]));
        }
        if !is_transient(inherited[i].readable) {
            lemma_handed_on(inherited, i);
        }
        if forall|j: int|
            0 <= j < inherited.len() && (#[trigger] inherited[j]).key == key ==> is_transient(inherited[j].readable) {
            lemma_not_handed_on(inherited, key);
        }
    }
    let here = encode_utf8("PWD"@);
    lemma_declared_variables(own, inherited, declared, names, here);
    if !declared.dom().contains("PWD"@) {
        assert forall|k: int| 0 <= k < names.len() implies encode_utf8(#[trigger] names[k]) != here by {
            assert(names.contains(names[k]));
            if encode_utf8(names[k]) == here {
                encode_utf8_decode_utf8(names[k]);
                encode_utf8_decode_utf8("PWD"@);
            }
        }
    }
}

/// Sessions that count as the same have the same server with the same
/// arguments, options and settings, in the same workspace, under the same
/// times and limits.
pub proof fn law_identities_tell_sessions_apart(
    a: ConfigurationView,
    b: ConfigurationView,
    s: ServerView,
    t: ServerView,
    executable_a: Seq<u8>,
    executable_b: Seq<u8>,
    cwd_a: Seq<u8>,
    cwd_b: Seq<u8>,
    environment_a: Map<Seq<u8>, Seq<u8>>,
    environment_b: Map<Seq<u8>, Seq<u8>>,
    windows: bool,
)
    requires
        identity_json(a, s, executable_a, cwd_a, environment_a, windows) == identity_json(
            b,
            t,
            executable_b,
            cwd_b,
            environment_b,
            windows,
        ),
    ensures
        s.name == t.name,
        s.settings.value == t.settings.value,
        s.initialization_options is Some && t.initialization_options is Some ==> s.initialization_options->0.value
            == t.initialization_options->0.value,
        a.workspace_uri == b.workspace_uri,
        a.settings.session.idle_timeout == b.settings.session.idle_timeout,
        a.settings.session.initialization_timeout == b.settings.session.initialization_timeout,
        a.settings.session.shutdown_timeout == b.settings.session.shutdown_timeout,
        a.settings.session.cancellation_grace == b.settings.session.cancellation_grace,
        a.settings.synchronization.max_open_documents == b.settings.synchronization.max_open_documents,
        a.settings.synchronization.max_document_bytes == b.settings.synchronization.max_document_bytes,
        a.settings.synchronization.max_total_text_bytes == b.settings.synchronization.max_total_text_bytes,
        a.settings.synchronization.max_diagnostic_bytes == b.settings.synchronization.max_diagnostic_bytes,
        a.settings.synchronization.max_diagnostic_snapshots == b.settings.synchronization.max_diagnostic_snapshots,
        a.settings.protocol.max_message_bytes == b.settings.protocol.max_message_bytes,
        a.settings.protocol.max_partial_result_bytes == b.settings.protocol.max_partial_result_bytes,
        s.args.value == t.args.value,
        crate::os_text::os_text_json(executable_a, windows) == crate::os_text::os_text_json(executable_b, windows),
        crate::os_text::os_text_json(cwd_a, windows) == crate::os_text::os_text_json(cwd_b, windows),
        crate::config_load::environment_json(
            listing::<crate::os_text::OsText>(environment_a.dom()),
            environment_a,
            windows,
        ) == crate::config_load::environment_json(
            listing::<crate::os_text::OsText>(environment_b.dom()),
            environment_b,
            windows,
        ),
{
    let x = identity_json(a, s, executable_a, cwd_a, environment_a, windows)->Object_0;
    let y = identity_json(b, t, executable_b, cwd_b, environment_b, windows)->Object_0;
    assert(x[0] == y[0] && x[1] == y[1] && x[2] == y[2] && x[3] == y[3] && x[4] == y[4] && x[5] == y[5] && x[6] == y[6]
        && x[7] == y[7] && x[8] == y[8] && x[9] == y[9] && x[10] == y[10]);
    assert(x[11] == y[11] && x[12] == y[12] && x[13] == y[13] && x[14] == y[14] && x[15] == y[15] && x[16] == y[16]
        && x[17] == y[17] && x[18] == y[18] && x[19] == y[19] && x[20] == y[20]);
    let left = texts_json(s.args.value)->Array_0;
    let right = texts_json(t.args.value)->Array_0;
    assert(left == right);
    assert(s.args.value.len() == left.len() && t.args.value.len() == right.len());
    assert forall|i: int| 0 <= i < left.len() implies #[trigger] s.args.value[i] == t.args.value[i] by {
        assert(left[i] == right[i]);
    }
    assert(s.args.value =~= t.args.value);
}

} // verus!
