//! The configuration of a workspace, and the identity of its sessions.

use vstd::prelude::*;

use crate::config_checks::{
    config_failed,
    config_problem,
    configuration_failure,
    ensure_configuration_path,
    placed,
    validate_version,
};
use crate::config_routes::{copy_routes, routes_problem, validate_routes};
use crate::config_servers::{
    merge_servers,
    merged_servers,
    project_file_problem,
    project_servers,
    session_timeout_of,
    user_file_problem,
    user_servers,
    validate_project_file,
    validate_user_file,
};
use crate::config_settings::{SettingsView, settings_of, settings_problem, user_settings};
use crate::configuration::{
    EffectiveServer,
    LoadedConfiguration,
    ProjectConfigFile,
    RouteConfig,
    RouteView,
    ServerView,
    Sourced,
    SourcedView,
    UserConfigFile,
    UserSettings,
};
use crate::digest::{canonical_digest, digest_canonical_value};
use crate::failure::{ContractFailure, FailureView, result_view};
use crate::json::{Json, JsonView, array_view, object2, object_view, push_field, text_value};
use crate::manifest::PathView;
use crate::order::{Key, Order};
use crate::os_text::{OsText, encode_os_string, os_text, os_text_json};
use crate::path::{NativePath, parent_of, path_text};
use crate::reports::texts_json;
use crate::sorted::{Replica, SortedMap, listing};
use crate::store::texts_value;
use crate::text::{concat, copy_opt, opt_view, same_folded, starts_with, strip_prefix, utf8_text, views};
use vstd::utf8::{decode_utf8, encode_utf8, valid_utf8};

verus! {

/// What a [`LoadedConfiguration`] stands for.
#[verifier::ext_equal]
pub ghost struct ConfigurationView {
    pub workspace: PathView,
    pub workspace_uri: Seq<char>,
    pub project_path: PathView,
    pub default_server: Option<Seq<char>>,
    pub routes: Seq<RouteView>,
    pub servers: Map<Seq<char>, ServerView>,
    pub settings: SettingsView,
}

impl View for LoadedConfiguration {
    type V = ConfigurationView;

    open spec fn view(&self) -> ConfigurationView {
        ConfigurationView {
            workspace: self.workspace@,
            workspace_uri: self.workspace_uri@,
            project_path: self.project_path@,
            default_server: opt_view(self.default_server),
            routes: views(self.routes@),
            servers: self.servers@,
            settings: self.settings@,
        }
    }
}

/// The failure of a configuration file of another version.
pub open spec fn version_refused(path: PathView) -> FailureView {
    config_failed(
        path_text(path),
        config_problem(
            "unsupported_version"@,
            "only configuration version 1 is supported"@,
            Some("version"@),
        ),
    )
}

/// Why the configuration file of the user does not hold.
pub open spec fn user_refused(user: Option<&UserConfigFile>, path: PathView, accepted: Seq<Seq<char>>) -> Option<
    FailureView,
> {
    match user {
        None => None,
        Some(u) => if u.version != 1 {
            Some(version_refused(path))
        } else {
            match user_file_problem(
                listing::<String>(u.servers@.dom()),
                u.servers@,
                accepted,
                path_text(path),
            ) {
                Some(f) => Some(placed(f, path_text(path))),
                None => None,
            }
        },
    }
}

/// Why the configuration file of the project does not hold.
pub open spec fn project_refused(project: Option<&ProjectConfigFile>, path: PathView, accepted: Seq<Seq<char>>) -> Option<
    FailureView,
> {
    match project {
        None => None,
        Some(p) => if p.version != 1 {
            Some(version_refused(path))
        } else {
            match project_file_problem(
                listing::<String>(p.servers@.dom()),
                p.servers@,
                accepted,
                path_text(path),
            ) {
                Some(f) => Some(placed(f, path_text(path))),
                None => None,
            }
        },
    }
}

/// The routes in effect: those of the project, or else those of the user.
pub open spec fn routes_in_effect(user: Option<&UserConfigFile>, project: Option<&ProjectConfigFile>) -> Seq<RouteView> {
    match project {
        Some(p) if p.routes is Some => views(p.routes->0@),
        _ => match user {
            Some(u) if u.routes is Some => views(u.routes->0@),
            _ => Seq::empty(),
        },
    }
}

/// The server that serves by default: that of the project, or else that of the
/// user.
pub open spec fn default_in_effect(user: Option<&UserConfigFile>, project: Option<&ProjectConfigFile>) -> Option<
    Seq<char>,
> {
    match project {
        Some(p) if p.default_server is Some => opt_view(p.default_server),
        _ => match user {
            Some(u) => opt_view(u.default_server),
            None => None,
        },
    }
}

/// The failure of a default that nobody declares.
pub open spec fn default_refused(path: PathView) -> FailureView {
    config_failed(
        path_text(path),
        config_problem(
            "missing_server_reference"@,
            "default_server references an unknown server"@,
            Some("default_server"@),
        ),
    )
}

/// The user's file as a value.
pub open spec fn user_value(user: Option<&UserConfigFile>) -> Option<UserConfigFile> {
    match user {
        Some(u) => Some(*u),
        None => None,
    }
}

/// The configuration of a workspace, or why it does not hold.
pub open spec fn loaded(
    user: Option<&UserConfigFile>,
    project: Option<&ProjectConfigFile>,
    user_path: PathView,
    workspace: PathView,
    workspace_uri: Seq<char>,
    accepted: Seq<Seq<char>>,
) -> Result<ConfigurationView, FailureView> {
    let project_path = workspace.push(".lspctl.toml"@);
    let blamed = if project is Some {
        project_path
    } else {
        user_path
    };
    match user_refused(user, user_path, accepted) {
        Some(f) => Err(f),
        None => match project_refused(project, project_path, accepted) {
            Some(f) => Err(f),
            None => match merged_servers(
                listing::<String>(user_servers(user).dom().union(project_servers(project).dom())),
                user_servers(user),
                project_servers(project),
                session_timeout_of(user),
                parent_of(user_path)->0,
                workspace,
            ) {
                Err(f) => Err(placed(f, path_text(blamed))),
                Ok(servers) => {
                    let routes = routes_in_effect(user, project);
                    let default_server = default_in_effect(user, project);
                    let settings = settings_of(user_value(user));
                    match routes_problem(routes, 0, servers.dom(), accepted, path_text(blamed)) {
                        Some(f) => Err(f),
                        None => if default_server is Some && !servers.dom().contains(default_server->0) {
                            Err(default_refused(blamed))
                        } else {
                            match settings_problem(settings) {
                                Some(f) => Err(placed(f, path_text(user_path))),
                                None => Ok(
                                    ConfigurationView {
                                        workspace,
                                        workspace_uri,
                                        project_path,
                                        default_server,
                                        routes,
                                        servers,
                                        settings,
                                    },
                                ),
                            }
                        },
                    }
                },
            },
        },
    }
}

fn check_user_file(user: Option<&UserConfigFile>, path: &NativePath, accepted: &Vec<String>) -> (r: Result<
    (),
    ContractFailure,
>)
    ensures
        match r {
            Ok(_) => user_refused(user, path@, views(accepted@)) is None,
            Err(f) => user_refused(user, path@, views(accepted@)) == Some(f@),
        },
{
    match user {
        None => Ok(()),
        Some(u) => {
            if let Err(f) = validate_version(u.version, path) {
                return Err(f);
            }
            match validate_user_file(u, accepted, path) {
                Ok(()) => Ok(()),
                Err(f) => Err(ensure_configuration_path(f, path)),
            }
        },
    }
}

fn check_project_file(project: Option<&ProjectConfigFile>, path: &NativePath, accepted: &Vec<String>) -> (r: Result<
    (),
    ContractFailure,
>)
    ensures
        match r {
            Ok(_) => project_refused(project, path@, views(accepted@)) is None,
            Err(f) => project_refused(project, path@, views(accepted@)) == Some(f@),
        },
{
    match project {
        None => Ok(()),
        Some(p) => {
            if let Err(f) = validate_version(p.version, path) {
                return Err(f);
            }
            match validate_project_file(p, accepted, path) {
                Ok(()) => Ok(()),
                Err(f) => Err(ensure_configuration_path(f, path)),
            }
        },
    }
}

fn take_routes(user: Option<&UserConfigFile>, project: Option<&ProjectConfigFile>) -> (r: Vec<RouteConfig>)
    ensures
        views(r@) == routes_in_effect(user, project),
{
    if let Some(p) = project {
        if let Some(routes) = &p.routes {
            return copy_routes(routes);
        }
    }
    if let Some(u) = user {
        if let Some(routes) = &u.routes {
            return copy_routes(routes);
        }
    }
    let none: Vec<RouteConfig> = Vec::new();
    assert(views(none@) =~= Seq::<RouteView>::empty());
    none
}

fn take_default(user: Option<&UserConfigFile>, project: Option<&ProjectConfigFile>) -> (r: Option<String>)
    ensures
        opt_view(r) == default_in_effect(user, project),
{
    if let Some(p) = project {
        if let Some(name) = &p.default_server {
            return Some(name.clone());
        }
    }
    match user {
        Some(u) => copy_opt(&u.default_server),
        None => None,
    }
}

/// The configuration of a workspace from the files that declare it. The names
/// that a server can have are handed in.
pub fn load_configuration(
    user: Option<&UserConfigFile>,
    project: Option<&ProjectConfigFile>,
    user_path: &NativePath,
    workspace: &NativePath,
    workspace_uri: &str,
    accepted: &Vec<String>,
) -> (r: Result<LoadedConfiguration, ContractFailure>)
    requires
        parent_of(user_path@) is Some,
    ensures
        result_view(r) == loaded(
            user,
            project,
            user_path@,
            workspace@,
            workspace_uri@,
            views(accepted@),
        ),
{
    let project_path: NativePath = workspace.join(".lspctl.toml");
    if let Err(f) = check_user_file(user, user_path, accepted) {
        return Err(f);
    }
    if let Err(f) = check_project_file(project, &project_path, accepted) {
        return Err(f);
    }
    let blamed: &NativePath = if project.is_some() { &project_path } else { user_path };
    let user_directory: NativePath = match user_path.parent() {
        Some(p) => p,
        None => user_path.duplicate(),
    };
    let servers: SortedMap<String, EffectiveServer> = match merge_servers(
        user,
        project,
        &user_directory,
        workspace,
    ) {
        Ok(s) => s,
        Err(f) => {
            return Err(ensure_configuration_path(f, blamed));
        },
    };
    let routes: Vec<RouteConfig> = take_routes(user, project);
    if let Err(f) = validate_routes(&routes, &servers, accepted, blamed) {
        return Err(f);
    }
    let default_server: Option<String> = take_default(user, project);
    if let Some(name) = &default_server {
        if !servers.contains_key(name) {
            return Err(
                configuration_failure(
                    blamed,
                    "missing_server_reference",
                    "default_server references an unknown server",
                    Some("default_server"),
                ),
            );
        }
    }
    let settings: UserSettings = match user_settings(user) {
        Ok(s) => s,
        Err(f) => {
            return Err(ensure_configuration_path(f, user_path));
        },
    };
    Ok(
        LoadedConfiguration {
            workspace: workspace.duplicate(),
            workspace_uri: workspace_uri.to_owned(),
            project_path,
            default_server,
            routes,
            servers,
            settings,
        },
    )
}

/// The server that serves by default is one that is declared.
pub proof fn law_default_server_is_declared(
    user: Option<&UserConfigFile>,
    project: Option<&ProjectConfigFile>,
    user_path: PathView,
    workspace: PathView,
    workspace_uri: Seq<char>,
    accepted: Seq<Seq<char>>,
)
    ensures
        loaded(user, project, user_path, workspace, workspace_uri, accepted) matches Ok(c) ==> (
        c.default_server matches Some(name) ==> c.servers.dom().contains(name)),
{
}

/// Whether a variable of this process is not handed on to servers.
pub open spec fn is_transient(key: Seq<char>) -> bool {
    ||| folded_is(key, "_"@)
    ||| folded_is(key, "OLDPWD"@)
    ||| folded_is(key, "PWD"@)
    ||| folded_is(key, "PS1"@)
    ||| folded_is(key, "PS2"@)
    ||| folded_is(key, "PS4"@)
    ||| folded_is(key, "SHLVL"@)
    ||| key.len() >= 3 && folded_is(key.take(3), "PI_"@)
    ||| "__MISE_"@.is_prefix_of(key)
}

/// Whether two texts differ at most in ASCII case.
pub open spec fn folded_is(a: Seq<char>, b: Seq<char>) -> bool {
    crate::text::folded(a) == crate::text::folded(b)
}

/// Whether a variable of this process is not handed on to servers.
pub fn is_transient_inherited_environment_key(key: &str) -> (r: bool)
    ensures
        r == is_transient(key@),
{
    if same_folded(key, "_") || same_folded(key, "OLDPWD") || same_folded(key, "PWD") || same_folded(key, "PS1")
        || same_folded(key, "PS2") || same_folded(key, "PS4") || same_folded(key, "SHLVL") {
        return true;
    }
    let c: Vec<char> = crate::text::chars_of(key);
    if c.len() >= 3 {
        let head: String = crate::text::string_of(&c, 0, 3);
        assert(head@ =~= key@.take(3));
        if same_folded(head.as_str(), "PI_") {
            return true;
        }
    }
    starts_with(key, "__MISE_")
}

/// A variable of this process: its name and its value, and its name in Unicode.
pub struct Inherited {
    pub key: OsText,
    pub value: OsText,
    pub readable: String,
}

/// What an [`Inherited`] variable stands for.
#[verifier::ext_equal]
pub ghost struct InheritedView {
    pub key: Seq<u8>,
    pub value: Seq<u8>,
    pub readable: Seq<char>,
}

impl View for Inherited {
    type V = InheritedView;

    open spec fn view(&self) -> InheritedView {
        InheritedView { key: self.key@, value: self.value@, readable: self.readable@ }
    }
}

/// The variables that are handed on.
pub open spec fn handed_on(inherited: Seq<InheritedView>) -> Map<Seq<u8>, Seq<u8>>
    decreases inherited.len(),
{
    if inherited.len() == 0 {
        Map::empty()
    } else {
        let earlier = handed_on(inherited.drop_last());
        let v = inherited.last();
        if is_transient(v.readable) {
            earlier
        } else {
            earlier.insert(v.key, v.value)
        }
    }
}

/// The name of a variable in Unicode: that of an inherited variable, where it is
/// not Unicode itself.
pub open spec fn readable_name(inherited: Seq<InheritedView>, key: Seq<u8>) -> Seq<char>
    decreases inherited.len(),
{
    if valid_utf8(key) {
        decode_utf8(key)
    } else if inherited.len() == 0 {
        Seq::empty()
    } else if inherited.last().key == key {
        inherited.last().readable
    } else {
        readable_name(inherited.drop_last(), key)
    }
}

fn readable(inherited: &Vec<Inherited>, key: &OsText) -> (r: String)
    ensures
        r@ == readable_name(views(inherited@), key@),
{
    if let Some(text) = utf8_text(&key.bytes) {
        return text;
    }
    let ghost all = views(inherited@);
    let mut i: usize = inherited.len();
    assert(all.take(i as int) =~= all);
    while i > 0
        invariant
            i <= inherited@.len(),
            all == views(inherited@),
            !valid_utf8(key@),
            readable_name(all, key@) == readable_name(all.take(i as int), key@),
        decreases i,
    {
        proof {
            assert(all.take(i as int).drop_last() =~= all.take(i - 1));
            assert(all.take(i as int).last() == inherited@[i - 1]@);
        }
        match inherited[i - 1].key.order(key) {
            Order::Same => {
                return inherited[i - 1].readable.clone();
            },
            _ => {},
        }
        i -= 1;
    }
    String::new()
}

/// The first variable whose name differs from another at most in ASCII case.
pub open spec fn first_variable(
    keys: Seq<Seq<u8>>,
    inherited: Seq<InheritedView>,
    name: Seq<char>,
    i: int,
) -> Option<Seq<u8>>
    decreases keys.len() - i,
{
    if i < 0 || i >= keys.len() {
        None
    } else if folded_is(readable_name(inherited, keys[i]), name) {
        Some(keys[i])
    } else {
        first_variable(keys, inherited, name, i + 1)
    }
}

/// Variables once one is declared over them. On Windows it takes the place of one
/// whose name differs at most in ASCII case.
pub open spec fn with_variable(
    environment: Map<Seq<u8>, Seq<u8>>,
    inherited: Seq<InheritedView>,
    name: Seq<char>,
    value: Seq<char>,
    windows: bool,
) -> Map<Seq<u8>, Seq<u8>> {
    let others = if windows {
        match first_variable(listing::<OsText>(environment.dom()), inherited, name, 0) {
            Some(key) => environment.remove(key),
            None => environment,
        }
    } else {
        environment
    };
    others.insert(encode_utf8(name), encode_utf8(value))
}

fn declare_variable(
    environment: &mut SortedMap<OsText, OsText>,
    inherited: &Vec<Inherited>,
    name: &str,
    value: &str,
    windows: bool,
)
    ensures
        final(environment)@ == with_variable(old(environment)@, views(inherited@), name@, value@, windows),
{
    if windows {
        let n: usize = environment.len();
        let ghost keys = environment.keys();
        let mut found: Option<OsText> = None;
        let mut i: usize = 0;
        while i < n && found.is_none()
            invariant
                i <= n,
                n == keys.len(),
                keys == environment.keys(),
                keys == listing::<OsText>(environment@.dom()),
                *environment == *old(environment),
                first_variable(keys, views(inherited@), name@, 0) == match found {
                    Some(key) => Some(key@),
                    None => first_variable(keys, views(inherited@), name@, i as int),
                },
            decreases n - i,
        {
            let text: String = readable(inherited, environment.key_at(i));
            if same_folded(text.as_str(), name) {
                found = Some(environment.key_at(i).duplicate());
            }
            i += 1;
        }
        if let Some(key) = found {
            environment.remove(&key);
        }
    }
    environment.insert(os_text(name), os_text(value));
}

/// Variables with those that a server declares over them.
pub open spec fn with_declared(
    environment: Map<Seq<u8>, Seq<u8>>,
    inherited: Seq<InheritedView>,
    declared: Map<Seq<char>, SourcedView<Seq<char>>>,
    names: Seq<Seq<char>>,
    windows: bool,
) -> Map<Seq<u8>, Seq<u8>>
    decreases names.len(),
{
    if names.len() == 0 {
        environment
    } else {
        with_variable(
            with_declared(environment, inherited, declared, names.drop_last(), windows),
            inherited,
            names.last(),
            declared[names.last()].value,
            windows,
        )
    }
}

/// The variables of a server's process. On Windows none of them tells its directory.
pub open spec fn child_environment(
    inherited: Seq<InheritedView>,
    declared: Map<Seq<char>, SourcedView<Seq<char>>>,
    cwd: Seq<u8>,
    windows: bool,
) -> Map<Seq<u8>, Seq<u8>> {
    let own = if windows {
        handed_on(inherited)
    } else {
        handed_on(inherited).insert(encode_utf8("PWD"@), cwd)
    };
    with_declared(own, inherited, declared, listing::<String>(declared.dom()), windows)
}

/// The variables of a server's process: those of this process that are handed
/// on, its directory, and what the server declares.
pub fn effective_child_environment(
    server: &EffectiveServer,
    inherited: &Vec<Inherited>,
    cwd: &OsText,
    windows: bool,
) -> (r: SortedMap<OsText, OsText>)
    ensures
        r@ == child_environment(views(inherited@), server@.environment, cwd@, windows),
{
    let ghost all = views(inherited@);
    let mut r: SortedMap<OsText, OsText> = SortedMap::new();
    let mut i: usize = 0;
    assert(all.take(0) =~= Seq::<InheritedView>::empty());
    while i < inherited.len()
        invariant
            i <= inherited@.len(),
            all == views(inherited@),
            r@ == handed_on(all.take(i as int)),
        decreases inherited.len() - i,
    {
        proof {
            assert(all.take(i + 1).drop_last() =~= all.take(i as int));
            assert(all.take(i + 1).last() == inherited@[i as int]@);
        }
        if !is_transient_inherited_environment_key(inherited[i].readable.as_str()) {
            r.insert(inherited[i].key.duplicate(), inherited[i].value.duplicate());
        }
        i += 1;
    }
    assert(all.take(i as int) =~= all);
    if !windows {
        r.insert(os_text("PWD"), cwd.duplicate());
    }
    let ghost start = r@;
    let n: usize = server.environment.len();
    let ghost names = server.environment.keys();
    let mut k: usize = 0;
    assert(names.take(0) =~= Seq::<Seq<char>>::empty());
    while k < n
        invariant
            k <= n,
            n == names.len(),
            all == views(inherited@),
            names == server.environment.keys(),
            server.environment.listed(),
            r@ == with_declared(start, all, server@.environment, names.take(k as int), windows),
        decreases n - k,
    {
        proof {
            assert(names.take(k + 1).drop_last() =~= names.take(k as int));
            assert(names.take(k + 1).last() == names[k as int]);
        }
        let key: &String = server.environment.key_at(k);
        let value: &Sourced<String> = server.environment.value_at(k);
        declare_variable(&mut r, inherited, key.as_str(), value.value.as_str(), windows);
        k += 1;
    }
    assert(names.take(k as int) =~= names);
    r
}

/// Variables in JSON.
pub open spec fn environment_json(keys: Seq<Seq<u8>>, environment: Map<Seq<u8>, Seq<u8>>, windows: bool) -> JsonView {
    JsonView::Array(
        Seq::new(
            keys.len(),
            |i: int| JsonView::Object(
                seq![("key"@, os_text_json(keys[i], windows)), ("value"@, os_text_json(environment[keys[i]], windows))],
            ),
        ),
    )
}

fn environment_value(environment: &SortedMap<OsText, OsText>, windows: bool) -> (r: Json)
    ensures
        r@ == environment_json(listing::<OsText>(environment@.dom()), environment@, windows),
{
    let n: usize = environment.len();
    let ghost keys = environment.keys();
    let mut list: Vec<Json> = Vec::new();
    let mut i: usize = 0;
    while i < n
        invariant
            i <= n,
            n == keys.len(),
            keys == environment.keys(),
            environment.listed(),
            list@.len() == i,
            forall|j: int|
                0 <= j < i ==> (#[trigger] list@[j])@ == JsonView::Object(
                    seq![
                        ("key"@, os_text_json(keys[j], windows)),
                        ("value"@, os_text_json(environment@[keys[j]], windows)),
                    ],
                ),
        decreases n - i,
    {
        list.push(
            object2(
                "key",
                encode_os_string(environment.key_at(i), windows),
                "value",
                encode_os_string(environment.value_at(i), windows),
            ),
        );
        i += 1;
    }
    assert(array_view(list@) =~= environment_json(keys, environment@, windows)->Array_0);
    Json::Array(list)
}

/// A value in JSON, or null.
pub open spec fn value_or_null(v: Option<SourcedView<JsonView>>) -> JsonView {
    match v {
        Some(s) => s.value,
        None => JsonView::Null,
    }
}

/// What makes a session the same as another.
pub open spec fn identity_json(
    c: ConfigurationView,
    s: ServerView,
    executable: Seq<u8>,
    cwd: Seq<u8>,
    environment: Map<Seq<u8>, Seq<u8>>,
    windows: bool,
) -> JsonView {
    JsonView::Object(
        seq![
            ("args"@, texts_json(s.args.value)),
            ("cancellationGrace"@, JsonView::Text(c.settings.session.cancellation_grace)),
            ("capabilityProfileVersion"@, JsonView::Int(1)),
            (
                "completeChildEnvironment"@,
                environment_json(listing::<OsText>(environment.dom()), environment, windows),
            ),
            ("cwd"@, os_text_json(cwd, windows)),
            ("idleTimeout"@, JsonView::Text(c.settings.session.idle_timeout)),
            ("initializationOptions"@, value_or_null(s.initialization_options)),
            ("initializationTimeout"@, JsonView::Text(c.settings.session.initialization_timeout)),
            ("maxDiagnosticBytes"@, JsonView::Int(c.settings.synchronization.max_diagnostic_bytes as int)),
            ("maxDiagnosticSnapshots"@, JsonView::Int(c.settings.synchronization.max_diagnostic_snapshots as int)),
            ("maxDocumentBytes"@, JsonView::Int(c.settings.synchronization.max_document_bytes as int)),
            ("maxMessageBytes"@, JsonView::Int(c.settings.protocol.max_message_bytes as int)),
            ("maxOpenDocuments"@, JsonView::Int(c.settings.synchronization.max_open_documents as int)),
            ("maxPartialResultBytes"@, JsonView::Int(c.settings.protocol.max_partial_result_bytes as int)),
            ("maxTotalTextBytes"@, JsonView::Int(c.settings.synchronization.max_total_text_bytes as int)),
            ("ownerProtocolVersion"@, JsonView::Int(1)),
            ("resolvedExecutablePath"@, os_text_json(executable, windows)),
            ("server"@, JsonView::Text(s.name)),
            ("settings"@, s.settings.value),
            ("shutdownTimeout"@, JsonView::Text(c.settings.session.shutdown_timeout)),
            ("workspaceUri"@, JsonView::Text(c.workspace_uri)),
        ],
    )
}

/// The identity of a session.
pub open spec fn identity_of(
    c: ConfigurationView,
    s: ServerView,
    executable: Seq<u8>,
    cwd: Seq<u8>,
    environment: Map<Seq<u8>, Seq<u8>>,
    windows: bool,
) -> Seq<char> {
    "sid_"@ + canonical_digest(
        "lspctl-session-identity-v1"@,
        identity_json(c, s, executable, cwd, environment, windows),
    ).skip("sha256:"@.len() as int)
}

/// The identity of a session: a digest of all that a session depends on.
pub fn session_identity(
    configuration: &LoadedConfiguration,
    server: &EffectiveServer,
    executable: &OsText,
    cwd: &OsText,
    environment: &SortedMap<OsText, OsText>,
    windows: bool,
) -> (r: String)
    ensures
        r@ == identity_of(configuration@, server@, executable@, cwd@, environment@, windows),
{
    let session = &configuration.settings.session;
    let synchronization = configuration.settings.synchronization;
    let protocol = configuration.settings.protocol;
    let mut o: Vec<(String, Json)> = Vec::new();
    assert(object_view(o@) =~= seq![]);
    push_field(&mut o, "args", texts_value(&server.args.value.items));
    push_field(&mut o, "cancellationGrace", text_value(session.cancellation_grace.as_str()));
    push_field(&mut o, "capabilityProfileVersion", Json::Unsigned(1));
    push_field(&mut o, "completeChildEnvironment", environment_value(environment, windows));
    push_field(&mut o, "cwd", encode_os_string(cwd, windows));
    push_field(&mut o, "idleTimeout", text_value(session.idle_timeout.as_str()));
    push_field(
        &mut o,
        "initializationOptions",
        match &server.initialization_options {
            Some(v) => v.value.copy(),
            None => Json::Null,
        },
    );
    push_field(&mut o, "initializationTimeout", text_value(session.initialization_timeout.as_str()));
    push_field(&mut o, "maxDiagnosticBytes", Json::Unsigned(synchronization.max_diagnostic_bytes));
    push_field(&mut o, "maxDiagnosticSnapshots", Json::Unsigned(synchronization.max_diagnostic_snapshots));
    push_field(&mut o, "maxDocumentBytes", Json::Unsigned(synchronization.max_document_bytes));
    push_field(&mut o, "maxMessageBytes", Json::Unsigned(protocol.max_message_bytes));
    push_field(&mut o, "maxOpenDocuments", Json::Unsigned(synchronization.max_open_documents));
    push_field(&mut o, "maxPartialResultBytes", Json::Unsigned(protocol.max_partial_result_bytes));
    push_field(&mut o, "maxTotalTextBytes", Json::Unsigned(synchronization.max_total_text_bytes));
    push_field(&mut o, "ownerProtocolVersion", Json::Unsigned(1));
    push_field(&mut o, "resolvedExecutablePath", encode_os_string(executable, windows));
    push_field(&mut o, "server", text_value(server.name.as_str()));
    push_field(&mut o, "settings", server.settings.value.copy());
    push_field(&mut o, "shutdownTimeout", text_value(session.shutdown_timeout.as_str()));
    push_field(&mut o, "workspaceUri", text_value(configuration.workspace_uri.as_str()));
    assert(object_view(o@) =~= identity_json(
        configuration@,
        server@,
        executable@,
        cwd@,
        environment@,
        windows,
    )->Object_0);
    let digest: String = digest_canonical_value("lspctl-session-identity-v1", &Json::Object(o));
    proof {
        assert(digest@.subrange(0, "sha256:"@.len() as int) =~= "sha256:"@);
    }
    match strip_prefix(digest.as_str(), "sha256:") {
        Some(rest) => concat("sid_", rest.as_str()),
        None => concat("sid_", digest.as_str()),
    }
}

} // verus!
