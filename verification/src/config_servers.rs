//! The servers in effect: what the user declares with what the project declares
//! over it.

use vstd::prelude::*;

use crate::config_checks::{
    datetime_failed,
    name_failed,
    toml_json,
    toml_to_json,
    valid_duration,
    validate_duration,
    validate_server_name,
};
use crate::configuration::{
    ConfigSource,
    EffectiveServer,
    ProjectConfigFile,
    ProjectServerConfig,
    ProjectServerView,
    ServerView,
    Sourced,
    SourcedView,
    Texts,
    Toml,
    UserConfigFile,
    UserServerConfig,
    UserServerView,
};
use crate::failure::{ContractFailure, FailureView};
use crate::json::{Json, JsonView, empty_object};
use crate::manifest::PathView;
use crate::order::Key;
use crate::path::{NativePath, path_text};
use crate::sorted::{Replica, SortedMap, lists_keys, listing};
use crate::text::{copy_opt, opt_view, views};

verus! {

/// A value with who declared it and where.
pub open spec fn sourced_view<V>(value: V, source: ConfigSource, directory: PathView) -> SourcedView<V> {
    SourcedView { value, source, declaring_directory: directory }
}

/// A value with who declared it and where.
pub fn sourced<T: View>(value: T, source: ConfigSource, directory: &NativePath) -> (r: Sourced<T>)
    ensures
        r@ == sourced_view(value@, source, directory@),
{
    Sourced { value, source, declaring_directory: directory.duplicate() }
}

/// What the project declares of a field, or else what the user does.
pub open spec fn declared<V>(user: Option<V>, project: Option<V>, user_directory: PathView, workspace: PathView) -> Option<
    SourcedView<V>,
> {
    match (project, user) {
        (Some(v), _) => Some(sourced_view(v, ConfigSource::Project, workspace)),
        (None, Some(v)) => Some(sourced_view(v, ConfigSource::User, user_directory)),
        (None, None) => None,
    }
}

/// What the project declares of a field, or else what the user does.
pub fn sourced_field<T: View>(
    user: Option<T>,
    project: Option<T>,
    user_directory: &NativePath,
    workspace: &NativePath,
) -> (r: Option<Sourced<T>>)
    ensures
        opt_view(r) == declared(opt_view(user), opt_view(project), user_directory@, workspace@),
{
    match project {
        Some(value) => Some(sourced(value, ConfigSource::Project, workspace)),
        None => match user {
            Some(value) => Some(sourced(value, ConfigSource::User, user_directory)),
            None => None,
        },
    }
}

/// Variables with who declared them and where.
pub open spec fn sourced_variables(
    values: Map<Seq<char>, Seq<char>>,
    source: ConfigSource,
    directory: PathView,
) -> Map<Seq<char>, SourcedView<Seq<char>>> {
    values.map_values(|v: Seq<char>| sourced_view(v, source, directory))
}

/// Variables, or none.
pub open spec fn variables(values: Option<Map<Seq<char>, Seq<char>>>) -> Map<Seq<char>, Seq<char>> {
    match values {
        Some(m) => m,
        None => Map::empty(),
    }
}

/// The variables in effect: those of the project over those of the user.
pub open spec fn environment_of(
    user: Option<Map<Seq<char>, Seq<char>>>,
    project: Option<Map<Seq<char>, Seq<char>>>,
    user_directory: PathView,
    workspace: PathView,
) -> Map<Seq<char>, SourcedView<Seq<char>>> {
    sourced_variables(variables(user), ConfigSource::User, user_directory).union_prefer_right(
        sourced_variables(variables(project), ConfigSource::Project, workspace),
    )
}

pub proof fn lemma_take_set<A>(keys: Seq<A>, i: int)
    requires
        0 <= i < keys.len(),
    ensures
        keys.take(i + 1).to_set() == keys.take(i).to_set().insert(keys[i]),
{
    let now = keys.take(i);
    let later = keys.take(i + 1);
    assert forall|x: A| later.to_set().contains(x) <==> #[trigger] now.to_set().insert(keys[i]).contains(x) by {
        if now.contains(x) {
            let m = choose|m: int| 0 <= m < now.len() && now[m] == x;
            assert(later[m] == x);
        }
        if x == keys[i] {
            assert(later[i] == x);
        }
        if later.contains(x) && x != keys[i] {
            let m = choose|m: int| 0 <= m < later.len() && later[m] == x;
            assert(now[m] == x);
        }
    }
    assert(later.to_set() =~= now.to_set().insert(keys[i]));
}

fn add_environment(
    environment: &mut SortedMap<String, Sourced<String>>,
    values: &SortedMap<String, String>,
    source: ConfigSource,
    directory: &NativePath,
)
    ensures
        final(environment)@ == old(environment)@.union_prefer_right(
            sourced_variables(values@, source, directory@),
        ),
{
    let ghost start = environment@;
    let ghost more = sourced_variables(values@, source, directory@);
    let n: usize = values.len();
    let ghost keys = values.keys();
    let mut i: usize = 0;
    assert(start.union_prefer_right(more.restrict(keys.take(0).to_set())) =~= start);
    while i < n
        invariant
            i <= n,
            n == keys.len(),
            keys == values.keys(),
            values.listed(),
            more == sourced_variables(values@, source, directory@),
            environment@ == start.union_prefer_right(more.restrict(keys.take(i as int).to_set())),
        decreases n - i,
    {
        let key: String = values.key_at(i).clone();
        let value: String = values.value_at(i).clone();
        environment.insert(key, sourced(value, source, directory));
        proof {
            lemma_take_set(keys, i as int);
            assert(environment@ =~= start.union_prefer_right(more.restrict(keys.take(i + 1).to_set())));
        }
        i += 1;
    }
    proof {
        assert(keys.take(i as int) =~= keys);
        assert forall|x: Seq<char>| #[trigger] more.dom().contains(x) implies keys.to_set().contains(x) by {
            assert(values@.dom().contains(x));
            assert(keys.contains(x));
        }
        assert(more.restrict(keys.to_set()) =~= more);
    }
}

/// A set with a name in it, where something holds.
pub open spec fn with_name_if(s: Set<Seq<char>>, name: Seq<char>, holds: bool) -> Set<Seq<char>> {
    if holds {
        s.insert(name)
    } else {
        s
    }
}

fn add_name_if(s: &mut SortedMap<String, ()>, name: &str, holds: bool)
    ensures
        final(s)@.dom() == with_name_if(old(s)@.dom(), name@, holds),
{
    if holds {
        s.insert(name.to_owned(), ());
    }
}

/// A declaration by the user, where there is none.
pub open spec fn no_user_server() -> UserServerView {
    UserServerView {
        executable: None,
        args: None,
        cwd: None,
        environment: None,
        request_timeout: None,
        published_diagnostics_wait: None,
        initialization_options: None,
        settings: None,
    }
}

/// A declaration by the project, where there is none.
pub open spec fn no_project_server() -> ProjectServerView {
    ProjectServerView {
        executable: None,
        args: None,
        cwd: None,
        environment: None,
        initialization_options: None,
        settings: None,
    }
}

/// The fields that a project declares.
pub open spec fn fields_of_project(p: ProjectServerView) -> Set<Seq<char>> {
    let s = with_name_if(Set::empty(), "executable"@, p.executable is Some);
    let s = with_name_if(s, "args"@, p.args is Some);
    let s = with_name_if(s, "cwd"@, p.cwd is Some);
    let s = with_name_if(
        s,
        "environment"@,
        exists|k: Seq<char>| #[trigger] variables(p.environment).dom().contains(k),
    );
    let s = with_name_if(s, "initialization_options"@, p.initialization_options is Some);
    with_name_if(s, "settings"@, p.settings is Some)
}

/// Whether an opaque value has a form in JSON, where there is one.
pub open spec fn convertible(value: Option<Toml>) -> bool {
    value matches Some(v) ==> toml_json(v) is Some
}

/// An opaque value in JSON.
pub open spec fn converted(value: Option<Toml>) -> Option<JsonView> {
    match value {
        Some(v) => toml_json(v),
        None => None,
    }
}

/// The time that a server has for a request.
pub open spec fn request_timeout_of(u: UserServerView, session_timeout: Option<Seq<char>>) -> Seq<char> {
    match (u.request_timeout, session_timeout) {
        (Some(t), _) => t,
        (None, Some(t)) => t,
        (None, None) => "30s"@,
    }
}

/// How long to wait for diagnostics that a server publishes.
pub open spec fn diagnostics_wait_of(u: UserServerView) -> Seq<char> {
    match u.published_diagnostics_wait {
        Some(t) => t,
        None => "2s"@,
    }
}

/// A server in effect, or why its declarations do not hold.
pub open spec fn merged_server(
    name: Seq<char>,
    u: UserServerView,
    p: ProjectServerView,
    session_timeout: Option<Seq<char>>,
    user_directory: PathView,
    workspace: PathView,
) -> Result<ServerView, FailureView> {
    let request_timeout = request_timeout_of(u, session_timeout);
    let wait = diagnostics_wait_of(u);
    match valid_duration(request_timeout, "servers.request_timeout"@) {
        Err(f) => Err(f),
        Ok(_) => match valid_duration(wait, "servers.published_diagnostics_wait"@) {
            Err(f) => Err(f),
            Ok(_) => if !convertible(u.initialization_options) || !convertible(p.initialization_options)
                || !convertible(u.settings) || !convertible(p.settings) {
                Err(datetime_failed())
            } else {
                Ok(
                    ServerView {
                        name,
                        executable: declared(u.executable, p.executable, user_directory, workspace),
                        args: match declared(u.args, p.args, user_directory, workspace) {
                            Some(v) => v,
                            None => sourced_view(Seq::empty(), ConfigSource::BuiltIn, workspace),
                        },
                        cwd: match declared(u.cwd, p.cwd, user_directory, workspace) {
                            Some(v) => Some(v),
                            None => Some(sourced_view(path_text(workspace), ConfigSource::BuiltIn, workspace)),
                        },
                        environment: environment_of(u.environment, p.environment, user_directory, workspace),
                        initialization_options: declared(
                            converted(u.initialization_options),
                            converted(p.initialization_options),
                            user_directory,
                            workspace,
                        ),
                        settings: match declared(
                            converted(u.settings),
                            converted(p.settings),
                            user_directory,
                            workspace,
                        ) {
                            Some(v) => v,
                            None => sourced_view(
                                JsonView::Object(Seq::empty()),
                                ConfigSource::BuiltIn,
                                workspace,
                            ),
                        },
                        request_timeout,
                        published_diagnostics_wait: wait,
                        project_fields: fields_of_project(p),
                    },
                )
            },
        },
    }
}

fn copy_texts(value: &Option<Texts>) -> (r: Option<Texts>)
    ensures
        opt_view(r) == opt_view(*value),
{
    match value {
        Some(t) => Some(t.replica()),
        None => None,
    }
}

fn convert(value: &Option<Toml>) -> (r: Result<Option<Json>, ContractFailure>)
    ensures
        match r {
            Ok(v) => convertible(*value) && opt_view(v) == converted(*value),
            Err(f) => !convertible(*value) && f@ == datetime_failed(),
        },
{
    match value {
        Some(v) => match toml_to_json(v) {
            Ok(j) => Ok(Some(j)),
            Err(f) => Err(f),
        },
        None => Ok(None),
    }
}

/// The view of a declaration by the user, where there is one.
pub open spec fn user_server_view(u: Option<&UserServerConfig>) -> UserServerView {
    match u {
        Some(u) => u@,
        None => no_user_server(),
    }
}

/// The view of a declaration by the project, where there is one.
pub open spec fn project_server_view(p: Option<&ProjectServerConfig>) -> ProjectServerView {
    match p {
        Some(p) => p@,
        None => no_project_server(),
    }
}

fn merge_environment(
    u: Option<&UserServerConfig>,
    p: Option<&ProjectServerConfig>,
    user_directory: &NativePath,
    workspace: &NativePath,
) -> (r: (SortedMap<String, Sourced<String>>, bool))
    ensures
        r.0@ == environment_of(
            user_server_view(u).environment,
            project_server_view(p).environment,
            user_directory@,
            workspace@,
        ),
        r.1 == exists|k: Seq<char>| #[trigger] variables(project_server_view(p).environment).dom().contains(k),
{
    let mut environment: SortedMap<String, Sourced<String>> = SortedMap::new();
    let mut by_project: bool = false;
    let ghost declared = variables(project_server_view(p).environment);
    if let Some(u) = u {
        if let Some(values) = &u.environment {
            add_environment(&mut environment, values, ConfigSource::User, user_directory);
        }
    }
    proof {
        let first = sourced_variables(
            variables(user_server_view(u).environment),
            ConfigSource::User,
            user_directory@,
        );
        assert(environment@ =~= first);
        let none = sourced_variables(Map::empty(), ConfigSource::Project, workspace@);
        assert(first.union_prefer_right(none) =~= first);
    }
    if let Some(p) = p {
        if let Some(values) = &p.environment {
            add_environment(&mut environment, values, ConfigSource::Project, workspace);
            let n: usize = values.len();
            by_project = n > 0;
            proof {
                assert(declared == values@);
                if n > 0 {
                    assert(declared.dom().contains(values.keys()[0]));
                } else {
                    assert forall|k: Seq<char>| !#[trigger] declared.dom().contains(k) by {
                        if values@.dom().contains(k) {
                            assert(values.keys().contains(k));
                        }
                    }
                }
            }
        }
    }
    (environment, by_project)
}

/// A server in effect.
pub fn merge_server(
    name: &str,
    u: Option<&UserServerConfig>,
    p: Option<&ProjectServerConfig>,
    session_timeout: &Option<String>,
    user_directory: &NativePath,
    workspace: &NativePath,
) -> (r: Result<EffectiveServer, ContractFailure>)
    ensures
        crate::failure::result_view(r) == merged_server(
            name@,
            user_server_view(u),
            project_server_view(p),
            opt_view(*session_timeout),
            user_directory@,
            workspace@,
        ),
{
    let declared_timeout: Option<String> = match u {
        Some(u) => copy_opt(&u.request_timeout),
        None => None,
    };
    let request_timeout: String = match declared_timeout {
        Some(t) => t,
        None => match session_timeout {
            Some(t) => t.clone(),
            None => "30s".to_owned(),
        },
    };
    let declared_wait: Option<String> = match u {
        Some(u) => copy_opt(&u.published_diagnostics_wait),
        None => None,
    };
    let wait: String = match declared_wait {
        Some(t) => t,
        None => "2s".to_owned(),
    };
    if let Err(f) = validate_duration(request_timeout.as_str(), "servers.request_timeout") {
        return Err(f);
    }
    if let Err(f) = validate_duration(wait.as_str(), "servers.published_diagnostics_wait") {
        return Err(f);
    }
    let none: Option<Toml> = None;
    let user_options: Option<Json> = match convert(
        match u {
            Some(u) => &u.initialization_options,
            None => &none,
        },
    ) {
        Ok(v) => v,
        Err(f) => {
            return Err(f);
        },
    };
    let project_options: Option<Json> = match convert(
        match p {
            Some(p) => &p.initialization_options,
            None => &none,
        },
    ) {
        Ok(v) => v,
        Err(f) => {
            return Err(f);
        },
    };
    let user_values: Option<Json> = match convert(
        match u {
            Some(u) => &u.settings,
            None => &none,
        },
    ) {
        Ok(v) => v,
        Err(f) => {
            return Err(f);
        },
    };
    let project_values: Option<Json> = match convert(
        match p {
            Some(p) => &p.settings,
            None => &none,
        },
    ) {
        Ok(v) => v,
        Err(f) => {
            return Err(f);
        },
    };
    let project_fields: SortedMap<String, ()>;
    let (environment, by_project) = merge_environment(u, p, user_directory, workspace);
    {
        let mut fields: SortedMap<String, ()> = SortedMap::new();
        assert(fields@.dom() =~= Set::<Seq<char>>::empty());
        let (e, a, c, i, s): (bool, bool, bool, bool, bool) = match p {
            Some(p) => (
                p.executable.is_some(),
                p.args.is_some(),
                p.cwd.is_some(),
                p.initialization_options.is_some(),
                p.settings.is_some(),
            ),
            None => (false, false, false, false, false),
        };
        add_name_if(&mut fields, "executable", e);
        add_name_if(&mut fields, "args", a);
        add_name_if(&mut fields, "cwd", c);
        add_name_if(&mut fields, "environment", by_project);
        add_name_if(&mut fields, "initialization_options", i);
        add_name_if(&mut fields, "settings", s);
        project_fields = fields;
    }
    let executable: Option<Sourced<String>> = sourced_field(
        match u {
            Some(u) => copy_opt(&u.executable),
            None => None,
        },
        match p {
            Some(p) => copy_opt(&p.executable),
            None => None,
        },
        user_directory,
        workspace,
    );
    let args: Sourced<Texts> = match sourced_field(
        match u {
            Some(u) => copy_texts(&u.args),
            None => None,
        },
        match p {
            Some(p) => copy_texts(&p.args),
            None => None,
        },
        user_directory,
        workspace,
    ) {
        Some(v) => v,
        None => {
            let empty = Texts { items: Vec::new() };
            assert(empty@ =~= Seq::<Seq<char>>::empty());
            sourced(empty, ConfigSource::BuiltIn, workspace)
        },
    };
    let cwd: Option<Sourced<String>> = match sourced_field(
        match u {
            Some(u) => copy_opt(&u.cwd),
            None => None,
        },
        match p {
            Some(p) => copy_opt(&p.cwd),
            None => None,
        },
        user_directory,
        workspace,
    ) {
        Some(v) => Some(v),
        None => Some(sourced(workspace.to_text(), ConfigSource::BuiltIn, workspace)),
    };
    let initialization_options: Option<Sourced<Json>> = sourced_field(
        user_options,
        project_options,
        user_directory,
        workspace,
    );
    let settings: Sourced<Json> = match sourced_field(user_values, project_values, user_directory, workspace) {
        Some(v) => v,
        None => sourced(empty_object(), ConfigSource::BuiltIn, workspace),
    };
    Ok(
        EffectiveServer {
            name: name.to_owned(),
            executable,
            args,
            cwd,
            environment,
            initialization_options,
            settings,
            request_timeout,
            published_diagnostics_wait: wait,
            project_fields,
        },
    )
}

/// The declarations by the user.
pub open spec fn user_servers(user: Option<&UserConfigFile>) -> Map<Seq<char>, UserServerView> {
    match user {
        Some(u) => u.servers@,
        None => Map::empty(),
    }
}

/// The declarations by the project.
pub open spec fn project_servers(project: Option<&ProjectConfigFile>) -> Map<Seq<char>, ProjectServerView> {
    match project {
        Some(p) => p.servers@,
        None => Map::empty(),
    }
}

/// The time that the user gives each server for a request.
pub open spec fn session_timeout_of(user: Option<&UserConfigFile>) -> Option<Seq<char>> {
    match user {
        Some(u) => match u.session {
            Some(s) => opt_view(s.request_timeout),
            None => None,
        },
        None => None,
    }
}

/// A declaration among declarations, or none.
pub open spec fn user_declared(m: Map<Seq<char>, UserServerView>, name: Seq<char>) -> UserServerView {
    if m.dom().contains(name) {
        m[name]
    } else {
        no_user_server()
    }
}

/// A declaration among declarations, or none.
pub open spec fn project_declared(m: Map<Seq<char>, ProjectServerView>, name: Seq<char>) -> ProjectServerView {
    if m.dom().contains(name) {
        m[name]
    } else {
        no_project_server()
    }
}

/// The first servers in effect, or why the first of them that does not hold
/// does not.
pub open spec fn merged_servers(
    names: Seq<Seq<char>>,
    users: Map<Seq<char>, UserServerView>,
    projects: Map<Seq<char>, ProjectServerView>,
    session_timeout: Option<Seq<char>>,
    user_directory: PathView,
    workspace: PathView,
) -> Result<Map<Seq<char>, ServerView>, FailureView>
    decreases names.len(),
{
    if names.len() == 0 {
        Ok(Map::empty())
    } else {
        let name = names.last();
        match merged_servers(names.drop_last(), users, projects, session_timeout, user_directory, workspace) {
            Err(f) => Err(f),
            Ok(earlier) => match merged_server(
                name,
                user_declared(users, name),
                project_declared(projects, name),
                session_timeout,
                user_directory,
                workspace,
            ) {
                Err(f) => Err(f),
                Ok(server) => Ok(earlier.insert(name, server)),
            },
        }
    }
}

pub(crate) fn add_names<T: View>(names: &mut SortedMap<String, ()>, from: &SortedMap<String, T>)
    ensures
        final(names)@.dom() == old(names)@.dom().union(from@.dom()),
{
    let ghost start = names@.dom();
    let n: usize = from.len();
    let ghost keys = from.keys();
    let mut i: usize = 0;
    assert(start.union(keys.take(0).to_set()) =~= start);
    while i < n
        invariant
            i <= n,
            n == keys.len(),
            keys == from.keys(),
            from.listed(),
            names@.dom() == start.union(keys.take(i as int).to_set()),
        decreases n - i,
    {
        names.insert(from.key_at(i).clone(), ());
        proof {
            lemma_take_set(keys, i as int);
            assert(names@.dom() =~= start.union(keys.take(i + 1).to_set()));
        }
        i += 1;
    }
    proof {
        assert(keys.take(i as int) =~= keys);
        assert(keys.to_set() =~= from@.dom()) by {
            assert forall|x: Seq<char>| keys.to_set().contains(x) <==> #[trigger] from@.dom().contains(x) by {
                if from@.dom().contains(x) {
                    assert(keys.contains(x));
                }
            }
        }
    }
}

proof fn lemma_merge_stops(
    names: Seq<Seq<char>>,
    n: int,
    users: Map<Seq<char>, UserServerView>,
    projects: Map<Seq<char>, ProjectServerView>,
    session_timeout: Option<Seq<char>>,
    user_directory: PathView,
    workspace: PathView,
)
    requires
        0 <= n <= names.len(),
        merged_servers(names.take(n), users, projects, session_timeout, user_directory, workspace) is Err,
    ensures
        merged_servers(names, users, projects, session_timeout, user_directory, workspace) == merged_servers(
            names.take(n),
            users,
            projects,
            session_timeout,
            user_directory,
            workspace,
        ),
    decreases names.len() - n,
{
    if n == names.len() {
        assert(names.take(n) =~= names);
    } else {
        assert(names.take(n + 1).drop_last() =~= names.take(n));
        lemma_merge_stops(names, n + 1, users, projects, session_timeout, user_directory, workspace);
    }
}

/// The servers in effect.
pub fn merge_servers(
    user: Option<&UserConfigFile>,
    project: Option<&ProjectConfigFile>,
    user_directory: &NativePath,
    workspace: &NativePath,
) -> (r: Result<SortedMap<String, EffectiveServer>, ContractFailure>)
    ensures
        crate::failure::result_view(r) == merged_servers(
            listing::<String>(user_servers(user).dom().union(project_servers(project).dom())),
            user_servers(user),
            project_servers(project),
            session_timeout_of(user),
            user_directory@,
            workspace@,
        ),
{
    let ghost users = user_servers(user);
    let ghost projects = project_servers(project);
    let ghost timeout = session_timeout_of(user);
    let mut all: SortedMap<String, ()> = SortedMap::new();
    assert(all@.dom() =~= Set::<Seq<char>>::empty());
    if let Some(u) = user {
        add_names(&mut all, &u.servers);
    }
    assert(all@.dom() =~= users.dom());
    if let Some(p) = project {
        add_names(&mut all, &p.servers);
    }
    assert(all@.dom() =~= users.dom().union(projects.dom()));
    let session_timeout: Option<String> = match user {
        Some(u) => match &u.session {
            Some(s) => copy_opt(&s.request_timeout),
            None => None,
        },
        None => None,
    };
    let mut servers: SortedMap<String, EffectiveServer> = SortedMap::new();
    let n: usize = all.len();
    let ghost names = all.keys();
    let mut i: usize = 0;
    assert(names.take(0) =~= Seq::<Seq<char>>::empty());
    while i < n
        invariant
            i <= n,
            n == names.len(),
            names == all.keys(),
            users == user_servers(user),
            projects == project_servers(project),
            timeout == opt_view(session_timeout),
            timeout == session_timeout_of(user),
            names == listing::<String>(users.dom().union(projects.dom())),
            merged_servers(names.take(i as int), users, projects, timeout, user_directory@, workspace@) == Ok::<
                Map<Seq<char>, ServerView>,
                FailureView,
            >(servers@),
        decreases n - i,
    {
        proof {
            assert(names.take(i + 1).drop_last() =~= names.take(i as int));
            assert(names.take(i + 1).last() == names[i as int]);
        }
        let name: String = all.key_at(i).clone();
        let u: Option<&UserServerConfig> = match user {
            Some(c) => c.servers.get(&name),
            None => None,
        };
        let p: Option<&ProjectServerConfig> = match project {
            Some(c) => c.servers.get(&name),
            None => None,
        };
        assert(user_server_view(u) == user_declared(users, name@));
        assert(project_server_view(p) == project_declared(projects, name@));
        match merge_server(name.as_str(), u, p, &session_timeout, user_directory, workspace) {
            Ok(server) => {
                servers.insert(name, server);
            },
            Err(f) => {
                proof {
                    lemma_merge_stops(names, i + 1, users, projects, timeout, user_directory@, workspace@);
                }
                return Err(f);
            },
        }
        i += 1;
    }
    assert(names.take(i as int) =~= names);
    Ok(servers)
}

/// Why a declaration by the user does not hold.
pub open spec fn user_server_problem(name: Seq<char>, u: UserServerView, accepted: Seq<Seq<char>>, path: Seq<char>) -> Option<
    FailureView,
> {
    if !accepted.contains(name) {
        Some(name_failed(path))
    } else if u.request_timeout is Some && valid_duration(u.request_timeout->0, "servers.request_timeout"@) is Err {
        Some(valid_duration(u.request_timeout->0, "servers.request_timeout"@)->Err_0)
    } else if u.published_diagnostics_wait is Some && valid_duration(
        u.published_diagnostics_wait->0,
        "servers.published_diagnostics_wait"@,
    ) is Err {
        Some(valid_duration(u.published_diagnostics_wait->0, "servers.published_diagnostics_wait"@)->Err_0)
    } else if !convertible(u.initialization_options) || !convertible(u.settings) {
        Some(datetime_failed())
    } else {
        None
    }
}

/// Why a declaration by the project does not hold.
pub open spec fn project_server_problem(
    name: Seq<char>,
    p: ProjectServerView,
    accepted: Seq<Seq<char>>,
    path: Seq<char>,
) -> Option<FailureView> {
    if !accepted.contains(name) {
        Some(name_failed(path))
    } else if !convertible(p.initialization_options) || !convertible(p.settings) {
        Some(datetime_failed())
    } else {
        None
    }
}

/// Why the first declaration by the user that does not hold does not.
pub open spec fn user_file_problem(
    names: Seq<Seq<char>>,
    servers: Map<Seq<char>, UserServerView>,
    accepted: Seq<Seq<char>>,
    path: Seq<char>,
) -> Option<FailureView>
    decreases names.len(),
{
    if names.len() == 0 {
        None
    } else {
        match user_server_problem(names[0], servers[names[0]], accepted, path) {
            Some(f) => Some(f),
            None => user_file_problem(names.drop_first(), servers, accepted, path),
        }
    }
}

/// Why the first declaration by the project that does not hold does not.
pub open spec fn project_file_problem(
    names: Seq<Seq<char>>,
    servers: Map<Seq<char>, ProjectServerView>,
    accepted: Seq<Seq<char>>,
    path: Seq<char>,
) -> Option<FailureView>
    decreases names.len(),
{
    if names.len() == 0 {
        None
    } else {
        match project_server_problem(names[0], servers[names[0]], accepted, path) {
            Some(f) => Some(f),
            None => project_file_problem(names.drop_first(), servers, accepted, path),
        }
    }
}

fn check_user_server(name: &str, u: &UserServerConfig, accepted: &Vec<String>, path: &NativePath) -> (r: Result<
    (),
    ContractFailure,
>)
    ensures
        match r {
            Ok(_) => user_server_problem(name@, u@, views(accepted@), path_text(path@)) is None,
            Err(f) => user_server_problem(name@, u@, views(accepted@), path_text(path@)) == Some(f@),
        },
{
    if let Err(f) = validate_server_name(name, accepted, path) {
        return Err(f);
    }
    if let Some(t) = &u.request_timeout {
        if let Err(f) = validate_duration(t.as_str(), "servers.request_timeout") {
            return Err(f);
        }
    }
    if let Some(t) = &u.published_diagnostics_wait {
        if let Err(f) = validate_duration(t.as_str(), "servers.published_diagnostics_wait") {
            return Err(f);
        }
    }
    if let Err(f) = convert(&u.initialization_options) {
        return Err(f);
    }
    if let Err(f) = convert(&u.settings) {
        return Err(f);
    }
    Ok(())
}

fn check_project_server(name: &str, p: &ProjectServerConfig, accepted: &Vec<String>, path: &NativePath) -> (r: Result<
    (),
    ContractFailure,
>)
    ensures
        match r {
            Ok(_) => project_server_problem(name@, p@, views(accepted@), path_text(path@)) is None,
            Err(f) => project_server_problem(name@, p@, views(accepted@), path_text(path@)) == Some(f@),
        },
{
    if let Err(f) = validate_server_name(name, accepted, path) {
        return Err(f);
    }
    if let Err(f) = convert(&p.initialization_options) {
        return Err(f);
    }
    if let Err(f) = convert(&p.settings) {
        return Err(f);
    }
    Ok(())
}

/// Refuses a configuration file of the user with a declaration that does not
/// hold. The names that a server can have are handed in.
pub fn validate_user_file(config: &UserConfigFile, accepted: &Vec<String>, path: &NativePath) -> (r: Result<
    (),
    ContractFailure,
>)
    ensures
        ({
            let problem = user_file_problem(
                listing::<String>(config.servers@.dom()),
                config.servers@,
                views(accepted@),
                path_text(path@),
            );
            match r {
                Ok(_) => problem is None,
                Err(f) => problem == Some(f@),
            }
        }),
{
    let n: usize = config.servers.len();
    let ghost names = config.servers.keys();
    let ghost problem = user_file_problem(names, config.servers@, views(accepted@), path_text(path@));
    let mut i: usize = 0;
    assert(names.skip(0) =~= names);
    while i < n
        invariant
            i <= n,
            n == names.len(),
            names == config.servers.keys(),
            problem == user_file_problem(
                names.skip(i as int),
                config.servers@,
                views(accepted@),
                path_text(path@),
            ),
            problem == user_file_problem(names, config.servers@, views(accepted@), path_text(path@)),
            config.servers.listed(),
            names == listing::<String>(config.servers@.dom()),
        decreases n - i,
    {
        proof {
            assert(names.skip(i as int)[0] == names[i as int]);
            assert(names.skip(i as int).drop_first() =~= names.skip(i + 1));
        }
        if let Err(f) = check_user_server(
            config.servers.key_at(i).as_str(),
            config.servers.value_at(i),
            accepted,
            path,
        ) {
            return Err(f);
        }
        i += 1;
    }
    Ok(())
}

/// Refuses a configuration file of the project with a declaration that does not
/// hold. The names that a server can have are handed in.
pub fn validate_project_file(config: &ProjectConfigFile, accepted: &Vec<String>, path: &NativePath) -> (r: Result<
    (),
    ContractFailure,
>)
    ensures
        ({
            let problem = project_file_problem(
                listing::<String>(config.servers@.dom()),
                config.servers@,
                views(accepted@),
                path_text(path@),
            );
            match r {
                Ok(_) => problem is None,
                Err(f) => problem == Some(f@),
            }
        }),
{
    let n: usize = config.servers.len();
    let ghost names = config.servers.keys();
    let ghost problem = project_file_problem(names, config.servers@, views(accepted@), path_text(path@));
    let mut i: usize = 0;
    assert(names.skip(0) =~= names);
    while i < n
        invariant
            i <= n,
            n == names.len(),
            names == config.servers.keys(),
            problem == project_file_problem(
                names.skip(i as int),
                config.servers@,
                views(accepted@),
                path_text(path@),
            ),
            problem == project_file_problem(names, config.servers@, views(accepted@), path_text(path@)),
            config.servers.listed(),
            names == listing::<String>(config.servers@.dom()),
        decreases n - i,
    {
        proof {
            assert(names.skip(i as int)[0] == names[i as int]);
            assert(names.skip(i as int).drop_first() =~= names.skip(i + 1));
        }
        if let Err(f) = check_project_server(
            config.servers.key_at(i).as_str(),
            config.servers.value_at(i),
            accepted,
            path,
        ) {
            return Err(f);
        }
        i += 1;
    }
    Ok(())
}

/// What a server of which the project declares nothing is, does not depend on
/// the project.
pub proof fn law_undeclared_fields_come_from_the_user(
    name: Seq<char>,
    u: UserServerView,
    session_timeout: Option<Seq<char>>,
    user_directory: PathView,
    workspace: PathView,
)
    ensures
        merged_server(name, u, no_project_server(), session_timeout, user_directory, workspace) matches Ok(s) ==> s.project_fields
            == Set::<Seq<char>>::empty() && (s.executable matches Some(e) ==> e.source == ConfigSource::User),
{
    if let Ok(s) = merged_server(name, u, no_project_server(), session_timeout, user_directory, workspace) {
        assert(s.project_fields =~= Set::<Seq<char>>::empty());
    }
}

/// What the project declares of a field is what is in effect, and the field
/// is among those that it declares.
pub proof fn law_project_declares_over_user(
    name: Seq<char>,
    u: UserServerView,
    p: ProjectServerView,
    session_timeout: Option<Seq<char>>,
    user_directory: PathView,
    workspace: PathView,
)
    ensures
        merged_server(name, u, p, session_timeout, user_directory, workspace) matches Ok(s) ==> {
            &&& (p.executable matches Some(v) ==> s.executable == Some(
                sourced_view(v, ConfigSource::Project, workspace),
            ) && s.project_fields.contains("executable"@))
            &&& (p.args matches Some(v) ==> s.args == sourced_view(v, ConfigSource::Project, workspace)
                && s.project_fields.contains("args"@))
            &&& (p.cwd matches Some(v) ==> s.cwd == Some(sourced_view(v, ConfigSource::Project, workspace))
                && s.project_fields.contains("cwd"@))
        },
{
}

proof fn lemma_merged_domain(
    names: Seq<Seq<char>>,
    users: Map<Seq<char>, UserServerView>,
    projects: Map<Seq<char>, ProjectServerView>,
    session_timeout: Option<Seq<char>>,
    user_directory: PathView,
    workspace: PathView,
    name: Seq<char>,
)
    ensures
        merged_servers(names, users, projects, session_timeout, user_directory, workspace) matches Ok(m) ==> (
        m.dom().contains(name) <==> names.contains(name)) && (m.dom().contains(name) ==> Ok::<ServerView, FailureView>(
            m[name],
        ) == merged_server(
            name,
            user_declared(users, name),
            project_declared(projects, name),
            session_timeout,
            user_directory,
            workspace,
        )),
    decreases names.len(),
{
    if names.len() > 0 {
        let rest = names.drop_last();
        lemma_merged_domain(rest, users, projects, session_timeout, user_directory, workspace, name);
        if rest.contains(name) {
            let k = choose|k: int| 0 <= k < rest.len() && rest[k] == name;
            assert(names[k] == name);
        }
        if names.contains(name) && name != names.last() {
            let k = choose|k: int| 0 <= k < names.len() && names[k] == name;
            assert(rest[k] == name);
        }
        if name == names.last() {
            assert(names[names.len() - 1] == name);
        }
    }
}

/// The servers in effect are those that the user or the project declares, each
/// as its declarations make it.
pub proof fn law_servers_are_those_declared(
    users: Map<Seq<char>, UserServerView>,
    projects: Map<Seq<char>, ProjectServerView>,
    session_timeout: Option<Seq<char>>,
    user_directory: PathView,
    workspace: PathView,
    name: Seq<char>,
)
    requires
        users.dom().finite(),
        projects.dom().finite(),
    ensures
        merged_servers(
            listing::<String>(users.dom().union(projects.dom())),
            users,
            projects,
            session_timeout,
            user_directory,
            workspace,
        ) matches Ok(m) ==> (m.dom().contains(name) <==> users.dom().contains(name) || projects.dom().contains(name))
            && (m.dom().contains(name) ==> Ok::<ServerView, FailureView>(m[name]) == merged_server(
            name,
            user_declared(users, name),
            project_declared(projects, name),
            session_timeout,
            user_directory,
            workspace,
        )),
{
    let domain = users.dom().union(projects.dom());
    let names = listing::<String>(domain);
    crate::sorted::lemma_listing_exists::<String>(domain);
    lemma_merged_domain(names, users, projects, session_timeout, user_directory, workspace, name);
    assert(lists_keys::<String>(names, domain));
    assert(names.contains(name) <==> domain.contains(name));
}

/// A variable that the project declares for a server has the project's value,
/// and comes from the project; every other variable that the user declares has
/// the user's value, and comes from the user; and there are no others.
pub proof fn law_project_variables_count_before_the_users(
    name: Seq<char>,
    u: UserServerView,
    p: ProjectServerView,
    session_timeout: Option<Seq<char>>,
    user_directory: PathView,
    workspace: PathView,
    variable: Seq<char>,
)
    ensures
        merged_server(name, u, p, session_timeout, user_directory, workspace) matches Ok(s) ==> {
            let by_project = p.environment is Some && p.environment->0.dom().contains(variable);
            let by_user = u.environment is Some && u.environment->0.dom().contains(variable);
            &&& s.environment.dom().contains(variable) <==> by_project || by_user
            &&& by_project ==> s.environment[variable].value == p.environment->0[variable]
                && s.environment[variable].source == ConfigSource::Project
                && s.environment[variable].declaring_directory == workspace
            &&& !by_project && by_user ==> s.environment[variable].value == u.environment->0[variable]
                && s.environment[variable].source == ConfigSource::User
                && s.environment[variable].declaring_directory == user_directory
        },
{
}

/// What the project does not declare of a field is what the user declares; what
/// neither declares has its default: no executable, no arguments, the workspace
/// to run in, no options, and empty settings.
pub proof fn law_undeclared_fields_fall_back(
    name: Seq<char>,
    u: UserServerView,
    p: ProjectServerView,
    session_timeout: Option<Seq<char>>,
    user_directory: PathView,
    workspace: PathView,
)
    ensures
        merged_server(name, u, p, session_timeout, user_directory, workspace) matches Ok(s) ==> {
            &&& s.name == name
            &&& p.executable is None ==> (match u.executable {
                Some(v) => s.executable is Some && s.executable->0.value == v && s.executable->0.source
                    == ConfigSource::User && s.executable->0.declaring_directory == user_directory,
                None => s.executable is None,
            })
            &&& p.args is None ==> (match u.args {
                Some(v) => s.args.value == v && s.args.source == ConfigSource::User && s.args.declaring_directory
                    == user_directory,
                None => s.args.value.len() == 0 && s.args.source == ConfigSource::BuiltIn,
            })
            &&& p.cwd is None ==> s.cwd is Some && (match u.cwd {
                Some(v) => s.cwd->0.value == v && s.cwd->0.source == ConfigSource::User && s.cwd->0.declaring_directory
                    == user_directory,
                None => s.cwd->0.value == path_text(workspace) && s.cwd->0.source == ConfigSource::BuiltIn,
            })
            &&& p.initialization_options matches Some(v) ==> s.initialization_options is Some
                && s.initialization_options->0.source == ConfigSource::Project && Some(s.initialization_options->0.value)
                == toml_json(v)
            &&& p.initialization_options is None ==> (match u.initialization_options {
                Some(v) => s.initialization_options is Some && s.initialization_options->0.source == ConfigSource::User
                    && Some(s.initialization_options->0.value) == toml_json(v),
                None => s.initialization_options is None,
            })
            &&& p.settings matches Some(v) ==> s.settings.source == ConfigSource::Project && Some(s.settings.value)
                == toml_json(v)
            &&& p.settings is None ==> (match u.settings {
                Some(v) => s.settings.source == ConfigSource::User && Some(s.settings.value) == toml_json(v),
                None => s.settings.source == ConfigSource::BuiltIn && s.settings.value == JsonView::Object(seq![]),
            })
        },
{
}

/// The time that a server has is the one that the user gives the server, or
/// else the one that the user gives all, or else half a minute; for diagnostics
/// that it publishes, two seconds unless the user says otherwise. The project
/// has no say in it.
pub proof fn law_times_are_the_users(
    name: Seq<char>,
    u: UserServerView,
    p: ProjectServerView,
    session_timeout: Option<Seq<char>>,
    user_directory: PathView,
    workspace: PathView,
)
    ensures
        merged_server(name, u, p, session_timeout, user_directory, workspace) matches Ok(s) ==> {
            &&& u.request_timeout is Some ==> u.request_timeout == Some(s.request_timeout)
            &&& u.request_timeout is None && session_timeout is Some ==> session_timeout == Some(s.request_timeout)
            &&& u.request_timeout is None && session_timeout is None ==> s.request_timeout == "30s"@
            &&& u.published_diagnostics_wait is Some ==> u.published_diagnostics_wait == Some(
                s.published_diagnostics_wait,
            )
            &&& u.published_diagnostics_wait is None ==> s.published_diagnostics_wait == "2s"@
        },
{
}

/// The fields of a server that the project is held to have declared are those
/// that it declares; of its variables, where it declares at least one.
pub proof fn law_project_fields_are_those_declared(
    name: Seq<char>,
    u: UserServerView,
    p: ProjectServerView,
    session_timeout: Option<Seq<char>>,
    user_directory: PathView,
    workspace: PathView,
    field: Seq<char>,
)
    ensures
        merged_server(name, u, p, session_timeout, user_directory, workspace) matches Ok(s) ==> (
        s.project_fields.contains(field) <==> field == "executable"@ && p.executable is Some || field == "args"@ && p.args
            is Some || field == "cwd"@ && p.cwd is Some || field == "initialization_options"@ && p.initialization_options
            is Some || field == "settings"@ && p.settings is Some || field == "environment"@ && p.environment is Some
            && exists|k: Seq<char>| #[trigger] p.environment->0.dom().contains(k)),
{
    if let Ok(s) = merged_server(name, u, p, session_timeout, user_directory, workspace) {
        if p.environment is Some {
            assert(variables(p.environment) == p.environment->0);
            if exists|k: Seq<char>| #[trigger] variables(p.environment).dom().contains(k) {
                let k = choose|k: Seq<char>| #[trigger] variables(p.environment).dom().contains(k);
                assert(p.environment->0.dom().contains(k));
            }
            if exists|k: Seq<char>| #[trigger] p.environment->0.dom().contains(k) {
                let k = choose|k: Seq<char>| #[trigger] p.environment->0.dom().contains(k);
                assert(variables(p.environment).dom().contains(k));
            }
        }
    }
}

} // verus!
