//! The selected server with what the command line declares over it.

use vstd::prelude::*;

use crate::config_checks::{
    input_failed,
    input_failure,
    selection_failed,
    server_selection_failure,
};
use crate::config_routes::{
    RouteTest,
    RouteTestView,
    ends_in_bytes,
    longest,
    longest_extension_server,
    selects,
    unique_route_server,
};
use crate::config_servers::{sourced, sourced_view};
use crate::configuration::{
    ConfigSource,
    EffectiveServer,
    LoadedConfiguration,
    RouteView,
    ServerView,
    Sourced,
    SourcedView,
    Texts,
};
use crate::failure::{ContractFailure, FailureView, failed, failure, result_view};
use crate::invocation::{InvocationView, ParsedInvocation};
use crate::json::{
    Json,
    JsonSyntaxError,
    JsonView,
    array_view,
    object1,
    object2,
    object3,
    object4,
    parse_json,
    parse_json_bytes,
    parsed_json,
    parsed_json_bytes,
    text_value,
};
use crate::manifest::PathView;
use crate::order::Key;
use crate::path::NativePath;
use crate::sorted::{Replica, SortedMap, listing};
use crate::text::{chars_of, folded, opt_view, same_folded, string_of, views};

verus! {

/// The failure of a declaration without an executable.
pub open spec fn incomplete_failed(name: Seq<char>) -> FailureView {
    failed(
        3,
        "blocked"@,
        "server_declaration_incomplete"@,
        "The selected server declaration is incomplete."@,
        "select_server"@,
        "not_sent"@,
        "after_change"@,
        JsonView::Object(
            seq![
                ("missingFields"@, JsonView::Array(seq![JsonView::Text("executable"@)])),
                ("server"@, JsonView::Text(name)),
            ],
        ),
    )
}

/// The failure of a declaration without an executable.
pub fn incomplete_server_declaration(name: &str) -> (r: ContractFailure)
    ensures
        r@ == incomplete_failed(name@),
{
    let mut missing: Vec<Json> = Vec::new();
    missing.push(text_value("executable"));
    assert(array_view(missing@) =~= seq![JsonView::Text("executable"@)]);
    failure(
        3,
        "blocked",
        "server_declaration_incomplete",
        "The selected server declaration is incomplete.",
        "select_server",
        "not_sent",
        "after_change",
        object2("missingFields", Json::Array(missing), "server", text_value(name)),
    )
}

/// Where the first equals sign of an entry stands.
pub open spec fn sign_of(entry: Seq<char>) -> int {
    entry.index_of_first('=')->0
}

/// The name of a variable in an entry.
pub open spec fn key_of(entry: Seq<char>) -> Seq<char> {
    entry.take(sign_of(entry))
}

/// The value of a variable in an entry.
pub open spec fn value_of(entry: Seq<char>) -> Seq<char> {
    entry.skip(sign_of(entry) + 1)
}

/// Splits an entry at its first equals sign.
fn split_entry(entry: &str) -> (r: (String, String))
    requires
        entry@.contains('='),
    ensures
        r.0@ == key_of(entry@),
        r.1@ == value_of(entry@),
{
    let c: Vec<char> = chars_of(entry);
    proof { entry@.index_of_first_ensures('='); }
    let mut i: usize = 0;
    while c[i] != '='
        invariant
            c@ == entry@,
            i < c@.len(),
            entry@.contains('='),
            entry@.index_of_first('=') is Some,
            i <= sign_of(entry@) < c@.len(),
            c@[sign_of(entry@)] == '=',
            forall|j: int| 0 <= j < sign_of(entry@) ==> c@[j] != '=',
        decreases c.len() - i,
    {
        i += 1;
    }
    let n: usize = c.len();
    let key: String = string_of(&c, 0, i);
    let value: String = string_of(&c, i + 1, n);
    assert(key@ =~= key_of(entry@));
    assert(value@ =~= value_of(entry@));
    (key, value)
}

/// The variables with those of the first entries.
pub open spec fn entered(
    environment: Map<Seq<char>, SourcedView<Seq<char>>>,
    entries: Seq<Seq<char>>,
    directory: PathView,
) -> Map<Seq<char>, SourcedView<Seq<char>>>
    decreases entries.len(),
{
    if entries.len() == 0 {
        environment
    } else {
        entered(environment, entries.drop_last(), directory).insert(
            key_of(entries.last()),
            sourced_view(value_of(entries.last()), ConfigSource::Cli, directory),
        )
    }
}

/// Whether entries name a variable twice.
pub open spec fn names_twice(entries: Seq<Seq<char>>) -> bool {
    exists|i: int, j: int| 0 <= i < j < entries.len() && #[trigger] key_of(entries[i]) == #[trigger] key_of(entries[j])
}

/// The failure of naming a variable twice.
pub open spec fn twice_failed() -> FailureView {
    input_failed(
        "invalid_json_input"@,
        "A CLI environment key may be supplied only once."@,
        JsonView::Object(seq![("source"@, JsonView::Text("--server-env"@))]),
    )
}

/// The values of an option, or none.
pub open spec fn values_or_none(invocation: InvocationView, name: Seq<char>) -> Seq<Seq<char>> {
    match invocation.values(name) {
        Some(values) => values,
        None => Seq::empty(),
    }
}

/// Whether the project declares one of some variables.
pub open spec fn project_variable(environment: Map<Seq<char>, SourcedView<Seq<char>>>) -> bool {
    exists|k: Seq<char>| #[trigger] environment.dom().contains(k) && environment[k].source == ConfigSource::Project
}

impl ServerView {
    /// The server with a field that the project does not declare any more.
    pub open spec fn without_project_field(self, name: Seq<char>) -> ServerView {
        ServerView { project_fields: self.project_fields.remove(name), ..self }
    }

    /// The server with an executable, arguments and a directory of the command
    /// line.
    pub open spec fn with_launch(self, invocation: InvocationView, directory: PathView) -> ServerView {
        let s = self;
        let s = match invocation.value("--server-executable"@) {
            Some(v) => ServerView {
                executable: Some(sourced_view(v, ConfigSource::Cli, directory)),
                ..s.without_project_field("executable"@)
            },
            None => s,
        };
        let s = match invocation.values("--server-arg"@) {
            Some(v) => ServerView {
                args: sourced_view(v, ConfigSource::Cli, directory),
                ..s.without_project_field("args"@)
            },
            None => s,
        };
        match invocation.value("--server-cwd"@) {
            Some(v) => ServerView {
                cwd: Some(sourced_view(v, ConfigSource::Cli, directory)),
                ..s.without_project_field("cwd"@)
            },
            None => s,
        }
    }

    /// The server with variables of the command line.
    pub open spec fn with_variables(self, invocation: InvocationView, directory: PathView) -> ServerView {
        let environment = entered(self.environment, values_or_none(invocation, "--server-env"@), directory);
        let s = ServerView { environment, ..self };
        if invocation.has("--server-env"@) && !project_variable(environment) {
            s.without_project_field("environment"@)
        } else {
            s
        }
    }

    /// The server with what the command line declares over it, or why that does
    /// not hold.
    pub open spec fn overridden(
        self,
        invocation: InvocationView,
        directory: PathView,
        options: Option<Result<JsonView, FailureView>>,
        settings: Option<Result<JsonView, FailureView>>,
    ) -> Result<ServerView, FailureView> {
        let s = self.with_launch(invocation, directory);
        if names_twice(values_or_none(invocation, "--server-env"@)) {
            Err(twice_failed())
        } else {
            let s = s.with_variables(invocation, directory);
            match options {
                Some(Err(f)) => Err(f),
                _ => {
                    let s = match options {
                        Some(Ok(v)) => ServerView {
                            initialization_options: Some(sourced_view(v, ConfigSource::Cli, directory)),
                            ..s.without_project_field("initialization_options"@)
                        },
                        _ => s,
                    };
                    match settings {
                        Some(Err(f)) => Err(f),
                        _ => {
                            let s = match settings {
                                Some(Ok(v)) => ServerView {
                                    settings: sourced_view(v, ConfigSource::Cli, directory),
                                    ..s.without_project_field("settings"@)
                                },
                                _ => s,
                            };
                            Ok(
                                match invocation.value("--request-timeout"@) {
                                    Some(t) => ServerView { request_timeout: t, ..s },
                                    None => s,
                                },
                            )
                        },
                    }
                },
            }
        }
    }
}

/// The view of an input that may have failed.
pub open spec fn input_view(input: Option<Result<Json, ContractFailure>>) -> Option<Result<JsonView, FailureView>> {
    match input {
        Some(r) => Some(result_view(r)),
        None => None,
    }
}

fn drop_field(server: &mut EffectiveServer, name: &str)
    ensures
        final(server)@ == old(server)@.without_project_field(name@),
{
    let key: String = name.to_owned();
    server.project_fields.remove(&key);
    assert(server.project_fields@.dom() =~= old(server)@.project_fields.remove(name@));
}

fn apply_launch(server: &mut EffectiveServer, invocation: &ParsedInvocation, directory: &NativePath)
    ensures
        final(server)@ == old(server)@.with_launch(invocation@, directory@),
{
    if let Some(v) = invocation.option_string("--server-executable") {
        server.executable = Some(sourced(v, ConfigSource::Cli, directory));
        drop_field(server, "executable");
    }
    if let Some(v) = invocation.option_strings("--server-arg") {
        server.args = sourced(Texts { items: v }, ConfigSource::Cli, directory);
        drop_field(server, "args");
    }
    if let Some(v) = invocation.option_string("--server-cwd") {
        server.cwd = Some(sourced(v, ConfigSource::Cli, directory));
        drop_field(server, "cwd");
    }
}

fn has_project_variable(environment: &SortedMap<String, Sourced<String>>) -> (r: bool)
    ensures
        r == project_variable(environment@),
{
    let n: usize = environment.len();
    let ghost keys = environment.keys();
    let mut i: usize = 0;
    while i < n
        invariant
            i <= n,
            n == keys.len(),
            keys == environment.keys(),
            environment.listed(),
            forall|j: int| 0 <= j < i ==> environment@[#[trigger] keys[j]].source != ConfigSource::Project,
        decreases n - i,
    {
        let v: &Sourced<String> = environment.value_at(i);
        if v.source == ConfigSource::Project {
            assert(environment@.dom().contains(keys[i as int]));
            return true;
        }
        i += 1;
    }
    proof {
        if project_variable(environment@) {
            let k = choose|k: Seq<char>| #[trigger]
                environment@.dom().contains(k) && environment@[k].source == ConfigSource::Project;
            assert(keys.contains(k));
        }
    }
    false
}

fn enter_variables(server: &mut EffectiveServer, entries: &Vec<String>, directory: &NativePath) -> (r: bool)
    requires
        forall|i: int| 0 <= i < entries@.len() ==> (#[trigger] entries@[i])@.contains('='),
    ensures
        r == !names_twice(views(entries@)),
        r ==> final(server)@ == (ServerView {
            environment: entered(old(server)@.environment, views(entries@), directory@),
            ..old(server)@
        }),
{
    let ghost all = views(entries@);
    let ghost start = server@;
    let mut keys: Vec<String> = Vec::new();
    let mut i: usize = 0;
    assert(all.take(0) =~= Seq::<Seq<char>>::empty());
    while i < entries.len()
        invariant
            i <= entries@.len(),
            all == views(entries@),
            start == old(server)@,
            forall|k: int| 0 <= k < entries@.len() ==> (#[trigger] entries@[k])@.contains('='),
            keys@.len() == i,
            forall|k: int| 0 <= k < i ==> (#[trigger] keys@[k])@ == key_of(all[k]),
            forall|a: int, b: int|
                0 <= a < b < i ==> #[trigger] key_of(all[a]) != #[trigger] key_of(all[b]),
            server@ == (ServerView {
                environment: entered(start.environment, all.take(i as int), directory@),
                ..start
            }),
        decreases entries.len() - i,
    {
        proof {
            assert(all.take(i + 1).drop_last() =~= all.take(i as int));
            assert(all.take(i + 1).last() == entries@[i as int]@);
            assert(entries@[i as int]@.contains('='));
        }
        let (key, value) = split_entry(entries[i].as_str());
        if crate::text::contains_string(&keys, key.as_str()) {
            proof {
                let k = choose|k: int| 0 <= k < views(keys@).len() && views(keys@)[k] == key@;
                assert(keys@[k]@ == key_of(all[k]));
                assert(key_of(all[k]) == key_of(all[i as int]));
            }
            return false;
        }
        proof {
            assert forall|k: int| 0 <= k < i implies #[trigger] key_of(all[k]) != key@ by {
                assert(views(keys@)[k] == keys@[k]@);
            }
        }
        server.environment.insert(key.clone(), sourced(value, ConfigSource::Cli, directory));
        keys.push(key);
        i += 1;
    }
    assert(all.take(i as int) =~= all);
    true
}

/// The server with what the command line declares over it. The JSON inputs are
/// handed in as they were read.
pub fn apply_cli_overrides(
    server: EffectiveServer,
    invocation: &ParsedInvocation,
    directory: &NativePath,
    options: Option<Result<Json, ContractFailure>>,
    settings: Option<Result<Json, ContractFailure>>,
) -> (r: Result<EffectiveServer, ContractFailure>)
    requires
        forall|i: int|
            0 <= i < values_or_none(invocation@, "--server-env"@).len() ==> (#[trigger] values_or_none(
                invocation@,
                "--server-env"@,
            )[i]).contains('='),
    ensures
        result_view(r) == server@.overridden(
            invocation@,
            directory@,
            input_view(options),
            input_view(settings),
        ),
{
    let mut server: EffectiveServer = server;
    apply_launch(&mut server, invocation, directory);
    let ghost launched = server@;
    let entries: Vec<String> = match invocation.option_strings("--server-env") {
        Some(v) => v,
        None => {
            let none: Vec<String> = Vec::new();
            assert(views(none@) =~= Seq::<Seq<char>>::empty());
            none
        },
    };
    proof {
        assert(views(entries@) == values_or_none(invocation@, "--server-env"@));
        assert forall|i: int| 0 <= i < entries@.len() implies (#[trigger] entries@[i])@.contains('=') by {
            assert(views(entries@)[i] == entries@[i]@);
        }
    }
    if !enter_variables(&mut server, &entries, directory) {
        return Err(
            input_failure(
                "invalid_json_input",
                "A CLI environment key may be supplied only once.",
                object1("source", text_value("--server-env")),
            ),
        );
    }
    if invocation.has_option("--server-env") && !has_project_variable(&server.environment) {
        drop_field(&mut server, "environment");
    }
    match options {
        Some(Ok(v)) => {
            server.initialization_options = Some(sourced(v, ConfigSource::Cli, directory));
            drop_field(&mut server, "initialization_options");
        },
        Some(Err(f)) => {
            return Err(f);
        },
        None => {},
    }
    match settings {
        Some(Ok(v)) => {
            server.settings = sourced(v, ConfigSource::Cli, directory);
            drop_field(&mut server, "settings");
        },
        Some(Err(f)) => {
            return Err(f);
        },
        None => {},
    }
    if let Some(t) = invocation.option_string("--request-timeout") {
        server.request_timeout = t;
    }
    Ok(server)
}

/// What the command line declares leaves no trace of the project in the fields
/// that it declares.
pub proof fn law_command_line_is_not_the_project(
    s: ServerView,
    invocation: InvocationView,
    directory: PathView,
    options: Option<Result<JsonView, FailureView>>,
    settings: Option<Result<JsonView, FailureView>>,
)
    ensures
        s.overridden(invocation, directory, options, settings) matches Ok(t) ==> {
            &&& t.project_fields.subset_of(s.project_fields)
            &&& (invocation.value("--server-executable"@) is Some ==> !t.project_fields.contains("executable"@))
            &&& (invocation.values("--server-arg"@) is Some ==> !t.project_fields.contains("args"@))
            &&& (invocation.value("--server-cwd"@) is Some ==> !t.project_fields.contains("cwd"@))
            &&& (options is Some ==> !t.project_fields.contains("initialization_options"@))
            &&& (settings is Some ==> !t.project_fields.contains("settings"@))
        },
{
}

/// A JSON value from the bytes of a file, by what its parser says of them.
pub open spec fn json_input_of(
    parsed: Result<JsonView, JsonSyntaxError>,
    path: Seq<char>,
    object_required: bool,
) -> Result<JsonView, FailureView> {
    match parsed {
        Err(e) => Err(
            input_failed(
                "invalid_json_input"@,
                "A JSON input file is invalid."@,
                JsonView::Object(
                    seq![
                        ("column"@, JsonView::Int(e.column as int)),
                        ("line"@, JsonView::Int(e.line as int)),
                        ("path"@, JsonView::Text(path)),
                        ("source"@, JsonView::Text("file"@)),
                    ],
                ),
            ),
        ),
        Ok(v) => if object_required && !(v is Object) {
            Err(
                input_failed(
                    "invalid_json_input"@,
                    "The JSON input must be an object."@,
                    JsonView::Object(
                        seq![
                            ("jsonPath"@, JsonView::Text(""@)),
                            ("path"@, JsonView::Text(path)),
                            ("source"@, JsonView::Text("file"@)),
                        ],
                    ),
                ),
            )
        } else {
            Ok(v)
        },
    }
}

/// A JSON value from what the parser says of the bytes of a file.
pub fn json_input(parsed: Result<Json, JsonSyntaxError>, path: &str, object_required: bool) -> (r: Result<
    Json,
    ContractFailure,
>)
    ensures
        result_view(r) == json_input_of(
            match parsed {
                Ok(v) => Ok(v@),
                Err(e) => Err(e),
            },
            path@,
            object_required,
        ),
{
    match parsed {
        Err(e) => Err(
            input_failure(
                "invalid_json_input",
                "A JSON input file is invalid.",
                object4(
                    "column",
                    Json::Unsigned(e.column as u64),
                    "line",
                    Json::Unsigned(e.line as u64),
                    "path",
                    text_value(path),
                    "source",
                    text_value("file"),
                ),
            ),
        ),
        Ok(v) => {
            let is_object: bool = match &v {
                Json::Object(_) => true,
                _ => false,
            };
            if object_required && !is_object {
                return Err(
                    input_failure(
                        "invalid_json_input",
                        "The JSON input must be an object.",
                        object3("jsonPath", text_value(""), "path", text_value(path), "source", text_value("file")),
                    ),
                );
            }
            Ok(v)
        },
    }
}

/// The failure of a file that cannot be read.
pub open spec fn unread_input_failed(path: Seq<char>, os_code: Option<i32>) -> FailureView {
    input_failed(
        "input_read_failed"@,
        "A JSON input file could not be read."@,
        JsonView::Object(
            seq![
                ("osCode"@, crate::timing::os_code_json(os_code)),
                ("path"@, JsonView::Text(path)),
                ("source"@, JsonView::Text("file"@)),
            ],
        ),
    )
}

/// A JSON value from a file, given what reading the file came to.
pub fn read_json_input(path: &str, read: Result<Vec<u8>, Option<i32>>, object_required: bool) -> (r: Result<
    Json,
    ContractFailure,
>)
    ensures
        result_view(r) == match read {
            Ok(bytes) => json_input_of(parsed_json_bytes(bytes@), path@, object_required),
            Err(os_code) => Err(unread_input_failed(path@, os_code)),
        },
{
    match read {
        Ok(bytes) => json_input(parse_json_bytes(&bytes), path, object_required),
        Err(os_code) => Err(
            input_failure(
                "input_read_failed",
                "A JSON input file could not be read.",
                object3(
                    "osCode",
                    crate::timing::os_code_value(os_code),
                    "path",
                    text_value(path),
                    "source",
                    text_value("file"),
                ),
            ),
        ),
    }
}

/// A JSON value from the command line, where it is one.
pub fn inline_json(text: &str) -> (r: Option<Json>)
    ensures
        match r {
            Some(v) => parsed_json(text@) == Ok::<JsonView, JsonSyntaxError>(v@),
            None => parsed_json(text@) is Err,
        },
{
    match parse_json(text) {
        Ok(v) => Some(v),
        Err(_) => None,
    }
}

/// What selecting a server by its name comes to, before the command line
/// declares anything.
pub open spec fn configured(servers: Map<Seq<char>, ServerView>, name: Seq<char>) -> Result<ServerView, FailureView> {
    if servers.dom().contains(name) {
        Ok(servers[name])
    } else {
        Err(selection_failed("The selected server has no declaration."@))
    }
}

/// A server, unless it has no executable.
pub open spec fn complete(s: Result<ServerView, FailureView>, name: Seq<char>) -> Result<ServerView, FailureView> {
    match s {
        Err(f) => Err(f),
        Ok(server) => if server.executable is None {
            Err(incomplete_failed(name))
        } else {
            Ok(server)
        },
    }
}

/// The declared server of a name, without what the command line declares.
pub fn select_configured_server(configuration: &LoadedConfiguration, name: &str) -> (r: Result<
    EffectiveServer,
    ContractFailure,
>)
    ensures
        result_view(r) == complete(configured(configuration.servers@, name@), name@),
{
    let key: String = name.to_owned();
    match configuration.servers.get(&key) {
        None => Err(server_selection_failure("The selected server has no declaration.")),
        Some(server) => if server.executable.is_none() {
            Err(incomplete_server_declaration(name))
        } else {
            Ok(server.replica())
        },
    }
}

/// The server of a name, with what the command line declares over it.
pub fn select_named_server(
    configuration: &LoadedConfiguration,
    name: &str,
    invocation: &ParsedInvocation,
    directory: &NativePath,
    options: Option<Result<Json, ContractFailure>>,
    settings: Option<Result<Json, ContractFailure>>,
) -> (r: Result<EffectiveServer, ContractFailure>)
    requires
        forall|i: int|
            0 <= i < values_or_none(invocation@, "--server-env"@).len() ==> (#[trigger] values_or_none(
                invocation@,
                "--server-env"@,
            )[i]).contains('='),
    ensures
        result_view(r) == match configured(configuration.servers@, name@) {
            Err(f) => Err(f),
            Ok(s) => complete(
                s.overridden(invocation@, directory@, input_view(options), input_view(settings)),
                name@,
            ),
        },
{
    let key: String = name.to_owned();
    match configuration.servers.get(&key) {
        None => Err(server_selection_failure("The selected server has no declaration.")),
        Some(server) => match apply_cli_overrides(server.replica(), invocation, directory, options, settings) {
            Err(f) => Err(f),
            Ok(s) => if s.executable.is_none() {
                Err(incomplete_server_declaration(name))
            } else {
                Ok(s)
            },
        },
    }
}

/// Whether a server is the one that the longest extension of a file selects.
pub open spec fn file_selects(routes: Seq<RouteView>, file: Seq<char>, server: Seq<char>) -> bool {
    exists|n: nat| #[trigger]
        longest(routes, file, n) && selects(routes, RouteTestView::Extension { file, length: n }, server)
}

/// Why no server is selected for a file.
pub open spec fn file_unselected(routes: Seq<RouteView>, file: Seq<char>, f: FailureView) -> bool {
    ||| f == selection_failed("No route matches the target file."@) && forall|n: nat|
        !#[trigger] ends_in_bytes(routes, file, n)
    ||| f == selection_failed("Language or extension routing did not select exactly one server."@) && exists|n: nat|
        #[trigger]
        longest(routes, file, n) && forall|server: Seq<char>| !#[trigger] selects(
            routes,
            RouteTestView::Extension { file, length: n },
            server,
        )
}

/// Whether this is the name of the server that an invocation asks for, or why
/// it asks for none: by its name, by a language, by a file, or else the one
/// that serves by default.
pub open spec fn names_server(
    routes: Seq<RouteView>,
    default_server: Option<Seq<char>>,
    invocation: InvocationView,
    named: Result<Seq<char>, FailureView>,
) -> bool {
    match invocation.value("--server"@) {
        Some(name) => named == Ok::<Seq<char>, FailureView>(name),
        None => match invocation.value("--language-id"@) {
            Some(language_id) => match named {
                Ok(n) => selects(routes, RouteTestView::Language(language_id), n),
                Err(f) => (forall|n: Seq<char>|
                    !#[trigger] selects(routes, RouteTestView::Language(language_id), n)) && f == selection_failed(
                    "Language or extension routing did not select exactly one server."@,
                ),
            },
            None => match invocation.value("--file"@) {
                Some(file) => match named {
                    Ok(n) => file_selects(routes, file, n),
                    Err(f) => file_unselected(routes, file, f),
                },
                None => match default_server {
                    Some(n) => named == Ok::<Seq<char>, FailureView>(n),
                    None => named == Err::<Seq<char>, FailureView>(
                        selection_failed("A Workspace-wide command requires --server or default_server."@),
                    ),
                },
            },
        },
    }
}

/// The name of the server that an invocation asks for.
pub fn server_name(configuration: &LoadedConfiguration, invocation: &ParsedInvocation) -> (r: Result<
    String,
    ContractFailure,
>)
    ensures
        names_server(
            views(configuration.routes@),
            opt_view(configuration.default_server),
            invocation@,
            result_view(r),
        ),
{
    if let Some(server) = invocation.option_string("--server") {
        return Ok(server);
    }
    if let Some(language_id) = invocation.option_string("--language-id") {
        let ghost wanted = language_id@;
        let test = RouteTest::Language(language_id);
        assert(test@ == RouteTestView::Language(wanted));
        return unique_route_server(&configuration.routes, &test);
    }
    if let Some(file) = invocation.option_string("--file") {
        return longest_extension_server(&configuration.routes, file.as_str());
    }
    match &configuration.default_server {
        Some(name) => Ok(name.clone()),
        None => Err(
            server_selection_failure("A Workspace-wide command requires --server or default_server."),
        ),
    }
}

/// The server of a name with what the command line declares over it, or why
/// there is none.
pub open spec fn selected(
    servers: Map<Seq<char>, ServerView>,
    named: Result<Seq<char>, FailureView>,
    invocation: InvocationView,
    directory: PathView,
    options: Option<Result<JsonView, FailureView>>,
    settings: Option<Result<JsonView, FailureView>>,
) -> Result<ServerView, FailureView> {
    match named {
        Err(f) => Err(f),
        Ok(name) => match configured(servers, name) {
            Err(f) => Err(f),
            Ok(s) => complete(s.overridden(invocation, directory, options, settings), name),
        },
    }
}

/// The server that an invocation asks for, with what the command line declares
/// over it.
pub fn select_server(
    configuration: &LoadedConfiguration,
    invocation: &ParsedInvocation,
    directory: &NativePath,
    options: Option<Result<Json, ContractFailure>>,
    settings: Option<Result<Json, ContractFailure>>,
) -> (r: Result<EffectiveServer, ContractFailure>)
    requires
        forall|i: int|
            0 <= i < values_or_none(invocation@, "--server-env"@).len() ==> (#[trigger] values_or_none(
                invocation@,
                "--server-env"@,
            )[i]).contains('='),
    ensures
        exists|named: Result<Seq<char>, FailureView>| #[trigger]
            names_server(
                views(configuration.routes@),
                opt_view(configuration.default_server),
                invocation@,
                named,
            ) && result_view(r) == selected(
                configuration.servers@,
                named,
                invocation@,
                directory@,
                input_view(options),
                input_view(settings),
            ),
{
    let named = server_name(configuration, invocation);
    let ghost n = result_view(named);
    assert(names_server(views(configuration.routes@), opt_view(configuration.default_server), invocation@, n));
    match named {
        Ok(name) => select_named_server(configuration, name.as_str(), invocation, directory, options, settings),
        Err(f) => Err(f),
    }
}

/// An invocation asks for one server, or for none.
pub proof fn law_one_server_is_asked_for(
    routes: Seq<RouteView>,
    default_server: Option<Seq<char>>,
    invocation: InvocationView,
    a: Seq<char>,
    b: Seq<char>,
)
    requires
        names_server(routes, default_server, invocation, Ok(a)),
        names_server(routes, default_server, invocation, Ok(b)),
    ensures
        a == b,
{
    if invocation.value("--server"@) is None && invocation.value("--language-id"@) is None {
        if let Some(file) = invocation.value("--file"@) {
            let n = choose|n: nat| #[trigger]
                longest(routes, file, n) && selects(routes, RouteTestView::Extension { file, length: n }, a);
            let m = choose|m: nat| #[trigger]
                longest(routes, file, m) && selects(routes, RouteTestView::Extension { file, length: m }, b);
            assert(n == m);
        }
    }
}

/// Where the executable of a server is looked for.
pub enum ExecutableLookup {
    /// At a path, which may be taken from the directory of its declaration.
    At { declared: String, directory: NativePath },
    /// On a search path, which may be that of this process.
    Search { declared: String, path: Option<String> },
}

/// Where the executable of a server is looked for: at a path where it has a
/// separator in it, or else on the search path.
pub fn executable_lookup(server: &EffectiveServer, windows: bool) -> (r: Result<ExecutableLookup, ContractFailure>)
    ensures
        match (server@.executable, r) {
            (None, _) => r matches Err(f) && f@ == incomplete_failed(server@.name),
            (Some(e), Ok(ExecutableLookup::At { declared, directory })) => (e.value.contains('/') || e.value.contains(
                '\\',
            )) && declared@ == e.value && directory@ == e.declaring_directory,
            (Some(e), Ok(ExecutableLookup::Search { declared, path })) => !e.value.contains('/') && !e.value.contains(
                '\\',
            ) && declared@ == e.value && opt_view(path) == search_path(server@.environment, windows),
            (Some(_), Err(_)) => false,
        },
{
    match &server.executable {
        None => Err(incomplete_server_declaration(server.name.as_str())),
        Some(e) => {
            let declared: String = e.value.clone();
            if crate::text::contains_char(declared.as_str(), '/') || crate::text::contains_char(
                declared.as_str(),
                '\\',
            ) {
                Ok(ExecutableLookup::At { declared, directory: e.declaring_directory.duplicate() })
            } else {
                let path: Option<String> = effective_path(server, windows);
                Ok(ExecutableLookup::Search { declared, path })
            }
        },
    }
}

/// The first of some names that differs from another at most in ASCII case.
pub open spec fn first_folded(names: Seq<Seq<char>>, name: Seq<char>, i: int) -> Option<Seq<char>>
    decreases names.len() - i,
{
    if i < 0 || i >= names.len() {
        None
    } else if folded(names[i]) == folded(name) {
        Some(names[i])
    } else {
        first_folded(names, name, i + 1)
    }
}

/// The search path among variables. On Windows it is found whatever its case.
pub open spec fn search_path(environment: Map<Seq<char>, SourcedView<Seq<char>>>, windows: bool) -> Option<Seq<char>> {
    if windows {
        match first_folded(listing::<String>(environment.dom()), "PATH"@, 0) {
            Some(name) => Some(environment[name].value),
            None => None,
        }
    } else if environment.dom().contains("PATH"@) {
        Some(environment["PATH"@].value)
    } else {
        None
    }
}

/// The search path that a server declares. On Windows it is found whatever its
/// case.
pub fn effective_path(server: &EffectiveServer, windows: bool) -> (r: Option<String>)
    ensures
        opt_view(r) == search_path(server@.environment, windows),
{
    if windows {
        let n: usize = server.environment.len();
        let ghost names = server.environment.keys();
        let mut i: usize = 0;
        while i < n
            invariant
                windows,
                i <= n,
                n == names.len(),
                names == server.environment.keys(),
                names == listing::<String>(server@.environment.dom()),
                first_folded(names, "PATH"@, 0) == first_folded(names, "PATH"@, i as int),
            decreases n - i,
        {
            if same_folded(server.environment.key_at(i).as_str(), "PATH") {
                return Some(server.environment.value_at(i).value.clone());
            }
            i += 1;
        }
        return None;
    }
    let key: String = "PATH".to_owned();
    match server.environment.get(&key) {
        Some(v) => Some(v.value.clone()),
        None => None,
    }
}

/// The failure of a server whose executable is not there.
pub open spec fn executable_failed(server: Seq<char>, declared: Seq<char>) -> FailureView {
    failed(
        4,
        "unavailable"@,
        "server_executable_unavailable"@,
        "The configured language-server executable is unavailable."@,
        "resolve_executable"@,
        "not_sent"@,
        "after_change"@,
        JsonView::Object(
            seq![("declared"@, JsonView::Text(declared)), ("server"@, JsonView::Text(server))],
        ),
    )
}

/// The executable of a server, given what looking for it came to.
pub fn resolve_server_executable(server: &str, declared: &str, found: Option<NativePath>) -> (r: Result<
    NativePath,
    ContractFailure,
>)
    ensures
        match found {
            Some(p) => r matches Ok(q) && q@ == p@,
            None => r matches Err(f) && f@ == executable_failed(server@, declared@),
        },
{
    match found {
        Some(p) => Ok(p),
        None => Err(
            failure(
                4,
                "unavailable",
                "server_executable_unavailable",
                "The configured language-server executable is unavailable.",
                "resolve_executable",
                "not_sent",
                "after_change",
                object2("declared", text_value(declared), "server", text_value(server)),
            ),
        ),
    }
}

} // verus!
