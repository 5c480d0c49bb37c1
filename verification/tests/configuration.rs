//! Configuration files, the selection of servers and trust in them.

use lspctl::config_checks::{line_column, toml_to_json, unread_toml_failure, validate_duration};
use lspctl::config_load::{
    Inherited, effective_child_environment, is_transient_inherited_environment_key, load_configuration,
    session_identity,
};
use lspctl::config_routes::{document_language_id, longest_extension_server};
use lspctl::config_select::{
    ExecutableLookup, effective_path, executable_lookup, inline_json, read_json_input, resolve_server_executable, select_server,
    server_name,
};
use lspctl::configuration::{
    EffectiveServer, LoadedConfiguration, PreviewConfig, ProjectConfigFile, ProjectServerConfig, ReceiptConfig,
    RouteConfig, SynchronizationConfig, Texts, Toml, UserConfigFile, UserServerConfig,
};
use lspctl::failure::ContractFailure;
use lspctl::invocation::ParsedInvocation;
use lspctl::json::Json;
use lspctl::os_text::{OsText, encode_os_string, os_text};
use lspctl::path::NativePath;
use lspctl::sorted::SortedMap;
use lspctl::trust::{
    CurrentDeclaration, Placement, StoredTrustRecord, StoredTrustState, TrustStateFile, aggregate_digest,
    changed_fields, current_declaration, current_declarations, find_record,
};
use lspctl::trust_commands::{
    TRUST_STATE_FORMAT_VERSION, TrustFile, authorize_server, check_denied_server, deny_trust, grant_trust,
    granted_records, granted_server, read_trust_state, revoke_trust, select_declarations, trust_list,
    trust_state_paths, trust_status,
};
use lspctl::trust_run::{GrantAction, GrantEvent, GrantPhase, GrantRun};
use serde_json::Value;

fn from_value(value: &Value) -> Json {
    match value {
        Value::Null => Json::Null,
        Value::Bool(b) => Json::Bool(*b),
        Value::Number(n) => match (n.as_u64(), n.as_i64()) {
            (Some(u), _) => Json::Unsigned(u),
            (None, Some(i)) => Json::Negative(i),
            (None, None) => Json::Decimal(n.to_string()),
        },
        Value::String(s) => Json::Text(s.clone()),
        Value::Array(items) => Json::Array(items.iter().map(from_value).collect()),
        Value::Object(fields) => Json::Object(fields.iter().map(|(k, v)| (k.clone(), from_value(v))).collect()),
    }
}

fn value(json: &Json) -> Value {
    match json {
        Json::Null => Value::Null,
        Json::Bool(b) => Value::from(*b),
        Json::Unsigned(n) => Value::from(*n),
        Json::Negative(n) => Value::from(*n),
        Json::Decimal(s) => serde_json::from_str(s).unwrap(),
        Json::Text(s) => Value::from(s.as_str()),
        Json::Array(items) => Value::Array(items.iter().map(value).collect()),
        Json::Object(fields) => Value::Object(fields.iter().map(|(k, v)| (k.clone(), value(v))).collect()),
    }
}

fn parsed(text: &str) -> Value {
    serde_json::from_str(text).unwrap()
}

fn json(text: &str) -> Json {
    from_value(&parsed(text))
}

fn path(text: &str) -> NativePath {
    let mut components = vec!["/".to_owned()];
    components.extend(text.split('/').filter(|c| !c.is_empty()).map(str::to_owned));
    NativePath { components }
}

fn words(list: &[&str]) -> Vec<String> {
    list.iter().map(|w| w.to_string()).collect()
}

fn map(entries: &[(&str, &str)]) -> SortedMap<String, String> {
    let mut map = SortedMap::new();
    for (key, value) in entries {
        map.insert(key.to_string(), value.to_string());
    }
    map
}

fn project_server(executable: &str, args: &[&str]) -> ProjectServerConfig {
    ProjectServerConfig {
        executable: Some(executable.to_owned()),
        args: Some(Texts { items: words(args) }),
        cwd: None,
        environment: None,
        initialization_options: None,
        settings: None,
    }
}

fn project(servers: Vec<(&str, ProjectServerConfig)>) -> ProjectConfigFile {
    let mut file = ProjectConfigFile { version: 1, default_server: None, routes: None, servers: SortedMap::new() };
    for (name, server) in servers {
        file.servers.insert(name.to_owned(), server);
    }
    file
}

fn user(servers: Vec<(&str, UserServerConfig)>) -> UserConfigFile {
    let mut file = UserConfigFile {
        version: 1,
        default_server: None,
        routes: None,
        servers: SortedMap::new(),
        session: None,
        synchronization: None,
        protocol: None,
        previews: None,
        receipts: None,
        mutation: None,
    };
    for (name, server) in servers {
        file.servers.insert(name.to_owned(), server);
    }
    file
}

fn user_server(executable: &str) -> UserServerConfig {
    UserServerConfig {
        executable: Some(executable.to_owned()),
        args: None,
        cwd: None,
        environment: Some(map(&[("RUST_LOG", "info")])),
        request_timeout: Some("90s".to_owned()),
        published_diagnostics_wait: None,
        initialization_options: None,
        settings: None,
    }
}

fn loaded(
    user: Option<&UserConfigFile>,
    project: Option<&ProjectConfigFile>,
) -> Result<LoadedConfiguration, ContractFailure> {
    load_configuration(
        user,
        project,
        &path("/home/config/lspctl/config.toml"),
        &path("/workspace"),
        "file:///workspace/",
        &words(&["go", "rust", "typescript"]),
    )
}

fn accepted(user: Option<&UserConfigFile>, project: Option<&ProjectConfigFile>) -> LoadedConfiguration {
    match loaded(user, project) {
        Ok(configuration) => configuration,
        Err(failure) => panic!("{}", failure.message),
    }
}

fn invocation(command: &str, options: &[(&str, &[&str])], positionals: &[&str]) -> ParsedInvocation {
    ParsedInvocation {
        command: words(&[command]),
        options: options.iter().map(|(name, values)| (name.to_string(), words(values))).collect(),
        positionals: words(positionals),
    }
}

#[test]
fn strict_project_config_merges_with_user_independently() {
    let project = project(vec![("rust", project_server("rust-analyzer", &["--stdio"]))]);
    let loaded = accepted(None, Some(&project));
    let server = loaded.servers.get(&"rust".to_owned()).unwrap();
    assert_eq!(server.args.value.items, ["--stdio"]);
    assert!(server.project_fields.contains_key(&"executable".to_owned()));
    assert!(server.project_fields.contains_key(&"args".to_owned()));
}

#[test]
fn project_fields_win_over_the_users() {
    let user = user(vec![("rust", user_server("/usr/bin/rust-analyzer"))]);
    let project = project(vec![("rust", project_server("./tools/ra", &["--stdio"]))]);
    let loaded = accepted(Some(&user), Some(&project));
    let server = loaded.servers.get(&"rust".to_owned()).unwrap();
    let executable = server.executable.as_ref().unwrap();
    assert_eq!(executable.value, "./tools/ra");
    assert_eq!(executable.declaring_directory.to_text(), "/workspace");
    assert_eq!(server.request_timeout, "90s");
    assert_eq!(server.environment.get(&"RUST_LOG".to_owned()).unwrap().value, "info");
    assert!(!server.project_fields.contains_key(&"environment".to_owned()));
    assert_eq!(loaded.settings.previews.max_count, 64);
}

fn from_toml(value: &toml::Value) -> Toml {
    match value {
        toml::Value::String(s) => Toml::Text(s.clone()),
        toml::Value::Integer(n) => Toml::Integer(*n),
        toml::Value::Float(n) => Toml::Number { text: n.to_string(), finite: n.is_finite() },
        toml::Value::Boolean(b) => Toml::Boolean(*b),
        toml::Value::Datetime(_) => Toml::Datetime,
        toml::Value::Array(items) => Toml::Array(items.iter().map(from_toml).collect()),
        toml::Value::Table(fields) => Toml::Table(fields.iter().map(|(k, v)| (k.clone(), from_toml(v))).collect()),
    }
}

#[test]
fn canonical_toml_conversion_rejects_dates() {
    let value = toml::from_str::<toml::Table>("date = 2026-01-01").unwrap().remove("date").unwrap();
    assert!(toml_to_json(&from_toml(&value)).is_err());
}

#[test]
fn toml_converts_to_json() {
    let table = toml::from_str::<toml::Table>("a = 1\nb = [true, \"x\"]\n[c]\nd = -2").unwrap();
    let converted = toml_to_json(&from_toml(&toml::Value::Table(table))).ok().unwrap();
    assert_eq!(value(&converted), parsed(r#"{"a": 1, "b": [true, "x"], "c": {"d": -2}}"#));
    let endless = toml::Value::Float(f64::INFINITY);
    assert!(toml_to_json(&from_toml(&endless)).is_err());
}

#[test]
fn invalid_files_are_refused() {
    let mut newer = project(Vec::new());
    newer.version = 2;
    let failure = loaded(None, Some(&newer)).err().unwrap();
    assert_eq!(failure.code, "invalid_configuration");
    assert_eq!(value(&failure.data)["problems"][0]["code"], "unsupported_version");
    let unknown = project(vec![("no such name", project_server("x", &[]))]);
    assert_eq!(
        value(&loaded(None, Some(&unknown)).err().unwrap().data)["problems"][0]["code"],
        "invalid_value"
    );
    let mut dangling = project(vec![("rust", project_server("x", &[]))]);
    dangling.default_server = Some("typescript".to_owned());
    assert_eq!(
        value(&loaded(None, Some(&dangling)).err().unwrap().data)["problems"][0]["code"],
        "missing_server_reference"
    );
}

#[test]
fn durations_have_units() {
    assert_eq!(validate_duration("250ms", "x").ok(), Some(250));
    assert_eq!(validate_duration("3s", "x").ok(), Some(3_000));
    assert_eq!(validate_duration("2m", "x").ok(), Some(120_000));
    for wrong in ["", "5", "0s", "-1s", "1h", "18446744073709551615m"] {
        assert!(validate_duration(wrong, "x").is_err(), "{wrong}");
    }
}

#[test]
fn faults_in_files_are_located() {
    assert_eq!(line_column("ab\ncd", 4), (2, 2));
    assert_eq!(line_column("ab\ncd", 0), (1, 1));
    let failure = unread_toml_failure(&path("/workspace/.lspctl.toml"), "a = \nb", "expected a value", Some(5));
    assert_eq!(failure.code, "invalid_configuration");
    let problem = &value(&failure.data)["problems"][0];
    assert_eq!(problem["line"], 2);
    assert_eq!(problem["column"], 1);
}

fn routed() -> LoadedConfiguration {
    let mut project = project(vec![
        ("rust", project_server("rust-analyzer", &[])),
        ("typescript", project_server("tsserver", &[])),
    ]);
    project.routes = Some(vec![
        RouteConfig { server: "rust".to_owned(), language_id: "rust".to_owned(), extensions: words(&[".rs"]) },
        RouteConfig {
            server: "typescript".to_owned(),
            language_id: "typescript".to_owned(),
            extensions: words(&[".ts", ".d.ts"]),
        },
    ]);
    accepted(None, Some(&project))
}

#[test]
fn routes_lead_to_servers() {
    let configuration = routed();
    let routes = &configuration.routes;
    assert_eq!(longest_extension_server(routes, "lib.d.ts").ok(), Some("typescript".to_owned()));
    assert_eq!(longest_extension_server(routes, "main.rs").ok(), Some("rust".to_owned()));
    assert_eq!(longest_extension_server(routes, "main.py").err().unwrap().code, "server_selection_failed");
    assert_eq!(document_language_id(routes, "rust", "main.rs", None).ok(), Some("rust".to_owned()));
    assert_eq!(document_language_id(routes, "rust", "main.rs", Some("other")).ok(), Some("other".to_owned()));

    let hover = |options: &[(&str, &[&str])], files: &[&str]| invocation("hover", options, files);
    assert_eq!(server_name(&configuration, &hover(&[("--server", &["rust"])], &[])).ok(), Some("rust".to_owned()));
    match select_server(&configuration, &hover(&[("--server", &["rust"])], &[]), &path("/workspace"), None, None) {
        Ok(server) => assert_eq!(server.executable.unwrap().value, "rust-analyzer"),
        Err(failure) => panic!("{}", failure.message),
    }
}

#[test]
fn executables_are_looked_up_where_they_are_declared() {
    let configuration = routed();
    let server = configuration.servers.get(&"rust".to_owned()).unwrap();
    match executable_lookup(server, false) {
        Ok(ExecutableLookup::Search { declared, .. }) => assert_eq!(declared, "rust-analyzer"),
        _ => panic!("a bare name is searched for"),
    }
    let project = project(vec![("rust", project_server("./tools/ra", &[]))]);
    let configuration = accepted(None, Some(&project));
    match executable_lookup(configuration.servers.get(&"rust".to_owned()).unwrap(), false) {
        Ok(ExecutableLookup::At { declared, directory }) => {
            assert_eq!(declared, "./tools/ra");
            assert_eq!(directory.to_text(), "/workspace");
        }
        _ => panic!("a path is looked up in its directory"),
    }
    let failure = resolve_server_executable("rust", "rust-analyzer", None).err().unwrap();
    assert_eq!(failure.code, "server_executable_unavailable");
    assert_eq!(
        resolve_server_executable("rust", "ra", Some(path("/usr/bin/ra"))).ok().unwrap().to_text(),
        "/usr/bin/ra"
    );
}

#[test]
fn inputs_are_json() {
    assert_eq!(read_json_input("x.json", Ok(b"{\"a\": 1}".to_vec()), true).ok().as_ref().map(value), Some(parsed(r#"{"a": 1}"#)));
    assert_eq!(read_json_input("x.json", Ok(b"[]".to_vec()), true).err().unwrap().code, "invalid_json_input");
    assert_eq!(read_json_input("x.json", Ok(b"{".to_vec()), false).err().unwrap().code, "invalid_json_input");
    assert_eq!(read_json_input("x.json", Err(Some(2)), false).err().unwrap().code, "input_read_failed");
    assert_eq!(inline_json("[1, 2.5]").as_ref().map(value), Some(parsed("[1, 2.5]")));
    assert!(inline_json("[").is_none());
}

fn inherited(key: &str, text: &str) -> Inherited {
    Inherited { key: os_text(key), value: os_text(text), readable: key.to_owned() }
}

fn bytes(text: &OsText) -> Vec<u8> {
    text.bytes.clone()
}

#[test]
fn children_inherit_what_is_not_transient() {
    for (key, transient) in
        [("PWD", true), ("oldpwd", true), ("PI_SESSION", true), ("__MISE_DIFF", true), ("PATH", false), ("HOME", false)]
    {
        assert_eq!(is_transient_inherited_environment_key(key), transient, "{key}");
    }
    let user = user(vec![("rust", user_server("ra"))]);
    let configuration = accepted(Some(&user), None);
    let server = configuration.servers.get(&"rust".to_owned()).unwrap();
    let environment = effective_child_environment(
        server,
        &vec![inherited("PATH", "/bin"), inherited("SHLVL", "2"), inherited("RUST_LOG", "debug")],
        &os_text("/workspace"),
        false,
    );
    assert_eq!(environment.get(&os_text("RUST_LOG")).map(bytes), Some(b"info".to_vec()));
    assert_eq!(environment.get(&os_text("PATH")).map(bytes), Some(b"/bin".to_vec()));
    assert!(environment.get(&os_text("SHLVL")).is_none());
    let here = session_identity(&configuration, server, &os_text("/bin/ra"), &os_text("/workspace"), &environment, false);
    assert!(here.starts_with("sid_") && here.len() == 68);
    let there = session_identity(&configuration, server, &os_text("/bin/ra"), &os_text("/other"), &environment, false);
    assert_ne!(here, there);
    assert_ne!(value(&encode_os_string(&os_text("/bin"), false)), value(&encode_os_string(&os_text("/sbin"), false)));
}

#[test]
fn changed_fields_reports_added_removed_and_changed_fields() {
    let recorded = map(&[("args", "a"), ("cwd", "same")]);
    let current = map(&[("cwd", "same"), ("settings", "b")]);
    assert_eq!(changed_fields(&recorded, Some(&current)), ["args", "settings"]);
}

fn declared(args: &[&str]) -> EffectiveServer {
    let project = project(vec![("rust", project_server("rust-analyzer", args))]);
    let mut loaded = accepted(None, Some(&project));
    let server = loaded.servers.get(&"rust".to_owned()).unwrap();
    let copied = EffectiveServer {
        name: server.name.clone(),
        executable: None,
        args: lspctl::config_servers::sourced(
            Texts { items: server.args.value.items.clone() },
            server.args.source,
            &server.args.declaring_directory,
        ),
        cwd: None,
        environment: SortedMap::new(),
        initialization_options: None,
        settings: lspctl::config_servers::sourced(
            from_value(&value(&server.settings.value)),
            server.settings.source,
            &server.settings.declaring_directory,
        ),
        request_timeout: server.request_timeout.clone(),
        published_diagnostics_wait: server.published_diagnostics_wait.clone(),
        project_fields: {
            let mut fields = SortedMap::new();
            fields.insert("args".to_owned(), ());
            fields
        },
    };
    loaded.servers.remove(&"rust".to_owned());
    copied
}

const WORKSPACE: &str = "file:///workspace/";
const NOW: &str = "2026-01-01T00:00:00Z";

fn authorized(state: &TrustStateFile, server: &EffectiveServer) -> Result<(), String> {
    let declaration =
        current_declaration(server, "rust", "/bin/ra", None, "/workspace/.lspctl.toml").ok().unwrap();
    authorize_server(&state.records, Some(&declaration), WORKSPACE, "/workspace", "rust").map_err(|f| f.code)
}

#[test]
fn trust_is_in_the_declaration_that_was_granted() {
    let mut state = TrustStateFile { format_version: TRUST_STATE_FORMAT_VERSION, records: Vec::new() };
    let server = declared(&["--stdio"]);
    assert_eq!(authorized(&state, &server), Err("project_trust_required".to_owned()));
    assert!(authorize_server(&state.records, None, WORKSPACE, "/workspace", "rust").is_ok());

    let declaration =
        current_declaration(&server, "rust", "/bin/ra", None, "/workspace/.lspctl.toml").ok().unwrap();
    let digest = declaration.digest.clone();
    let mut declarations = SortedMap::new();
    declarations.insert("rust".to_owned(), declaration);
    let mismatch = select_declarations(&declarations, Some(&"rust".to_owned()), "sha256:other", WORKSPACE);
    assert_eq!(mismatch.err().unwrap().code, "trust_digest_mismatch");
    let names = select_declarations(&declarations, Some(&"rust".to_owned()), &digest, WORKSPACE).ok().unwrap();
    assert_eq!(names, ["rust"]);
    let all = aggregate_digest(&declarations);
    assert_eq!(select_declarations(&declarations, None, &all, WORKSPACE).ok(), Some(words(&["rust"])));

    assert!(grant_trust(&mut state, &declarations, &names, false, false, WORKSPACE, NOW).is_ok());
    assert_eq!(authorized(&state, &server), Ok(()));
    assert_eq!(authorized(&state, &declared(&["--other"])), Err("project_trust_changed".to_owned()));

    let denied = deny_trust(&mut state, WORKSPACE, "rust", "/workspace/.lspctl.toml", NOW);
    assert_eq!(denied.state, StoredTrustState::Denied);
    assert_eq!(state.records.len(), 1);
    assert_eq!(authorized(&state, &server), Err("project_trust_denied".to_owned()));
    let refused = grant_trust(&mut state, &declarations, &names, false, false, WORKSPACE, NOW);
    assert_eq!(refused.err().unwrap().code, "denial_replacement_required");
    assert!(grant_trust(&mut state, &declarations, &names, false, true, WORKSPACE, NOW).is_ok());
    assert_eq!(authorized(&state, &server), Ok(()));

    let status = value(&trust_status(&state.records, &declarations, WORKSPACE, &None, &words(&["trust", "status"]), NOW));
    assert_eq!(status["result"]["records"][0]["state"], "trusted");
    let listed = value(&trust_list(&state.records, &None, &words(&["trust", "list"])));
    assert_eq!(listed["result"].as_array().map(|records| records.len()), Some(1));

    revoke_trust(&mut state, WORKSPACE, "rust");
    assert!(find_record(&state.records, WORKSPACE, "rust").is_none());
    assert_eq!(authorized(&state, &server), Err("project_trust_required".to_owned()));
}

#[test]
fn trust_state_is_read_in_its_version() {
    let place = path("/home/state/trust.json");
    assert!(read_trust_state(TrustFile::Missing, &place).ok().unwrap().records.is_empty());
    assert!(read_trust_state(TrustFile::Corrupt, &place).is_err());
    let newer = TrustStateFile { format_version: TRUST_STATE_FORMAT_VERSION + 1, records: Vec::new() };
    assert_eq!(
        read_trust_state(TrustFile::Found(newer), &place).err().unwrap().code,
        "stored_state_version_unsupported"
    );
    let record = StoredTrustRecord {
        workspace_uri: WORKSPACE.to_owned(),
        server: "rust".to_owned(),
        state: StoredTrustState::Denied,
        declaration_digest: None,
        field_digests: SortedMap::new(),
        executable_path: None,
        source_path: None,
        updated_at: NOW.to_owned(),
    };
    let found = TrustStateFile { format_version: TRUST_STATE_FORMAT_VERSION, records: vec![record] };
    assert_eq!(read_trust_state(TrustFile::Found(found), &place).ok().unwrap().records.len(), 1);
    assert!(trust_state_paths(&None).is_err());
    assert!(trust_state_paths(&Some(path("/home/state"))).is_ok());
}

#[test]
fn settings_have_defaults_and_consistent_limits() {
    let plain = accepted(Some(&user(Vec::new())), None).settings;
    assert_eq!(plain.session.idle_timeout, "10m");
    assert_eq!(plain.session.cancellation_grace, "5s");
    assert_eq!(plain.synchronization.max_document_bytes, 16_777_216);
    assert_eq!(plain.protocol.max_message_bytes, 67_108_864);
    assert_eq!(plain.previews.max_total_bytes, 268_435_456);
    assert_eq!(plain.receipts.max_count, 1024);
    assert_eq!(plain.mutation.max_rollback_bytes, 1_073_741_824);

    let mut narrow = user(Vec::new());
    narrow.synchronization = Some(SynchronizationConfig {
        max_open_documents: None,
        max_document_bytes: Some(10),
        max_total_text_bytes: Some(9),
        max_diagnostic_snapshots: None,
        max_diagnostic_bytes: None,
    });
    let failure = loaded(Some(&narrow), None).err().unwrap();
    assert_eq!(
        value(&failure.data)["problems"][0]["message"],
        "synchronization.max_total_text_bytes must be at least max_document_bytes"
    );
    assert_eq!(value(&failure.data)["path"], "/home/config/lspctl/config.toml");

    let mut inconsistent = user(Vec::new());
    inconsistent.previews = Some(PreviewConfig {
        max_count: None,
        max_total_bytes: Some(1),
        max_document_text_bytes: None,
        max_text_bytes: None,
    });
    let failure = loaded(Some(&inconsistent), None).err().unwrap();
    assert_eq!(value(&failure.data)["problems"][0]["message"], "Preview byte limits are inconsistent.");

    let mut none = user(Vec::new());
    none.receipts = Some(ReceiptConfig { max_count: Some(0) });
    assert_eq!(loaded(Some(&none), None).err().unwrap().code, "invalid_configuration");
}

#[test]
fn trust_is_granted_to_what_the_project_declares() {
    let user = user(vec![("typescript", user_server("tsserver"))]);
    let project = project(vec![("rust", project_server("rust-analyzer", &["--stdio"]))]);
    let loaded = accepted(Some(&user), Some(&project));
    assert_eq!(granted_server(&loaded.servers, &"rust".to_owned()).ok().unwrap().name, "rust");
    for name in ["typescript", "unknown"] {
        let failure = granted_server(&loaded.servers, &name.to_owned()).err().unwrap();
        assert_eq!(failure.message, "The named server has no project-controlled declaration.");
    }
    assert!(check_denied_server(&loaded.servers, &"typescript".to_owned()).is_ok());
    let failure = check_denied_server(&loaded.servers, &"unknown".to_owned()).err().unwrap();
    assert_eq!(failure.message, "The named server has no current declaration.");

    let server = declared(&["--stdio"]);
    let declaration =
        current_declaration(&server, "rust", "/bin/ra", None, "/workspace/.lspctl.toml").ok().unwrap();
    let mut declarations = SortedMap::new();
    declarations.insert("rust".to_owned(), declaration);
    let mut state = TrustStateFile { format_version: TRUST_STATE_FORMAT_VERSION, records: Vec::new() };
    let names = words(&["rust", "typescript"]);
    assert!(granted_records(&state.records, &declarations, &names, WORKSPACE).is_empty());
    assert!(grant_trust(&mut state, &declarations, &words(&["rust"]), false, false, WORKSPACE, NOW).is_ok());
    let records = granted_records(&state.records, &declarations, &names, WORKSPACE);
    assert_eq!(records.len(), 1);
    assert_eq!(value(&records[0])["state"], "trusted");
}

fn declared_servers(names: &[&str]) -> SortedMap<String, CurrentDeclaration> {
    let server = declared(&["--stdio"]);
    let mut declarations = SortedMap::new();
    for name in names {
        let declaration = current_declaration(&server, name, "/bin/ra", None, "/workspace/.lspctl.toml");
        declarations.insert((*name).to_owned(), declaration.ok().unwrap());
    }
    declarations
}

fn grant_of(server: Option<&str>, expected: &str, replace_denial: bool) -> GrantRun {
    GrantRun::new(
        words(&["trust", "grant"]),
        WORKSPACE.to_owned(),
        server.map(|name| name.to_owned()),
        expected.to_owned(),
        replace_denial,
    )
}

fn empty_state() -> TrustStateFile {
    TrustStateFile { format_version: TRUST_STATE_FORMAT_VERSION, records: Vec::new() }
}

fn locked(mut run: GrantRun, state: TrustStateFile) -> (GrantRun, GrantAction) {
    assert!(matches!(run.step(GrantEvent::Locked), GrantAction::ReadState));
    let action = run.step(GrantEvent::State { state, now: NOW.to_owned() });
    (run, action)
}

#[test]
fn a_grant_to_one_server_runs_to_its_report() {
    let digest = declared_servers(&["rust"]).get(&"rust".to_owned()).unwrap().digest.clone();
    let all = aggregate_digest(&declared_servers(&["go", "rust"]));
    let mut run = grant_of(Some("rust"), &digest, false);
    let asked = run.step(GrantEvent::Begin);
    assert!(matches!(asked, GrantAction::Declare(Some(name)) if name == "rust"));
    let next = run.step(GrantEvent::Declared(declared_servers(&["rust"])));
    assert!(matches!(next, GrantAction::DeclareAll));
    let next = run.step(GrantEvent::DeclaredAll(Some(declared_servers(&["go", "rust"]))));
    assert!(matches!(next, GrantAction::Lock));
    let (mut run, action) = locked(run, empty_state());
    let GrantAction::WriteState(state) = action else { panic!() };
    assert_eq!(state.format_version, TRUST_STATE_FORMAT_VERSION);
    assert_eq!(state.records.len(), 1);
    assert_eq!(state.records[0].declaration_digest, Some(digest));
    assert_eq!(state.records[0].updated_at, NOW);
    assert!(matches!(run.step(GrantEvent::Written), GrantAction::ReadBack));
    let signalled = run.step(GrantEvent::ReadBack(state));
    assert!(matches!(signalled, GrantAction::Signal(names) if names == ["rust"]));
    let told = GrantEvent::Signalled { signalled: words(&["owner-1"]), failures: Vec::new() };
    let GrantAction::Finish(Ok(report)) = run.step(told) else { panic!() };
    assert_eq!(run.phase, GrantPhase::Finished);
    let report = value(&report);
    assert_eq!(report["result"]["records"][0]["server"], "rust");
    assert_eq!(report["result"]["records"][0]["state"], "trusted");
    assert_eq!(report["result"]["aggregateDigest"], all);
    assert_eq!(report["result"]["ownersSignalled"][0], "owner-1");
}

#[test]
fn a_grant_to_all_servers_needs_their_common_digest() {
    let all = aggregate_digest(&declared_servers(&["go", "rust"]));
    let mut run = grant_of(None, "sha256:other", false);
    assert!(matches!(run.step(GrantEvent::Begin), GrantAction::Declare(None)));
    let refused = run.step(GrantEvent::Declared(declared_servers(&["go", "rust"])));
    let GrantAction::Finish(Err(failure)) = refused else { panic!() };
    assert_eq!(failure.code, "trust_digest_mismatch");

    let mut run = grant_of(None, &all, false);
    run.step(GrantEvent::Begin);
    let next = run.step(GrantEvent::Declared(declared_servers(&["go", "rust"])));
    assert!(matches!(next, GrantAction::Lock));
    assert_eq!(run.aggregate, Some(all));
    let mut state = empty_state();
    deny_trust(&mut state, WORKSPACE, "typescript", "/workspace/.lspctl.toml", NOW);
    let (_, action) = locked(run, state);
    let GrantAction::WriteState(state) = action else { panic!() };
    let servers: Vec<&str> = state.records.iter().map(|record| record.server.as_str()).collect();
    assert_eq!(servers, ["go", "rust", "typescript"]);
    assert_eq!(state.records[2].state, StoredTrustState::Denied);
}

#[test]
fn a_denial_gives_way_only_where_it_may() {
    for replace in [false, true] {
        let digest = declared_servers(&["rust"]).get(&"rust".to_owned()).unwrap().digest.clone();
        let mut run = grant_of(Some("rust"), &digest, replace);
        run.step(GrantEvent::Begin);
        run.step(GrantEvent::Declared(declared_servers(&["rust"])));
        run.step(GrantEvent::DeclaredAll(None));
        assert_eq!(run.aggregate, None);
        let mut state = empty_state();
        deny_trust(&mut state, WORKSPACE, "rust", "/workspace/.lspctl.toml", NOW);
        let (_, action) = locked(run, state);
        match action {
            GrantAction::WriteState(state) => {
                assert!(replace);
                assert_eq!(state.records.len(), 1);
                assert_eq!(state.records[0].state, StoredTrustState::Trusted);
            }
            GrantAction::Finish(Err(failure)) => {
                assert!(!replace);
                assert_eq!(failure.code, "denial_replacement_required");
            }
            _ => unreachable!(),
        }
    }
}

#[test]
fn a_grant_ends_with_the_failure_that_it_met() {
    let mut run = grant_of(Some("rust"), "sha256:any", false);
    run.step(GrantEvent::Begin);
    let failure = granted_server(&SortedMap::new(), &"rust".to_owned()).err().unwrap();
    let GrantAction::Finish(Err(failure)) = run.step(GrantEvent::Failed(failure)) else { panic!() };
    assert_eq!(failure.message, "The named server has no project-controlled declaration.");
    assert_eq!(run.phase, GrantPhase::Finished);
}

#[test]
fn declarations_are_those_of_the_project() {
    let user = user(vec![("typescript", user_server("tsserver"))]);
    let project = project(vec![
        ("go", project_server("gopls", &[])),
        ("rust", project_server("rust-analyzer", &["--stdio"])),
    ]);
    let loaded = accepted(Some(&user), Some(&project));
    let placed = |go: Placement| {
        let mut placed = SortedMap::new();
        placed.insert("go".to_owned(), go);
        placed.insert("rust".to_owned(), Placement::Found { executable: "/bin/ra".to_owned(), cwd: None });
        placed
    };
    let found = placed(Placement::Found { executable: "/bin/gopls".to_owned(), cwd: None });
    let all = current_declarations(&loaded.servers, &found, "/workspace/.lspctl.toml").ok().unwrap();
    assert_eq!(all.len(), 2);
    assert_eq!(all.key_at(0), "go");
    let rust = all.get(&"rust".to_owned()).unwrap();
    let server = granted_server(&loaded.servers, &"rust".to_owned()).ok().unwrap();
    let alone = current_declaration(server, "rust", "/bin/ra", None, "/workspace/.lspctl.toml").ok().unwrap();
    assert_eq!(rust.server, "rust");
    assert_eq!(rust.digest, alone.digest);
    assert_eq!(rust.source_path, "/workspace/.lspctl.toml");

    let failure = granted_server(&loaded.servers, &"typescript".to_owned()).err().unwrap();
    let message = failure.message.clone();
    let missing = placed(Placement::Missing(failure));
    let refused = current_declarations(&loaded.servers, &missing, "/workspace/.lspctl.toml");
    assert_eq!(refused.err().unwrap().message, message);
}

#[test]
fn variables_are_found_whatever_their_case_on_windows() {
    let mut server = user_server("ra");
    server.environment = Some(map(&[("Path", "/declared"), ("rust_log", "info")]));
    let configuration = accepted(Some(&user(vec![("rust", server)])), None);
    let server = configuration.servers.get(&"rust".to_owned()).unwrap();
    assert_eq!(effective_path(server, true).as_deref(), Some("/declared"));
    assert_eq!(effective_path(server, false), None);

    let own = vec![inherited("PATH", "/bin"), inherited("RUST_LOG", "debug"), inherited("HOME", "/home")];
    let keys = |windows: bool| {
        let environment = effective_child_environment(server, &own, &os_text("/workspace"), windows);
        (0..environment.len())
            .map(|index| String::from_utf8(bytes(environment.key_at(index))).unwrap())
            .collect::<Vec<_>>()
    };
    assert_eq!(keys(true), ["HOME", "Path", "rust_log"]);
    assert_eq!(keys(false), ["HOME", "PATH", "PWD", "Path", "RUST_LOG", "rust_log"]);
}

#[test]
fn text_that_is_not_unicode_is_told_as_the_system_holds_it() {
    let alone = OsText { bytes: vec![b'a', 0xed, 0xa0, 0x80, 0xf0, 0x9f, 0x98, 0x80, 0xc3, 0xa9] };
    assert_eq!(
        value(&encode_os_string(&alone, true)),
        parsed(r#"{"windowsWide": [97, 55296, 55357, 56832, 233]}"#)
    );
    assert_eq!(
        value(&encode_os_string(&alone, false)),
        parsed(r#"{"unixBytes": "61eda080f09f9880c3a9"}"#)
    );
    for windows in [false, true] {
        assert_eq!(value(&encode_os_string(&os_text("/bin"), windows)), parsed(r#"{"utf8": "/bin"}"#));
    }
}
