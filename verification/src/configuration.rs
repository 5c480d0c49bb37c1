//! Configuration: what the user and the project declare, and what is in
//! effect of it.

use vstd::prelude::*;

use crate::json::{Json, JsonView};
use crate::manifest::PathView;
use crate::order::Key;
use crate::path::NativePath;
use crate::settings::{MutationSettings, PreviewSettings, ReceiptSettings};
use crate::sorted::{Replica, SortedMap};
use crate::text::{copy_strings, opt_view, views};

verus! {

/// Who declared a value.
#[derive(Clone, Copy, Debug, PartialEq, Eq, Structural)]
pub enum ConfigSource {
    BuiltIn,
    User,
    Project,
    Cli,
}

/// A value with who declared it and where.
pub struct Sourced<T> {
    pub value: T,
    pub source: ConfigSource,
    pub declaring_directory: NativePath,
}

/// What a [`Sourced`] value stands for.
#[verifier::reject_recursive_types(V)]
#[verifier::ext_equal]
pub ghost struct SourcedView<V> {
    pub value: V,
    pub source: ConfigSource,
    pub declaring_directory: PathView,
}

impl<T: View> View for Sourced<T> {
    type V = SourcedView<T::V>;

    open spec fn view(&self) -> SourcedView<T::V> {
        SourcedView {
            value: self.value@,
            source: self.source,
            declaring_directory: self.declaring_directory@,
        }
    }
}

impl<T: Replica> Replica for Sourced<T> {
    fn replica(&self) -> (r: Self) {
        Sourced {
            value: self.value.replica(),
            source: self.source,
            declaring_directory: self.declaring_directory.duplicate(),
        }
    }
}

/// A list of texts.
pub struct Texts {
    pub items: Vec<String>,
}

impl View for Texts {
    type V = Seq<Seq<char>>;

    open spec fn view(&self) -> Seq<Seq<char>> {
        views(self.items@)
    }
}

impl Replica for Texts {
    fn replica(&self) -> (r: Self) {
        Texts { items: copy_strings(&self.items) }
    }
}

impl Replica for Json {
    fn replica(&self) -> (r: Self) {
        self.copy()
    }
}

/// An opaque value as a configuration file holds it. A number with a fraction
/// is held as it is written in JSON.
pub enum Toml {
    Text(String),
    Integer(i64),
    Number { text: String, finite: bool },
    Boolean(bool),
    Datetime,
    Array(Vec<Toml>),
    Table(Vec<(String, Toml)>),
}

/// A declaration of a server by the user.
pub struct UserServerConfig {
    pub executable: Option<String>,
    pub args: Option<Texts>,
    pub cwd: Option<String>,
    pub environment: Option<SortedMap<String, String>>,
    pub request_timeout: Option<String>,
    pub published_diagnostics_wait: Option<String>,
    pub initialization_options: Option<Toml>,
    pub settings: Option<Toml>,
}

/// What a [`UserServerConfig`] stands for.
#[verifier::ext_equal]
pub ghost struct UserServerView {
    pub executable: Option<Seq<char>>,
    pub args: Option<Seq<Seq<char>>>,
    pub cwd: Option<Seq<char>>,
    pub environment: Option<Map<Seq<char>, Seq<char>>>,
    pub request_timeout: Option<Seq<char>>,
    pub published_diagnostics_wait: Option<Seq<char>>,
    pub initialization_options: Option<Toml>,
    pub settings: Option<Toml>,
}

impl View for UserServerConfig {
    type V = UserServerView;

    open spec fn view(&self) -> UserServerView {
        UserServerView {
            executable: opt_view(self.executable),
            args: opt_view(self.args),
            cwd: opt_view(self.cwd),
            environment: opt_view(self.environment),
            request_timeout: opt_view(self.request_timeout),
            published_diagnostics_wait: opt_view(self.published_diagnostics_wait),
            initialization_options: self.initialization_options,
            settings: self.settings,
        }
    }
}

/// A declaration of a server by the project.
pub struct ProjectServerConfig {
    pub executable: Option<String>,
    pub args: Option<Texts>,
    pub cwd: Option<String>,
    pub environment: Option<SortedMap<String, String>>,
    pub initialization_options: Option<Toml>,
    pub settings: Option<Toml>,
}

/// What a [`ProjectServerConfig`] stands for.
#[verifier::ext_equal]
pub ghost struct ProjectServerView {
    pub executable: Option<Seq<char>>,
    pub args: Option<Seq<Seq<char>>>,
    pub cwd: Option<Seq<char>>,
    pub environment: Option<Map<Seq<char>, Seq<char>>>,
    pub initialization_options: Option<Toml>,
    pub settings: Option<Toml>,
}

impl View for ProjectServerConfig {
    type V = ProjectServerView;

    open spec fn view(&self) -> ProjectServerView {
        ProjectServerView {
            executable: opt_view(self.executable),
            args: opt_view(self.args),
            cwd: opt_view(self.cwd),
            environment: opt_view(self.environment),
            initialization_options: self.initialization_options,
            settings: self.settings,
        }
    }
}

/// A route from files to a server.
pub struct RouteConfig {
    pub server: String,
    pub language_id: String,
    pub extensions: Vec<String>,
}

/// What a [`RouteConfig`] stands for.
#[verifier::ext_equal]
pub ghost struct RouteView {
    pub server: Seq<char>,
    pub language_id: Seq<char>,
    pub extensions: Seq<Seq<char>>,
}

impl View for RouteConfig {
    type V = RouteView;

    open spec fn view(&self) -> RouteView {
        RouteView {
            server: self.server@,
            language_id: self.language_id@,
            extensions: views(self.extensions@),
        }
    }
}

/// Limits on sessions, as they are declared.
pub struct SessionConfig {
    pub owner_startup_timeout: Option<String>,
    pub initialization_timeout: Option<String>,
    pub request_timeout: Option<String>,
    pub cancellation_grace: Option<String>,
    pub shutdown_timeout: Option<String>,
    pub idle_timeout: Option<String>,
}

/// Limits on synchronization, as they are declared.
#[derive(Clone, Copy, Debug, PartialEq, Eq, Structural)]
pub struct SynchronizationConfig {
    pub max_open_documents: Option<u64>,
    pub max_document_bytes: Option<u64>,
    pub max_total_text_bytes: Option<u64>,
    pub max_diagnostic_snapshots: Option<u64>,
    pub max_diagnostic_bytes: Option<u64>,
}

/// Limits on messages, as they are declared.
#[derive(Clone, Copy, Debug, PartialEq, Eq, Structural)]
pub struct ProtocolConfig {
    pub max_message_bytes: Option<u64>,
    pub max_partial_result_bytes: Option<u64>,
}

/// Limits on previews, as they are declared.
#[derive(Clone, Copy, Debug, PartialEq, Eq, Structural)]
pub struct PreviewConfig {
    pub max_count: Option<u64>,
    pub max_total_bytes: Option<u64>,
    pub max_document_text_bytes: Option<u64>,
    pub max_text_bytes: Option<u64>,
}

/// Limits on receipts, as they are declared.
#[derive(Clone, Copy, Debug, PartialEq, Eq, Structural)]
pub struct ReceiptConfig {
    pub max_count: Option<u64>,
}

/// Limits on mutations, as they are declared.
pub struct MutationConfig {
    pub application_lock_timeout: Option<String>,
    pub max_entries: Option<u64>,
    pub max_recursion_depth: Option<u64>,
    pub max_rollback_bytes: Option<u64>,
    pub max_staged_text_bytes: Option<u64>,
    pub max_preauthorized_callbacks: Option<u64>,
}

/// The configuration file of the user.
pub struct UserConfigFile {
    pub version: u32,
    pub default_server: Option<String>,
    pub routes: Option<Vec<RouteConfig>>,
    pub servers: SortedMap<String, UserServerConfig>,
    pub session: Option<SessionConfig>,
    pub synchronization: Option<SynchronizationConfig>,
    pub protocol: Option<ProtocolConfig>,
    pub previews: Option<PreviewConfig>,
    pub receipts: Option<ReceiptConfig>,
    pub mutation: Option<MutationConfig>,
}

/// The configuration file of the project.
pub struct ProjectConfigFile {
    pub version: u32,
    pub default_server: Option<String>,
    pub routes: Option<Vec<RouteConfig>>,
    pub servers: SortedMap<String, ProjectServerConfig>,
}

/// A server as it is in effect.
pub struct EffectiveServer {
    pub name: String,
    pub executable: Option<Sourced<String>>,
    pub args: Sourced<Texts>,
    pub cwd: Option<Sourced<String>>,
    pub environment: SortedMap<String, Sourced<String>>,
    pub initialization_options: Option<Sourced<Json>>,
    pub settings: Sourced<Json>,
    pub request_timeout: String,
    pub published_diagnostics_wait: String,
    /// The fields that the project declared.
    pub project_fields: SortedMap<String, ()>,
}

/// What an [`EffectiveServer`] stands for.
#[verifier::ext_equal]
pub ghost struct ServerView {
    pub name: Seq<char>,
    pub executable: Option<SourcedView<Seq<char>>>,
    pub args: SourcedView<Seq<Seq<char>>>,
    pub cwd: Option<SourcedView<Seq<char>>>,
    pub environment: Map<Seq<char>, SourcedView<Seq<char>>>,
    pub initialization_options: Option<SourcedView<JsonView>>,
    pub settings: SourcedView<JsonView>,
    pub request_timeout: Seq<char>,
    pub published_diagnostics_wait: Seq<char>,
    pub project_fields: Set<Seq<char>>,
}

impl View for EffectiveServer {
    type V = ServerView;

    open spec fn view(&self) -> ServerView {
        ServerView {
            name: self.name@,
            executable: opt_view(self.executable),
            args: self.args@,
            cwd: opt_view(self.cwd),
            environment: self.environment@,
            initialization_options: opt_view(self.initialization_options),
            settings: self.settings@,
            request_timeout: self.request_timeout@,
            published_diagnostics_wait: self.published_diagnostics_wait@,
            project_fields: self.project_fields@.dom(),
        }
    }
}

fn copy_sourced<T: Replica>(value: &Option<Sourced<T>>) -> (r: Option<Sourced<T>>)
    ensures
        opt_view(r) == opt_view(*value),
{
    match value {
        Some(v) => Some(v.replica()),
        None => None,
    }
}

impl Replica for EffectiveServer {
    fn replica(&self) -> (r: Self) {
        EffectiveServer {
            name: self.name.clone(),
            executable: copy_sourced(&self.executable),
            args: self.args.replica(),
            cwd: copy_sourced(&self.cwd),
            environment: self.environment.replica(),
            initialization_options: copy_sourced(&self.initialization_options),
            settings: self.settings.replica(),
            request_timeout: self.request_timeout.clone(),
            published_diagnostics_wait: self.published_diagnostics_wait.clone(),
            project_fields: self.project_fields.replica(),
        }
    }
}

/// Limits on sessions.
pub struct SessionSettings {
    pub owner_startup_timeout: String,
    pub initialization_timeout: String,
    pub request_timeout: String,
    pub cancellation_grace: String,
    pub shutdown_timeout: String,
    pub idle_timeout: String,
}

/// What [`SessionSettings`] stand for.
#[verifier::ext_equal]
pub ghost struct SessionView {
    pub owner_startup_timeout: Seq<char>,
    pub initialization_timeout: Seq<char>,
    pub request_timeout: Seq<char>,
    pub cancellation_grace: Seq<char>,
    pub shutdown_timeout: Seq<char>,
    pub idle_timeout: Seq<char>,
}

impl View for SessionSettings {
    type V = SessionView;

    open spec fn view(&self) -> SessionView {
        SessionView {
            owner_startup_timeout: self.owner_startup_timeout@,
            initialization_timeout: self.initialization_timeout@,
            request_timeout: self.request_timeout@,
            cancellation_grace: self.cancellation_grace@,
            shutdown_timeout: self.shutdown_timeout@,
            idle_timeout: self.idle_timeout@,
        }
    }
}

/// Limits on synchronization.
#[derive(Clone, Copy, Debug, PartialEq, Eq, Structural)]
pub struct SynchronizationSettings {
    pub max_open_documents: u64,
    pub max_document_bytes: u64,
    pub max_total_text_bytes: u64,
    pub max_diagnostic_snapshots: u64,
    pub max_diagnostic_bytes: u64,
}

/// Limits on messages.
#[derive(Clone, Copy, Debug, PartialEq, Eq, Structural)]
pub struct ProtocolSettings {
    pub max_message_bytes: u64,
    pub max_partial_result_bytes: u64,
}

/// All limits that the user can set.
pub struct UserSettings {
    pub session: SessionSettings,
    pub synchronization: SynchronizationSettings,
    pub protocol: ProtocolSettings,
    pub previews: PreviewSettings,
    pub receipts: ReceiptSettings,
    pub mutation: MutationSettings,
}

/// The configuration of a workspace.
pub struct LoadedConfiguration {
    pub workspace: NativePath,
    pub workspace_uri: String,
    pub project_path: NativePath,
    pub default_server: Option<String>,
    pub routes: Vec<RouteConfig>,
    pub servers: SortedMap<String, EffectiveServer>,
    pub settings: UserSettings,
}

} // verus!
