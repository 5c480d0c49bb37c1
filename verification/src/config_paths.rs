//! Where workspaces, working directories and the files of the user are.

use vstd::prelude::*;

use crate::config_checks::{
    selection_failed,
    server_selection_failure,
    user_path_failed,
    user_path_failure,
    workspace_failed,
    workspace_failure,
};
use crate::configuration::EffectiveServer;
use crate::failure::{ContractFailure, FailureView, result_view};
use crate::manifest::PathView;
use crate::order::Key;
use crate::path::{NativePath, path_text};
use crate::text::{opt_view, same};
use crate::uri::{directory_uri_of, uri_of_directory};

verus! {

/// What looking for the directory of a workspace came to.
pub enum WorkspaceLookup {
    /// No directory was named and there is no current one.
    NoCurrentDirectory,
    /// Nothing is there.
    Unresolved,
    /// A directory, or something else, is at this path, which has no links in it.
    Found { path: NativePath, directory: bool },
}

/// The directory of a workspace, given what looking for it came to.
pub fn canonical_workspace(lookup: WorkspaceLookup) -> (r: Result<NativePath, ContractFailure>)
    ensures
        match lookup {
            WorkspaceLookup::NoCurrentDirectory => r matches Err(f) && f@ == workspace_failed(
                "The current directory is unavailable."@,
            ),
            WorkspaceLookup::Unresolved => r matches Err(f) && f@ == workspace_failed(
                "The Workspace path does not exist or cannot be resolved."@,
            ),
            WorkspaceLookup::Found { path, directory } => if directory {
                r matches Ok(p) && p@ == path@
            } else {
                r matches Err(f) && f@ == workspace_failed("The Workspace path is not a directory."@)
            },
        },
{
    match lookup {
        WorkspaceLookup::NoCurrentDirectory => Err(workspace_failure("The current directory is unavailable.")),
        WorkspaceLookup::Unresolved => Err(
            workspace_failure("The Workspace path does not exist or cannot be resolved."),
        ),
        WorkspaceLookup::Found { path, directory } => if directory {
            Ok(path)
        } else {
            Err(workspace_failure("The Workspace path is not a directory."))
        },
    }
}

/// The URI of a workspace.
pub fn workspace_uri(workspace: &NativePath) -> (r: Result<String, ContractFailure>)
    ensures
        match directory_uri_of(path_text(workspace@)) {
            Some(uri) => r matches Ok(u) && u@ == uri,
            None => r matches Err(f) && f@ == workspace_failed(
                "The Workspace path cannot be represented as a file URI."@,
            ),
        },
{
    let text: String = workspace.to_text();
    match uri_of_directory(text.as_str()) {
        Some(uri) => Ok(uri),
        None => Err(workspace_failure("The Workspace path cannot be represented as a file URI.")),
    }
}

/// A path starts at the root.
pub open spec fn rooted(path: PathView) -> bool {
    path.len() > 0 && path[0] == "/"@
}

/// The path of the user's configuration: in the directory that the environment
/// names, or else in that of the system.
pub open spec fn user_config_path(named: Option<PathView>, system: Option<PathView>) -> Result<PathView, FailureView> {
    match named {
        Some(path) => if rooted(path) {
            Ok(path.push("lspctl"@).push("config.toml"@))
        } else {
            Err(user_path_failed("XDG_CONFIG_HOME is not absolute."@))
        },
        None => match system {
            Some(path) => Ok(path.push("config.toml"@)),
            None => Err(
                user_path_failed("The operating system user configuration directory is unavailable."@),
            ),
        },
    }
}

/// The path of the user's configuration: in the directory that the environment
/// names, or else in that of the system.
pub fn resolved_user_config_path(named: Option<NativePath>, system: Option<NativePath>) -> (r: Result<
    NativePath,
    ContractFailure,
>)
    ensures
        result_view(r) == user_config_path(opt_view(named), opt_view(system)),
{
    match named {
        Some(path) => if path.components.len() > 0 && same(path.components[0].as_str(), "/") {
            Ok(path.join("lspctl").join("config.toml"))
        } else {
            Err(user_path_failure("XDG_CONFIG_HOME is not absolute."))
        },
        None => match system {
            Some(path) => Ok(path.join("config.toml")),
            None => Err(
                user_path_failure("The operating system user configuration directory is unavailable."),
            ),
        },
    }
}

/// Where the working directory of a server is looked for: a path, and the
/// directory that it is taken from where it does not start at the root.
pub fn server_cwd_lookup(server: &EffectiveServer) -> (r: (String, NativePath))
    requires
        server@.cwd is Some,
    ensures
        r.0@ == server@.cwd->0.value,
        r.1@ == server@.cwd->0.declaring_directory,
{
    match &server.cwd {
        Some(cwd) => (cwd.value.clone(), cwd.declaring_directory.duplicate()),
        None => (String::new(), NativePath { components: Vec::new() }),
    }
}

/// The working directory of a server, given what looking for it came to.
pub fn resolve_server_cwd(found: Option<NativePath>) -> (r: Result<NativePath, ContractFailure>)
    ensures
        match found {
            Some(p) => r matches Ok(q) && q@ == p@,
            None => r matches Err(f) && f@ == selection_failed(
                "The selected server working directory is unavailable."@,
            ),
        },
{
    match found {
        Some(path) => Ok(path),
        None => Err(server_selection_failure("The selected server working directory is unavailable.")),
    }
}

} // verus!
