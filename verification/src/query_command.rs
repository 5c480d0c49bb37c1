//! The Queries, and what each of them asks of a language server.

use vstd::prelude::*;

use crate::text::{opt_ref_view, same, views};

verus! {

/// A Query.
#[derive(Clone, Copy, Debug, PartialEq, Eq, Structural)]
pub enum QueryCommand {
    Definition,
    References,
    Hover,
    DocumentSymbols,
    WorkspaceSymbols,
    DocumentDiagnostics,
    WorkspaceDiagnostics,
    PublishedDiagnostics,
    PrepareRename,
    Rename,
    Format,
    CodeActions,
    ResolveCodeAction,
    ExecuteCommand,
    Raw,
    Capabilities,
}

/// What a server has to provide for a Query: the name under which providers are
/// listed, and the name of the capability in the protocol.
#[derive(Clone, Copy)]
pub struct ProviderRequirement {
    pub key: &'static str,
    pub capability: &'static str,
}

impl ProviderRequirement {
    pub fn new(key: &'static str, capability: &'static str) -> (r: Self)
        ensures
            r.key@ == key@,
            r.capability@ == capability@,
    {
        Self { key, capability }
    }
}

/// The name of a Query on the command line.
pub open spec fn command_name(c: QueryCommand) -> Seq<char> {
    match c {
        QueryCommand::Definition => "definition"@,
        QueryCommand::References => "references"@,
        QueryCommand::Hover => "hover"@,
        QueryCommand::DocumentSymbols => "document-symbols"@,
        QueryCommand::WorkspaceSymbols => "workspace-symbols"@,
        QueryCommand::DocumentDiagnostics => "document-diagnostics"@,
        QueryCommand::WorkspaceDiagnostics => "workspace-diagnostics"@,
        QueryCommand::PublishedDiagnostics => "published-diagnostics"@,
        QueryCommand::PrepareRename => "prepare-rename"@,
        QueryCommand::Rename => "rename"@,
        QueryCommand::Format => "format"@,
        QueryCommand::CodeActions => "code-actions"@,
        QueryCommand::ResolveCodeAction => "resolve-code-action"@,
        QueryCommand::ExecuteCommand => "execute-command"@,
        QueryCommand::Raw => "raw"@,
        QueryCommand::Capabilities => "capabilities"@,
    }
}

/// The Query that a name stands for.
pub open spec fn named_command(name: Seq<char>) -> Option<QueryCommand> {
    if name == "definition"@ {
        Some(QueryCommand::Definition)
    } else if name == "references"@ {
        Some(QueryCommand::References)
    } else if name == "hover"@ {
        Some(QueryCommand::Hover)
    } else if name == "document-symbols"@ {
        Some(QueryCommand::DocumentSymbols)
    } else if name == "workspace-symbols"@ {
        Some(QueryCommand::WorkspaceSymbols)
    } else if name == "document-diagnostics"@ {
        Some(QueryCommand::DocumentDiagnostics)
    } else if name == "workspace-diagnostics"@ {
        Some(QueryCommand::WorkspaceDiagnostics)
    } else if name == "published-diagnostics"@ {
        Some(QueryCommand::PublishedDiagnostics)
    } else if name == "prepare-rename"@ {
        Some(QueryCommand::PrepareRename)
    } else if name == "rename"@ {
        Some(QueryCommand::Rename)
    } else if name == "format"@ {
        Some(QueryCommand::Format)
    } else if name == "code-actions"@ {
        Some(QueryCommand::CodeActions)
    } else if name == "resolve-code-action"@ {
        Some(QueryCommand::ResolveCodeAction)
    } else if name == "execute-command"@ {
        Some(QueryCommand::ExecuteCommand)
    } else if name == "raw"@ {
        Some(QueryCommand::Raw)
    } else if name == "capabilities"@ {
        Some(QueryCommand::Capabilities)
    } else {
        None
    }
}

/// The Query of a command line, whose command is one word.
pub open spec fn command_of(path: Seq<Seq<char>>) -> Option<QueryCommand> {
    if path.len() == 1 {
        named_command(path[0])
    } else {
        None
    }
}

/// The method of the protocol that a Query calls.
pub open spec fn command_method(c: QueryCommand) -> Option<Seq<char>> {
    match c {
        QueryCommand::Definition => Some("textDocument/definition"@),
        QueryCommand::References => Some("textDocument/references"@),
        QueryCommand::Hover => Some("textDocument/hover"@),
        QueryCommand::DocumentSymbols => Some("textDocument/documentSymbol"@),
        QueryCommand::WorkspaceSymbols => Some("workspace/symbol"@),
        QueryCommand::DocumentDiagnostics => Some("textDocument/diagnostic"@),
        QueryCommand::WorkspaceDiagnostics => Some("workspace/diagnostic"@),
        QueryCommand::PublishedDiagnostics => None,
        QueryCommand::PrepareRename => Some("textDocument/prepareRename"@),
        QueryCommand::Rename => Some("textDocument/rename"@),
        QueryCommand::Format => Some("textDocument/formatting"@),
        QueryCommand::CodeActions => Some("textDocument/codeAction"@),
        QueryCommand::ResolveCodeAction => Some("codeAction/resolve"@),
        QueryCommand::ExecuteCommand => Some("workspace/executeCommand"@),
        QueryCommand::Raw => None,
        QueryCommand::Capabilities => None,
    }
}

/// What a server has to provide for a Query.
pub open spec fn command_provider(c: QueryCommand) -> Option<(Seq<char>, Seq<char>)> {
    match c {
        QueryCommand::Definition => Some(("definition"@, "definitionProvider"@)),
        QueryCommand::References => Some(("references"@, "referencesProvider"@)),
        QueryCommand::Hover => Some(("hover"@, "hoverProvider"@)),
        QueryCommand::DocumentSymbols => Some(("documentSymbols"@, "documentSymbolProvider"@)),
        QueryCommand::WorkspaceSymbols => Some(("workspaceSymbols"@, "workspaceSymbolProvider"@)),
        QueryCommand::DocumentDiagnostics => Some(("diagnostics"@, "diagnosticProvider"@)),
        QueryCommand::WorkspaceDiagnostics => Some(("diagnostics"@, "diagnosticProvider"@)),
        QueryCommand::PublishedDiagnostics => None,
        QueryCommand::PrepareRename => Some(("rename"@, "renameProvider"@)),
        QueryCommand::Rename => Some(("rename"@, "renameProvider"@)),
        QueryCommand::Format => Some(("formatting"@, "documentFormattingProvider"@)),
        QueryCommand::CodeActions => Some(("codeActions"@, "codeActionProvider"@)),
        QueryCommand::ResolveCodeAction => Some(("codeActions"@, "codeActionProvider"@)),
        QueryCommand::ExecuteCommand => Some(("executeCommand"@, "executeCommandProvider"@)),
        QueryCommand::Raw => None,
        QueryCommand::Capabilities => None,
    }
}

/// Whether a Query may be answered in parts.
pub open spec fn partial_results(c: QueryCommand) -> bool {
    c == QueryCommand::References || c == QueryCommand::WorkspaceSymbols || c == QueryCommand::DocumentDiagnostics || c
        == QueryCommand::WorkspaceDiagnostics || c == QueryCommand::CodeActions
}

/// Whether a Query is reported in pages.
pub open spec fn in_pages(c: QueryCommand) -> bool {
    partial_results(c) || c == QueryCommand::PublishedDiagnostics
}

/// Whether a Query is about a position that the caller gives.
pub open spec fn positioned(c: QueryCommand) -> bool {
    c == QueryCommand::Definition || c == QueryCommand::References || c == QueryCommand::Hover || c
        == QueryCommand::PrepareRename || c == QueryCommand::Rename || c == QueryCommand::CodeActions
}

impl QueryCommand {
    /// The name of a Query on the command line.
    pub fn name(self) -> (r: &'static str)
        ensures
            r@ == command_name(self),
    {
        match self {
            Self::Definition => "definition",
            Self::References => "references",
            Self::Hover => "hover",
            Self::DocumentSymbols => "document-symbols",
            Self::WorkspaceSymbols => "workspace-symbols",
            Self::DocumentDiagnostics => "document-diagnostics",
            Self::WorkspaceDiagnostics => "workspace-diagnostics",
            Self::PublishedDiagnostics => "published-diagnostics",
            Self::PrepareRename => "prepare-rename",
            Self::Rename => "rename",
            Self::Format => "format",
            Self::CodeActions => "code-actions",
            Self::ResolveCodeAction => "resolve-code-action",
            Self::ExecuteCommand => "execute-command",
            Self::Raw => "raw",
            Self::Capabilities => "capabilities",
        }
    }

    /// The Query of a command line.
    pub fn from_path(path: &Vec<String>) -> (r: Option<Self>)
        ensures
            r == command_of(views(path@)),
    {
        if path.len() != 1 {
            return None;
        }
        assert(views(path@)[0] == path@[0]@);
        let name: &str = path[0].as_str();
        if same(name, "definition") {
            Some(Self::Definition)
        } else if same(name, "references") {
            Some(Self::References)
        } else if same(name, "hover") {
            Some(Self::Hover)
        } else if same(name, "document-symbols") {
            Some(Self::DocumentSymbols)
        } else if same(name, "workspace-symbols") {
            Some(Self::WorkspaceSymbols)
        } else if same(name, "document-diagnostics") {
            Some(Self::DocumentDiagnostics)
        } else if same(name, "workspace-diagnostics") {
            Some(Self::WorkspaceDiagnostics)
        } else if same(name, "published-diagnostics") {
            Some(Self::PublishedDiagnostics)
        } else if same(name, "prepare-rename") {
            Some(Self::PrepareRename)
        } else if same(name, "rename") {
            Some(Self::Rename)
        } else if same(name, "format") {
            Some(Self::Format)
        } else if same(name, "code-actions") {
            Some(Self::CodeActions)
        } else if same(name, "resolve-code-action") {
            Some(Self::ResolveCodeAction)
        } else if same(name, "execute-command") {
            Some(Self::ExecuteCommand)
        } else if same(name, "raw") {
            Some(Self::Raw)
        } else if same(name, "capabilities") {
            Some(Self::Capabilities)
        } else {
            None
        }
    }

    /// The method of the protocol that a Query calls.
    pub fn method(self) -> (r: Option<&'static str>)
        ensures
            opt_ref_view(r) == command_method(self),
    {
        match self {
            Self::Definition => Some("textDocument/definition"),
            Self::References => Some("textDocument/references"),
            Self::Hover => Some("textDocument/hover"),
            Self::DocumentSymbols => Some("textDocument/documentSymbol"),
            Self::WorkspaceSymbols => Some("workspace/symbol"),
            Self::DocumentDiagnostics => Some("textDocument/diagnostic"),
            Self::WorkspaceDiagnostics => Some("workspace/diagnostic"),
            Self::PublishedDiagnostics => None,
            Self::PrepareRename => Some("textDocument/prepareRename"),
            Self::Rename => Some("textDocument/rename"),
            Self::Format => Some("textDocument/formatting"),
            Self::CodeActions => Some("textDocument/codeAction"),
            Self::ResolveCodeAction => Some("codeAction/resolve"),
            Self::ExecuteCommand => Some("workspace/executeCommand"),
            Self::Raw => None,
            Self::Capabilities => None,
        }
    }

    /// What a server has to provide for a Query.
    pub fn provider(self) -> (r: Option<ProviderRequirement>)
        ensures
            match r {
                Some(p) => command_provider(self) == Some((p.key@, p.capability@)),
                None => command_provider(self) is None,
            },
    {
        match self {
            Self::Definition => Some(ProviderRequirement::new("definition", "definitionProvider")),
            Self::References => Some(ProviderRequirement::new("references", "referencesProvider")),
            Self::Hover => Some(ProviderRequirement::new("hover", "hoverProvider")),
            Self::DocumentSymbols => Some(ProviderRequirement::new("documentSymbols", "documentSymbolProvider")),
            Self::WorkspaceSymbols => Some(ProviderRequirement::new("workspaceSymbols", "workspaceSymbolProvider")),
            Self::DocumentDiagnostics => Some(ProviderRequirement::new("diagnostics", "diagnosticProvider")),
            Self::WorkspaceDiagnostics => Some(ProviderRequirement::new("diagnostics", "diagnosticProvider")),
            Self::PublishedDiagnostics => None,
            Self::PrepareRename => Some(ProviderRequirement::new("rename", "renameProvider")),
            Self::Rename => Some(ProviderRequirement::new("rename", "renameProvider")),
            Self::Format => Some(ProviderRequirement::new("formatting", "documentFormattingProvider")),
            Self::CodeActions => Some(ProviderRequirement::new("codeActions", "codeActionProvider")),
            Self::ResolveCodeAction => Some(ProviderRequirement::new("codeActions", "codeActionProvider")),
            Self::ExecuteCommand => Some(ProviderRequirement::new("executeCommand", "executeCommandProvider")),
            Self::Raw => None,
            Self::Capabilities => None,
        }
    }

    /// Whether a Query may be answered in parts.
    pub fn supports_partial_results(self) -> (r: bool)
        ensures
            r == partial_results(self),
    {
        matches!(
            self,
            Self::References | Self::WorkspaceSymbols | Self::DocumentDiagnostics | Self::WorkspaceDiagnostics
                | Self::CodeActions
        )
    }

    /// Whether a Query is reported in pages.
    pub fn paged(self) -> (r: bool)
        ensures
            r == in_pages(self),
    {
        matches!(
            self,
            Self::References | Self::WorkspaceSymbols | Self::DocumentDiagnostics | Self::WorkspaceDiagnostics
                | Self::PublishedDiagnostics | Self::CodeActions
        )
    }
}

/// Whether a Query is about a position that the caller gives.
pub fn has_source_position(command: QueryCommand) -> (r: bool)
    ensures
        r == positioned(command),
{
    matches!(
        command,
        QueryCommand::Definition | QueryCommand::References | QueryCommand::Hover | QueryCommand::PrepareRename
            | QueryCommand::Rename | QueryCommand::CodeActions
    )
}

/// Each Query is found under its name.
pub proof fn law_name_finds_the_query(c: QueryCommand)
    ensures
        command_of(seq![command_name(c)]) == Some(c),
{
    reveal_strlit("definition");
    assert("definition"@.len() == 10);
    reveal_strlit("references");
    assert("references"@.len() == 10);
    reveal_strlit("hover");
    assert("hover"@.len() == 5);
    reveal_strlit("document-symbols");
    assert("document-symbols"@.len() == 16);
    reveal_strlit("workspace-symbols");
    assert("workspace-symbols"@.len() == 17);
    reveal_strlit("document-diagnostics");
    assert("document-diagnostics"@.len() == 20);
    reveal_strlit("workspace-diagnostics");
    assert("workspace-diagnostics"@.len() == 21);
    reveal_strlit("published-diagnostics");
    assert("published-diagnostics"@.len() == 21);
    reveal_strlit("prepare-rename");
    assert("prepare-rename"@.len() == 14);
    reveal_strlit("rename");
    assert("rename"@.len() == 6);
    reveal_strlit("format");
    assert("format"@.len() == 6);
    reveal_strlit("code-actions");
    assert("code-actions"@.len() == 12);
    reveal_strlit("resolve-code-action");
    assert("resolve-code-action"@.len() == 19);
    reveal_strlit("execute-command");
    assert("execute-command"@.len() == 15);
    reveal_strlit("raw");
    assert("raw"@.len() == 3);
    reveal_strlit("capabilities");
    assert("capabilities"@.len() == 12);
    assert("definition"@[0] != "references"@[0]);
    assert("workspace-diagnostics"@[0] != "published-diagnostics"@[0]);
    assert("rename"@[0] != "format"@[0]);
    assert("code-actions"@[1] != "capabilities"@[1]);
}

/// A Query that calls a method of its own needs a provider, and only such a
/// Query does.
pub proof fn law_methods_need_providers(c: QueryCommand)
    ensures
        command_method(c) is Some <==> command_provider(c) is Some,
        partial_results(c) ==> in_pages(c) && command_method(c) is Some,
{
}

} // verus!
