//! Which Queries a server supports, by what it reports.

use vstd::prelude::*;

use crate::capabilities::{
    ProviderView,
    compact,
    provider_of,
    providers_of,
    reported_capabilities,
    vacant,
};
use crate::documents::{DocumentView, selector_admits};
use crate::json::{JsonView, field, lemma_field_at, lemma_field_concat, lemma_field_missing};
use crate::query_command::QueryCommand;
use crate::result_laws::named_once;

verus! {

proof fn lemma_reported_provider(o: Seq<(Seq<char>, JsonView)>, name: Seq<char>)
    requires
        named_once(o),
    ensures
        providers_of(o).dom().contains(name) <==> field(o, name) is Some,
        field(o, name) matches Some(v) ==> providers_of(o)[name] == provider_of(name, v),
    decreases o.len(),
{
    if o.len() > 0 {
        let rest = o.drop_last();
        assert forall|i: int, j: int| 0 <= i < j < rest.len() implies (#[trigger] rest[i]).0 != (#[trigger] rest[j]).0 by {
            assert(o[i].0 != o[j].0);
        }
        lemma_reported_provider(rest, name);
        assert(o =~= rest + seq![o.last()]);
        lemma_field_concat(rest, seq![o.last()], name);
        if name == o.last().0 {
            assert forall|j: int| 0 <= j < rest.len() implies (#[trigger] rest[j]).0 != name by {
                assert(o[j].0 != o[o.len() - 1].0);
            }
            lemma_field_missing(rest, name);
            lemma_field_at(seq![o.last()], 0, name);
        } else {
            lemma_field_missing(seq![o.last()], name);
        }
    }
}

/// Whether what a server reports of a capability says that the server has it.
pub open spec fn has_it(reported: JsonView) -> bool {
    reported.get("state"@) == Some(JsonView::Text("supported"@))
}

/// A field of the options that a server reports of a capability.
pub open spec fn option_in(reported: JsonView, name: Seq<char>) -> Option<JsonView> {
    match reported.get("options"@) {
        Some(options) => options.get(name),
        None => None,
    }
}

/// The name under which a server reports the capability that a Query needs.
pub open spec fn reported_name(c: QueryCommand) -> Option<Seq<char>> {
    match c {
        QueryCommand::Definition => Some("definition"@),
        QueryCommand::References => Some("references"@),
        QueryCommand::Hover => Some("hover"@),
        QueryCommand::DocumentSymbols => Some("documentSymbols"@),
        QueryCommand::WorkspaceSymbols => Some("workspaceSymbols"@),
        QueryCommand::DocumentDiagnostics | QueryCommand::WorkspaceDiagnostics => Some("diagnostics"@),
        QueryCommand::PrepareRename | QueryCommand::Rename => Some("rename"@),
        QueryCommand::Format => Some("formatting"@),
        QueryCommand::CodeActions | QueryCommand::ResolveCodeAction => Some("codeActions"@),
        QueryCommand::ExecuteCommand => Some("executeCommand"@),
        QueryCommand::PublishedDiagnostics | QueryCommand::Raw | QueryCommand::Capabilities => None,
    }
}

/// A server supports a Query exactly where it reports that it has the
/// capability that the Query needs, with the option that the Query needs and the
/// command that is to be executed, and where the documents that it has the
/// capability for include the one that is asked about.
pub proof fn law_queries_are_supported_as_reported(
    value: JsonView,
    providers: Seq<(Seq<char>, JsonView)>,
    reported: JsonView,
    c: QueryCommand,
    document: Option<DocumentView>,
    command: Seq<char>,
)
    requires
        value.get("providers"@) == Some(JsonView::Object(providers)),
        named_once(providers),
        reported_name(c) matches Some(name) && field(providers, name) == Some(reported),
    ensures
        ({
            let selector = match reported.get("selector"@) {
                Some(selector) => Some(selector),
                None => option_in(reported, "documentSelector"@),
            };
            let admitted = document is None || selector is None || selector_admits(selector->0, document->0);
            let enabled = match c {
                QueryCommand::PrepareRename => option_in(reported, "prepareProvider"@) == Some(JsonView::Bool(true)),
                QueryCommand::ResolveCodeAction => option_in(reported, "resolveProvider"@) == Some(JsonView::Bool(true)),
                QueryCommand::WorkspaceDiagnostics => option_in(reported, "workspaceDiagnostics"@) == Some(
                    JsonView::Bool(true),
                ),
                QueryCommand::ExecuteCommand => option_in(reported, "commands"@) matches Some(JsonView::Array(offered))
                    && offered.contains(JsonView::Text(command)),
                _ => true,
            };
            reported_capabilities(value).problem(c, document, Some(command)) is None <==> has_it(reported) && enabled
                && admitted
        }),
{
    lemma_reported_provider(providers, reported_name(c)->0);
    reveal_strlit("supported");
    reveal_strlit("unsupported");
    assert("supported"@.len() == 9 && "unsupported"@.len() == 11);
}

/// What a server does not report it does not have.
pub proof fn law_unreported_queries_are_unsupported(
    value: JsonView,
    c: QueryCommand,
    document: Option<DocumentView>,
    command: Option<Seq<char>>,
)
    requires
        value.get("providers"@) is None,
        reported_name(c) is Some,
    ensures
        reported_capabilities(value).problem(c, document, command) matches Some(f) && f.code
            == "capability_unavailable"@,
{
    assert(providers_of(seq![]) =~= Map::<Seq<char>, ProviderView>::empty());
}

/// Fields that say something are kept, in their order, and no others.
pub proof fn law_fields_that_say_something_are_kept(o: Seq<(Seq<char>, JsonView)>, f: (Seq<char>, JsonView))
    ensures
        compact(o.push(f)) == (if f.1 is Null || f.1 == JsonView::Array(seq![]) {
            compact(o)
        } else {
            compact(o).push(f)
        }),
        compact(seq![]) == Seq::<(Seq<char>, JsonView)>::empty(),
{
    let p = |f: (Seq<char>, JsonView)| !vacant(f.1);
    assert(o.push(f).drop_last() =~= o);
    if let JsonView::Array(items) = f.1 {
        if items.len() == 0 {
            assert(items =~= seq![]);
        }
    }
    reveal(Seq::filter);
}

} // verus!
