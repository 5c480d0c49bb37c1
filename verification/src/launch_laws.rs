//! What a server is launched with, and what is reported of what it can do.

use vstd::prelude::*;

use crate::capabilities::{
    CapabilitiesView,
    ProviderState,
    ProviderView,
    capabilities_json,
    compact,
    provider_json,
    providers_json,
};
use crate::capability_laws::law_fields_that_say_something_are_kept;
use crate::config_load::{InheritedView, handed_on, is_transient, loaded};
use crate::config_select::search_path;
use crate::configuration::{ProjectConfigFile, SourcedView, UserConfigFile};
use crate::json::{JsonView, field, lemma_field_at, lemma_field_concat, lemma_field_missing};
use crate::manifest::PathView;
use crate::sorted::{lemma_listing_exists, listing, lists_keys};
use crate::text::folded;

verus! {

proof fn lemma_names()
    ensures
        "capabilityPath"@.len() == 14,
        "clientProfileVersion"@.len() == 20,
        "command"@.len() == 7,
        "context"@.len() == 7,
        "initializeResult"@.len() == 16,
        "ok"@.len() == 2,
        "options"@.len() == 7,
        "problems"@.len() == 8,
        "protocolBaseline"@.len() == 16,
        "providers"@.len() == 9,
        "result"@.len() == 6,
        "state"@.len() == 5,
        "command"@ != "context"@,
        "command"@ != "options"@,
        "context"@ != "options"@,
        "initializeResult"@ != "protocolBaseline"@,
{
    reveal_strlit("capabilityPath");
    reveal_strlit("clientProfileVersion");
    reveal_strlit("command");
    reveal_strlit("context");
    reveal_strlit("initializeResult");
    reveal_strlit("ok");
    reveal_strlit("options");
    reveal_strlit("problems");
    reveal_strlit("protocolBaseline");
    reveal_strlit("providers");
    reveal_strlit("result");
    reveal_strlit("state");
    assert("command"@[2] == 'm' && "context"@[2] == 'n');
    assert("command"@[0] == 'c' && "options"@[0] == 'o');
    assert("context"@[0] == 'c' && "options"@[0] == 'o');
    assert("initializeResult"@[0] == 'i' && "protocolBaseline"@[0] == 'p');
}

/// A configuration file of another version than the first is refused.
pub proof fn law_other_versions_are_refused(
    user: Option<&UserConfigFile>,
    project: Option<&ProjectConfigFile>,
    user_path: PathView,
    workspace: PathView,
    workspace_uri: Seq<char>,
    accepted: Seq<Seq<char>>,
)
    ensures
        user is Some && user->0.version != 1 ==> loaded(user, project, user_path, workspace, workspace_uri, accepted)
            is Err,
        project is Some && project->0.version != 1 ==> loaded(
            user,
            project,
            user_path,
            workspace,
            workspace_uri,
            accepted,
        ) is Err,
        loaded(user, project, user_path, workspace, workspace_uri, accepted) matches Ok(c) ==> c.workspace == workspace
            && c.workspace_uri == workspace_uri && c.project_path == workspace.push(".lspctl.toml"@),
{
}

/// A variable of the environment is handed on to a server as it is, the last
/// of a name counting, unless it belongs to the shell alone.
pub proof fn law_variables_are_handed_on(inherited: Seq<InheritedView>, v: InheritedView, other: Seq<u8>)
    ensures
        is_transient(v.readable) ==> handed_on(inherited.push(v)) == handed_on(inherited),
        !is_transient(v.readable) ==> handed_on(inherited.push(v)).dom().contains(v.key) && handed_on(
            inherited.push(v),
        )[v.key] == v.value,
        !is_transient(v.readable) && other != v.key ==> handed_on(inherited.push(v)).dom().contains(other)
            == handed_on(inherited).dom().contains(other) && handed_on(inherited.push(v))[other] == handed_on(
            inherited,
        )[other],
        handed_on(seq![]).dom() == Set::<Seq<u8>>::empty(),
{
    assert(inherited.push(v).drop_last() =~= inherited);
    assert(handed_on(seq![]).dom() =~= Set::<Seq<u8>>::empty());
}

/// What belongs to the shell alone is where it stands, how deep it is, and how
/// it prompts, whatever the case of the letters; a longer name that begins with
/// no reserved letters is handed on.
pub proof fn law_shell_variables_stay(key: Seq<char>)
    ensures
        folded(key) == folded("PWD"@) ==> is_transient(key),
        folded(key) == folded("OLDPWD"@) ==> is_transient(key),
        folded(key) == folded("SHLVL"@) ==> is_transient(key),
        folded(key) == folded("PS1"@) || folded(key) == folded("PS2"@) || folded(key) == folded("PS4"@)
            ==> is_transient(key),
        folded(key) == folded("_"@) ==> is_transient(key),
        key.len() > 6 && folded(key.take(3)) != folded("PI_"@) && !"__MISE_"@.is_prefix_of(key) ==> !is_transient(key),
{
    reveal_strlit("PWD");
    reveal_strlit("OLDPWD");
    reveal_strlit("SHLVL");
    reveal_strlit("PS1");
    reveal_strlit("PS2");
    reveal_strlit("PS4");
    reveal_strlit("_");
    assert(folded(key).len() == key.len());
    assert(folded("PWD"@).len() == 3 && folded("OLDPWD"@).len() == 6 && folded("SHLVL"@).len() == 5);
    assert(folded("PS1"@).len() == 3 && folded("PS2"@).len() == 3 && folded("PS4"@).len() == 3);
    assert(folded("_"@).len() == 1);
}

/// Programs are looked for where the variable for that says; where letters of
/// names have no case, it is found in any.
pub proof fn law_programs_are_looked_for(environment: Map<Seq<char>, SourcedView<Seq<char>>>)
    ensures
        environment.dom().contains("PATH"@) ==> search_path(environment, false) == Some(
            environment["PATH"@].value,
        ),
        !environment.dom().contains("PATH"@) ==> search_path(environment, false) is None,
{
}

proof fn lemma_kept(o: Seq<(Seq<char>, JsonView)>, f: (Seq<char>, JsonView), key: Seq<char>)
    ensures
        field(compact(o.push(f)), key) == (if field(compact(o), key) is Some {
            field(compact(o), key)
        } else if key == f.0 && !(f.1 is Null) && f.1 != JsonView::Array(seq![]) {
            Some(f.1)
        } else {
            None
        }),
{
    law_fields_that_say_something_are_kept(o, f);
    let one = seq![f];
    lemma_field_concat(compact(o), one, key);
    assert(compact(o).push(f) =~= compact(o) + one);
    if key == f.0 {
        lemma_field_at(one, 0, key);
    } else {
        lemma_field_missing(one, key);
    }
    lemma_field_missing(seq![], key);
}

/// What a server can do is reported with its state and where it says so; its
/// options and problems are reported where there are any.
pub proof fn law_providers_are_reported(p: ProviderView)
    ensures
        provider_json(p).get("capabilityPath"@) == Some(JsonView::Text(p.capability_path)),
        p.state == ProviderState::Supported ==> provider_json(p).get("state"@) == Some(JsonView::Text("supported"@)),
        p.state == ProviderState::Unsupported ==> provider_json(p).get("state"@) == Some(
            JsonView::Text("unsupported"@),
        ),
        p.state == ProviderState::Invalid ==> provider_json(p).get("state"@) == Some(JsonView::Text("invalid"@)),
        p.options matches Some(options) ==> !(options is Null) && options != JsonView::Array(seq![]) ==> provider_json(
            p,
        ).get("options"@) == Some(options),
        p.options is None ==> provider_json(p).get("options"@) is None,
        p.problems.len() > 0 ==> provider_json(p).get("problems"@) == Some(JsonView::Array(p.problems)),
        p.problems.len() == 0 ==> provider_json(p).get("problems"@) is None,
{
    lemma_names();
    let s = match p.state {
        ProviderState::Supported => "supported"@,
        ProviderState::Unsupported => "unsupported"@,
        ProviderState::Invalid => "invalid"@,
    };
    let options = match p.options {
        Some(v) => v,
        None => JsonView::Null,
    };
    let f0 = ("capabilityPath"@, JsonView::Text(p.capability_path));
    let f1 = ("options"@, options);
    let f2 = ("problems"@, JsonView::Array(p.problems));
    let f3 = ("state"@, JsonView::Text(s));
    let o0 = Seq::<(Seq<char>, JsonView)>::empty();
    let o1 = o0.push(f0);
    let o2 = o1.push(f1);
    let o3 = o2.push(f2);
    let o4 = o3.push(f3);
    law_fields_that_say_something_are_kept(o0, f0);
    assert(o4 =~= seq![f0, f1, f2, f3]);
    assert(provider_json(p) == JsonView::Object(compact(o4)));
    assert(p.problems.len() == 0 <==> p.problems =~= seq![]);
    lemma_provider_fields(o0, f0, f1, f2, f3, "capabilityPath"@);
    lemma_provider_fields(o0, f0, f1, f2, f3, "options"@);
    lemma_provider_fields(o0, f0, f1, f2, f3, "problems"@);
    lemma_provider_fields(o0, f0, f1, f2, f3, "state"@);
}

proof fn lemma_provider_fields(
    o: Seq<(Seq<char>, JsonView)>,
    f0: (Seq<char>, JsonView),
    f1: (Seq<char>, JsonView),
    f2: (Seq<char>, JsonView),
    f3: (Seq<char>, JsonView),
    key: Seq<char>,
)
    requires
        o.len() == 0,
        f0.0 != f1.0,
        f0.0 != f2.0,
        f0.0 != f3.0,
        f1.0 != f2.0,
        f1.0 != f3.0,
        f2.0 != f3.0,
        key == f0.0 || key == f1.0 || key == f2.0 || key == f3.0,
    ensures
        ({
            let v = if key == f0.0 {
                f0.1
            } else if key == f1.0 {
                f1.1
            } else if key == f2.0 {
                f2.1
            } else {
                f3.1
            };
            field(compact(o.push(f0).push(f1).push(f2).push(f3)), key) == (if v is Null || v == JsonView::Array(
                seq![],
            ) {
                None
            } else {
                Some(v)
            })
        }),
{
    assert(o =~= seq![]);
    law_fields_that_say_something_are_kept(o, f0);
    assert(compact(o) =~= seq![]);
    lemma_field_missing(compact(o), key);
    lemma_kept(o, f0, key);
    lemma_kept(o.push(f0), f1, key);
    lemma_kept(o.push(f0).push(f1), f2, key);
    lemma_kept(o.push(f0).push(f1).push(f2), f3, key);
}

/// Every provider is reported under its own name.
pub proof fn law_every_provider_is_reported(providers: Map<Seq<char>, ProviderView>, name: Seq<char>)
    requires
        providers.dom().finite(),
    ensures
        providers_json(providers) matches JsonView::Object(o) && (providers.dom().contains(name) ==> exists|i: int|
            0 <= i < o.len() && #[trigger] o[i] == (name, provider_json(providers[name]))) && forall|i: int|
            0 <= i < o.len() ==> providers.dom().contains((#[trigger] o[i]).0) && o[i].1 == provider_json(
                providers[o[i].0],
            ),
{
    let names = listing::<String>(providers.dom());
    lemma_listing_exists::<String>(providers.dom());
    assert(lists_keys::<String>(names, providers.dom()));
    let o = providers_json(providers)->Object_0;
    if providers.dom().contains(name) {
        assert(names.contains(name));
        let i = choose|i: int| 0 <= i < names.len() && names[i] == name;
        assert(o[i] == (name, provider_json(providers[name])));
    }
    assert forall|i: int| 0 <= i < o.len() implies providers.dom().contains((#[trigger] o[i]).0) && o[i].1
        == provider_json(providers[o[i].0]) by {
        assert(names.contains(names[i]));
    }
}

/// The report of what a server can do holds its providers, and what it said on
/// its initialization only where that is asked for.
pub proof fn law_capabilities_are_reported(context: JsonView, c: CapabilitiesView, include_raw: bool)
    ensures
        capabilities_json(context, c, include_raw).get("context"@) == Some(context),
        capabilities_json(context, c, include_raw).get("ok"@) == Some(JsonView::Bool(true)),
        capabilities_json(context, c, include_raw).get("result"@) matches Some(result) && {
            &&& result.get("providers"@) == Some(providers_json(c.providers))
            &&& include_raw ==> result.get("initializeResult"@) == c.initialize_result
            &&& !include_raw ==> result.get("initializeResult"@) is None
        },
{
    lemma_names();
    let o = capabilities_json(context, c, include_raw)->Object_0;
    lemma_field_at(o, 1, "context"@);
    lemma_field_at(o, 2, "ok"@);
    lemma_field_at(o, 3, "result"@);
    let r = o[3].1->Object_0;
    if include_raw && c.initialize_result is Some {
        lemma_field_at(r, 1, "initializeResult"@);
        lemma_field_at(r, 3, "providers"@);
    } else {
        lemma_field_missing(r, "initializeResult"@);
        lemma_field_at(r, 2, "providers"@);
    }
}

} // verus!
