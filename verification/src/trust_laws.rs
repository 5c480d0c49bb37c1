//! What trust in a project rests on.

use vstd::prelude::*;

use crate::configuration::{ConfigSource, ServerView, SourcedView};
use crate::json::JsonView;
use crate::reports::texts_json;
use crate::sorted::{lemma_listing_exists, listing, lists_keys};
use crate::trust::{
    DeclarationView,
    TrustView,
    aggregate_of,
    by_project,
    declaration_json,
    field_value,
    field_values,
    project_variables,
    recorded_trust,
};
use crate::trust_commands::{authorization, granted_servers, standing};

verus! {

/// What is said of a record agrees with what may be launched: a declaration
/// that counts as trusted may be launched and no other may, and one that counts
/// as denied is refused as denied.
pub proof fn law_status_agrees_with_launching(
    records: Seq<TrustView>,
    d: DeclarationView,
    workspace_uri: Seq<char>,
    workspace: Seq<char>,
    server: Seq<char>,
    r: TrustView,
)
    requires
        recorded_trust(records, workspace_uri, server) == Some(r),
    ensures
        ({
            let refusal = authorization(records, Some(d), workspace_uri, workspace, server);
            &&& standing(r, Some(d)) == "trusted"@ <==> refusal is None
            &&& standing(r, Some(d)) == "denied"@ <==> (refusal matches Some(f) && f.code == "project_trust_denied"@)
            &&& standing(r, Some(d)) == "changed"@ <==> (refusal matches Some(f) && f.code == "project_trust_changed"@)
            &&& standing(r, None) != "trusted"@
        }),
{
    reveal_strlit("trusted");
    reveal_strlit("denied");
    reveal_strlit("changed");
    reveal_strlit("project_trust_denied");
    reveal_strlit("project_trust_changed");
    assert("trusted"@.len() == 7 && "denied"@.len() == 6 && "changed"@.len() == 7);
    assert("trusted"@[0] == 't' && "changed"@[0] == 'c');
    assert("project_trust_denied"@.len() == 20 && "project_trust_changed"@.len() == 21);
}

/// A grant is given only for what is declared now: with a name, for the server
/// whose declaration has the digest; without one, for all servers whose
/// declarations together have it.
pub proof fn law_grants_name_what_is_declared(
    declarations: Map<Seq<char>, DeclarationView>,
    server: Option<Seq<char>>,
    expected: Seq<char>,
    workspace_uri: Seq<char>,
    other: Seq<char>,
)
    requires
        declarations.dom().finite(),
        server matches Some(name) ==> declarations.dom().contains(name),
    ensures
        ({
            let granted = granted_servers(declarations, server, expected, workspace_uri);
            &&& server matches Some(name) ==> (granted is Ok <==> expected == declarations[name].digest)
            &&& server is None ==> (granted is Ok <==> expected == aggregate_of(declarations))
            &&& granted matches Ok(names) ==> (names.contains(other) <==> declarations.dom().contains(other) && (
            server matches Some(name) ==> name == other))
        }),
{
    lemma_listing_exists::<String>(declarations.dom());
    assert(lists_keys::<String>(listing::<String>(declarations.dom()), declarations.dom()));
    if let Some(name) = server {
        assert(seq![name].contains(other) <==> other == name) by {
            assert(seq![name][0] == name);
        }
    }
}

proof fn lemma_field_listed(s: ServerView, executable: Seq<char>, cwd: Seq<char>, field: Seq<char>)
    requires
        s.project_fields.finite(),
    ensures
        s.project_fields.contains(field) ==> exists|i: int|
            0 <= i < field_values(s, executable, cwd).len() && #[trigger] field_values(s, executable, cwd)[i] == (
                field,
                field_value(s, field, executable, cwd),
            ),
        forall|i: int|
            0 <= i < field_values(s, executable, cwd).len() ==> s.project_fields.contains(
                (#[trigger] field_values(s, executable, cwd)[i]).0,
            ) && field_values(s, executable, cwd)[i].1 == field_value(
                s,
                field_values(s, executable, cwd)[i].0,
                executable,
                cwd,
            ),
{
    let names = listing::<String>(s.project_fields);
    lemma_listing_exists::<String>(s.project_fields);
    assert(lists_keys::<String>(names, s.project_fields));
    if s.project_fields.contains(field) {
        let i = choose|i: int| 0 <= i < names.len() && names[i] == field;
        assert(names.contains(field));
        assert(field_values(s, executable, cwd)[i] == (field, field_value(s, field, executable, cwd)));
    }
    assert forall|i: int| 0 <= i < field_values(s, executable, cwd).len() implies s.project_fields.contains(
        (#[trigger] field_values(s, executable, cwd)[i]).0,
    ) && field_values(s, executable, cwd)[i].1 == field_value(
        s,
        field_values(s, executable, cwd)[i].0,
        executable,
        cwd,
    ) by {
        assert(names.contains(names[i]));
    }
}

/// Declarations that count as the same are of the same server with the same
/// executable, and agree in every field that the project declares.
pub proof fn law_declarations_tell_servers_apart(
    s: ServerView,
    t: ServerView,
    name_a: Seq<char>,
    name_b: Seq<char>,
    executable_a: Seq<char>,
    executable_b: Seq<char>,
    cwd_a: Seq<char>,
    cwd_b: Seq<char>,
)
    requires
        s.project_fields.finite(),
        t.project_fields.finite(),
        declaration_json(s, name_a, executable_a, cwd_a) == declaration_json(t, name_b, executable_b, cwd_b),
    ensures
        name_a == name_b,
        executable_a == executable_b,
        s.project_fields == t.project_fields,
        s.project_fields.contains("args"@) ==> s.args.value == t.args.value,
        s.project_fields.contains("cwd"@) ==> cwd_a == cwd_b,
        s.project_fields.contains("settings"@) ==> s.settings.value == t.settings.value,
        s.project_fields.contains("initialization_options"@) && s.initialization_options is Some
            && t.initialization_options is Some ==> s.initialization_options->0.value
            == t.initialization_options->0.value,
        s.project_fields.contains("environment"@) ==> project_variables(s.environment) == project_variables(
            t.environment,
        ),
{
    let x = declaration_json(s, name_a, executable_a, cwd_a)->Object_0;
    let y = declaration_json(t, name_b, executable_b, cwd_b)->Object_0;
    assert(x[0] == y[0] && x[1] == y[1] && x[2] == y[2]);
    let a = field_values(s, executable_a, cwd_a);
    let b = field_values(t, executable_b, cwd_b);
    assert(a == b);
    assert forall|f: Seq<char>| #[trigger] s.project_fields.contains(f) implies t.project_fields.contains(f)
        && field_value(s, f, executable_a, cwd_a) == field_value(t, f, executable_b, cwd_b) by {
        lemma_field_listed(s, executable_a, cwd_a, f);
        lemma_field_listed(t, executable_b, cwd_b, f);
        let i = choose|i: int|
            0 <= i < a.len() && #[trigger] a[i] == (f, field_value(s, f, executable_a, cwd_a));
        assert(b[i].0 == f);
    }
    assert forall|f: Seq<char>| #[trigger] t.project_fields.contains(f) implies s.project_fields.contains(f) by {
        lemma_field_listed(s, executable_a, cwd_a, f);
        lemma_field_listed(t, executable_b, cwd_b, f);
        let i = choose|i: int|
            0 <= i < b.len() && #[trigger] b[i] == (f, field_value(t, f, executable_b, cwd_b));
        assert(a[i].0 == f);
    }
    assert(s.project_fields =~= t.project_fields);
    reveal_strlit("executable");
    reveal_strlit("args");
    reveal_strlit("cwd");
    reveal_strlit("environment");
    reveal_strlit("initialization_options");
    reveal_strlit("settings");
    assert("executable"@.len() == 10 && "args"@.len() == 4 && "cwd"@.len() == 3 && "environment"@.len() == 11
        && "initialization_options"@.len() == 22 && "settings"@.len() == 8);
    if s.project_fields.contains("args"@) {
        assert(texts_json(s.args.value) == texts_json(t.args.value));
        let left = texts_json(s.args.value)->Array_0;
        let right = texts_json(t.args.value)->Array_0;
        assert(s.args.value.len() == left.len() && t.args.value.len() == right.len());
        assert forall|i: int| 0 <= i < left.len() implies #[trigger] s.args.value[i] == t.args.value[i] by {
            assert(left[i] == right[i]);
        }
        assert(s.args.value =~= t.args.value);
    }
    if s.project_fields.contains("cwd"@) {
        assert(field_value(s, "cwd"@, executable_a, cwd_a) == JsonView::Text(cwd_a));
    }
}

/// A variable that the project declares is part of what is trusted, with its
/// value; one that the user or the command line declares is not.
pub proof fn law_project_variables_are_trusted(
    environment: Map<Seq<char>, SourcedView<Seq<char>>>,
    variable: Seq<char>,
)
    requires
        environment.dom().finite(),
    ensures
        (project_variables(environment) matches JsonView::Object(o) && (environment.dom().contains(variable)
            && environment[variable].source == ConfigSource::Project ==> o.contains(
            (variable, JsonView::Text(environment[variable].value)),
        )) && (environment.dom().contains(variable) && environment[variable].source != ConfigSource::Project
            ==> forall|i: int| 0 <= i < o.len() ==> (#[trigger] o[i]).0 != variable)),
{
    broadcast use vstd::seq_lib::group_filter_ensures;

    let all = listing::<String>(environment.dom());
    lemma_listing_exists::<String>(environment.dom());
    assert(lists_keys::<String>(all, environment.dom()));
    let names = all.filter(by_project(environment));
    let o = project_variables(environment)->Object_0;
    if environment.dom().contains(variable) {
        assert(all.contains(variable));
        if environment[variable].source == ConfigSource::Project {
            assert(by_project(environment)(variable));
            assert(names.contains(variable));
            let i = choose|i: int| 0 <= i < names.len() && names[i] == variable;
            assert(o[i] == (variable, JsonView::Text(environment[variable].value)));
        } else {
            assert forall|i: int| 0 <= i < o.len() implies (#[trigger] o[i]).0 != variable by {
                assert(names.contains(names[i]));
                assert(by_project(environment)(names[i]));
            }
        }
    }
}

} // verus!
