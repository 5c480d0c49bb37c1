//! Trust in what projects declare of servers.

use vstd::prelude::*;

use crate::config_checks::{selection_failed, server_selection_failure};
use crate::config_servers::add_names;
use crate::configuration::{ConfigSource, EffectiveServer, ServerView, Sourced, SourcedView};
use crate::digest::{canonical_digest, digest_canonical_value};
use crate::failure::{ContractFailure, FailureView, result_view};
use crate::json::{Json, JsonView, object3, object_view, push_field, text_value};
use crate::order::{
    Order,
    lemma_text_irreflexive,
    lemma_text_total,
    lemma_text_transitive,
    text_order,
    text_precedes,
};
use crate::plan_tree::lemma_filter_take;
use crate::ranking::{Ranked, rank, ranked};
use crate::reports::texts_json;
use crate::sorted::{Replica, SortedMap, listing};
use crate::store::texts_value;
use crate::text::{copy_opt, opt_ref_view, opt_view, same, views};

verus! {

/// What a project declares of a server now.
pub struct CurrentDeclaration {
    pub server: String,
    pub digest: String,
    pub field_digests: SortedMap<String, String>,
    pub executable_path: String,
    pub source_path: String,
}

/// What a [`CurrentDeclaration`] stands for.
#[verifier::ext_equal]
pub ghost struct DeclarationView {
    pub server: Seq<char>,
    pub digest: Seq<char>,
    pub field_digests: Map<Seq<char>, Seq<char>>,
    pub executable_path: Seq<char>,
    pub source_path: Seq<char>,
}

impl View for CurrentDeclaration {
    type V = DeclarationView;

    open spec fn view(&self) -> DeclarationView {
        DeclarationView {
            server: self.server@,
            digest: self.digest@,
            field_digests: self.field_digests@,
            executable_path: self.executable_path@,
            source_path: self.source_path@,
        }
    }
}

/// Whether a declaration is trusted or denied.
#[derive(Clone, Copy, Debug, PartialEq, Eq, Structural)]
pub enum StoredTrustState {
    Trusted,
    Denied,
}

/// What is recorded of a declaration.
pub struct StoredTrustRecord {
    pub workspace_uri: String,
    pub server: String,
    pub state: StoredTrustState,
    pub declaration_digest: Option<String>,
    pub field_digests: SortedMap<String, String>,
    pub executable_path: Option<String>,
    pub source_path: Option<String>,
    pub updated_at: String,
}

/// What a [`StoredTrustRecord`] stands for.
#[verifier::ext_equal]
pub ghost struct TrustView {
    pub workspace_uri: Seq<char>,
    pub server: Seq<char>,
    pub state: StoredTrustState,
    pub declaration_digest: Option<Seq<char>>,
    pub field_digests: Map<Seq<char>, Seq<char>>,
    pub executable_path: Option<Seq<char>>,
    pub source_path: Option<Seq<char>>,
    pub updated_at: Seq<char>,
}

impl View for StoredTrustRecord {
    type V = TrustView;

    open spec fn view(&self) -> TrustView {
        TrustView {
            workspace_uri: self.workspace_uri@,
            server: self.server@,
            state: self.state,
            declaration_digest: opt_view(self.declaration_digest),
            field_digests: self.field_digests@,
            executable_path: opt_view(self.executable_path),
            source_path: opt_view(self.source_path),
            updated_at: self.updated_at@,
        }
    }
}

/// All that is recorded of trust.
pub struct TrustStateFile {
    pub format_version: u32,
    pub records: Vec<StoredTrustRecord>,
}

/// Whether the project declares a variable.
pub open spec fn by_project(environment: Map<Seq<char>, SourcedView<Seq<char>>>) -> spec_fn(Seq<char>) -> bool {
    |k: Seq<char>| environment[k].source == ConfigSource::Project
}

/// The variables that the project declares, in JSON.
pub open spec fn project_variables(environment: Map<Seq<char>, SourcedView<Seq<char>>>) -> JsonView {
    let names = listing::<String>(environment.dom()).filter(by_project(environment));
    JsonView::Object(Seq::new(names.len(), |i: int| (names[i], JsonView::Text(environment[names[i]].value))))
}

/// What the project declares of a field.
pub open spec fn field_value(s: ServerView, name: Seq<char>, executable: Seq<char>, cwd: Seq<char>) -> JsonView {
    if name == "executable"@ {
        JsonView::Text(executable)
    } else if name == "args"@ {
        texts_json(s.args.value)
    } else if name == "cwd"@ {
        JsonView::Text(cwd)
    } else if name == "environment"@ {
        project_variables(s.environment)
    } else if name == "initialization_options"@ {
        match s.initialization_options {
            Some(v) => v.value,
            None => JsonView::Null,
        }
    } else {
        s.settings.value
    }
}

/// What the project declares, field by field.
pub open spec fn field_values(s: ServerView, executable: Seq<char>, cwd: Seq<char>) -> Seq<(Seq<char>, JsonView)> {
    let names = listing::<String>(s.project_fields);
    Seq::new(names.len(), |i: int| (names[i], field_value(s, names[i], executable, cwd)))
}

/// The digest of what the project declares of a field.
pub open spec fn field_digest(s: ServerView, name: Seq<char>, executable: Seq<char>, cwd: Seq<char>) -> Seq<char> {
    canonical_digest("lspctl-trust-field-v1"@, field_value(s, name, executable, cwd))
}

/// What a declaration is, in JSON.
pub open spec fn declaration_json(s: ServerView, name: Seq<char>, executable: Seq<char>, cwd: Seq<char>) -> JsonView {
    JsonView::Object(
        seq![
            ("projectFields"@, JsonView::Object(field_values(s, executable, cwd))),
            ("resolvedExecutablePath"@, JsonView::Text(executable)),
            ("server"@, JsonView::Text(name)),
        ],
    )
}

/// What a project declares of a server now.
pub open spec fn declaration_of(
    s: ServerView,
    name: Seq<char>,
    executable: Seq<char>,
    cwd: Seq<char>,
    source_path: Seq<char>,
) -> DeclarationView {
    DeclarationView {
        server: name,
        digest: canonical_digest("lspctl-trust-declaration-v1"@, declaration_json(s, name, executable, cwd)),
        field_digests: Map::new(
            |f: Seq<char>| s.project_fields.contains(f),
            |f: Seq<char>| field_digest(s, f, executable, cwd),
        ),
        executable_path: executable,
        source_path,
    }
}

fn project_variables_value(environment: &SortedMap<String, Sourced<String>>) -> (r: Json)
    ensures
        r@ == project_variables(environment@),
{
    let n: usize = environment.len();
    let ghost keys = environment.keys();
    let ghost p = by_project(environment@);
    let mut list: Vec<(String, Json)> = Vec::new();
    let mut i: usize = 0;
    proof {
        assert(keys.take(0).filter(p) =~= seq![]) by {
            reveal(Seq::filter);
        }
        assert(object_view(list@) =~= seq![]);
    }
    while i < n
        invariant
            i <= n,
            n == keys.len(),
            keys == environment.keys(),
            keys == listing::<String>(environment@.dom()),
            environment.listed(),
            p == by_project(environment@),
            object_view(list@).len() == keys.take(i as int).filter(p).len(),
            forall|j: int|
                0 <= j < object_view(list@).len() ==> #[trigger] object_view(list@)[j] == (
                    keys.take(i as int).filter(p)[j],
                    JsonView::Text(environment@[keys.take(i as int).filter(p)[j]].value),
                ),
        decreases n - i,
    {
        proof { lemma_filter_take(keys, p, i as int); }
        let ghost before = object_view(list@);
        let key: &String = environment.key_at(i);
        let value: &Sourced<String> = environment.value_at(i);
        if value.source == ConfigSource::Project {
            push_field(&mut list, key.as_str(), text_value(value.value.as_str()));
            assert(object_view(list@) =~= before.push((keys[i as int], JsonView::Text(value@.value))));
        }
        i += 1;
    }
    proof {
        assert(keys.take(i as int) =~= keys);
        assert(object_view(list@) =~= project_variables(environment@)->Object_0);
    }
    Json::Object(list)
}

fn field_json(server: &EffectiveServer, name: &str, executable: &str, cwd: &str) -> (r: Json)
    ensures
        r@ == field_value(server@, name@, executable@, cwd@),
{
    if same(name, "executable") {
        text_value(executable)
    } else if same(name, "args") {
        texts_value(&server.args.value.items)
    } else if same(name, "cwd") {
        text_value(cwd)
    } else if same(name, "environment") {
        project_variables_value(&server.environment)
    } else if same(name, "initialization_options") {
        match &server.initialization_options {
            Some(v) => v.value.copy(),
            None => Json::Null,
        }
    } else {
        server.settings.value.copy()
    }
}

/// What the project declares, field by field, and the digests of it.
fn project_field_values(server: &EffectiveServer, executable: &str, cwd: &str) -> (r: (
    Vec<(String, Json)>,
    SortedMap<String, String>,
))
    ensures
        object_view(r.0@) == field_values(server@, executable@, cwd@),
        r.1@ == declaration_of(server@, Seq::empty(), executable@, cwd@, Seq::empty()).field_digests,
{
    let ghost s = server@;
    let n: usize = server.project_fields.len();
    let ghost keys = server.project_fields.keys();
    let mut fields: Vec<(String, Json)> = Vec::new();
    let mut digests: SortedMap<String, String> = SortedMap::new();
    let mut i: usize = 0;
    proof {
        assert(object_view(fields@) =~= seq![]);
        assert(digests@ =~= Map::new(
            |f: Seq<char>| keys.take(0).to_set().contains(f),
            |f: Seq<char>| field_digest(s, f, executable@, cwd@),
        ));
    }
    while i < n
        invariant
            i <= n,
            n == keys.len(),
            s == server@,
            keys == server.project_fields.keys(),
            keys == listing::<String>(s.project_fields),
            object_view(fields@).len() == i,
            forall|j: int|
                0 <= j < i ==> #[trigger] object_view(fields@)[j] == (
                    keys[j],
                    field_value(s, keys[j], executable@, cwd@),
                ),
            digests@ == Map::new(
                |f: Seq<char>| keys.take(i as int).to_set().contains(f),
                |f: Seq<char>| field_digest(s, f, executable@, cwd@),
            ),
        decreases n - i,
    {
        let name: String = server.project_fields.key_at(i).clone();
        let value: Json = field_json(server, name.as_str(), executable, cwd);
        let digest: String = digest_canonical_value("lspctl-trust-field-v1", &value);
        let ghost before = object_view(fields@);
        push_field(&mut fields, name.as_str(), value);
        assert(object_view(fields@) =~= before.push(
            (keys[i as int], field_value(s, keys[i as int], executable@, cwd@)),
        ));
        digests.insert(name, digest);
        proof {
            crate::config_servers::lemma_take_set(keys, i as int);
            assert(digests@ =~= Map::new(
                |f: Seq<char>| keys.take(i + 1).to_set().contains(f),
                |f: Seq<char>| field_digest(s, f, executable@, cwd@),
            ));
        }
        i += 1;
    }
    proof {
        assert(server.project_fields.listed()) by {
            assert(keys == server.project_fields.keys());
        }
        assert(keys.take(i as int) =~= keys);
        assert forall|f: Seq<char>| keys.to_set().contains(f) <==> #[trigger] s.project_fields.contains(f) by {
            if s.project_fields.contains(f) {
                assert(keys.contains(f));
            }
        }
        assert(digests@ =~= declaration_of(s, Seq::empty(), executable@, cwd@, Seq::empty()).field_digests);
        assert(object_view(fields@) =~= field_values(s, executable@, cwd@));
    }
    (fields, digests)
}

/// What a project declares of a server now, given where its executable and its
/// directory were found. The directory is needed where the project declares it.
pub open spec fn declaration_result(
    s: ServerView,
    name: Seq<char>,
    executable: Seq<char>,
    cwd: Option<Seq<char>>,
    source_path: Seq<char>,
) -> Result<DeclarationView, FailureView> {
    match cwd {
        Some(c) => Ok(declaration_of(s, name, executable, c, source_path)),
        None => if s.project_fields.contains("cwd"@) {
            Err(selection_failed("The selected server working directory is unavailable."@))
        } else {
            Ok(declaration_of(s, name, executable, ""@, source_path))
        },
    }
}

/// What a project declares of a server now, given where its executable and its
/// directory were found.
pub fn current_declaration(
    server: &EffectiveServer,
    name: &str,
    executable: &str,
    cwd: Option<&str>,
    source_path: &str,
) -> (r: Result<CurrentDeclaration, ContractFailure>)
    ensures
        result_view(r) == declaration_result(server@, name@, executable@, opt_ref_view(cwd), source_path@),
{
    let cwd: &str = match cwd {
        Some(c) => c,
        None => {
            let key: String = "cwd".to_owned();
            if server.project_fields.contains_key(&key) {
                return Err(
                    server_selection_failure("The selected server working directory is unavailable."),
                );
            }
            ""
        },
    };
    let (fields, field_digests) = project_field_values(server, executable, cwd);
    let value: Json = object3(
        "projectFields",
        Json::Object(fields),
        "resolvedExecutablePath",
        text_value(executable),
        "server",
        text_value(name),
    );
    let digest: String = digest_canonical_value("lspctl-trust-declaration-v1", &value);
    Ok(
        CurrentDeclaration {
            server: name.to_owned(),
            digest,
            field_digests,
            executable_path: executable.to_owned(),
            source_path: source_path.to_owned(),
        },
    )
}

/// Where the executable and the directory of a server were found.
pub enum Placement {
    Found { executable: String, cwd: Option<String> },
    Missing(ContractFailure),
}

/// What a [`Placement`] stands for.
pub ghost enum PlacementView {
    Found { executable: Seq<char>, cwd: Option<Seq<char>> },
    Missing(FailureView),
}

impl View for Placement {
    type V = PlacementView;

    open spec fn view(&self) -> PlacementView {
        match self {
            Placement::Found { executable, cwd } => PlacementView::Found { executable: executable@, cwd: opt_view(*cwd) },
            Placement::Missing(f) => PlacementView::Missing(f@),
        }
    }
}

/// What a project declares of a server now, where the server was found.
pub open spec fn placed_declaration(
    s: ServerView,
    name: Seq<char>,
    placement: PlacementView,
    source_path: Seq<char>,
) -> Result<DeclarationView, FailureView> {
    match placement {
        PlacementView::Found { executable, cwd } => declaration_result(s, name, executable, cwd, source_path),
        PlacementView::Missing(f) => Err(f),
    }
}

/// What a project declares now of those of some servers that it declares something
/// of. The first that was not found fails them all.
pub open spec fn declarations_of(
    servers: Map<Seq<char>, ServerView>,
    placed: Map<Seq<char>, PlacementView>,
    names: Seq<Seq<char>>,
    source_path: Seq<char>,
) -> Result<Map<Seq<char>, DeclarationView>, FailureView>
    decreases names.len(),
{
    if names.len() == 0 {
        Ok(Map::empty())
    } else {
        match declarations_of(servers, placed, names.drop_last(), source_path) {
            Err(f) => Err(f),
            Ok(before) => {
                let name = names.last();
                if servers[name].project_fields == Set::<Seq<char>>::empty() {
                    Ok(before)
                } else {
                    match placed_declaration(servers[name], name, placed[name], source_path) {
                        Err(f) => Err(f),
                        Ok(d) => Ok(before.insert(name, d)),
                    }
                }
            },
        }
    }
}

proof fn lemma_declarations_fail(
    servers: Map<Seq<char>, ServerView>,
    placed: Map<Seq<char>, PlacementView>,
    names: Seq<Seq<char>>,
    source_path: Seq<char>,
    i: int,
)
    requires
        0 <= i <= names.len(),
        declarations_of(servers, placed, names.take(i), source_path) is Err,
    ensures
        declarations_of(servers, placed, names, source_path) == declarations_of(
            servers,
            placed,
            names.take(i),
            source_path,
        ),
    decreases names.len() - i,
{
    if i == names.len() {
        assert(names.take(i) =~= names);
    } else {
        assert(names.take(i + 1).drop_last() =~= names.take(i));
        lemma_declarations_fail(servers, placed, names, source_path, i + 1);
    }
}

fn declare_placed(server: &EffectiveServer, name: &str, placement: &Placement, source_path: &str) -> (r: Result<
    CurrentDeclaration,
    ContractFailure,
>)
    ensures
        result_view(r) == placed_declaration(server@, name@, placement@, source_path@),
{
    match placement {
        Placement::Found { executable, cwd } => {
            let cwd: Option<&str> = match cwd {
                Some(c) => Some(c.as_str()),
                None => None,
            };
            current_declaration(server, name, executable.as_str(), cwd, source_path)
        },
        Placement::Missing(f) => Err(f.copy()),
    }
}

/// What a project declares now of every server that it declares something of.
pub fn current_declarations(
    servers: &SortedMap<String, EffectiveServer>,
    placed: &SortedMap<String, Placement>,
    source_path: &str,
) -> (r: Result<SortedMap<String, CurrentDeclaration>, ContractFailure>)
    requires
        forall|name: Seq<char>| #[trigger]
            servers@.dom().contains(name) && servers@[name].project_fields != Set::<Seq<char>>::empty()
                ==> placed@.dom().contains(name),
    ensures
        result_view(r) == declarations_of(servers@, placed@, listing::<String>(servers@.dom()), source_path@),
{
    let n: usize = servers.len();
    let ghost names = servers.keys();
    let mut all: SortedMap<String, CurrentDeclaration> = SortedMap::new();
    let mut i: usize = 0;
    while i < n
        invariant
            i <= n,
            n == names.len(),
            names == servers.keys(),
            names == listing::<String>(servers@.dom()),
            forall|name: Seq<char>| #[trigger]
                servers@.dom().contains(name) && servers@[name].project_fields != Set::<Seq<char>>::empty()
                    ==> placed@.dom().contains(name),
            declarations_of(servers@, placed@, names.take(i as int), source_path@) == Ok::<
                Map<Seq<char>, DeclarationView>,
                FailureView,
            >(all@),
        decreases n - i,
    {
        let name: &String = servers.key_at(i);
        let server: &EffectiveServer = servers.value_at(i);
        let fields: usize = server.project_fields.len();
        proof {
            assert(names.take(i + 1).drop_last() =~= names.take(i as int));
            if fields == 0 {
                assert(server@.project_fields =~= Set::<Seq<char>>::empty());
            } else {
                assert(server@.project_fields.contains(server.project_fields.keys()[0]));
            }
        }
        if fields > 0 {
            if let Some(placement) = placed.get(name) {
                match declare_placed(server, name.as_str(), placement, source_path) {
                    Ok(d) => {
                        all.insert(name.clone(), d);
                    },
                    Err(f) => {
                        proof {
                            lemma_declarations_fail(servers@, placed@, names, source_path@, i + 1);
                        }
                        return Err(f);
                    },
                }
            }
        }
        i += 1;
    }
    assert(names.take(i as int) =~= names);
    Ok(all)
}

proof fn lemma_declared(
    servers: Map<Seq<char>, ServerView>,
    placed: Map<Seq<char>, PlacementView>,
    names: Seq<Seq<char>>,
    source_path: Seq<char>,
    name: Seq<char>,
)
    requires
        declarations_of(servers, placed, names, source_path) is Ok,
    ensures
        declarations_of(servers, placed, names, source_path) matches Ok(all) && {
            &&& all.dom().contains(name) <==> names.contains(name) && servers[name].project_fields != Set::<
                Seq<char>,
            >::empty()
            &&& all.dom().contains(name) ==> placed_declaration(servers[name], name, placed[name], source_path) == Ok::<
                DeclarationView,
                FailureView,
            >(all[name])
        },
    decreases names.len(),
{
    if names.len() > 0 {
        let front = names.drop_last();
        lemma_declared(servers, placed, front, source_path, name);
        if front.contains(name) {
            let i = choose|i: int| 0 <= i < front.len() && front[i] == name;
            assert(names[i] == name);
        }
        if names.contains(name) {
            let i = choose|i: int| 0 <= i < names.len() && names[i] == name;
            if i < front.len() {
                assert(front[i] == name);
            }
        }
        assert(names[names.len() - 1] == names.last());
    }
}

/// The declarations are those of the servers that the project declares something
/// of, each under the name of its server and with what was found of it.
pub proof fn law_declarations_are_the_projects(
    servers: Map<Seq<char>, ServerView>,
    placed: Map<Seq<char>, PlacementView>,
    source_path: Seq<char>,
    name: Seq<char>,
)
    requires
        servers.dom().finite(),
    ensures
        declarations_of(servers, placed, listing::<String>(servers.dom()), source_path) matches Ok(all) ==> {
            &&& all.dom().contains(name) <==> servers.dom().contains(name) && servers[name].project_fields != Set::<
                Seq<char>,
            >::empty()
            &&& all.dom().contains(name) ==> all[name].server == name && placed_declaration(
                servers[name],
                name,
                placed[name],
                source_path,
            ) == Ok::<DeclarationView, FailureView>(all[name])
        },
{
    let names = listing::<String>(servers.dom());
    crate::sorted::lemma_listing_exists::<String>(servers.dom());
    if declarations_of(servers, placed, names, source_path) is Ok {
        lemma_declared(servers, placed, names, source_path, name);
    }
}

/// The digests of declarations, in JSON.
pub open spec fn digests_json(declarations: Map<Seq<char>, DeclarationView>) -> JsonView {
    let names = listing::<String>(declarations.dom());
    JsonView::Object(Seq::new(names.len(), |i: int| (names[i], JsonView::Text(declarations[names[i]].digest))))
}

/// The digest of all declarations.
pub open spec fn aggregate_of(declarations: Map<Seq<char>, DeclarationView>) -> Seq<char> {
    canonical_digest("lspctl-trust-aggregate-v1"@, digests_json(declarations))
}

/// The digest of all declarations.
pub fn aggregate_digest(declarations: &SortedMap<String, CurrentDeclaration>) -> (r: String)
    ensures
        r@ == aggregate_of(declarations@),
{
    let n: usize = declarations.len();
    let ghost keys = declarations.keys();
    let mut o: Vec<(String, Json)> = Vec::new();
    let mut i: usize = 0;
    assert(object_view(o@) =~= seq![]);
    while i < n
        invariant
            i <= n,
            n == keys.len(),
            keys == declarations.keys(),
            declarations.listed(),
            object_view(o@).len() == i,
            forall|j: int|
                0 <= j < i ==> #[trigger] object_view(o@)[j] == (
                    keys[j],
                    JsonView::Text(declarations@[keys[j]].digest),
                ),
        decreases n - i,
    {
        let ghost before = object_view(o@);
        let value: &CurrentDeclaration = declarations.value_at(i);
        push_field(&mut o, declarations.key_at(i).as_str(), text_value(value.digest.as_str()));
        assert(object_view(o@) =~= before.push((keys[i as int], JsonView::Text(value@.digest))));
        i += 1;
    }
    assert(object_view(o@) =~= digests_json(declarations@)->Object_0);
    digest_canonical_value("lspctl-trust-aggregate-v1", &Json::Object(o))
}

/// The value of a name, where it has one.
pub open spec fn at_name(m: Map<Seq<char>, Seq<char>>, name: Seq<char>) -> Option<Seq<char>> {
    if m.dom().contains(name) {
        Some(m[name])
    } else {
        None
    }
}

/// Digests, or none.
pub open spec fn digests_or_none(m: Option<Map<Seq<char>, Seq<char>>>) -> Map<Seq<char>, Seq<char>> {
    match m {
        Some(m) => m,
        None => Map::empty(),
    }
}

/// Whether a field is not as it was recorded.
pub open spec fn field_changed(recorded: Map<Seq<char>, Seq<char>>, current: Map<Seq<char>, Seq<char>>) -> spec_fn(
    Seq<char>,
) -> bool {
    |f: Seq<char>| at_name(recorded, f) != at_name(current, f)
}

/// The fields that are not as they were recorded, in ascending order.
pub open spec fn fields_changed(recorded: Map<Seq<char>, Seq<char>>, current: Map<Seq<char>, Seq<char>>) -> Seq<
    Seq<char>,
> {
    listing::<String>(recorded.dom().union(current.dom())).filter(field_changed(recorded, current))
}

/// The fields that are not as they were recorded: added, removed or changed.
pub fn changed_fields(recorded: &SortedMap<String, String>, current: Option<&SortedMap<String, String>>) -> (r: Vec<String>)
    ensures
        views(r@) == fields_changed(recorded@, digests_or_none(opt_ref_view(current))),
{
    let ghost now = digests_or_none(opt_ref_view(current));
    let mut all: SortedMap<String, ()> = SortedMap::new();
    assert(all@.dom() =~= Set::<Seq<char>>::empty());
    add_names(&mut all, recorded);
    if let Some(c) = current {
        add_names(&mut all, c);
    }
    assert(all@.dom() =~= recorded@.dom().union(now.dom()));
    let n: usize = all.len();
    let ghost keys = all.keys();
    let ghost p = field_changed(recorded@, now);
    let mut r: Vec<String> = Vec::new();
    let mut i: usize = 0;
    proof {
        assert(keys.take(0).filter(p) =~= seq![]) by {
            reveal(Seq::filter);
        }
        assert(views(r@) =~= seq![]);
    }
    while i < n
        invariant
            i <= n,
            n == keys.len(),
            keys == all.keys(),
            p == field_changed(recorded@, now),
            now == digests_or_none(opt_ref_view(current)),
            views(r@) == keys.take(i as int).filter(p),
        decreases n - i,
    {
        proof { lemma_filter_take(keys, p, i as int); }
        let ghost before = views(r@);
        let name: &String = all.key_at(i);
        let was: Option<&String> = recorded.get(name);
        let is: Option<&String> = match current {
            Some(c) => c.get(name),
            None => None,
        };
        let unchanged: bool = match (was, is) {
            (Some(a), Some(b)) => same(a.as_str(), b.as_str()),
            (None, None) => true,
            _ => false,
        };
        if !unchanged {
            r.push(name.clone());
            assert(views(r@) =~= before.push(keys[i as int]));
        }
        i += 1;
    }
    assert(keys.take(i as int) =~= keys);
    r
}

/// A field is listed as changed exactly where it is not as it was recorded.
pub proof fn law_changed_fields(recorded: Map<Seq<char>, Seq<char>>, current: Map<Seq<char>, Seq<char>>, field: Seq<char>)
    requires
        recorded.dom().finite(),
        current.dom().finite(),
    ensures
        fields_changed(recorded, current).contains(field) <==> at_name(recorded, field) != at_name(current, field),
{
    let domain = recorded.dom().union(current.dom());
    let names = listing::<String>(domain);
    let p = field_changed(recorded, current);
    crate::sorted::lemma_listing_exists::<String>(domain);
    broadcast use vstd::seq_lib::group_filter_ensures;

    if at_name(recorded, field) != at_name(current, field) {
        assert(domain.contains(field));
        assert(names.contains(field));
        assert(p(field));
    }
    if fields_changed(recorded, current).contains(field) {
        assert(p(field));
    }
}

/// Whether a record stands before another: by the workspace, then by the server.
pub open spec fn record_precedes(a: TrustView, b: TrustView) -> bool {
    text_precedes(a.workspace_uri, b.workspace_uri) || (a.workspace_uri == b.workspace_uri && text_precedes(
        a.server,
        b.server,
    ))
}

/// Whether a record is of a server in a workspace.
pub open spec fn record_of(r: TrustView, workspace_uri: Seq<char>, server: Seq<char>) -> bool {
    r.workspace_uri == workspace_uri && r.server == server
}

/// The records other than that of a server in a workspace.
pub open spec fn other_than(workspace_uri: Seq<char>, server: Seq<char>) -> spec_fn(TrustView) -> bool {
    |r: TrustView| !record_of(r, workspace_uri, server)
}

/// Records stand by their workspaces, then by their servers.
impl Ranked for StoredTrustRecord {
    open spec fn before(a: TrustView, b: TrustView) -> bool {
        record_precedes(a, b)
    }

    proof fn lemma_not_before(a: TrustView, b: TrustView, c: TrustView) {
        lemma_text_total(a.workspace_uri, b.workspace_uri);
        lemma_text_total(b.workspace_uri, c.workspace_uri);
        <String as Ranked>::lemma_not_before(a.workspace_uri, b.workspace_uri, c.workspace_uri);
        lemma_text_irreflexive(a.workspace_uri);
        if c.workspace_uri == a.workspace_uri {
            if a.workspace_uri != b.workspace_uri {
                lemma_text_transitive(a.workspace_uri, b.workspace_uri, a.workspace_uri);
            } else {
                <String as Ranked>::lemma_not_before(a.server, b.server, c.server);
            }
        }
    }

    proof fn lemma_one_way(a: TrustView, b: TrustView) {
        lemma_text_irreflexive(a.workspace_uri);
        lemma_text_irreflexive(a.server);
        if record_precedes(b, a) {
            if text_precedes(a.workspace_uri, b.workspace_uri) && text_precedes(b.workspace_uri, a.workspace_uri) {
                lemma_text_transitive(a.workspace_uri, b.workspace_uri, a.workspace_uri);
            } else if text_precedes(a.server, b.server) && text_precedes(b.server, a.server) {
                lemma_text_transitive(a.server, b.server, a.server);
            }
        }
    }

    fn comes_before(&self, other: &Self) -> (r: bool) {
        precedes_record(self, other)
    }
}

/// The records with one in place of that of its server in its workspace.
pub open spec fn upserted(s: Seq<TrustView>, x: TrustView) -> Seq<TrustView> {
    ranked::<StoredTrustRecord>(s.filter(other_than(x.workspace_uri, x.server)).push(x))
}

fn precedes_record(a: &StoredTrustRecord, b: &StoredTrustRecord) -> (r: bool)
    ensures
        r == record_precedes(a@, b@),
{
    match text_order(a.workspace_uri.as_str(), b.workspace_uri.as_str()) {
        Order::Less => true,
        Order::Greater => {
            proof {
                if text_precedes(a@.workspace_uri, b@.workspace_uri) {
                    lemma_text_transitive(a@.workspace_uri, b@.workspace_uri, a@.workspace_uri);
                    lemma_text_irreflexive(a@.workspace_uri);
                }
                lemma_text_irreflexive(a@.workspace_uri);
            }
            false
        },
        Order::Same => match text_order(a.server.as_str(), b.server.as_str()) {
            Order::Less => true,
            _ => {
                proof { lemma_text_irreflexive(a@.workspace_uri); }
                false
            },
        },
    }
}

impl Replica for StoredTrustRecord {
    fn replica(&self) -> (r: Self) {
        StoredTrustRecord {
            workspace_uri: self.workspace_uri.clone(),
            server: self.server.clone(),
            state: self.state,
            declaration_digest: copy_opt(&self.declaration_digest),
            field_digests: self.field_digests.replica(),
            executable_path: copy_opt(&self.executable_path),
            source_path: copy_opt(&self.source_path),
            updated_at: self.updated_at.clone(),
        }
    }
}

/// The records other than that of a server in a workspace.
fn records_without(list: &Vec<StoredTrustRecord>, workspace_uri: &str, server: &str) -> (r: Vec<StoredTrustRecord>)
    ensures
        views(r@) == views(list@).filter(other_than(workspace_uri@, server@)),
{
    let ghost all = views(list@);
    let ghost p = other_than(workspace_uri@, server@);
    let mut r: Vec<StoredTrustRecord> = Vec::new();
    let mut i: usize = 0;
    proof {
        assert(all.take(0).filter(p) =~= seq![]) by {
            reveal(Seq::filter);
        }
        assert(views(r@) =~= seq![]);
    }
    while i < list.len()
        invariant
            i <= list@.len(),
            all == views(list@),
            p == other_than(workspace_uri@, server@),
            views(r@) == all.take(i as int).filter(p),
        decreases list.len() - i,
    {
        proof { lemma_filter_take(all, p, i as int); }
        let ghost before = views(r@);
        assert(all[i as int] == list@[i as int]@);
        if !(same(list[i].workspace_uri.as_str(), workspace_uri) && same(list[i].server.as_str(), server)) {
            r.push(list[i].replica());
            assert(views(r@) =~= before.push(all[i as int]));
        }
        i += 1;
    }
    assert(all.take(i as int) =~= all);
    r
}

/// Records a declaration in place of what was recorded of its server in its
/// workspace.
pub fn upsert_record(state: &mut TrustStateFile, record: StoredTrustRecord)
    ensures
        views(final(state).records@) == upserted(views(old(state).records@), record@),
        final(state).format_version == old(state).format_version,
{
    let mut rest: Vec<StoredTrustRecord> = records_without(
        &state.records,
        record.workspace_uri.as_str(),
        record.server.as_str(),
    );
    let ghost before = views(rest@);
    rest.push(record);
    assert(views(rest@) =~= before.push(record@));
    state.records = rank(rest);
}

/// Forgets what was recorded of a server in a workspace.
pub fn forget_record(state: &mut TrustStateFile, workspace_uri: &str, server: &str)
    ensures
        views(final(state).records@) == views(old(state).records@).filter(other_than(workspace_uri@, server@)),
        final(state).format_version == old(state).format_version,
{
    state.records = records_without(&state.records, workspace_uri, server);
}

/// What is recorded of a server in a workspace.
pub open spec fn recorded_trust(s: Seq<TrustView>, workspace_uri: Seq<char>, server: Seq<char>) -> Option<TrustView>
    decreases s.len(),
{
    if s.len() == 0 {
        None
    } else if record_of(s[0], workspace_uri, server) {
        Some(s[0])
    } else {
        recorded_trust(s.drop_first(), workspace_uri, server)
    }
}

/// What is recorded of a server in a workspace.
pub fn find_record<'a>(list: &'a Vec<StoredTrustRecord>, workspace_uri: &str, server: &str) -> (r: Option<
    &'a StoredTrustRecord,
>)
    ensures
        opt_ref_view(r) == recorded_trust(views(list@), workspace_uri@, server@),
{
    let ghost all = views(list@);
    let mut i: usize = 0;
    assert(all.skip(0) =~= all);
    while i < list.len()
        invariant
            i <= list@.len(),
            all == views(list@),
            recorded_trust(all, workspace_uri@, server@) == recorded_trust(
                all.skip(i as int),
                workspace_uri@,
                server@,
            ),
        decreases list.len() - i,
    {
        proof {
            assert(all.skip(i as int)[0] == list@[i as int]@);
            assert(all.skip(i as int).drop_first() =~= all.skip(i + 1));
        }
        if same(list[i].workspace_uri.as_str(), workspace_uri) && same(list[i].server.as_str(), server) {
            return Some(&list[i]);
        }
        i += 1;
    }
    None
}

} // verus!
