//! What a language server provides, and what the Queries need of it.

use vstd::prelude::*;

use crate::documents::{DocumentSnapshot, DocumentView, selector_admits, selector_matches};
use crate::failure::{ContractFailure, FailureView, failed, failure};
use crate::json::{Json, JsonView, array_view, copy_items, object3, object_view, push_field, text_value};
use crate::plan_tree::lemma_filter_take;
use crate::query_command::{ProviderRequirement, QueryCommand, command_provider};
use crate::sorted::{SortedMap, listing};
use crate::text::{concat, concat3, opt_ref_view, opt_view, same};

verus! {

/// How a server stands to a capability.
#[derive(Clone, Copy, Debug, PartialEq, Eq, Structural)]
pub enum ProviderState {
    Supported,
    Unsupported,
    Invalid,
}

/// The name of a state.
pub open spec fn state_name(s: ProviderState) -> Seq<char> {
    match s {
        ProviderState::Supported => "supported"@,
        ProviderState::Unsupported => "unsupported"@,
        ProviderState::Invalid => "invalid"@,
    }
}

impl ProviderState {
    /// The name of a state.
    pub fn name(self) -> (r: &'static str)
        ensures
            r@ == state_name(self),
    {
        match self {
            Self::Supported => "supported",
            Self::Unsupported => "unsupported",
            Self::Invalid => "invalid",
        }
    }
}

/// A capability of a server.
pub struct Provider {
    pub state: ProviderState,
    pub capability_path: String,
    pub options: Option<Json>,
    pub selector: Option<Json>,
    pub problems: Vec<Json>,
}

/// What a [`Provider`] stands for.
#[verifier::ext_equal]
pub ghost struct ProviderView {
    pub state: ProviderState,
    pub capability_path: Seq<char>,
    pub options: Option<JsonView>,
    pub selector: Option<JsonView>,
    pub problems: Seq<JsonView>,
}

impl View for Provider {
    type V = ProviderView;

    open spec fn view(&self) -> ProviderView {
        ProviderView {
            state: self.state,
            capability_path: self.capability_path@,
            options: opt_view(self.options),
            selector: opt_view(self.selector),
            problems: array_view(self.problems@),
        }
    }
}

/// The capabilities of a server.
pub struct Capabilities {
    pub providers: SortedMap<String, Provider>,
    pub initialize_result: Option<Json>,
}

/// What [`Capabilities`] stand for.
#[verifier::ext_equal]
pub ghost struct CapabilitiesView {
    pub providers: Map<Seq<char>, ProviderView>,
    pub initialize_result: Option<JsonView>,
}

impl View for Capabilities {
    type V = CapabilitiesView;

    open spec fn view(&self) -> CapabilitiesView {
        CapabilitiesView { providers: self.providers@, initialize_result: opt_view(self.initialize_result) }
    }
}

/// Whether a value says nothing: null, or an empty row.
pub open spec fn vacant(v: JsonView) -> bool {
    v is Null || (v matches JsonView::Array(items) && items.len() == 0)
}

/// The fields whose values say something.
pub open spec fn compact(o: Seq<(Seq<char>, JsonView)>) -> Seq<(Seq<char>, JsonView)> {
    o.filter(|f: (Seq<char>, JsonView)| !vacant(f.1))
}

/// An object without the fields whose values say nothing.
pub fn compact_object(fields: Vec<(String, Json)>) -> (r: Json)
    ensures
        r@ == JsonView::Object(compact(object_view(fields@))),
{
    let ghost all = object_view(fields@);
    let ghost p = |f: (Seq<char>, JsonView)| !vacant(f.1);
    let mut o: Vec<(String, Json)> = Vec::new();
    let mut i: usize = 0;
    proof {
        assert(all.take(0).filter(p) =~= seq![]) by {
            reveal(Seq::filter);
        }
        assert(object_view(o@) =~= seq![]);
    }
    while i < fields.len()
        invariant
            i <= fields@.len(),
            all == object_view(fields@),
            p == (|f: (Seq<char>, JsonView)| !vacant(f.1)),
            object_view(o@) == all.take(i as int).filter(p),
        decreases fields.len() - i,
    {
        proof { lemma_filter_take(all, p, i as int); }
        assert(all[i as int] == (fields@[i as int].0@, fields@[i as int].1@));
        let empty: bool = match &fields[i].1 {
            Json::Null => true,
            Json::Array(items) => items.len() == 0,
            _ => false,
        };
        if !empty {
            let ghost before = object_view(o@);
            push_field(&mut o, fields[i].0.as_str(), fields[i].1.copy());
            assert(object_view(o@) =~= before.push(all[i as int]));
        }
        i += 1;
    }
    assert(all.take(i as int) =~= all);
    Json::Object(o)
}

/// The value, or null.
pub open spec fn or_null(v: Option<JsonView>) -> JsonView {
    match v {
        Some(v) => v,
        None => JsonView::Null,
    }
}

/// The value, or null.
pub fn copy_or_null(v: Option<&Json>) -> (r: Json)
    ensures
        r@ == or_null(opt_ref_view(v)),
{
    match v {
        Some(v) => v.copy(),
        None => Json::Null,
    }
}

/// A copy of a value, where there is one.
pub fn copy_value(v: Option<&Json>) -> (r: Option<Json>)
    ensures
        opt_view(r) == opt_ref_view(v),
{
    match v {
        Some(v) => Some(v.copy()),
        None => None,
    }
}

/// The state that a server reports of a capability.
pub open spec fn state_of(value: JsonView) -> ProviderState {
    if value.text_at("state"@) == Some("supported"@) {
        ProviderState::Supported
    } else if value.text_at("state"@) == Some("unsupported"@) {
        ProviderState::Unsupported
    } else {
        ProviderState::Invalid
    }
}

/// The problem of a capability whose state is none of the three.
pub open spec fn malformed_state(name: Seq<char>) -> JsonView {
    JsonView::Object(
        seq![
            ("code"@, JsonView::Text("malformed_capability"@)),
            ("jsonPath"@, JsonView::Text("providers."@ + name + ".state"@)),
            ("message"@, JsonView::Text("The Owner returned an invalid normalized provider state."@)),
        ],
    )
}

/// The problems that are reported of a capability.
pub open spec fn problems_of(name: Seq<char>, value: JsonView) -> Seq<JsonView> {
    let listed = match value.get("problems"@) {
        Some(JsonView::Array(items)) => items,
        _ => seq![],
    };
    if state_of(value) == ProviderState::Invalid && value.text_at("state"@) != Some("invalid"@) {
        listed.push(malformed_state(name))
    } else {
        listed
    }
}

/// A capability as a server reports it.
pub open spec fn provider_of(name: Seq<char>, value: JsonView) -> ProviderView {
    ProviderView {
        state: state_of(value),
        capability_path: match value.text_at("capabilityPath"@) {
            Some(path) => path,
            None => "capabilities."@ + name,
        },
        options: value.get("options"@),
        selector: match value.get("selector"@) {
            Some(selector) => Some(selector),
            None => match value.get("options"@) {
                Some(options) => options.get("documentSelector"@),
                None => None,
            },
        },
        problems: problems_of(name, value),
    }
}

/// The capabilities that some fields report, the last of a name counting.
pub open spec fn providers_of(fields: Seq<(Seq<char>, JsonView)>) -> Map<Seq<char>, ProviderView>
    decreases fields.len(),
{
    if fields.len() == 0 {
        Map::empty()
    } else {
        providers_of(fields.drop_last()).insert(fields.last().0, provider_of(fields.last().0, fields.last().1))
    }
}

/// The fields of an object, or none.
pub open spec fn fields_of(v: Option<JsonView>) -> Seq<(Seq<char>, JsonView)> {
    match v {
        Some(JsonView::Object(o)) => o,
        _ => seq![],
    }
}

/// The capabilities that a server reports.
pub open spec fn reported_capabilities(value: JsonView) -> CapabilitiesView {
    CapabilitiesView {
        providers: providers_of(fields_of(value.get("providers"@))),
        initialize_result: value.get("initializeResult"@),
    }
}

fn is_text(value: Option<&String>, text: &str) -> (r: bool)
    ensures
        r == (opt_ref_view(value) == Some(text@)),
{
    match value {
        Some(v) => same(v.as_str(), text),
        None => false,
    }
}

fn read_provider(name: &str, value: &Json) -> (r: Provider)
    ensures
        r@ == provider_of(name@, value@),
{
    proof {
        reveal_strlit("supported");
        reveal_strlit("unsupported");
        reveal_strlit("invalid");
        assert("supported"@.len() != "unsupported"@.len());
        assert("invalid"@.len() != "unsupported"@.len());
        assert("invalid"@.len() != "supported"@.len());
    }
    let text: Option<&String> = value.text_at("state");
    let state: ProviderState = if is_text(text, "supported") {
        ProviderState::Supported
    } else if is_text(text, "unsupported") {
        ProviderState::Unsupported
    } else {
        ProviderState::Invalid
    };
    let capability_path: String = match value.text_at("capabilityPath") {
        Some(path) => path.clone(),
        None => concat("capabilities.", name),
    };
    let selector: Option<Json> = match value.get("selector") {
        Some(selector) => Some(selector.copy()),
        None => match value.get("options") {
            Some(options) => copy_value(options.get("documentSelector")),
            None => None,
        },
    };
    let mut problems: Vec<Json> = match value.get("problems") {
        Some(Json::Array(items)) => copy_items(items),
        _ => Vec::new(),
    };
    let ghost listed = match value@.get("problems"@) {
        Some(JsonView::Array(items)) => items,
        _ => seq![],
    };
    assert(array_view(problems@) =~= listed);
    if state == ProviderState::Invalid && !is_text(text, "invalid") {
        problems.push(
            object3(
                "code",
                text_value("malformed_capability"),
                "jsonPath",
                Json::Text(concat3("providers.", name, ".state")),
                "message",
                text_value("The Owner returned an invalid normalized provider state."),
            ),
        );
        assert(array_view(problems@) =~= listed.push(malformed_state(name@)));
    }
    Provider { state, capability_path, options: copy_value(value.get("options")), selector, problems }
}

/// The failure of a Query that the server does not support.
pub open spec fn unavailable_failed(
    key: Seq<char>,
    state: Seq<char>,
    path: Seq<char>,
    problems: Seq<JsonView>,
    selector: Option<JsonView>,
) -> FailureView {
    failed(
        3,
        "blocked"@,
        "capability_unavailable"@,
        "The selected server does not support this Query."@,
        "dispatch"@,
        "not_sent"@,
        "after_change"@,
        JsonView::Object(
            compact(
                seq![
                    ("capabilityPath"@, JsonView::Text(path)),
                    ("problems"@, JsonView::Array(problems)),
                    ("provider"@, JsonView::Text(key)),
                    ("selector"@, or_null(selector)),
                    ("state"@, JsonView::Text(state)),
                ],
            ),
        ),
    )
}

fn unavailable(key: &str, state: &str, path: &str, problems: Vec<Json>, selector: Option<&Json>) -> (r: ContractFailure)
    ensures
        r@ == unavailable_failed(key@, state@, path@, array_view(problems@), opt_ref_view(selector)),
{
    let ghost listed = array_view(problems@);
    let mut o: Vec<(String, Json)> = Vec::new();
    assert(object_view(o@) =~= seq![]);
    push_field(&mut o, "capabilityPath", text_value(path));
    push_field(&mut o, "problems", Json::Array(problems));
    push_field(&mut o, "provider", text_value(key));
    push_field(&mut o, "selector", copy_or_null(selector));
    push_field(&mut o, "state", text_value(state));
    assert(object_view(o@) =~= seq![
        ("capabilityPath"@, JsonView::Text(path@)),
        ("problems"@, JsonView::Array(listed)),
        ("provider"@, JsonView::Text(key@)),
        ("selector"@, or_null(opt_ref_view(selector))),
        ("state"@, JsonView::Text(state@)),
    ]);
    failure(
        3,
        "blocked",
        "capability_unavailable",
        "The selected server does not support this Query.",
        "dispatch",
        "not_sent",
        "after_change",
        compact_object(o),
    )
}

/// The option that a server has to switch on for a Query.
pub open spec fn needed_option(c: QueryCommand) -> Option<Seq<char>> {
    match c {
        QueryCommand::PrepareRename => Some("prepareProvider"@),
        QueryCommand::ResolveCodeAction => Some("resolveProvider"@),
        QueryCommand::WorkspaceDiagnostics => Some("workspaceDiagnostics"@),
        _ => None,
    }
}

/// A field of the options, where there are options.
pub open spec fn option_of(options: Option<JsonView>, name: Seq<char>) -> Option<JsonView> {
    match options {
        Some(options) => options.get(name),
        None => None,
    }
}

/// Whether a server offers a command.
pub open spec fn offers(options: Option<JsonView>, wanted: Seq<char>) -> bool {
    option_of(options, "commands"@) matches Some(JsonView::Array(items)) && items.contains(JsonView::Text(wanted))
}

/// What admits documents: the selector, or else that of the options.
pub open spec fn selector_of(p: ProviderView) -> Option<JsonView> {
    match p.selector {
        Some(selector) => Some(selector),
        None => option_of(p.options, "documentSelector"@),
    }
}

/// The text, or nothing.
pub open spec fn or_empty(s: Option<Seq<char>>) -> Seq<char> {
    match s {
        Some(s) => s,
        None => ""@,
    }
}

/// Why a capability does not serve a Query.
pub open spec fn provider_problem(
    p: ProviderView,
    key: Seq<char>,
    c: QueryCommand,
    document: Option<DocumentView>,
    wanted: Option<Seq<char>>,
) -> Option<FailureView> {
    if p.state != ProviderState::Supported {
        Some(unavailable_failed(key, state_name(p.state), p.capability_path, p.problems, p.selector))
    } else if needed_option(c) is Some && option_of(p.options, needed_option(c)->0) != Some(JsonView::Bool(true)) {
        Some(unavailable_failed(key, "unsupported"@, p.capability_path, seq![], p.selector))
    } else if c == QueryCommand::ExecuteCommand && !offers(p.options, or_empty(wanted)) {
        Some(unavailable_failed(key, "unsupported"@, p.capability_path, seq![], p.selector))
    } else if selector_of(p) is Some && document is Some && !selector_admits(selector_of(p)->0, document->0) {
        Some(unavailable_failed(key, "unsupported"@, p.capability_path, seq![], selector_of(p)))
    } else {
        None
    }
}

impl CapabilitiesView {
    /// The capability that serves a Query: under the one name or the other.
    pub open spec fn provider(self, key: Seq<char>, capability: Seq<char>) -> Option<ProviderView> {
        if self.providers.dom().contains(key) {
            Some(self.providers[key])
        } else if self.providers.dom().contains(capability) {
            Some(self.providers[capability])
        } else {
            None
        }
    }

    /// Why the server does not support a Query.
    pub open spec fn problem(
        self,
        c: QueryCommand,
        document: Option<DocumentView>,
        wanted: Option<Seq<char>>,
    ) -> Option<FailureView> {
        match command_provider(c) {
            None => None,
            Some((key, capability)) => match self.provider(key, capability) {
                None => Some(
                    unavailable_failed(key, "unsupported"@, "capabilities."@ + capability, seq![], None),
                ),
                Some(p) => provider_problem(p, key, c, document, wanted),
            },
        }
    }

    /// Whether the server reports progress of a Query.
    pub open spec fn progress(self, c: QueryCommand) -> bool {
        match command_provider(c) {
            None => false,
            Some((key, capability)) => match self.provider(key, capability) {
                None => false,
                Some(p) => option_of(p.options, "workDoneProgress"@) == Some(JsonView::Bool(true)),
            },
        }
    }
}

fn option_value<'a>(options: &'a Option<Json>, name: &str) -> (r: Option<&'a Json>)
    ensures
        opt_ref_view(r) == option_of(opt_view(*options), name@),
{
    match options {
        Some(options) => options.get(name),
        None => None,
    }
}

fn is_on(value: Option<&Json>) -> (r: bool)
    ensures
        r == (opt_ref_view(value) == Some(JsonView::Bool(true))),
{
    match value {
        Some(Json::Bool(b)) => *b,
        _ => false,
    }
}

fn offers_command(options: &Option<Json>, wanted: &str) -> (r: bool)
    ensures
        r == offers(opt_view(*options), wanted@),
{
    let items: &Vec<Json> = match option_value(options, "commands") {
        Some(Json::Array(items)) => items,
        _ => {
            return false;
        },
    };
    let ghost all = array_view(items@);
    let mut i: usize = 0;
    while i < items.len()
        invariant
            i <= items@.len(),
            all == array_view(items@),
            option_of(opt_view(*options), "commands"@) == Some(JsonView::Array(all)),
            forall|k: int| 0 <= k < i ==> #[trigger] all[k] != JsonView::Text(wanted@),
        decreases items.len() - i,
    {
        assert(all[i as int] == items@[i as int]@);
        if let Json::Text(text) = &items[i] {
            if same(text.as_str(), wanted) {
                assert(all[i as int] == JsonView::Text(wanted@));
                assert(all.contains(JsonView::Text(wanted@)));
                return true;
            }
        }
        i += 1;
    }
    false
}

fn check_provider(
    p: &Provider,
    key: &str,
    command: QueryCommand,
    document: Option<&DocumentSnapshot>,
    wanted: Option<&String>,
) -> (r: Result<(), ContractFailure>)
    ensures
        ({
            let problem = provider_problem(p@, key@, command, opt_ref_view(document), opt_ref_view(wanted));
            match r {
                Ok(_) => problem is None,
                Err(f) => problem == Some(f@),
            }
        }),
{
    let path: &str = p.capability_path.as_str();
    let none: Vec<Json> = Vec::new();
    assert(array_view(none@) =~= seq![]);
    if p.state != ProviderState::Supported {
        return Err(unavailable(key, p.state.name(), path, copy_items(&p.problems), p.selector.as_ref()));
    }
    let needed: Option<&str> = match command {
        QueryCommand::PrepareRename => Some("prepareProvider"),
        QueryCommand::ResolveCodeAction => Some("resolveProvider"),
        QueryCommand::WorkspaceDiagnostics => Some("workspaceDiagnostics"),
        _ => None,
    };
    if let Some(name) = needed {
        if !is_on(option_value(&p.options, name)) {
            return Err(unavailable(key, "unsupported", path, none, p.selector.as_ref()));
        }
    }
    if command == QueryCommand::ExecuteCommand {
        let name: &str = match wanted {
            Some(name) => name.as_str(),
            None => "",
        };
        if !offers_command(&p.options, name) {
            return Err(unavailable(key, "unsupported", path, none, p.selector.as_ref()));
        }
    }
    let selector: Option<&Json> = match &p.selector {
        Some(selector) => Some(selector),
        None => option_value(&p.options, "documentSelector"),
    };
    match (selector, document) {
        (Some(filters), Some(document)) => {
            if !selector_matches(filters, document) {
                return Err(unavailable(key, "unsupported", path, none, selector));
            }
        },
        _ => {},
    }
    Ok(())
}

impl Capabilities {
    /// The capabilities that a server reports.
    pub fn from_owner_result(owner_result: &Json) -> (r: Self)
        ensures
            r@ == reported_capabilities(owner_result@),
    {
        let mut providers: SortedMap<String, Provider> = SortedMap::new();
        let ghost all = fields_of(owner_result@.get("providers"@));
        assert(all.take(0) =~= Seq::<(Seq<char>, JsonView)>::empty());
        match owner_result.get("providers") {
            Some(Json::Object(fields)) => {
                let mut i: usize = 0;
                assert(all == object_view(fields@));
                while i < fields.len()
                    invariant
                        i <= fields@.len(),
                        all == object_view(fields@),
                        providers@ == providers_of(all.take(i as int)),
                    decreases fields.len() - i,
                {
                    proof {
                        assert(all[i as int] == (fields@[i as int].0@, fields@[i as int].1@));
                        assert(all.take(i + 1).drop_last() =~= all.take(i as int));
                        assert(all.take(i + 1).last() == all[i as int]);
                    }
                    let provider: Provider = read_provider(fields[i].0.as_str(), &fields[i].1);
                    providers.insert(fields[i].0.clone(), provider);
                    i += 1;
                }
                assert(all.take(i as int) =~= all);
            },
            _ => {
                assert(all =~= Seq::<(Seq<char>, JsonView)>::empty());
            },
        }
        Capabilities { providers, initialize_result: copy_value(owner_result.get("initializeResult")) }
    }

    fn find(&self, requirement: ProviderRequirement) -> (r: Option<&Provider>)
        ensures
            opt_ref_view(r) == self@.provider(requirement.key@, requirement.capability@),
    {
        match self.providers.get(&requirement.key.to_owned()) {
            Some(p) => Some(p),
            None => self.providers.get(&requirement.capability.to_owned()),
        }
    }

    /// Refuses a Query that the server does not support.
    pub fn require(
        &self,
        command: QueryCommand,
        document: Option<&DocumentSnapshot>,
        wanted: Option<&String>,
    ) -> (r: Result<(), ContractFailure>)
        ensures
            ({
                let problem = self@.problem(command, opt_ref_view(document), opt_ref_view(wanted));
                match r {
                    Ok(_) => problem is None,
                    Err(f) => problem == Some(f@),
                }
            }),
    {
        match command.provider() {
            None => Ok(()),
            Some(requirement) => match self.find(requirement) {
                Some(p) => check_provider(p, requirement.key, command, document, wanted),
                None => {
                    let none: Vec<Json> = Vec::new();
                    assert(array_view(none@) =~= seq![]);
                    Err(
                        unavailable(
                            requirement.key,
                            "unsupported",
                            concat("capabilities.", requirement.capability).as_str(),
                            none,
                            None,
                        ),
                    )
                },
            },
        }
    }

    /// Whether the server reports progress of a Query.
    pub fn work_done_progress(&self, command: QueryCommand) -> (r: bool)
        ensures
            r == self@.progress(command),
    {
        match command.provider() {
            None => false,
            Some(requirement) => match self.find(requirement) {
                Some(p) => is_on(option_value(&p.options, "workDoneProgress")),
                None => false,
            },
        }
    }
}

/// A capability in JSON.
pub open spec fn provider_json(p: ProviderView) -> JsonView {
    JsonView::Object(
        compact(
            seq![
                ("capabilityPath"@, JsonView::Text(p.capability_path)),
                ("options"@, or_null(p.options)),
                ("problems"@, JsonView::Array(p.problems)),
                ("state"@, JsonView::Text(state_name(p.state))),
            ],
        ),
    )
}

fn provider_value(p: &Provider) -> (r: Json)
    ensures
        r@ == provider_json(p@),
{
    let mut o: Vec<(String, Json)> = Vec::new();
    assert(object_view(o@) =~= seq![]);
    push_field(&mut o, "capabilityPath", text_value(p.capability_path.as_str()));
    push_field(&mut o, "options", copy_or_null(p.options.as_ref()));
    push_field(&mut o, "problems", Json::Array(copy_items(&p.problems)));
    push_field(&mut o, "state", text_value(p.state.name()));
    assert(object_view(o@) =~= seq![
        ("capabilityPath"@, JsonView::Text(p@.capability_path)),
        ("options"@, or_null(p@.options)),
        ("problems"@, JsonView::Array(p@.problems)),
        ("state"@, JsonView::Text(state_name(p@.state))),
    ]);
    compact_object(o)
}

/// The capabilities in JSON, in the order of their names.
pub open spec fn providers_json(providers: Map<Seq<char>, ProviderView>) -> JsonView {
    let names = listing::<String>(providers.dom());
    JsonView::Object(Seq::new(names.len(), |i: int| (names[i], provider_json(providers[names[i]]))))
}

/// What is reported of the capabilities, with or without what the server said.
pub open spec fn capabilities_result(c: CapabilitiesView, include_raw: bool) -> JsonView {
    JsonView::Object(
        seq![("clientProfileVersion"@, JsonView::Int(1))] + (if include_raw && c.initialize_result is Some {
            seq![("initializeResult"@, c.initialize_result->0)]
        } else {
            seq![]
        }) + seq![
            ("protocolBaseline"@, JsonView::Text("3.17"@)),
            ("providers"@, providers_json(c.providers)),
        ],
    )
}

/// The report of the capabilities.
pub open spec fn capabilities_json(context: JsonView, c: CapabilitiesView, include_raw: bool) -> JsonView {
    JsonView::Object(
        seq![
            ("command"@, JsonView::Array(seq![JsonView::Text("capabilities"@)])),
            ("context"@, context),
            ("ok"@, JsonView::Bool(true)),
            ("result"@, capabilities_result(c, include_raw)),
            ("schemaVersion"@, JsonView::Int(1)),
        ],
    )
}

fn providers_value(providers: &SortedMap<String, Provider>) -> (r: Json)
    ensures
        r@ == providers_json(providers@),
{
    let n: usize = providers.len();
    let ghost names = providers.keys();
    let mut o: Vec<(String, Json)> = Vec::new();
    let mut i: usize = 0;
    let ghost whole = Seq::new(names.len(), |k: int| (names[k], provider_json(providers@[names[k]])));
    assert(object_view(o@) =~= whole.take(0));
    while i < n
        invariant
            i <= n,
            n == names.len(),
            names == providers.keys(),
            whole == Seq::new(names.len(), |k: int| (names[k], provider_json(providers@[names[k]]))),
            object_view(o@) == whole.take(i as int),
        decreases n - i,
    {
        let ghost before = object_view(o@);
        push_field(&mut o, providers.key_at(i).as_str(), provider_value(providers.value_at(i)));
        assert(object_view(o@) =~= before.push(whole[i as int]));
        assert(whole.take(i + 1) =~= before.push(whole[i as int]));
        i += 1;
    }
    assert(whole.take(i as int) =~= whole);
    Json::Object(o)
}

/// The report of the capabilities.
pub fn capabilities_envelope(context: Json, capabilities: &Capabilities, include_raw: bool) -> (r: Json)
    ensures
        r@ == capabilities_json(context@, capabilities@, include_raw),
{
    let ghost c = capabilities@;
    let mut o: Vec<(String, Json)> = Vec::new();
    assert(object_view(o@) =~= seq![]);
    push_field(&mut o, "clientProfileVersion", Json::Unsigned(1));
    if include_raw {
        if let Some(value) = &capabilities.initialize_result {
            push_field(&mut o, "initializeResult", value.copy());
        }
    }
    push_field(&mut o, "protocolBaseline", text_value("3.17"));
    push_field(&mut o, "providers", providers_value(&capabilities.providers));
    assert(object_view(o@) =~= capabilities_result(c, include_raw)->Object_0);
    let mut names: Vec<Json> = Vec::new();
    names.push(text_value("capabilities"));
    assert(array_view(names@) =~= seq![JsonView::Text("capabilities"@)]);
    let ghost said = context@;
    let mut e: Vec<(String, Json)> = Vec::new();
    assert(object_view(e@) =~= seq![]);
    push_field(&mut e, "command", Json::Array(names));
    push_field(&mut e, "context", context);
    push_field(&mut e, "ok", Json::Bool(true));
    push_field(&mut e, "result", Json::Object(o));
    push_field(&mut e, "schemaVersion", Json::Unsigned(1));
    assert(object_view(e@) =~= capabilities_json(said, c, include_raw)->Object_0);
    Json::Object(e)
}

/// A Query passes only where the server supports it and, where a document is
/// asked about, admits the document.
pub proof fn law_queries_need_support(
    caps: CapabilitiesView,
    c: QueryCommand,
    document: Option<DocumentView>,
    wanted: Option<Seq<char>>,
)
    requires
        command_provider(c) is Some,
        caps.problem(c, document, wanted) is None,
    ensures
        ({
            let (key, capability) = command_provider(c)->0;
            caps.provider(key, capability) matches Some(p) && p.state == ProviderState::Supported && (document is Some
                && selector_of(p) is Some ==> selector_admits(selector_of(p)->0, document->0))
        }),
{
}

/// A refused Query was not sent.
pub proof fn law_refused_queries_are_not_sent(
    caps: CapabilitiesView,
    c: QueryCommand,
    document: Option<DocumentView>,
    wanted: Option<Seq<char>>,
)
    ensures
        caps.problem(c, document, wanted) matches Some(f) ==> f.code == "capability_unavailable"@ && f.delivery
            == "not_sent"@,
{
}

} // verus!
