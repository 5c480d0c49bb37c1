//! Granting, denying, revoking and checking trust.

use vstd::prelude::*;

use crate::config_checks::{selection_failed, server_selection_failure};
use crate::config_servers::add_names;
use crate::configuration::EffectiveServer;
use crate::failure::{ContractFailure, FailureView, failed, failure};
use crate::json::{
    Json,
    JsonView,
    array_view,
    object2,
    object3,
    object4,
    object_view,
    opt_text_value,
    opt_text_view,
    push_field,
    text_value,
};
use crate::manifest::{PathView, optional_text_field, push_optional_text};
use crate::path::{NativePath, path_text};
use crate::plan_tree::lemma_filter_take;
use crate::ranking::{Ranked, in_order, law_ranked, lemma_ranked_contains};
use crate::reports::texts_json;
use crate::sorted::{Replica, SortedMap, listing};
use crate::store::texts_value;
use crate::text::{concat, copy_opt, opt_ref_view, opt_view, same, views};
use crate::timing::{LockAttempt, LockStep, LockStepView};
use crate::trust::{
    CurrentDeclaration,
    DeclarationView,
    StoredTrustRecord,
    StoredTrustState,
    TrustStateFile,
    TrustView,
    aggregate_digest,
    aggregate_of,
    changed_fields,
    fields_changed,
    find_record,
    forget_record,
    other_than,
    record_of,
    recorded_trust,
    upsert_record,
    upserted,
};

verus! {

/// The version in which trust is recorded.
pub const TRUST_STATE_FORMAT_VERSION: u32 = 1;

/// The failure of an authorization.
pub open spec fn trust_failed(
    code: Seq<char>,
    message: Seq<char>,
    delivery: Seq<char>,
    data: JsonView,
) -> FailureView {
    failed(3, "blocked"@, code, message, "authorize"@, delivery, "after_change"@, data)
}

/// The failure of a trust command.
pub fn trust_failure(code: &str, message: &str, data: Json) -> (r: ContractFailure)
    ensures
        r@ == trust_failed(code@, message@, "not_applicable"@, data@),
{
    failure(3, "blocked", code, message, "authorize", "not_applicable", "after_change", data)
}

/// The failure of launching what is not trusted.
pub fn project_trust_failure(code: &str, message: &str, data: Json) -> (r: ContractFailure)
    ensures
        r@ == trust_failed(code@, message@, "not_sent"@, data@),
{
    failure(3, "blocked", code, message, "authorize", "not_sent", "after_change", data)
}

/// The command that would trust a server.
pub open spec fn grant_command(workspace: Seq<char>, server: Seq<char>, digest: Seq<char>) -> JsonView {
    texts_json(
        seq!["trust"@, "grant"@, "--workspace"@, workspace, "--server"@, server, "--digest"@, digest],
    )
}

fn grant_command_value(workspace: &str, server: &str, digest: &str) -> (r: Json)
    ensures
        r@ == grant_command(workspace@, server@, digest@),
{
    let list: Vec<String> = vec![
        "trust".to_owned(),
        "grant".to_owned(),
        "--workspace".to_owned(),
        workspace.to_owned(),
        "--server".to_owned(),
        server.to_owned(),
        "--digest".to_owned(),
        digest.to_owned(),
    ];
    assert(views(list@) =~= seq![
        "trust"@,
        "grant"@,
        "--workspace"@,
        workspace@,
        "--server"@,
        server@,
        "--digest"@,
        digest@,
    ]);
    texts_value(&list)
}

/// The command that would forget what is recorded of a server.
pub open spec fn revoke_command(workspace: Seq<char>, server: Seq<char>) -> JsonView {
    texts_json(seq!["trust"@, "revoke"@, "--workspace"@, workspace, "--server"@, server])
}

fn revoke_command_value(workspace: &str, server: &str) -> (r: Json)
    ensures
        r@ == revoke_command(workspace@, server@),
{
    let list: Vec<String> = vec![
        "trust".to_owned(),
        "revoke".to_owned(),
        "--workspace".to_owned(),
        workspace.to_owned(),
        "--server".to_owned(),
        server.to_owned(),
    ];
    assert(views(list@) =~= seq!["trust"@, "revoke"@, "--workspace"@, workspace@, "--server"@, server@]);
    texts_value(&list)
}

/// Why a declaration may not be launched, by what is recorded of it.
pub open spec fn trust_problem(
    record: Option<TrustView>,
    d: DeclarationView,
    workspace_uri: Seq<char>,
    workspace: Seq<char>,
    server: Seq<char>,
) -> Option<FailureView> {
    match record {
        None => Some(
            trust_failed(
                "project_trust_required"@,
                "Project-controlled language-server configuration requires Trust."@,
                "not_sent"@,
                JsonView::Object(
                    seq![
                        ("digest"@, JsonView::Text(d.digest)),
                        ("requiredCommand"@, grant_command(workspace, server, d.digest)),
                        ("server"@, JsonView::Text(server)),
                        ("workspaceUri"@, JsonView::Text(workspace_uri)),
                    ],
                ),
            ),
        ),
        Some(r) => if r.state == StoredTrustState::Denied {
            Some(
                trust_failed(
                    "project_trust_denied"@,
                    "Project-controlled language-server configuration has been denied."@,
                    "not_sent"@,
                    JsonView::Object(
                        seq![
                            ("digest"@, JsonView::Text(d.digest)),
                            ("requiredCommand"@, revoke_command(workspace, server)),
                            ("server"@, JsonView::Text(server)),
                            ("workspaceUri"@, JsonView::Text(workspace_uri)),
                        ],
                    ),
                ),
            )
        } else if r.declaration_digest == Some(d.digest) {
            None
        } else {
            Some(
                trust_failed(
                    "project_trust_changed"@,
                    "Project-controlled language-server configuration changed after it was trusted."@,
                    "not_sent"@,
                    changed_data(r, d, workspace_uri, workspace, server),
                ),
            )
        },
    }
}

/// What is reported of a declaration that changed after it was trusted.
pub open spec fn changed_data(
    r: TrustView,
    d: DeclarationView,
    workspace_uri: Seq<char>,
    workspace: Seq<char>,
    server: Seq<char>,
) -> JsonView {
    JsonView::Object(
        seq![
            ("changedFields"@, texts_json(fields_changed(r.field_digests, d.field_digests))),
            ("currentDigest"@, JsonView::Text(d.digest)),
            ("recordedDigest"@, opt_text_view(r.declaration_digest)),
            ("requiredCommand"@, grant_command(workspace, server, d.digest)),
            ("server"@, JsonView::Text(server)),
            ("workspaceUri"@, JsonView::Text(workspace_uri)),
        ],
    )
}

fn changed_value(
    r: &StoredTrustRecord,
    d: &CurrentDeclaration,
    workspace_uri: &str,
    workspace: &str,
    server: &str,
) -> (v: Json)
    ensures
        v@ == changed_data(r@, d@, workspace_uri@, workspace@, server@),
{
    let mut o: Vec<(String, Json)> = Vec::new();
    assert(object_view(o@) =~= seq![]);
    push_field(&mut o, "changedFields", texts_value(&changed_fields(&r.field_digests, Some(&d.field_digests))));
    push_field(&mut o, "currentDigest", text_value(d.digest.as_str()));
    push_field(&mut o, "recordedDigest", opt_text_value(r.declaration_digest.as_ref()));
    push_field(&mut o, "requiredCommand", grant_command_value(workspace, server, d.digest.as_str()));
    push_field(&mut o, "server", text_value(server));
    push_field(&mut o, "workspaceUri", text_value(workspace_uri));
    assert(object_view(o@) =~= changed_data(r@, d@, workspace_uri@, workspace@, server@)->Object_0);
    Json::Object(o)
}

/// Whether what is declared may be launched. Where the project declares nothing
/// of a server there is no declaration, and nothing to trust.
pub open spec fn authorization(
    records: Seq<TrustView>,
    declaration: Option<DeclarationView>,
    workspace_uri: Seq<char>,
    workspace: Seq<char>,
    server: Seq<char>,
) -> Option<FailureView> {
    match declaration {
        None => None,
        Some(d) => trust_problem(
            recorded_trust(records, workspace_uri, server),
            d,
            workspace_uri,
            workspace,
            server,
        ),
    }
}

/// Refuses to launch what the project declares and nobody trusts.
pub fn authorize_server(
    records: &Vec<StoredTrustRecord>,
    declaration: Option<&CurrentDeclaration>,
    workspace_uri: &str,
    workspace: &str,
    server: &str,
) -> (r: Result<(), ContractFailure>)
    ensures
        ({
            let problem = authorization(
                views(records@),
                opt_ref_view(declaration),
                workspace_uri@,
                workspace@,
                server@,
            );
            match r {
                Ok(_) => problem is None,
                Err(f) => problem == Some(f@),
            }
        }),
{
    let d: &CurrentDeclaration = match declaration {
        Some(d) => d,
        None => {
            return Ok(());
        },
    };
    match find_record(records, workspace_uri, server) {
        None => Err(
            project_trust_failure(
                "project_trust_required",
                "Project-controlled language-server configuration requires Trust.",
                object4(
                    "digest",
                    text_value(d.digest.as_str()),
                    "requiredCommand",
                    grant_command_value(workspace, server, d.digest.as_str()),
                    "server",
                    text_value(server),
                    "workspaceUri",
                    text_value(workspace_uri),
                ),
            ),
        ),
        Some(r) => {
            if r.state == StoredTrustState::Denied {
                return Err(
                    project_trust_failure(
                        "project_trust_denied",
                        "Project-controlled language-server configuration has been denied.",
                        object4(
                            "digest",
                            text_value(d.digest.as_str()),
                            "requiredCommand",
                            revoke_command_value(workspace, server),
                            "server",
                            text_value(server),
                            "workspaceUri",
                            text_value(workspace_uri),
                        ),
                    ),
                );
            }
            let matching: bool = match &r.declaration_digest {
                Some(digest) => same(digest.as_str(), d.digest.as_str()),
                None => false,
            };
            if matching {
                Ok(())
            } else {
                Err(
                    project_trust_failure(
                        "project_trust_changed",
                        "Project-controlled language-server configuration changed after it was trusted.",
                        changed_value(r, d, workspace_uri, workspace, server),
                    ),
                )
            }
        },
    }
}

/// The failure of trusting something else than what is declared.
pub open spec fn mismatch_failed(
    workspace_uri: Seq<char>,
    server: Option<Seq<char>>,
    expected: Seq<char>,
    actual: Seq<char>,
) -> FailureView {
    trust_failed(
        "trust_digest_mismatch"@,
        "The supplied Trust digest does not match current project configuration."@,
        "not_applicable"@,
        JsonView::Object(
            seq![
                ("actualDigest"@, JsonView::Text(actual)),
                ("expectedDigest"@, JsonView::Text(expected)),
            ] + optional_text_field("server"@, server) + seq![("workspaceUri"@, JsonView::Text(workspace_uri))],
        ),
    )
}

/// The failure of trusting something else than what is declared.
pub fn digest_mismatch_failure(workspace_uri: &str, server: Option<&str>, expected: &str, actual: &str) -> (r:
    ContractFailure)
    ensures
        r@ == mismatch_failed(workspace_uri@, opt_ref_view(server), expected@, actual@),
{
    let mut o: Vec<(String, Json)> = Vec::new();
    assert(object_view(o@) =~= seq![]);
    push_field(&mut o, "actualDigest", text_value(actual));
    push_field(&mut o, "expectedDigest", text_value(expected));
    if let Some(s) = server {
        push_field(&mut o, "server", text_value(s));
    }
    push_field(&mut o, "workspaceUri", text_value(workspace_uri));
    assert(object_view(o@) =~= mismatch_failed(
        workspace_uri@,
        opt_ref_view(server),
        expected@,
        actual@,
    ).data->Object_0);
    trust_failure(
        "trust_digest_mismatch",
        "The supplied Trust digest does not match current project configuration.",
        Json::Object(o),
    )
}

/// The servers that a grant is for, or why it is for none: all of them under the
/// digest of all, or one under its own.
pub open spec fn granted_servers(
    declarations: Map<Seq<char>, DeclarationView>,
    server: Option<Seq<char>>,
    expected: Seq<char>,
    workspace_uri: Seq<char>,
) -> Result<Seq<Seq<char>>, FailureView> {
    match server {
        None => if expected == aggregate_of(declarations) {
            Ok(listing::<String>(declarations.dom()))
        } else {
            Err(mismatch_failed(workspace_uri, None, expected, aggregate_of(declarations)))
        },
        Some(name) => if expected == declarations[name].digest {
            Ok(seq![name])
        } else {
            Err(mismatch_failed(workspace_uri, Some(name), expected, declarations[name].digest))
        },
    }
}

/// The servers that a grant is for. Without a name it is for all of them.
pub fn select_declarations(
    declarations: &SortedMap<String, CurrentDeclaration>,
    server: Option<&String>,
    expected: &str,
    workspace_uri: &str,
) -> (r: Result<Vec<String>, ContractFailure>)
    requires
        server matches Some(name) ==> declarations@.dom().contains(name@),
    ensures
        ({
            let granted = granted_servers(declarations@, opt_ref_view(server), expected@, workspace_uri@);
            match r {
                Ok(names) => granted == Ok::<Seq<Seq<char>>, FailureView>(views(names@)),
                Err(f) => granted == Err::<Seq<Seq<char>>, FailureView>(f@),
            }
        }),
        r matches Ok(names) ==> forall|i: int|
            0 <= i < names@.len() ==> declarations@.dom().contains((#[trigger] names@[i])@),
{
    match server {
        None => {
            let actual: String = aggregate_digest(declarations);
            if !same(expected, actual.as_str()) {
                return Err(digest_mismatch_failure(workspace_uri, None, expected, actual.as_str()));
            }
            let n: usize = declarations.len();
            let ghost keys = declarations.keys();
            let mut names: Vec<String> = Vec::new();
            let mut i: usize = 0;
            assert(views(names@) =~= keys.take(0));
            while i < n
                invariant
                    i <= n,
                    n == keys.len(),
                    keys == declarations.keys(),
                    views(names@) == keys.take(i as int),
                decreases n - i,
            {
                let ghost before = views(names@);
                names.push(declarations.key_at(i).clone());
                assert(views(names@) =~= before.push(keys[i as int]));
                assert(keys.take(i + 1) =~= before.push(keys[i as int]));
                i += 1;
            }
            assert(keys.take(i as int) =~= keys);
            assert forall|j: int| 0 <= j < names@.len() implies declarations@.dom().contains(
                (#[trigger] names@[j])@,
            ) by {
                assert(views(names@)[j] == keys[j]);
            }
            Ok(names)
        },
        Some(name) => match declarations.get(name) {
            Some(d) => {
                if !same(expected, d.digest.as_str()) {
                    return Err(
                        digest_mismatch_failure(workspace_uri, Some(name.as_str()), expected, d.digest.as_str()),
                    );
                }
                let mut names: Vec<String> = Vec::new();
                names.push(name.clone());
                assert(views(names@) =~= seq![name@]);
                Ok(names)
            },
            None => Ok(Vec::new()),
        },
    }
}

/// Whether a server is denied in a workspace.
pub open spec fn is_denied(records: Seq<TrustView>, workspace_uri: Seq<char>, server: Seq<char>) -> bool {
    exists|i: int|
        0 <= i < records.len() && record_of(#[trigger] records[i], workspace_uri, server) && records[i].state
            == StoredTrustState::Denied
}

/// Which of some servers are denied in a workspace.
pub open spec fn denied_in(records: Seq<TrustView>, workspace_uri: Seq<char>) -> spec_fn(Seq<char>) -> bool {
    |server: Seq<char>| is_denied(records, workspace_uri, server)
}

/// What is recorded of a declaration that is trusted.
pub open spec fn trusted_record(d: DeclarationView, workspace_uri: Seq<char>, now: Seq<char>) -> TrustView {
    TrustView {
        workspace_uri,
        server: d.server,
        state: StoredTrustState::Trusted,
        declaration_digest: Some(d.digest),
        field_digests: d.field_digests,
        executable_path: Some(d.executable_path),
        source_path: Some(d.source_path),
        updated_at: now,
    }
}

/// The records once declarations are trusted.
pub open spec fn with_trusted(
    records: Seq<TrustView>,
    declarations: Map<Seq<char>, DeclarationView>,
    names: Seq<Seq<char>>,
    workspace_uri: Seq<char>,
    now: Seq<char>,
) -> Seq<TrustView>
    decreases names.len(),
{
    if names.len() == 0 {
        records
    } else {
        upserted(
            with_trusted(records, declarations, names.drop_last(), workspace_uri, now),
            trusted_record(declarations[names.last()], workspace_uri, now),
        )
    }
}

/// The failure of trusting what is denied without saying so.
pub open spec fn replacement_failed(denied: Seq<Seq<char>>, all: bool) -> FailureView {
    trust_failed(
        "denial_replacement_required"@,
        "An explicit Denial replacement flag is required."@,
        "not_applicable"@,
        JsonView::Object(
            seq![
                (
                    "requiredCommand"@,
                    texts_json(
                        if all {
                            seq!["trust"@, "grant"@, "--all"@, "--replace-denials"@]
                        } else {
                            seq!["trust"@, "grant"@, "--server"@, "--replace-denial"@]
                        },
                    ),
                ),
                ("servers"@, texts_json(denied)),
            ],
        ),
    )
}

fn denied_now(records: &Vec<StoredTrustRecord>, workspace_uri: &str, server: &str) -> (r: bool)
    ensures
        r == is_denied(views(records@), workspace_uri@, server@),
{
    let ghost all = views(records@);
    let mut i: usize = 0;
    while i < records.len()
        invariant
            i <= records@.len(),
            all == views(records@),
            forall|j: int|
                0 <= j < i ==> !(record_of(#[trigger] all[j], workspace_uri@, server@) && all[j].state
                    == StoredTrustState::Denied),
        decreases records.len() - i,
    {
        assert(all[i as int] == records@[i as int]@);
        if same(records[i].workspace_uri.as_str(), workspace_uri) && same(records[i].server.as_str(), server)
            && records[i].state == StoredTrustState::Denied {
            assert(record_of(all[i as int], workspace_uri@, server@));
            return true;
        }
        i += 1;
    }
    false
}

fn denied_among(records: &Vec<StoredTrustRecord>, workspace_uri: &str, names: &Vec<String>) -> (r: Vec<String>)
    ensures
        views(r@) == views(names@).filter(denied_in(views(records@), workspace_uri@)),
{
    let ghost all = views(names@);
    let ghost p = denied_in(views(records@), workspace_uri@);
    let mut r: Vec<String> = Vec::new();
    let mut i: usize = 0;
    proof {
        assert(all.take(0).filter(p) =~= seq![]) by {
            reveal(Seq::filter);
        }
        assert(views(r@) =~= seq![]);
    }
    while i < names.len()
        invariant
            i <= names@.len(),
            all == views(names@),
            p == denied_in(views(records@), workspace_uri@),
            views(r@) == all.take(i as int).filter(p),
        decreases names.len() - i,
    {
        proof { lemma_filter_take(all, p, i as int); }
        let ghost before = views(r@);
        assert(all[i as int] == names@[i as int]@);
        if denied_now(records, workspace_uri, names[i].as_str()) {
            r.push(names[i].clone());
            assert(views(r@) =~= before.push(all[i as int]));
        }
        i += 1;
    }
    assert(all.take(i as int) =~= all);
    r
}

fn replacement_failure(denied: &Vec<String>, all: bool) -> (r: ContractFailure)
    ensures
        r@ == replacement_failed(views(denied@), all),
{
    let command: Vec<String> = if all {
        vec![
            "trust".to_owned(),
            "grant".to_owned(),
            "--all".to_owned(),
            "--replace-denials".to_owned(),
        ]
    } else {
        vec![
            "trust".to_owned(),
            "grant".to_owned(),
            "--server".to_owned(),
            "--replace-denial".to_owned(),
        ]
    };
    proof {
        if all {
            assert(views(command@) =~= seq!["trust"@, "grant"@, "--all"@, "--replace-denials"@]);
        } else {
            assert(views(command@) =~= seq!["trust"@, "grant"@, "--server"@, "--replace-denial"@]);
        }
    }
    trust_failure(
        "denial_replacement_required",
        "An explicit Denial replacement flag is required.",
        object2("requiredCommand", texts_value(&command), "servers", texts_value(denied)),
    )
}

/// Records that declarations are trusted, unless one of them is denied and the
/// denial is not to be replaced.
pub fn grant_trust(
    state: &mut TrustStateFile,
    declarations: &SortedMap<String, CurrentDeclaration>,
    names: &Vec<String>,
    all: bool,
    replace_denial: bool,
    workspace_uri: &str,
    now: &str,
) -> (r: Result<(), ContractFailure>)
    requires
        forall|i: int| 0 <= i < names@.len() ==> declarations@.dom().contains((#[trigger] names@[i])@),
    ensures
        ({
            let denied = views(names@).filter(denied_in(views(old(state).records@), workspace_uri@));
            match r {
                Ok(_) => (denied.len() == 0 || replace_denial) && views(final(state).records@) == with_trusted(
                    views(old(state).records@),
                    declarations@,
                    views(names@),
                    workspace_uri@,
                    now@,
                ),
                Err(f) => denied.len() > 0 && !replace_denial && f@ == replacement_failed(denied, all)
                    && views(final(state).records@) == views(old(state).records@),
            }
        }),
        final(state).format_version == old(state).format_version,
{
    let denied: Vec<String> = denied_among(&state.records, workspace_uri, names);
    if denied.len() > 0 && !replace_denial {
        return Err(replacement_failure(&denied, all));
    }
    let ghost start = views(state.records@);
    let ghost list = views(names@);
    let mut i: usize = 0;
    assert(list.take(0) =~= Seq::<Seq<char>>::empty());
    while i < names.len()
        invariant
            i <= names@.len(),
            list == views(names@),
            forall|k: int| 0 <= k < names@.len() ==> declarations@.dom().contains((#[trigger] names@[k])@),
            views(state.records@) == with_trusted(start, declarations@, list.take(i as int), workspace_uri@, now@),
            state.format_version == old(state).format_version,
        decreases names.len() - i,
    {
        proof {
            assert(list.take(i + 1).drop_last() =~= list.take(i as int));
            assert(list.take(i + 1).last() == names@[i as int]@);
        }
        match declarations.get(&names[i]) {
            Some(d) => {
                upsert_record(
                    state,
                    StoredTrustRecord {
                        workspace_uri: workspace_uri.to_owned(),
                        server: d.server.clone(),
                        state: StoredTrustState::Trusted,
                        declaration_digest: Some(d.digest.clone()),
                        field_digests: d.field_digests.replica(),
                        executable_path: Some(d.executable_path.clone()),
                        source_path: Some(d.source_path.clone()),
                        updated_at: now.to_owned(),
                    },
                );
            },
            None => {},
        }
        i += 1;
    }
    assert(list.take(i as int) =~= list);
    Ok(())
}

/// What is recorded of a server that is denied.
pub open spec fn denied_record(workspace_uri: Seq<char>, server: Seq<char>, source_path: Seq<char>, now: Seq<char>) -> TrustView {
    TrustView {
        workspace_uri,
        server,
        state: StoredTrustState::Denied,
        declaration_digest: None,
        field_digests: Map::empty(),
        executable_path: None,
        source_path: Some(source_path),
        updated_at: now,
    }
}

/// Records that a server is denied, and gives the record.
pub fn deny_trust(state: &mut TrustStateFile, workspace_uri: &str, server: &str, source_path: &str, now: &str) -> (r:
    StoredTrustRecord)
    ensures
        r@ == denied_record(workspace_uri@, server@, source_path@, now@),
        views(final(state).records@) == upserted(views(old(state).records@), r@),
        final(state).format_version == old(state).format_version,
{
    let record = StoredTrustRecord {
        workspace_uri: workspace_uri.to_owned(),
        server: server.to_owned(),
        state: StoredTrustState::Denied,
        declaration_digest: None,
        field_digests: SortedMap::new(),
        executable_path: None,
        source_path: Some(source_path.to_owned()),
        updated_at: now.to_owned(),
    };
    let copy: StoredTrustRecord = record.replica();
    upsert_record(state, copy);
    record
}

/// Forgets what is recorded of a server.
pub fn revoke_trust(state: &mut TrustStateFile, workspace_uri: &str, server: &str)
    ensures
        views(final(state).records@) == views(old(state).records@).filter(other_than(workspace_uri@, server@)),
        final(state).format_version == old(state).format_version,
{
    forget_record(state, workspace_uri, server);
}

/// How a record stands to what is declared.
pub open spec fn standing(r: TrustView, d: Option<DeclarationView>) -> Seq<char> {
    if r.state == StoredTrustState::Denied {
        "denied"@
    } else if d is Some && r.declaration_digest == Some(d->0.digest) {
        "trusted"@
    } else {
        "changed"@
    }
}

/// The digests of a declaration's fields, where there is one.
pub open spec fn declared_digests(d: Option<DeclarationView>) -> Map<Seq<char>, Seq<char>> {
    match d {
        Some(d) => d.field_digests,
        None => Map::empty(),
    }
}

/// A record in JSON.
pub open spec fn record_json(r: TrustView, d: Option<DeclarationView>) -> JsonView {
    let state = standing(r, d);
    JsonView::Object(
        seq![
            (
                "changedFields"@,
                texts_json(
                    if state == "changed"@ {
                        fields_changed(r.field_digests, declared_digests(d))
                    } else {
                        Seq::empty()
                    },
                ),
            ),
        ] + optional_text_field(
            "currentDigest"@,
            match d {
                Some(d) => Some(d.digest),
                None => None,
            },
        ) + optional_text_field("declarationDigest"@, r.declaration_digest) + optional_text_field(
            "executablePath"@,
            match d {
                Some(d) => Some(d.executable_path),
                None => r.executable_path,
            },
        ) + (if state != "trusted"@ {
            seq![("requiredCommand"@, texts_json(seq!["trust"@, "grant"@]))]
        } else {
            seq![]
        }) + seq![("server"@, JsonView::Text(r.server))] + optional_text_field(
            "sourcePath"@,
            match d {
                Some(d) => Some(d.source_path),
                None => r.source_path,
            },
        ) + seq![
            ("state"@, JsonView::Text(state)),
            ("updatedAt"@, JsonView::Text(r.updated_at)),
            ("workspaceUri"@, JsonView::Text(r.workspace_uri)),
        ],
    )
}

fn grant_words() -> (r: Json)
    ensures
        r@ == texts_json(seq!["trust"@, "grant"@]),
{
    let list: Vec<String> = vec!["trust".to_owned(), "grant".to_owned()];
    assert(views(list@) =~= seq!["trust"@, "grant"@]);
    texts_value(&list)
}

/// A record in JSON, beside what is declared now.
pub fn render_record(record: &StoredTrustRecord, current: Option<&CurrentDeclaration>) -> (r: Json)
    ensures
        r@ == record_json(record@, opt_ref_view(current)),
{
    proof {
        reveal_strlit("denied");
        reveal_strlit("trusted");
        reveal_strlit("changed");
        assert("denied"@.len() != "trusted"@.len());
        assert("changed"@[0] != "trusted"@[0]);
        assert("denied"@.len() != "changed"@.len());
    }
    let matching: bool = match (current, &record.declaration_digest) {
        (Some(d), Some(digest)) => same(digest.as_str(), d.digest.as_str()),
        _ => false,
    };
    let none: Vec<String> = Vec::new();
    assert(views(none@) =~= Seq::<Seq<char>>::empty());
    let (state, fields): (&str, Vec<String>) = match record.state {
        StoredTrustState::Denied => ("denied", none),
        StoredTrustState::Trusted => if matching {
            ("trusted", none)
        } else {
            (
                "changed",
                changed_fields(
                    &record.field_digests,
                    match current {
                        Some(d) => Some(&d.field_digests),
                        None => None,
                    },
                ),
            )
        },
    };
    assert(state@ == standing(record@, opt_ref_view(current)));
    let digest: Option<String> = match current {
        Some(d) => Some(d.digest.clone()),
        None => None,
    };
    let executable: Option<String> = match current {
        Some(d) => Some(d.executable_path.clone()),
        None => copy_opt(&record.executable_path),
    };
    let source: Option<String> = match current {
        Some(d) => Some(d.source_path.clone()),
        None => copy_opt(&record.source_path),
    };
    let mut o: Vec<(String, Json)> = Vec::new();
    assert(object_view(o@) =~= seq![]);
    push_field(&mut o, "changedFields", texts_value(&fields));
    push_optional_text(&mut o, "currentDigest", &digest);
    push_optional_text(&mut o, "declarationDigest", &record.declaration_digest);
    push_optional_text(&mut o, "executablePath", &executable);
    if !same(state, "trusted") {
        push_field(&mut o, "requiredCommand", grant_words());
    }
    push_field(&mut o, "server", text_value(record.server.as_str()));
    push_optional_text(&mut o, "sourcePath", &source);
    push_field(&mut o, "state", text_value(state));
    push_field(&mut o, "updatedAt", text_value(record.updated_at.as_str()));
    push_field(&mut o, "workspaceUri", text_value(record.workspace_uri.as_str()));
    assert(object_view(o@) =~= record_json(record@, opt_ref_view(current))->Object_0);
    Json::Object(o)
}

/// A server of which nothing is recorded, in JSON.
pub open spec fn untrusted_json(
    workspace_uri: Seq<char>,
    server: Seq<char>,
    d: Option<DeclarationView>,
    now: Seq<char>,
) -> JsonView {
    JsonView::Object(
        seq![("changedFields"@, texts_json(Seq::empty()))] + optional_text_field(
            "currentDigest"@,
            match d {
                Some(d) => Some(d.digest),
                None => None,
            },
        ) + optional_text_field(
            "executablePath"@,
            match d {
                Some(d) => Some(d.executable_path),
                None => None,
            },
        ) + seq![
            ("requiredCommand"@, texts_json(seq!["trust"@, "grant"@])),
            ("server"@, JsonView::Text(server)),
        ] + optional_text_field(
            "sourcePath"@,
            match d {
                Some(d) => Some(d.source_path),
                None => None,
            },
        ) + seq![
            ("state"@, JsonView::Text("untrusted"@)),
            ("updatedAt"@, JsonView::Text(now)),
            ("workspaceUri"@, JsonView::Text(workspace_uri)),
        ],
    )
}

/// A server of which nothing is recorded, in JSON.
pub fn render_untrusted_record(
    workspace_uri: &str,
    server: &str,
    current: Option<&CurrentDeclaration>,
    now: &str,
) -> (r: Json)
    ensures
        r@ == untrusted_json(workspace_uri@, server@, opt_ref_view(current), now@),
{
    let none: Vec<String> = Vec::new();
    assert(views(none@) =~= Seq::<Seq<char>>::empty());
    let (digest, executable, source): (Option<String>, Option<String>, Option<String>) = match current {
        Some(d) => (Some(d.digest.clone()), Some(d.executable_path.clone()), Some(d.source_path.clone())),
        None => (None, None, None),
    };
    let mut o: Vec<(String, Json)> = Vec::new();
    assert(object_view(o@) =~= seq![]);
    push_field(&mut o, "changedFields", texts_value(&none));
    push_optional_text(&mut o, "currentDigest", &digest);
    push_optional_text(&mut o, "executablePath", &executable);
    push_field(&mut o, "requiredCommand", grant_words());
    push_field(&mut o, "server", text_value(server));
    push_optional_text(&mut o, "sourcePath", &source);
    push_field(&mut o, "state", text_value("untrusted"));
    push_field(&mut o, "updatedAt", text_value(now));
    push_field(&mut o, "workspaceUri", text_value(workspace_uri));
    assert(object_view(o@) =~= untrusted_json(workspace_uri@, server@, opt_ref_view(current), now@)->Object_0);
    Json::Object(o)
}

/// The report of a command that succeeded.
pub open spec fn ok_json(command: Seq<Seq<char>>, result: JsonView) -> JsonView {
    JsonView::Object(
        seq![
            ("command"@, texts_json(command)),
            ("ok"@, JsonView::Bool(true)),
            ("result"@, result),
            ("schemaVersion"@, JsonView::Int(1)),
        ],
    )
}

/// The report of a command that succeeded.
pub fn ok_value(command: &Vec<String>, result: Json) -> (r: Json)
    ensures
        r@ == ok_json(views(command@), result@),
{
    object4(
        "command",
        texts_value(command),
        "ok",
        Json::Bool(true),
        "result",
        result,
        "schemaVersion",
        Json::Unsigned(1),
    )
}

/// What a change of trust came to.
pub open spec fn change_result(
    workspace_uri: Seq<char>,
    aggregate: Option<Seq<char>>,
    records: Seq<JsonView>,
    signalled: Seq<Seq<char>>,
    failures: Seq<Seq<char>>,
) -> JsonView {
    JsonView::Object(
        optional_text_field("aggregateDigest"@, aggregate) + seq![
            ("ownerSignalFailures"@, texts_json(failures)),
            ("ownersSignalled"@, texts_json(signalled)),
            ("records"@, JsonView::Array(records)),
            ("workspaceUri"@, JsonView::Text(workspace_uri)),
        ],
    )
}

/// The report of a change of trust.
pub fn trust_change_envelope(
    command: &Vec<String>,
    workspace_uri: &str,
    aggregate: Option<String>,
    records: Vec<Json>,
    signalled: &Vec<String>,
    failures: &Vec<String>,
) -> (r: Json)
    ensures
        r@ == ok_json(
            views(command@),
            change_result(
                workspace_uri@,
                opt_view(aggregate),
                array_view(records@),
                views(signalled@),
                views(failures@),
            ),
        ),
{
    let mut o: Vec<(String, Json)> = Vec::new();
    assert(object_view(o@) =~= seq![]);
    push_optional_text(&mut o, "aggregateDigest", &aggregate);
    push_field(&mut o, "ownerSignalFailures", texts_value(failures));
    push_field(&mut o, "ownersSignalled", texts_value(signalled));
    push_field(&mut o, "records", Json::Array(records));
    push_field(&mut o, "workspaceUri", text_value(workspace_uri));
    assert(object_view(o@) =~= change_result(
        workspace_uri@,
        opt_view(aggregate),
        array_view(records@),
        views(signalled@),
        views(failures@),
    )->Object_0);
    ok_value(command, Json::Object(o))
}

/// The declaration of a server, where there is one.
pub open spec fn declared_for(declarations: Map<Seq<char>, DeclarationView>, server: Seq<char>) -> Option<DeclarationView> {
    if declarations.dom().contains(server) {
        Some(declarations[server])
    } else {
        None
    }
}

/// Whether a server is one that is asked for.
pub open spec fn asked_for(filter: Option<Seq<char>>, server: Seq<char>) -> bool {
    filter matches Some(f) ==> f == server
}

/// The servers whose status is asked for.
pub open spec fn status_names(
    records: Seq<TrustView>,
    declarations: Map<Seq<char>, DeclarationView>,
    workspace_uri: Seq<char>,
    filter: Option<Seq<char>>,
) -> Set<Seq<char>> {
    Set::new(
        |s: Seq<char>|
            asked_for(filter, s) && (declarations.dom().contains(s) || exists|i: int|
                0 <= i < records.len() && record_of(#[trigger] records[i], workspace_uri, s)),
    )
}

/// The status of a server, in JSON.
pub open spec fn status_json(
    records: Seq<TrustView>,
    declarations: Map<Seq<char>, DeclarationView>,
    workspace_uri: Seq<char>,
    server: Seq<char>,
    now: Seq<char>,
) -> JsonView {
    match recorded_trust(records, workspace_uri, server) {
        Some(r) => record_json(r, declared_for(declarations, server)),
        None => untrusted_json(workspace_uri, server, declared_for(declarations, server), now),
    }
}

fn status_servers(
    records: &Vec<StoredTrustRecord>,
    declarations: &SortedMap<String, CurrentDeclaration>,
    workspace_uri: &str,
    filter: &Option<String>,
) -> (r: SortedMap<String, ()>)
    ensures
        r@.dom() == status_names(views(records@), declarations@, workspace_uri@, opt_view(*filter)),
{
    let ghost all = views(records@);
    let mut names: SortedMap<String, ()> = SortedMap::new();
    assert(names@.dom() =~= Set::<Seq<char>>::empty());
    add_names(&mut names, declarations);
    let ghost declared = declarations@.dom();
    assert(names@.dom() =~= declared);
    let mut i: usize = 0;
    while i < records.len()
        invariant
            i <= records@.len(),
            all == views(records@),
            declared == declarations@.dom(),
            forall|s: Seq<char>| #[trigger]
                names@.dom().contains(s) <==> declared.contains(s) || exists|j: int|
                    0 <= j < i && record_of(#[trigger] all[j], workspace_uri@, s),
        decreases records.len() - i,
    {
        assert(all[i as int] == records@[i as int]@);
        let ghost before = names@.dom();
        if same(records[i].workspace_uri.as_str(), workspace_uri) {
            names.insert(records[i].server.clone(), ());
            proof {
                assert(record_of(all[i as int], workspace_uri@, all[i as int].server));
                assert forall|s: Seq<char>| #[trigger] names@.dom().contains(s) <==> declared.contains(s) || exists|
                    j: int,
                | 0 <= j < i + 1 && record_of(#[trigger] all[j], workspace_uri@, s) by {
                    if before.contains(s) && !declared.contains(s) {
                        let j = choose|j: int| 0 <= j < i && record_of(#[trigger] all[j], workspace_uri@, s);
                        assert(record_of(all[j], workspace_uri@, s));
                    }
                }
            }
        }
        i += 1;
    }
    let ghost everything = names@.dom();
    let n: usize = names.len();
    let ghost keys = names.keys();
    let mut asked: SortedMap<String, ()> = SortedMap::new();
    let mut k: usize = 0;
    while k < n
        invariant
            k <= n,
            n == keys.len(),
            keys == names.keys(),
            forall|s: Seq<char>| #[trigger]
                asked@.dom().contains(s) <==> asked_for(opt_view(*filter), s) && keys.take(k as int).to_set().contains(
                    s,
                ),
        decreases n - k,
    {
        proof { crate::config_servers::lemma_take_set(keys, k as int); }
        let name: &String = names.key_at(k);
        let wanted: bool = match filter {
            Some(f) => same(f.as_str(), name.as_str()),
            None => true,
        };
        if wanted {
            asked.insert(name.clone(), ());
        }
        k += 1;
    }
    proof {
        assert(keys.take(k as int) =~= keys);
        assert(asked@.dom() =~= status_names(all, declarations@, workspace_uri@, opt_view(*filter))) by {
            assert forall|s: Seq<char>| #[trigger] asked@.dom().contains(s) <==> status_names(
                all,
                declarations@,
                workspace_uri@,
                opt_view(*filter),
            ).contains(s) by {
                assert(names@.dom().contains(s) <==> keys.contains(s));
            }
        }
    }
    asked
}

/// The server that trust is granted to by name: one that the project declares
/// something of.
pub fn granted_server<'a>(servers: &'a SortedMap<String, EffectiveServer>, name: &String) -> (r: Result<
    &'a EffectiveServer,
    ContractFailure,
>)
    ensures
        if servers@.dom().contains(name@) && servers@[name@].project_fields != Set::<Seq<char>>::empty() {
            r matches Ok(s) && s@ == servers@[name@]
        } else {
            r matches Err(f) && f@ == selection_failed("The named server has no project-controlled declaration."@)
        },
{
    if let Some(server) = servers.get(name) {
        if server.project_fields.len() > 0 {
            let field: &String = server.project_fields.key_at(0);
            assert(servers@[name@].project_fields.contains(field@));
            return Ok(server);
        }
        assert(servers@[name@].project_fields =~= Set::empty());
    }
    Err(server_selection_failure("The named server has no project-controlled declaration."))
}

/// Refuses to deny a server that is not declared.
pub fn check_denied_server(servers: &SortedMap<String, EffectiveServer>, name: &String) -> (r: Result<
    (),
    ContractFailure,
>)
    ensures
        if servers@.dom().contains(name@) {
            r is Ok
        } else {
            r matches Err(f) && f@ == selection_failed("The named server has no current declaration."@)
        },
{
    if servers.contains_key(name) {
        Ok(())
    } else {
        Err(server_selection_failure("The named server has no current declaration."))
    }
}

/// What is recorded of servers, in JSON, beside what is declared now. A server
/// without a record is left out.
pub open spec fn granted_json(
    records: Seq<TrustView>,
    declarations: Map<Seq<char>, DeclarationView>,
    names: Seq<Seq<char>>,
    workspace_uri: Seq<char>,
) -> Seq<JsonView>
    decreases names.len(),
{
    if names.len() == 0 {
        Seq::empty()
    } else {
        let before = granted_json(records, declarations, names.drop_last(), workspace_uri);
        match recorded_trust(records, workspace_uri, names.last()) {
            Some(record) => before.push(
                record_json(
                    record,
                    if declarations.dom().contains(record.server) {
                        Some(declarations[record.server])
                    } else {
                        None
                    },
                ),
            ),
            None => before,
        }
    }
}

/// What is recorded of servers, in JSON, beside what is declared now. A server
/// without a record is left out.
pub fn granted_records(
    records: &Vec<StoredTrustRecord>,
    declarations: &SortedMap<String, CurrentDeclaration>,
    names: &Vec<String>,
    workspace_uri: &str,
) -> (r: Vec<Json>)
    ensures
        views(r@) == granted_json(views(records@), declarations@, views(names@), workspace_uri@),
{
    let mut list: Vec<Json> = Vec::new();
    let ghost all = views(names@);
    let mut i: usize = 0;
    assert(all.take(0) =~= Seq::empty());
    assert(views(list@) =~= Seq::<JsonView>::empty());
    while i < names.len()
        invariant
            i <= names@.len(),
            all == views(names@),
            views(list@) == granted_json(views(records@), declarations@, all.take(i as int), workspace_uri@),
        decreases names.len() - i,
    {
        let ghost before = list@;
        proof {
            assert(all.take(i + 1).drop_last() =~= all.take(i as int));
            assert(all.take(i + 1).last() == names@[i as int]@);
        }
        if let Some(record) = find_record(records, workspace_uri, names[i].as_str()) {
            list.push(render_record(record, declarations.get(&record.server)));
            assert(views(list@) =~= views(before).push(list@.last()@));
        }
        i += 1;
    }
    assert(all.take(i as int) =~= all);
    list
}

/// The report of the trust in a workspace.
pub fn trust_status(
    records: &Vec<StoredTrustRecord>,
    declarations: &SortedMap<String, CurrentDeclaration>,
    workspace_uri: &str,
    filter: &Option<String>,
    command: &Vec<String>,
    now: &str,
) -> (r: Json)
    ensures
        ({
            let names = listing::<String>(
                status_names(views(records@), declarations@, workspace_uri@, opt_view(*filter)),
            );
            r@ == ok_json(
                views(command@),
                JsonView::Object(
                    seq![
                        ("aggregateDigest"@, JsonView::Text(aggregate_of(declarations@))),
                        (
                            "records"@,
                            JsonView::Array(
                                Seq::new(
                                    names.len(),
                                    |i: int|
                                        status_json(
                                            views(records@),
                                            declarations@,
                                            workspace_uri@,
                                            names[i],
                                            now@,
                                        ),
                                ),
                            ),
                        ),
                        ("workspaceUri"@, JsonView::Text(workspace_uri@)),
                    ],
                ),
            )
        }),
{
    let asked: SortedMap<String, ()> = status_servers(records, declarations, workspace_uri, filter);
    let n: usize = asked.len();
    let ghost names = asked.keys();
    let mut list: Vec<Json> = Vec::new();
    let mut i: usize = 0;
    while i < n
        invariant
            i <= n,
            n == names.len(),
            names == asked.keys(),
            list@.len() == i,
            forall|j: int|
                0 <= j < i ==> (#[trigger] list@[j])@ == status_json(
                    views(records@),
                    declarations@,
                    workspace_uri@,
                    names[j],
                    now@,
                ),
        decreases n - i,
    {
        let name: &String = asked.key_at(i);
        let current: Option<&CurrentDeclaration> = declarations.get(name);
        assert(opt_ref_view(current) == declared_for(declarations@, name@));
        let rendered: Json = match find_record(records, workspace_uri, name.as_str()) {
            Some(record) => render_record(record, current),
            None => render_untrusted_record(workspace_uri, name.as_str(), current, now),
        };
        list.push(rendered);
        i += 1;
    }
    assert(array_view(list@) =~= Seq::new(
        names.len(),
        |k: int| status_json(views(records@), declarations@, workspace_uri@, names[k], now@),
    ));
    ok_value(
        command,
        object3(
            "aggregateDigest",
            Json::Text(aggregate_digest(declarations)),
            "records",
            Json::Array(list),
            "workspaceUri",
            text_value(workspace_uri),
        ),
    )
}

/// Which records are of a workspace, where one is asked for.
pub open spec fn of_workspace(filter: Option<Seq<char>>) -> spec_fn(TrustView) -> bool {
    |r: TrustView| filter matches Some(w) ==> w == r.workspace_uri
}

/// The report of all that is recorded of trust, in a workspace or everywhere.
pub fn trust_list(records: &Vec<StoredTrustRecord>, filter: &Option<String>, command: &Vec<String>) -> (r: Json)
    ensures
        ({
            let listed = views(records@).filter(of_workspace(opt_view(*filter)));
            r@ == ok_json(
                views(command@),
                JsonView::Array(Seq::new(listed.len(), |i: int| record_json(listed[i], None))),
            )
        }),
{
    let ghost all = views(records@);
    let ghost p = of_workspace(opt_view(*filter));
    let mut list: Vec<Json> = Vec::new();
    let mut i: usize = 0;
    proof {
        assert(all.take(0).filter(p) =~= seq![]) by {
            reveal(Seq::filter);
        }
    }
    while i < records.len()
        invariant
            i <= records@.len(),
            all == views(records@),
            p == of_workspace(opt_view(*filter)),
            list@.len() == all.take(i as int).filter(p).len(),
            forall|j: int|
                0 <= j < list@.len() ==> (#[trigger] list@[j])@ == record_json(
                    all.take(i as int).filter(p)[j],
                    None,
                ),
        decreases records.len() - i,
    {
        proof { lemma_filter_take(all, p, i as int); }
        assert(all[i as int] == records@[i as int]@);
        let wanted: bool = match filter {
            Some(w) => same(w.as_str(), records[i].workspace_uri.as_str()),
            None => true,
        };
        if wanted {
            list.push(render_record(&records[i], None));
        }
        i += 1;
    }
    proof {
        assert(all.take(i as int) =~= all);
        let listed = all.filter(p);
        assert(array_view(list@) =~= Seq::new(listed.len(), |k: int| record_json(listed[k], None)));
    }
    ok_value(command, Json::Array(list))
}

/// The path of the file in which trust is recorded, in text.
pub open spec fn trust_file_place(user_state: Option<PathView>) -> Seq<char> {
    match user_state {
        Some(p) => path_text(p.push("trust-v1.json"@)),
        None => ""@,
    }
}

/// The path of the file in which trust is recorded, in text, where there is one.
pub fn trust_state_paths_unchecked(user_state: &Option<NativePath>) -> (r: String)
    ensures
        r@ == trust_file_place(opt_view(*user_state)),
{
    match user_state {
        Some(p) => p.join("trust-v1.json").to_text(),
        None => "".to_owned(),
    }
}

/// The failure of a step on the record of trust.
pub open spec fn trust_state_failed(user_state: Option<PathView>, message: Seq<char>) -> FailureView {
    failed(
        4,
        "unavailable"@,
        "state_unavailable"@,
        message,
        "persist"@,
        "not_applicable"@,
        "after_change"@,
        JsonView::Object(
            seq![
                ("path"@, JsonView::Text(trust_file_place(user_state))),
                ("recordType"@, JsonView::Text("trust"@)),
            ],
        ),
    )
}

/// The failure of a step on the record of trust.
pub fn trust_state_failure(user_state: &Option<NativePath>, message: &str) -> (r: ContractFailure)
    ensures
        r@ == trust_state_failed(opt_view(*user_state), message@),
{
    failure(
        4,
        "unavailable",
        "state_unavailable",
        message,
        "persist",
        "not_applicable",
        "after_change",
        object2(
            "path",
            Json::Text(trust_state_paths_unchecked(user_state)),
            "recordType",
            text_value("trust"),
        ),
    )
}

/// Where trust is recorded.
pub struct TrustStatePaths {
    pub directory: NativePath,
    pub file: NativePath,
    pub lock: NativePath,
}

/// What follows an attempt to take the lock of the trust state; `reason` says why
/// it failed, where it did.
pub open spec fn trust_lock_step(
    attempt: LockAttempt,
    reason: Seq<char>,
    now: u128,
    deadline: u128,
    user_state: Option<PathView>,
) -> LockStepView {
    match attempt {
        LockAttempt::Taken => LockStepView::Hold,
        LockAttempt::Busy => if now >= deadline {
            LockStepView::Refuse(trust_state_failed(user_state, "The Trust state lock timed out."@))
        } else {
            LockStepView::Wait(20)
        },
        LockAttempt::Failed(_) => LockStepView::Refuse(
            trust_state_failed(user_state, "The Trust state lock failed: "@ + reason),
        ),
    }
}

/// What follows an attempt to take the lock of the trust state; `reason` says why
/// it failed, where it did.
pub fn lock_with_timeout(
    attempt: LockAttempt,
    reason: &str,
    now: u128,
    deadline: u128,
    user_state: &Option<NativePath>,
) -> (r: LockStep)
    ensures
        r@ == trust_lock_step(attempt, reason@, now, deadline, opt_view(*user_state)),
{
    match attempt {
        LockAttempt::Taken => LockStep::Hold,
        LockAttempt::Busy => if now >= deadline {
            LockStep::Refuse(trust_state_failure(user_state, "The Trust state lock timed out."))
        } else {
            LockStep::Wait(20)
        },
        LockAttempt::Failed(_) => {
            let message: String = concat("The Trust state lock failed: ", reason);
            LockStep::Refuse(trust_state_failure(user_state, message.as_str()))
        },
    }
}

/// Where trust is recorded.
pub fn trust_state_paths(user_state: &Option<NativePath>) -> (r: Result<TrustStatePaths, ContractFailure>)
    ensures
        match (opt_view(*user_state), r) {
            (Some(d), _) => r matches Ok(p) && p.directory@ == d && p.file@ == d.push("trust-v1.json"@) && p.lock@
                == d.push("trust-v1.lock"@),
            (None, _) => r matches Err(f) && f@ == trust_state_failed(
                None,
                "The user state directory is unavailable."@,
            ),
        },
{
    match user_state {
        Some(d) => Ok(
            TrustStatePaths {
                file: d.join("trust-v1.json"),
                lock: d.join("trust-v1.lock"),
                directory: crate::order::Key::duplicate(d),
            },
        ),
        None => Err(trust_state_failure(user_state, "The user state directory is unavailable.")),
    }
}

/// The failure of reading what another version recorded, or nothing recorded.
pub open spec fn stored_trust_failed(path: Seq<char>, message: Seq<char>) -> FailureView {
    failed(
        3,
        "blocked"@,
        "stored_state_version_unsupported"@,
        message,
        "inspect"@,
        "not_applicable"@,
        "never"@,
        JsonView::Object(
            seq![
                ("foundVersion"@, JsonView::Int(0)),
                ("path"@, JsonView::Text(path)),
                ("recordType"@, JsonView::Text("trust"@)),
                (
                    "supportedVersions"@,
                    JsonView::Array(seq![JsonView::Int(TRUST_STATE_FORMAT_VERSION as int)]),
                ),
            ],
        ),
    )
}

fn stored_trust_failure(path: &NativePath, message: &str) -> (r: ContractFailure)
    ensures
        r@ == stored_trust_failed(path_text(path@), message@),
{
    let mut versions: Vec<Json> = Vec::new();
    versions.push(Json::Unsigned(TRUST_STATE_FORMAT_VERSION as u64));
    assert(array_view(versions@) =~= seq![JsonView::Int(TRUST_STATE_FORMAT_VERSION as int)]);
    failure(
        3,
        "blocked",
        "stored_state_version_unsupported",
        message,
        "inspect",
        "not_applicable",
        "never",
        object4(
            "foundVersion",
            Json::Unsigned(0),
            "path",
            Json::Text(path.to_text()),
            "recordType",
            text_value("trust"),
            "supportedVersions",
            Json::Array(versions),
        ),
    )
}

/// What was found where trust is recorded.
pub enum TrustFile {
    Missing,
    Corrupt,
    Found(TrustStateFile),
}

/// What is recorded of trust. Where nothing is recorded yet, nothing is trusted.
pub fn read_trust_state(found: TrustFile, path: &NativePath) -> (r: Result<TrustStateFile, ContractFailure>)
    ensures
        match (found, r) {
            (TrustFile::Missing, _) => r matches Ok(s) && s.format_version == TRUST_STATE_FORMAT_VERSION
                && s.records@.len() == 0,
            (TrustFile::Corrupt, _) => r matches Err(f) && f@ == stored_trust_failed(
                path_text(path@),
                "Trust state is invalid."@,
            ),
            (TrustFile::Found(state), Ok(s)) => state.format_version == TRUST_STATE_FORMAT_VERSION && s == state,
            (TrustFile::Found(state), Err(f)) => state.format_version != TRUST_STATE_FORMAT_VERSION && f@
                == stored_trust_failed(path_text(path@), "Trust state version is unsupported."@),
        },
{
    match found {
        TrustFile::Missing => Ok(
            TrustStateFile { format_version: TRUST_STATE_FORMAT_VERSION, records: Vec::new() },
        ),
        TrustFile::Corrupt => Err(stored_trust_failure(path, "Trust state is invalid.")),
        TrustFile::Found(state) => if state.format_version != TRUST_STATE_FORMAT_VERSION {
            Err(stored_trust_failure(path, "Trust state version is unsupported."))
        } else {
            Ok(state)
        },
    }
}

/// Recording a declaration leaves what is recorded of others as it was, and
/// leaves nothing else recorded of its server in its workspace.
pub proof fn law_upsert_replaces(s: Seq<TrustView>, x: TrustView, y: TrustView)
    ensures
        upserted(s, x).contains(y) <==> y == x || (s.contains(y) && !record_of(y, x.workspace_uri, x.server)),
{
    let p = other_than(x.workspace_uri, x.server);
    let kept = s.filter(p);
    lemma_ranked_contains::<StoredTrustRecord>(kept.push(x), y);
    assert(kept.contains(y) <==> s.contains(y) && p(y)) by {
        broadcast use vstd::seq_lib::group_filter_ensures;

        if kept.contains(y) {
            s.lemma_filter_contains_rev(p, y);
        }
    }
    if kept.push(x).contains(y) {
        let k = choose|k: int| 0 <= k < kept.push(x).len() && kept.push(x)[k] == y;
        if k < kept.len() {
            assert(kept[k] == y);
        }
    }
    if kept.contains(y) {
        let k = choose|k: int| 0 <= k < kept.len() && kept[k] == y;
        assert(kept.push(x)[k] == y);
    }
    assert(kept.push(x)[kept.len() as int] == x);
}

proof fn lemma_recorded(s: Seq<TrustView>, workspace_uri: Seq<char>, server: Seq<char>)
    ensures
        match recorded_trust(s, workspace_uri, server) {
            Some(r) => s.contains(r) && record_of(r, workspace_uri, server),
            None => forall|r: TrustView| #[trigger] s.contains(r) ==> !record_of(r, workspace_uri, server),
        },
    decreases s.len(),
{
    if s.len() > 0 {
        let rest = s.drop_first();
        lemma_recorded(rest, workspace_uri, server);
        if record_of(s[0], workspace_uri, server) {
            assert(s.contains(s[0]));
        } else {
            match recorded_trust(rest, workspace_uri, server) {
                Some(r) => {
                    let k = choose|k: int| 0 <= k < rest.len() && rest[k] == r;
                    assert(s[k + 1] == r);
                },
                None => {
                    assert forall|r: TrustView| #[trigger] s.contains(r) implies !record_of(
                        r,
                        workspace_uri,
                        server,
                    ) by {
                        let k = choose|k: int| 0 <= k < s.len() && s[k] == r;
                        if k > 0 {
                            assert(rest[k - 1] == r);
                            assert(rest.contains(r));
                        }
                    }
                },
            }
        }
    }
}

proof fn lemma_filtered_in_order(s: Seq<TrustView>, p: spec_fn(TrustView) -> bool)
    requires
        in_order::<StoredTrustRecord>(s),
    ensures
        in_order::<StoredTrustRecord>(s.filter(p)),
    decreases s.len(),
{
    reveal(Seq::filter);
    let kept = s.filter(p);
    if s.len() > 0 {
        let rest = s.drop_last();
        assert(in_order::<StoredTrustRecord>(rest)) by {
            assert forall|i: int, j: int| 0 <= i < j < rest.len() implies !StoredTrustRecord::before(
                #[trigger] rest[j],
                #[trigger] rest[i],
            ) by {
                assert(rest[j] == s[j] && rest[i] == s[i]);
            }
        }
        lemma_filtered_in_order(rest, p);
        let front = rest.filter(p);
        if p(s.last()) {
            assert forall|i: int, j: int| 0 <= i < j < kept.len() implies !StoredTrustRecord::before(
                #[trigger] kept[j],
                #[trigger] kept[i],
            ) by {
                assert(kept[i] == front[i]);
                if j < front.len() {
                    assert(kept[j] == front[j]);
                } else {
                    assert(front.contains(front[i]));
                    rest.lemma_filter_contains_rev(p, front[i]);
                    let m = choose|m: int| 0 <= m < rest.len() && rest[m] == front[i];
                    assert(s[m] == kept[i] && s[s.len() - 1] == kept[j]);
                }
            }
        }
    }
}

/// What is recorded of trust stands by workspaces and servers: recording a
/// declaration puts the records in order, and forgetting one leaves them so.
pub proof fn law_records_stay_in_order(s: Seq<TrustView>, x: TrustView, workspace_uri: Seq<char>, server: Seq<char>)
    ensures
        in_order::<StoredTrustRecord>(upserted(s, x)),
        in_order::<StoredTrustRecord>(s) ==> in_order::<StoredTrustRecord>(
            s.filter(other_than(workspace_uri, server)),
        ),
{
    law_ranked::<StoredTrustRecord>(s.filter(other_than(x.workspace_uri, x.server)).push(x));
    if in_order::<StoredTrustRecord>(s) {
        lemma_filtered_in_order(s, other_than(workspace_uri, server));
    }
}

/// What is recorded of a server is what was recorded last.
pub proof fn law_recorded_is_found(s: Seq<TrustView>, x: TrustView)
    ensures
        recorded_trust(upserted(s, x), x.workspace_uri, x.server) == Some(x),
{
    let t = upserted(s, x);
    lemma_recorded(t, x.workspace_uri, x.server);
    law_upsert_replaces(s, x, x);
    match recorded_trust(t, x.workspace_uri, x.server) {
        Some(r) => {
            law_upsert_replaces(s, x, r);
        },
        None => {},
    }
}

proof fn lemma_granted_records(
    s: Seq<TrustView>,
    declarations: Map<Seq<char>, DeclarationView>,
    names: Seq<Seq<char>>,
    workspace_uri: Seq<char>,
    now: Seq<char>,
    y: TrustView,
)
    requires
        forall|i: int| 0 <= i < names.len() ==> declarations[#[trigger] names[i]].server == names[i],
    ensures
        with_trusted(s, declarations, names, workspace_uri, now).contains(y) <==> {
            ||| names.contains(y.server) && y == trusted_record(declarations[y.server], workspace_uri, now)
            ||| s.contains(y) && !(y.workspace_uri == workspace_uri && names.contains(y.server))
        },
    decreases names.len(),
{
    if names.len() > 0 {
        let front = names.drop_last();
        let x = trusted_record(declarations[names.last()], workspace_uri, now);
        assert forall|i: int| 0 <= i < front.len() implies declarations[#[trigger] front[i]].server == front[i] by {
            assert(front[i] == names[i]);
        }
        assert(declarations[names[names.len() - 1]].server == names.last());
        lemma_granted_records(s, declarations, front, workspace_uri, now, y);
        law_upsert_replaces(with_trusted(s, declarations, front, workspace_uri, now), x, y);
        assert(names.contains(y.server) <==> front.contains(y.server) || y.server == names.last()) by {
            if front.contains(y.server) {
                let i = choose|i: int| 0 <= i < front.len() && front[i] == y.server;
                assert(names[i] == y.server);
            }
            if names.contains(y.server) {
                let i = choose|i: int| 0 <= i < names.len() && names[i] == y.server;
                if i < front.len() {
                    assert(front[i] == y.server);
                }
            }
            assert(names[names.len() - 1] == names.last());
        }
    }
}

/// After a grant every server that it is for is recorded as trusted with what is
/// declared of it, and what is recorded of others is as it was.
pub proof fn law_grants_are_recorded(
    s: Seq<TrustView>,
    declarations: Map<Seq<char>, DeclarationView>,
    names: Seq<Seq<char>>,
    workspace_uri: Seq<char>,
    now: Seq<char>,
    server: Seq<char>,
    other: TrustView,
)
    requires
        forall|i: int| 0 <= i < names.len() ==> declarations[#[trigger] names[i]].server == names[i],
    ensures
        ({
            let granted = with_trusted(s, declarations, names, workspace_uri, now);
            &&& names.contains(server) ==> recorded_trust(granted, workspace_uri, server) == Some(
                trusted_record(declarations[server], workspace_uri, now),
            )
            &&& other.workspace_uri != workspace_uri || !names.contains(other.server) ==> (granted.contains(other)
                <==> s.contains(other))
        }),
{
    let granted = with_trusted(s, declarations, names, workspace_uri, now);
    lemma_granted_records(s, declarations, names, workspace_uri, now, other);
    if names.contains(server) {
        let i = choose|i: int| 0 <= i < names.len() && names[i] == server;
        assert(declarations[names[i]].server == server);
        lemma_granted_records(
            s,
            declarations,
            names,
            workspace_uri,
            now,
            trusted_record(declarations[server], workspace_uri, now),
        );
        lemma_recorded(granted, workspace_uri, server);
        if let Some(r) = recorded_trust(granted, workspace_uri, server) {
            lemma_granted_records(s, declarations, names, workspace_uri, now, r);
        }
    }
}

/// A declaration that was trusted may be launched, and one with another digest
/// may not.
pub proof fn law_trust_is_in_the_declaration(
    s: Seq<TrustView>,
    d: DeclarationView,
    other: DeclarationView,
    workspace_uri: Seq<char>,
    workspace: Seq<char>,
    now: Seq<char>,
)
    ensures
        ({
            let records = upserted(s, trusted_record(d, workspace_uri, now));
            &&& authorization(records, Some(d), workspace_uri, workspace, d.server) is None
            &&& other.digest != d.digest ==> authorization(records, Some(other), workspace_uri, workspace, d.server)
                is Some
        }),
{
    law_recorded_is_found(s, trusted_record(d, workspace_uri, now));
}

/// A server that was denied may not be launched with anything that the project
/// declares.
pub proof fn law_denial_holds(
    s: Seq<TrustView>,
    d: DeclarationView,
    workspace_uri: Seq<char>,
    workspace: Seq<char>,
    server: Seq<char>,
    source_path: Seq<char>,
    now: Seq<char>,
)
    ensures
        authorization(
            upserted(s, denied_record(workspace_uri, server, source_path, now)),
            Some(d),
            workspace_uri,
            workspace,
            server,
        ) matches Some(f) && f.code == "project_trust_denied"@,
{
    law_recorded_is_found(s, denied_record(workspace_uri, server, source_path, now));
}

/// What was revoked has to be trusted anew.
pub proof fn law_revoked_is_untrusted(
    s: Seq<TrustView>,
    d: DeclarationView,
    workspace_uri: Seq<char>,
    workspace: Seq<char>,
    server: Seq<char>,
)
    ensures
        authorization(s.filter(other_than(workspace_uri, server)), Some(d), workspace_uri, workspace, server) matches Some(
            f,
        ) && f.code == "project_trust_required"@,
{
    let p = other_than(workspace_uri, server);
    let t = s.filter(p);
    lemma_recorded(t, workspace_uri, server);
    match recorded_trust(t, workspace_uri, server) {
        Some(r) => {
            assert(p(r)) by {
                broadcast use vstd::seq_lib::group_filter_ensures;

            }
        },
        None => {},
    }
}

/// What the project does not declare needs no trust.
pub proof fn law_nothing_declared_needs_no_trust(
    s: Seq<TrustView>,
    workspace_uri: Seq<char>,
    workspace: Seq<char>,
    server: Seq<char>,
)
    ensures
        authorization(s, None, workspace_uri, workspace, server) is None,
{
}

} // verus!
