//! What is reported of trust: how each server stands, what is refused and what
//! was changed.

use vstd::prelude::*;

use crate::json::{JsonView, lemma_field_at, lemma_field_concat, lemma_field_missing, opt_text_view};
use crate::listing_laws::text_or_none;
use crate::manifest::optional_text_field;
use crate::reports::texts_json;
use crate::trust::{DeclarationView, StoredTrustState, TrustView, fields_changed, record_of, recorded_trust};
use crate::trust_commands::{
    change_result,
    declared_digests,
    granted_servers,
    mismatch_failed,
    record_json,
    replacement_failed,
    standing,
    status_json,
    status_names,
    trust_problem,
    untrusted_json,
};

verus! {

/// The digest of what is declared now.
pub open spec fn digest_of(d: Option<DeclarationView>) -> Option<Seq<char>> {
    match d {
        Some(d) => Some(d.digest),
        None => None,
    }
}

/// The program that is declared now, else the one that was recorded.
pub open spec fn executable_of(recorded: Option<Seq<char>>, d: Option<DeclarationView>) -> Option<Seq<char>> {
    match d {
        Some(d) => Some(d.executable_path),
        None => recorded,
    }
}

/// The file that declares it now, else the one that was recorded.
pub open spec fn source_of(recorded: Option<Seq<char>>, d: Option<DeclarationView>) -> Option<Seq<char>> {
    match d {
        Some(d) => Some(d.source_path),
        None => recorded,
    }
}

proof fn lemma_names()
    ensures
        "actualDigest"@.len() == 12,
        "aggregateDigest"@.len() == 15,
        "changedFields"@.len() == 13,
        "currentDigest"@.len() == 13,
        "declarationDigest"@.len() == 17,
        "digest"@.len() == 6,
        "executablePath"@.len() == 14,
        "expectedDigest"@.len() == 14,
        "ownerSignalFailures"@.len() == 19,
        "ownersSignalled"@.len() == 15,
        "recordedDigest"@.len() == 14,
        "records"@.len() == 7,
        "requiredCommand"@.len() == 15,
        "server"@.len() == 6,
        "servers"@.len() == 7,
        "sourcePath"@.len() == 10,
        "state"@.len() == 5,
        "updatedAt"@.len() == 9,
        "workspaceUri"@.len() == 12,
        "actualDigest"@ != "workspaceUri"@,
        "aggregateDigest"@ != "ownersSignalled"@,
        "aggregateDigest"@ != "requiredCommand"@,
        "changedFields"@ != "currentDigest"@,
        "digest"@ != "server"@,
        "executablePath"@ != "expectedDigest"@,
        "executablePath"@ != "recordedDigest"@,
        "expectedDigest"@ != "recordedDigest"@,
        "ownersSignalled"@ != "requiredCommand"@,
        "records"@ != "servers"@,
{
    reveal_strlit("actualDigest");
    reveal_strlit("aggregateDigest");
    reveal_strlit("changedFields");
    reveal_strlit("currentDigest");
    reveal_strlit("declarationDigest");
    reveal_strlit("digest");
    reveal_strlit("executablePath");
    reveal_strlit("expectedDigest");
    reveal_strlit("ownerSignalFailures");
    reveal_strlit("ownersSignalled");
    reveal_strlit("recordedDigest");
    reveal_strlit("records");
    reveal_strlit("requiredCommand");
    reveal_strlit("server");
    reveal_strlit("servers");
    reveal_strlit("sourcePath");
    reveal_strlit("state");
    reveal_strlit("updatedAt");
    reveal_strlit("workspaceUri");
    assert("actualDigest"@[0] == 'a' && "workspaceUri"@[0] == 'w');
    assert("aggregateDigest"@[0] == 'a' && "ownersSignalled"@[0] == 'o');
    assert("aggregateDigest"@[0] == 'a' && "requiredCommand"@[0] == 'r');
    assert("changedFields"@[1] == 'h' && "currentDigest"@[1] == 'u');
    assert("digest"@[0] == 'd' && "server"@[0] == 's');
    assert("executablePath"@[2] == 'e' && "expectedDigest"@[2] == 'p');
    assert("executablePath"@[0] == 'e' && "recordedDigest"@[0] == 'r');
    assert("expectedDigest"@[0] == 'e' && "recordedDigest"@[0] == 'r');
    assert("ownersSignalled"@[0] == 'o' && "requiredCommand"@[0] == 'r');
    assert("records"@[0] == 'r' && "servers"@[0] == 's');
}

proof fn lemma_record(r: TrustView, d: Option<DeclarationView>, key: Seq<char>)
    ensures
        record_json(r, d).get(key) == ({
            if key == "changedFields"@ {
                Some(texts_json(if standing(r, d) == "changed"@ { fields_changed(r.field_digests, declared_digests(d)) } else { Seq::empty() }))
            } else if key == "currentDigest"@ {
                text_or_none(digest_of(d))
            } else if key == "declarationDigest"@ {
                text_or_none(r.declaration_digest)
            } else if key == "executablePath"@ {
                text_or_none(executable_of(r.executable_path, d))
            } else if key == "requiredCommand"@ {
                if standing(r, d) != "trusted"@ { Some(texts_json(seq!["trust"@, "grant"@])) } else { None }
            } else if key == "server"@ {
                Some(JsonView::Text(r.server))
            } else if key == "sourcePath"@ {
                text_or_none(source_of(r.source_path, d))
            } else if key == "state"@ {
                Some(JsonView::Text(standing(r, d)))
            } else if key == "updatedAt"@ {
                Some(JsonView::Text(r.updated_at))
            } else if key == "workspaceUri"@ {
                Some(JsonView::Text(r.workspace_uri))
            } else {
                None
            }
        }),
{
    lemma_names();
    let p0 = seq![("changedFields"@, texts_json(if standing(r, d) == "changed"@ { fields_changed(r.field_digests, declared_digests(d)) } else { Seq::empty() }))];
    if key == "changedFields"@ {
        lemma_field_at(p0, 0, key);
    } else {
        lemma_field_missing(p0, key);
    }
    let p1 = optional_text_field("currentDigest"@, digest_of(d));
    if p1.len() > 0 && key == "currentDigest"@ {
        lemma_field_at(p1, 0, key);
    } else {
        lemma_field_missing(p1, key);
    }
    let p2 = optional_text_field("declarationDigest"@, r.declaration_digest);
    if p2.len() > 0 && key == "declarationDigest"@ {
        lemma_field_at(p2, 0, key);
    } else {
        lemma_field_missing(p2, key);
    }
    let p3 = optional_text_field("executablePath"@, executable_of(r.executable_path, d));
    if p3.len() > 0 && key == "executablePath"@ {
        lemma_field_at(p3, 0, key);
    } else {
        lemma_field_missing(p3, key);
    }
    let p4 = (if standing(r, d) != "trusted"@ { seq![("requiredCommand"@, texts_json(seq!["trust"@, "grant"@]))] } else { seq![] });
    if p4.len() > 0 && key == "requiredCommand"@ {
        lemma_field_at(p4, 0, key);
    } else {
        lemma_field_missing(p4, key);
    }
    let p5 = seq![("server"@, JsonView::Text(r.server))];
    if key == "server"@ {
        lemma_field_at(p5, 0, key);
    } else {
        lemma_field_missing(p5, key);
    }
    let p6 = optional_text_field("sourcePath"@, source_of(r.source_path, d));
    if p6.len() > 0 && key == "sourcePath"@ {
        lemma_field_at(p6, 0, key);
    } else {
        lemma_field_missing(p6, key);
    }
    let p7 = seq![("state"@, JsonView::Text(standing(r, d))), ("updatedAt"@, JsonView::Text(r.updated_at)), ("workspaceUri"@, JsonView::Text(r.workspace_uri))];
    if key == "state"@ {
        lemma_field_at(p7, 0, key);
    } else if key == "updatedAt"@ {
        lemma_field_at(p7, 1, key);
    } else if key == "workspaceUri"@ {
        lemma_field_at(p7, 2, key);
    } else {
        lemma_field_missing(p7, key);
    }
    let s0 = p0;
    let s1 = s0 + p1;
    lemma_field_concat(s0, p1, key);
    let s2 = s1 + p2;
    lemma_field_concat(s1, p2, key);
    let s3 = s2 + p3;
    lemma_field_concat(s2, p3, key);
    let s4 = s3 + p4;
    lemma_field_concat(s3, p4, key);
    let s5 = s4 + p5;
    lemma_field_concat(s4, p5, key);
    let s6 = s5 + p6;
    lemma_field_concat(s5, p6, key);
    let s7 = s6 + p7;
    lemma_field_concat(s6, p7, key);
    assert(record_json(r, d)->Object_0 =~= s7);
}

proof fn lemma_untrusted(workspace_uri: Seq<char>, server: Seq<char>, d: Option<DeclarationView>, now: Seq<char>, key: Seq<char>)
    ensures
        untrusted_json(workspace_uri, server, d, now).get(key) == ({
            if key == "changedFields"@ {
                Some(texts_json(Seq::empty()))
            } else if key == "currentDigest"@ {
                text_or_none(digest_of(d))
            } else if key == "executablePath"@ {
                text_or_none(executable_of(None, d))
            } else if key == "requiredCommand"@ {
                Some(texts_json(seq!["trust"@, "grant"@]))
            } else if key == "server"@ {
                Some(JsonView::Text(server))
            } else if key == "sourcePath"@ {
                text_or_none(source_of(None, d))
            } else if key == "state"@ {
                Some(JsonView::Text("untrusted"@))
            } else if key == "updatedAt"@ {
                Some(JsonView::Text(now))
            } else if key == "workspaceUri"@ {
                Some(JsonView::Text(workspace_uri))
            } else {
                None
            }
        }),
{
    lemma_names();
    let p0 = seq![("changedFields"@, texts_json(Seq::empty()))];
    if key == "changedFields"@ {
        lemma_field_at(p0, 0, key);
    } else {
        lemma_field_missing(p0, key);
    }
    let p1 = optional_text_field("currentDigest"@, digest_of(d));
    if p1.len() > 0 && key == "currentDigest"@ {
        lemma_field_at(p1, 0, key);
    } else {
        lemma_field_missing(p1, key);
    }
    let p2 = optional_text_field("executablePath"@, executable_of(None, d));
    if p2.len() > 0 && key == "executablePath"@ {
        lemma_field_at(p2, 0, key);
    } else {
        lemma_field_missing(p2, key);
    }
    let p3 = seq![("requiredCommand"@, texts_json(seq!["trust"@, "grant"@])), ("server"@, JsonView::Text(server))];
    if key == "requiredCommand"@ {
        lemma_field_at(p3, 0, key);
    } else if key == "server"@ {
        lemma_field_at(p3, 1, key);
    } else {
        lemma_field_missing(p3, key);
    }
    let p4 = optional_text_field("sourcePath"@, source_of(None, d));
    if p4.len() > 0 && key == "sourcePath"@ {
        lemma_field_at(p4, 0, key);
    } else {
        lemma_field_missing(p4, key);
    }
    let p5 = seq![("state"@, JsonView::Text("untrusted"@)), ("updatedAt"@, JsonView::Text(now)), ("workspaceUri"@, JsonView::Text(workspace_uri))];
    if key == "state"@ {
        lemma_field_at(p5, 0, key);
    } else if key == "updatedAt"@ {
        lemma_field_at(p5, 1, key);
    } else if key == "workspaceUri"@ {
        lemma_field_at(p5, 2, key);
    } else {
        lemma_field_missing(p5, key);
    }
    let s0 = p0;
    let s1 = s0 + p1;
    lemma_field_concat(s0, p1, key);
    let s2 = s1 + p2;
    lemma_field_concat(s1, p2, key);
    let s3 = s2 + p3;
    lemma_field_concat(s2, p3, key);
    let s4 = s3 + p4;
    lemma_field_concat(s3, p4, key);
    let s5 = s4 + p5;
    lemma_field_concat(s4, p5, key);
    assert(untrusted_json(workspace_uri, server, d, now)->Object_0 =~= s5);
}

proof fn lemma_mismatch(workspace_uri: Seq<char>, server: Option<Seq<char>>, expected: Seq<char>, actual: Seq<char>, key: Seq<char>)
    ensures
        mismatch_failed(workspace_uri, server, expected, actual).data.get(key) == ({
            if key == "actualDigest"@ {
                Some(JsonView::Text(actual))
            } else if key == "expectedDigest"@ {
                Some(JsonView::Text(expected))
            } else if key == "server"@ {
                text_or_none(server)
            } else if key == "workspaceUri"@ {
                Some(JsonView::Text(workspace_uri))
            } else {
                None
            }
        }),
{
    lemma_names();
    let p0 = seq![("actualDigest"@, JsonView::Text(actual)), ("expectedDigest"@, JsonView::Text(expected))];
    if key == "actualDigest"@ {
        lemma_field_at(p0, 0, key);
    } else if key == "expectedDigest"@ {
        lemma_field_at(p0, 1, key);
    } else {
        lemma_field_missing(p0, key);
    }
    let p1 = optional_text_field("server"@, server);
    if p1.len() > 0 && key == "server"@ {
        lemma_field_at(p1, 0, key);
    } else {
        lemma_field_missing(p1, key);
    }
    let p2 = seq![("workspaceUri"@, JsonView::Text(workspace_uri))];
    if key == "workspaceUri"@ {
        lemma_field_at(p2, 0, key);
    } else {
        lemma_field_missing(p2, key);
    }
    let s0 = p0;
    let s1 = s0 + p1;
    lemma_field_concat(s0, p1, key);
    let s2 = s1 + p2;
    lemma_field_concat(s1, p2, key);
    assert(mismatch_failed(workspace_uri, server, expected, actual).data->Object_0 =~= s2);
}

proof fn lemma_change(workspace_uri: Seq<char>, aggregate: Option<Seq<char>>, records: Seq<JsonView>, signalled: Seq<Seq<char>>, failures: Seq<Seq<char>>, key: Seq<char>)
    ensures
        change_result(workspace_uri, aggregate, records, signalled, failures).get(key) == ({
            if key == "aggregateDigest"@ {
                text_or_none(aggregate)
            } else if key == "ownerSignalFailures"@ {
                Some(texts_json(failures))
            } else if key == "ownersSignalled"@ {
                Some(texts_json(signalled))
            } else if key == "records"@ {
                Some(JsonView::Array(records))
            } else if key == "workspaceUri"@ {
                Some(JsonView::Text(workspace_uri))
            } else {
                None
            }
        }),
{
    lemma_names();
    let p0 = optional_text_field("aggregateDigest"@, aggregate);
    if p0.len() > 0 && key == "aggregateDigest"@ {
        lemma_field_at(p0, 0, key);
    } else {
        lemma_field_missing(p0, key);
    }
    let p1 = seq![("ownerSignalFailures"@, texts_json(failures)), ("ownersSignalled"@, texts_json(signalled)), ("records"@, JsonView::Array(records)), ("workspaceUri"@, JsonView::Text(workspace_uri))];
    if key == "ownerSignalFailures"@ {
        lemma_field_at(p1, 0, key);
    } else if key == "ownersSignalled"@ {
        lemma_field_at(p1, 1, key);
    } else if key == "records"@ {
        lemma_field_at(p1, 2, key);
    } else if key == "workspaceUri"@ {
        lemma_field_at(p1, 3, key);
    } else {
        lemma_field_missing(p1, key);
    }
    let s0 = p0;
    let s1 = s0 + p1;
    lemma_field_concat(s0, p1, key);
    assert(change_result(workspace_uri, aggregate, records, signalled, failures)->Object_0 =~= s1);
}

/// What is recorded of a server is reported with how it stands: denied where
/// it was denied, trusted where what is declared is what was trusted, else
/// changed, with the fields that changed. Whatever is not trusted comes with
/// the command that would trust it.
pub proof fn law_records_are_reported(r: TrustView, d: Option<DeclarationView>)
    ensures
        record_json(r, d).get("server"@) == Some(JsonView::Text(r.server)),
        record_json(r, d).get("workspaceUri"@) == Some(JsonView::Text(r.workspace_uri)),
        record_json(r, d).get("updatedAt"@) == Some(JsonView::Text(r.updated_at)),
        record_json(r, d).get("declarationDigest"@) == text_or_none(r.declaration_digest),
        r.state == StoredTrustState::Denied ==> record_json(r, d).get("state"@) == Some(JsonView::Text("denied"@)),
        r.state != StoredTrustState::Denied && d is Some && r.declaration_digest == Some(d->0.digest) ==> record_json(
            r,
            d,
        ).get("state"@) == Some(JsonView::Text("trusted"@)) && record_json(r, d).get("requiredCommand"@) is None,
        r.state != StoredTrustState::Denied && !(d is Some && r.declaration_digest == Some(d->0.digest)) ==> (
        record_json(r, d).get("state"@) == Some(JsonView::Text("changed"@)) && record_json(r, d).get(
            "changedFields"@,
        ) == Some(texts_json(fields_changed(r.field_digests, declared_digests(d))))),
        r.state == StoredTrustState::Denied || !(d is Some && r.declaration_digest == Some(d->0.digest))
            ==> record_json(r, d).get("requiredCommand"@) == Some(texts_json(seq!["trust"@, "grant"@])),
        d matches Some(now) ==> record_json(r, d).get("currentDigest"@) == Some(JsonView::Text(now.digest))
            && record_json(r, d).get("executablePath"@) == Some(JsonView::Text(now.executable_path)) && record_json(
            r,
            d,
        ).get("sourcePath"@) == Some(JsonView::Text(now.source_path)),
        d is None ==> record_json(r, d).get("currentDigest"@) is None && record_json(r, d).get("executablePath"@)
            == text_or_none(r.executable_path) && record_json(r, d).get("sourcePath"@) == text_or_none(r.source_path),
{
    lemma_names();
    reveal_strlit("trusted");
    reveal_strlit("changed");
    reveal_strlit("denied");
    assert("trusted"@[0] == 't' && "changed"@[0] == 'c');
    assert("denied"@.len() == 6 && "trusted"@.len() == 7 && "changed"@.len() == 7);
    lemma_record(r, d, "server"@);
    lemma_record(r, d, "workspaceUri"@);
    lemma_record(r, d, "updatedAt"@);
    lemma_record(r, d, "declarationDigest"@);
    lemma_record(r, d, "state"@);
    lemma_record(r, d, "requiredCommand"@);
    lemma_record(r, d, "changedFields"@);
    lemma_record(r, d, "currentDigest"@);
    lemma_record(r, d, "executablePath"@);
    lemma_record(r, d, "sourcePath"@);
}

/// A server of which nothing is recorded is reported as untrusted, with what
/// is declared of it and the command that would trust it.
pub proof fn law_servers_without_records_are_untrusted(
    records: Seq<TrustView>,
    declarations: Map<Seq<char>, DeclarationView>,
    workspace_uri: Seq<char>,
    server: Seq<char>,
    now: Seq<char>,
)
    requires
        recorded_trust(records, workspace_uri, server) is None,
    ensures
        ({
            let j = status_json(records, declarations, workspace_uri, server, now);
            &&& j.get("state"@) == Some(JsonView::Text("untrusted"@))
            &&& j.get("server"@) == Some(JsonView::Text(server))
            &&& j.get("workspaceUri"@) == Some(JsonView::Text(workspace_uri))
            &&& j.get("updatedAt"@) == Some(JsonView::Text(now))
            &&& j.get("requiredCommand"@) == Some(texts_json(seq!["trust"@, "grant"@]))
            &&& declarations.dom().contains(server) ==> j.get("currentDigest"@) == Some(
                JsonView::Text(declarations[server].digest),
            ) && j.get("executablePath"@) == Some(JsonView::Text(declarations[server].executable_path)) && j.get(
                "sourcePath"@,
            ) == Some(JsonView::Text(declarations[server].source_path))
            &&& !declarations.dom().contains(server) ==> j.get("currentDigest"@) is None
        }),
{
    lemma_names();
    let d = crate::trust_commands::declared_for(declarations, server);
    lemma_untrusted(workspace_uri, server, d, now, "state"@);
    lemma_untrusted(workspace_uri, server, d, now, "server"@);
    lemma_untrusted(workspace_uri, server, d, now, "workspaceUri"@);
    lemma_untrusted(workspace_uri, server, d, now, "updatedAt"@);
    lemma_untrusted(workspace_uri, server, d, now, "requiredCommand"@);
    lemma_untrusted(workspace_uri, server, d, now, "currentDigest"@);
    lemma_untrusted(workspace_uri, server, d, now, "executablePath"@);
    lemma_untrusted(workspace_uri, server, d, now, "sourcePath"@);
}

/// A server of which something is recorded is reported by its record.
pub proof fn law_recorded_servers_are_reported(
    records: Seq<TrustView>,
    declarations: Map<Seq<char>, DeclarationView>,
    workspace_uri: Seq<char>,
    server: Seq<char>,
    now: Seq<char>,
    r: TrustView,
)
    requires
        recorded_trust(records, workspace_uri, server) == Some(r),
    ensures
        declarations.dom().contains(server) ==> status_json(records, declarations, workspace_uri, server, now)
            == record_json(r, Some(declarations[server])),
        !declarations.dom().contains(server) ==> status_json(records, declarations, workspace_uri, server, now)
            == record_json(r, None),
{
}

/// The status covers every server that the project declares or that is
/// recorded for the workspace, or of these the one that is asked for.
pub proof fn law_status_covers_what_is_known(
    records: Seq<TrustView>,
    declarations: Map<Seq<char>, DeclarationView>,
    workspace_uri: Seq<char>,
    asked: Seq<char>,
    server: Seq<char>,
    i: int,
)
    ensures
        declarations.dom().contains(server) ==> status_names(records, declarations, workspace_uri, None).contains(
            server,
        ),
        0 <= i < records.len() && records[i].workspace_uri == workspace_uri ==> status_names(
            records,
            declarations,
            workspace_uri,
            None,
        ).contains(records[i].server),
        status_names(records, declarations, workspace_uri, Some(asked)).contains(server) <==> server == asked
            && status_names(records, declarations, workspace_uri, None).contains(server),
        !declarations.dom().contains(server) && (forall|k: int|
            0 <= k < records.len() ==> !((#[trigger] records[k]).workspace_uri == workspace_uri && records[k].server
                == server)) ==> !status_names(records, declarations, workspace_uri, None).contains(server),
{
    if 0 <= i < records.len() && records[i].workspace_uri == workspace_uri {
        assert(record_of(records[i], workspace_uri, records[i].server));
    }
}

/// A refusal names the server, the workspace and the digest that would have to
/// be trusted; one of a changed declaration also names what was trusted and the
/// fields that changed.
pub proof fn law_refusals_say_what_to_trust(
    record: Option<TrustView>,
    d: DeclarationView,
    workspace_uri: Seq<char>,
    workspace: Seq<char>,
    server: Seq<char>,
)
    ensures
        trust_problem(record, d, workspace_uri, workspace, server) matches Some(f) ==> {
            &&& f.exit_code == 3
            &&& f.delivery == "not_sent"@
            &&& f.data.get("server"@) == Some(JsonView::Text(server))
            &&& f.data.get("workspaceUri"@) == Some(JsonView::Text(workspace_uri))
            &&& record is None ==> f.data.get("digest"@) == Some(JsonView::Text(d.digest))
            &&& record is None || record->0.state != StoredTrustState::Denied ==> f.data.get("requiredCommand"@)
                == Some(
                texts_json(
                    seq!["trust"@, "grant"@, "--workspace"@, workspace, "--server"@, server, "--digest"@, d.digest],
                ),
            )
            &&& record is Some && record->0.state == StoredTrustState::Denied ==> f.data.get("requiredCommand"@)
                == Some(
                texts_json(seq!["trust"@, "revoke"@, "--workspace"@, workspace, "--server"@, server]),
            )
            &&& record is Some && record->0.state != StoredTrustState::Denied ==> f.data.get("currentDigest"@) == Some(
                JsonView::Text(d.digest),
            ) && f.data.get("recordedDigest"@) == Some(opt_text_view(record->0.declaration_digest)) && f.data.get(
                "changedFields"@,
            ) == Some(texts_json(fields_changed(record->0.field_digests, d.field_digests)))
        },
{
    lemma_names();
    if let Some(f) = trust_problem(record, d, workspace_uri, workspace, server) {
        let o = f.data->Object_0;
        if record is None || record->0.state == StoredTrustState::Denied {
            lemma_field_at(o, 0, "digest"@);
            lemma_field_at(o, 1, "requiredCommand"@);
            lemma_field_at(o, 2, "server"@);
            lemma_field_at(o, 3, "workspaceUri"@);
        } else {
            lemma_field_at(o, 0, "changedFields"@);
            lemma_field_at(o, 1, "currentDigest"@);
            lemma_field_at(o, 2, "recordedDigest"@);
            lemma_field_at(o, 3, "requiredCommand"@);
            lemma_field_at(o, 4, "server"@);
            lemma_field_at(o, 5, "workspaceUri"@);
        }
    }
}

/// A grant of another digest than the declared one is refused with both.
pub proof fn law_other_digests_are_reported(
    declarations: Map<Seq<char>, DeclarationView>,
    server: Seq<char>,
    expected: Seq<char>,
    workspace_uri: Seq<char>,
)
    requires
        expected != declarations[server].digest,
    ensures
        granted_servers(declarations, Some(server), expected, workspace_uri) matches Err(f) && f.code
            == "trust_digest_mismatch"@ && f.data.get("expectedDigest"@) == Some(JsonView::Text(expected))
            && f.data.get("actualDigest"@) == Some(JsonView::Text(declarations[server].digest)) && f.data.get(
            "server"@,
        ) == Some(JsonView::Text(server)) && f.data.get("workspaceUri"@) == Some(JsonView::Text(workspace_uri)),
{
    lemma_names();
    let actual = declarations[server].digest;
    lemma_mismatch(workspace_uri, Some(server), expected, actual, "expectedDigest"@);
    lemma_mismatch(workspace_uri, Some(server), expected, actual, "actualDigest"@);
    lemma_mismatch(workspace_uri, Some(server), expected, actual, "server"@);
    lemma_mismatch(workspace_uri, Some(server), expected, actual, "workspaceUri"@);
}

/// A grant over a denial is refused with the servers that were denied and the
/// flag that would replace the denial.
pub proof fn law_denials_are_replaced_on_purpose(denied: Seq<Seq<char>>)
    ensures
        replacement_failed(denied, true).code == "denial_replacement_required"@,
        replacement_failed(denied, true).data.get("servers"@) == Some(texts_json(denied)),
        replacement_failed(denied, false).data.get("servers"@) == Some(texts_json(denied)),
        replacement_failed(denied, true).data.get("requiredCommand"@) == Some(
            texts_json(seq!["trust"@, "grant"@, "--all"@, "--replace-denials"@]),
        ),
        replacement_failed(denied, false).data.get("requiredCommand"@) == Some(
            texts_json(seq!["trust"@, "grant"@, "--server"@, "--replace-denial"@]),
        ),
{
    lemma_names();
    lemma_field_at(replacement_failed(denied, true).data->Object_0, 0, "requiredCommand"@);
    lemma_field_at(replacement_failed(denied, true).data->Object_0, 1, "servers"@);
    lemma_field_at(replacement_failed(denied, false).data->Object_0, 0, "requiredCommand"@);
    lemma_field_at(replacement_failed(denied, false).data->Object_0, 1, "servers"@);
}

/// A change of trust is reported with the records, the owners that were told
/// and those that could not be.
pub proof fn law_changes_of_trust_are_reported(
    workspace_uri: Seq<char>,
    aggregate: Option<Seq<char>>,
    records: Seq<JsonView>,
    signalled: Seq<Seq<char>>,
    failures: Seq<Seq<char>>,
)
    ensures
        ({
            let j = change_result(workspace_uri, aggregate, records, signalled, failures);
            &&& j.get("workspaceUri"@) == Some(JsonView::Text(workspace_uri))
            &&& j.get("aggregateDigest"@) == text_or_none(aggregate)
            &&& j.get("records"@) == Some(JsonView::Array(records))
            &&& j.get("ownersSignalled"@) == Some(texts_json(signalled))
            &&& j.get("ownerSignalFailures"@) == Some(texts_json(failures))
        }),
{
    lemma_names();
    lemma_change(workspace_uri, aggregate, records, signalled, failures, "workspaceUri"@);
    lemma_change(workspace_uri, aggregate, records, signalled, failures, "aggregateDigest"@);
    lemma_change(workspace_uri, aggregate, records, signalled, failures, "records"@);
    lemma_change(workspace_uri, aggregate, records, signalled, failures, "ownersSignalled"@);
    lemma_change(workspace_uri, aggregate, records, signalled, failures, "ownerSignalFailures"@);
}

/// A list of texts is reported text by text, in its order.
pub proof fn law_texts_are_reported_in_order(list: Seq<Seq<char>>, i: int)
    requires
        0 <= i < list.len(),
    ensures
        texts_json(list) matches JsonView::Array(items) && items.len() == list.len() && items[i] == JsonView::Text(
            list[i],
        ),
{
}

} // verus!
