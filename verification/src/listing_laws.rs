//! What lists and reports say of the previews, receipts, journals and files
//! that are kept.

use vstd::prelude::*;

use crate::application::JournalView;
use crate::invocation::InvocationView;
use crate::json::{
    JsonView,
    lemma_field_at,
    lemma_field_concat,
    lemma_field_missing,
    lemma_field_set,
    with_field,
};
use crate::manifest::{ManifestView, ResourceKind, kind_text, manifest_json, manifests_json, optional_text_field};
use crate::mutation_reports::{
    creation_json,
    journal_json,
    list_json,
    number_or,
    preview_entries,
    preview_entry,
    preview_shown,
    receipt_entries,
    receipt_entry,
    receipt_shown,
    reported_journals,
    summary_json,
    synchronization_warning,
    synchronized_report,
    unsynchronized_receipt,
};
use crate::path::path_text;
use crate::plan::PreviewSummary;
use crate::records::{
    PreviewView,
    ReceiptView,
    StoredPreviewView,
    StoredReceiptView,
    TransactionState,
    TransactionView,
};
use crate::text::decimal_text;
use crate::timing_laws::law_spelled_numbers_are_read;

verus! {

/// A text in JSON, where there is one.
pub open spec fn text_or_none(text: Option<Seq<char>>) -> Option<JsonView> {
    match text {
        Some(t) => Some(JsonView::Text(t)),
        None => None,
    }
}

proof fn lemma_names()
    ensures
        "cleanupPending"@.len() == 14,
        "code"@.len() == 4,
        "command"@.len() == 7,
        "completedAt"@.len() == 11,
        "contentDigest"@.len() == 13,
        "creates"@.len() == 7,
        "data"@.len() == 4,
        "deletes"@.len() == 7,
        "exists"@.len() == 6,
        "expiresAt"@.len() == 9,
        "filesChanged"@.len() == 12,
        "filesystemState"@.len() == 15,
        "identityDigest"@.len() == 14,
        "intendedManifest"@.len() == 16,
        "kind"@.len() == 4,
        "linkedReceiptId"@.len() == 15,
        "manifestDigest"@.len() == 14,
        "message"@.len() == 7,
        "metadataDigest"@.len() == 14,
        "observedManifest"@.len() == 16,
        "ok"@.len() == 2,
        "outcome"@.len() == 7,
        "ownerGenerations"@.len() == 16,
        "page"@.len() == 4,
        "path"@.len() == 4,
        "previewId"@.len() == 9,
        "protected"@.len() == 9,
        "receiptId"@.len() == 9,
        "renames"@.len() == 7,
        "reserved"@.len() == 8,
        "resourceKind"@.len() == 12,
        "result"@.len() == 6,
        "schemaVersion"@.len() == 13,
        "server"@.len() == 6,
        "sessionSynchronized"@.len() == 19,
        "stale"@.len() == 5,
        "summary"@.len() == 7,
        "textEdits"@.len() == 9,
        "transactionId"@.len() == 13,
        "warnings"@.len() == 8,
        "workspaceUri"@.len() == 12,
        "cleanupPending"@ != "identityDigest"@,
        "cleanupPending"@ != "manifestDigest"@,
        "cleanupPending"@ != "metadataDigest"@,
        "code"@ != "data"@,
        "code"@ != "kind"@,
        "code"@ != "page"@,
        "code"@ != "path"@,
        "command"@ != "creates"@,
        "command"@ != "deletes"@,
        "command"@ != "message"@,
        "command"@ != "outcome"@,
        "command"@ != "renames"@,
        "command"@ != "summary"@,
        "contentDigest"@ != "schemaVersion"@,
        "contentDigest"@ != "transactionId"@,
        "creates"@ != "deletes"@,
        "creates"@ != "message"@,
        "creates"@ != "outcome"@,
        "creates"@ != "renames"@,
        "creates"@ != "summary"@,
        "data"@ != "kind"@,
        "data"@ != "page"@,
        "data"@ != "path"@,
        "deletes"@ != "message"@,
        "deletes"@ != "outcome"@,
        "deletes"@ != "renames"@,
        "deletes"@ != "summary"@,
        "exists"@ != "result"@,
        "exists"@ != "server"@,
        "expiresAt"@ != "previewId"@,
        "expiresAt"@ != "protected"@,
        "expiresAt"@ != "receiptId"@,
        "expiresAt"@ != "textEdits"@,
        "filesChanged"@ != "resourceKind"@,
        "filesChanged"@ != "workspaceUri"@,
        "filesystemState"@ != "linkedReceiptId"@,
        "identityDigest"@ != "manifestDigest"@,
        "identityDigest"@ != "metadataDigest"@,
        "intendedManifest"@ != "observedManifest"@,
        "intendedManifest"@ != "ownerGenerations"@,
        "kind"@ != "page"@,
        "kind"@ != "path"@,
        "manifestDigest"@ != "metadataDigest"@,
        "message"@ != "outcome"@,
        "message"@ != "renames"@,
        "message"@ != "summary"@,
        "observedManifest"@ != "ownerGenerations"@,
        "outcome"@ != "renames"@,
        "outcome"@ != "summary"@,
        "page"@ != "path"@,
        "previewId"@ != "protected"@,
        "previewId"@ != "receiptId"@,
        "previewId"@ != "textEdits"@,
        "protected"@ != "receiptId"@,
        "protected"@ != "textEdits"@,
        "receiptId"@ != "textEdits"@,
        "renames"@ != "summary"@,
        "reserved"@ != "warnings"@,
        "resourceKind"@ != "workspaceUri"@,
        "result"@ != "server"@,
        "schemaVersion"@ != "transactionId"@,
{
    reveal_strlit("cleanupPending");
    reveal_strlit("code");
    reveal_strlit("command");
    reveal_strlit("completedAt");
    reveal_strlit("contentDigest");
    reveal_strlit("creates");
    reveal_strlit("data");
    reveal_strlit("deletes");
    reveal_strlit("exists");
    reveal_strlit("expiresAt");
    reveal_strlit("filesChanged");
    reveal_strlit("filesystemState");
    reveal_strlit("identityDigest");
    reveal_strlit("intendedManifest");
    reveal_strlit("kind");
    reveal_strlit("linkedReceiptId");
    reveal_strlit("manifestDigest");
    reveal_strlit("message");
    reveal_strlit("metadataDigest");
    reveal_strlit("observedManifest");
    reveal_strlit("ok");
    reveal_strlit("outcome");
    reveal_strlit("ownerGenerations");
    reveal_strlit("page");
    reveal_strlit("path");
    reveal_strlit("previewId");
    reveal_strlit("protected");
    reveal_strlit("receiptId");
    reveal_strlit("renames");
    reveal_strlit("reserved");
    reveal_strlit("resourceKind");
    reveal_strlit("result");
    reveal_strlit("schemaVersion");
    reveal_strlit("server");
    reveal_strlit("sessionSynchronized");
    reveal_strlit("stale");
    reveal_strlit("summary");
    reveal_strlit("textEdits");
    reveal_strlit("transactionId");
    reveal_strlit("warnings");
    reveal_strlit("workspaceUri");
    assert("cleanupPending"@[0] == 'c' && "identityDigest"@[0] == 'i');
    assert("cleanupPending"@[0] == 'c' && "manifestDigest"@[0] == 'm');
    assert("cleanupPending"@[0] == 'c' && "metadataDigest"@[0] == 'm');
    assert("code"@[0] == 'c' && "data"@[0] == 'd');
    assert("code"@[0] == 'c' && "kind"@[0] == 'k');
    assert("code"@[0] == 'c' && "page"@[0] == 'p');
    assert("code"@[0] == 'c' && "path"@[0] == 'p');
    assert("command"@[1] == 'o' && "creates"@[1] == 'r');
    assert("command"@[0] == 'c' && "deletes"@[0] == 'd');
    assert("command"@[0] == 'c' && "message"@[0] == 'm');
    assert("command"@[0] == 'c' && "outcome"@[0] == 'o');
    assert("command"@[0] == 'c' && "renames"@[0] == 'r');
    assert("command"@[0] == 'c' && "summary"@[0] == 's');
    assert("contentDigest"@[0] == 'c' && "schemaVersion"@[0] == 's');
    assert("contentDigest"@[0] == 'c' && "transactionId"@[0] == 't');
    assert("creates"@[0] == 'c' && "deletes"@[0] == 'd');
    assert("creates"@[0] == 'c' && "message"@[0] == 'm');
    assert("creates"@[0] == 'c' && "outcome"@[0] == 'o');
    assert("creates"@[0] == 'c' && "renames"@[0] == 'r');
    assert("creates"@[0] == 'c' && "summary"@[0] == 's');
    assert("data"@[0] == 'd' && "kind"@[0] == 'k');
    assert("data"@[0] == 'd' && "page"@[0] == 'p');
    assert("data"@[0] == 'd' && "path"@[0] == 'p');
    assert("deletes"@[0] == 'd' && "message"@[0] == 'm');
    assert("deletes"@[0] == 'd' && "outcome"@[0] == 'o');
    assert("deletes"@[0] == 'd' && "renames"@[0] == 'r');
    assert("deletes"@[0] == 'd' && "summary"@[0] == 's');
    assert("exists"@[0] == 'e' && "result"@[0] == 'r');
    assert("exists"@[0] == 'e' && "server"@[0] == 's');
    assert("expiresAt"@[0] == 'e' && "previewId"@[0] == 'p');
    assert("expiresAt"@[0] == 'e' && "protected"@[0] == 'p');
    assert("expiresAt"@[0] == 'e' && "receiptId"@[0] == 'r');
    assert("expiresAt"@[0] == 'e' && "textEdits"@[0] == 't');
    assert("filesChanged"@[0] == 'f' && "resourceKind"@[0] == 'r');
    assert("filesChanged"@[0] == 'f' && "workspaceUri"@[0] == 'w');
    assert("filesystemState"@[0] == 'f' && "linkedReceiptId"@[0] == 'l');
    assert("identityDigest"@[0] == 'i' && "manifestDigest"@[0] == 'm');
    assert("identityDigest"@[0] == 'i' && "metadataDigest"@[0] == 'm');
    assert("intendedManifest"@[0] == 'i' && "observedManifest"@[0] == 'o');
    assert("intendedManifest"@[0] == 'i' && "ownerGenerations"@[0] == 'o');
    assert("kind"@[0] == 'k' && "page"@[0] == 'p');
    assert("kind"@[0] == 'k' && "path"@[0] == 'p');
    assert("manifestDigest"@[1] == 'a' && "metadataDigest"@[1] == 'e');
    assert("message"@[0] == 'm' && "outcome"@[0] == 'o');
    assert("message"@[0] == 'm' && "renames"@[0] == 'r');
    assert("message"@[0] == 'm' && "summary"@[0] == 's');
    assert("observedManifest"@[1] == 'b' && "ownerGenerations"@[1] == 'w');
    assert("outcome"@[0] == 'o' && "renames"@[0] == 'r');
    assert("outcome"@[0] == 'o' && "summary"@[0] == 's');
    assert("page"@[2] == 'g' && "path"@[2] == 't');
    assert("previewId"@[2] == 'e' && "protected"@[2] == 'o');
    assert("previewId"@[0] == 'p' && "receiptId"@[0] == 'r');
    assert("previewId"@[0] == 'p' && "textEdits"@[0] == 't');
    assert("protected"@[0] == 'p' && "receiptId"@[0] == 'r');
    assert("protected"@[0] == 'p' && "textEdits"@[0] == 't');
    assert("receiptId"@[0] == 'r' && "textEdits"@[0] == 't');
    assert("renames"@[0] == 'r' && "summary"@[0] == 's');
    assert("reserved"@[0] == 'r' && "warnings"@[0] == 'w');
    assert("resourceKind"@[0] == 'r' && "workspaceUri"@[0] == 'w');
    assert("result"@[0] == 'r' && "server"@[0] == 's');
    assert("schemaVersion"@[0] == 's' && "transactionId"@[0] == 't');
}

proof fn lemma_preview_entry(p: PreviewView, key: Seq<char>)
    ensures
        preview_entry(p).get(key) == ({
            if key == "expiresAt"@ {
                Some(JsonView::Text(p.expires_at))
            } else if key == "previewId"@ {
                Some(JsonView::Text(p.preview_id))
            } else if key == "reserved"@ {
                Some(JsonView::Bool(p.reserved))
            } else if key == "server"@ {
                text_or_none(p.server)
            } else if key == "stale"@ {
                Some(JsonView::Bool(p.stale_reasons.len() > 0))
            } else if key == "summary"@ {
                Some(summary_json(p.summary))
            } else if key == "workspaceUri"@ {
                Some(JsonView::Text(p.workspace_uri))
            } else {
                None
            }
        }),
{
    lemma_names();
    let p0 = seq![("expiresAt"@, JsonView::Text(p.expires_at)), ("previewId"@, JsonView::Text(p.preview_id)), ("reserved"@, JsonView::Bool(p.reserved))];
    if key == "expiresAt"@ {
        lemma_field_at(p0, 0, key);
    } else if key == "previewId"@ {
        lemma_field_at(p0, 1, key);
    } else if key == "reserved"@ {
        lemma_field_at(p0, 2, key);
    } else {
        lemma_field_missing(p0, key);
    }
    let p1 = optional_text_field("server"@, p.server);
    if p1.len() > 0 && key == "server"@ {
        lemma_field_at(p1, 0, key);
    } else {
        lemma_field_missing(p1, key);
    }
    let p2 = seq![("stale"@, JsonView::Bool(p.stale_reasons.len() > 0)), ("summary"@, summary_json(p.summary)), ("workspaceUri"@, JsonView::Text(p.workspace_uri))];
    if key == "stale"@ {
        lemma_field_at(p2, 0, key);
    } else if key == "summary"@ {
        lemma_field_at(p2, 1, key);
    } else if key == "workspaceUri"@ {
        lemma_field_at(p2, 2, key);
    } else {
        lemma_field_missing(p2, key);
    }
    let s0 = p0;
    let s1 = s0 + p1;
    lemma_field_concat(s0, p1, key);
    let s2 = s1 + p2;
    lemma_field_concat(s1, p2, key);
    assert(preview_entry(p)->Object_0 =~= s2);
}

proof fn lemma_receipt_entry(r: ReceiptView, key: Seq<char>)
    ensures
        receipt_entry(r).get(key) == ({
            if key == "cleanupPending"@ {
                Some(JsonView::Bool(r.cleanup_pending))
            } else if key == "completedAt"@ {
                Some(JsonView::Text(r.completed_at))
            } else if key == "filesystemState"@ {
                Some(JsonView::Text(r.filesystem_state))
            } else if key == "kind"@ {
                Some(JsonView::Text(r.kind))
            } else if key == "linkedReceiptId"@ {
                text_or_none(r.linked_receipt_id)
            } else if key == "outcome"@ {
                Some(JsonView::Text(r.outcome))
            } else if key == "previewId"@ {
                text_or_none(r.preview_id)
            } else if key == "receiptId"@ {
                Some(JsonView::Text(r.receipt_id))
            } else if key == "server"@ {
                text_or_none(r.server)
            } else if key == "summary"@ {
                Some(summary_json(r.summary))
            } else if key == "transactionId"@ {
                Some(JsonView::Text(r.transaction_id))
            } else if key == "workspaceUri"@ {
                Some(JsonView::Text(r.workspace_uri))
            } else {
                None
            }
        }),
{
    lemma_names();
    let p0 = seq![("cleanupPending"@, JsonView::Bool(r.cleanup_pending)), ("completedAt"@, JsonView::Text(r.completed_at)), ("filesystemState"@, JsonView::Text(r.filesystem_state)), ("kind"@, JsonView::Text(r.kind))];
    if key == "cleanupPending"@ {
        lemma_field_at(p0, 0, key);
    } else if key == "completedAt"@ {
        lemma_field_at(p0, 1, key);
    } else if key == "filesystemState"@ {
        lemma_field_at(p0, 2, key);
    } else if key == "kind"@ {
        lemma_field_at(p0, 3, key);
    } else {
        lemma_field_missing(p0, key);
    }
    let p1 = optional_text_field("linkedReceiptId"@, r.linked_receipt_id);
    if p1.len() > 0 && key == "linkedReceiptId"@ {
        lemma_field_at(p1, 0, key);
    } else {
        lemma_field_missing(p1, key);
    }
    let p2 = seq![("outcome"@, JsonView::Text(r.outcome))];
    if key == "outcome"@ {
        lemma_field_at(p2, 0, key);
    } else {
        lemma_field_missing(p2, key);
    }
    let p3 = optional_text_field("previewId"@, r.preview_id);
    if p3.len() > 0 && key == "previewId"@ {
        lemma_field_at(p3, 0, key);
    } else {
        lemma_field_missing(p3, key);
    }
    let p4 = seq![("receiptId"@, JsonView::Text(r.receipt_id))];
    if key == "receiptId"@ {
        lemma_field_at(p4, 0, key);
    } else {
        lemma_field_missing(p4, key);
    }
    let p5 = optional_text_field("server"@, r.server);
    if p5.len() > 0 && key == "server"@ {
        lemma_field_at(p5, 0, key);
    } else {
        lemma_field_missing(p5, key);
    }
    let p6 = seq![("summary"@, summary_json(r.summary)), ("transactionId"@, JsonView::Text(r.transaction_id)), ("workspaceUri"@, JsonView::Text(r.workspace_uri))];
    if key == "summary"@ {
        lemma_field_at(p6, 0, key);
    } else if key == "transactionId"@ {
        lemma_field_at(p6, 1, key);
    } else if key == "workspaceUri"@ {
        lemma_field_at(p6, 2, key);
    } else {
        lemma_field_missing(p6, key);
    }
    let s0 = p0;
    let s1 = s0 + p1;
    lemma_field_concat(s0, p1, key);
    let s2 = s1 + p2;
    lemma_field_concat(s1, p2, key);
    let s3 = s2 + p3;
    lemma_field_concat(s2, p3, key);
    let s4 = s3 + p4;
    lemma_field_concat(s3, p4, key);
    let s5 = s4 + p5;
    lemma_field_concat(s4, p5, key);
    let s6 = s5 + p6;
    lemma_field_concat(s5, p6, key);
    assert(receipt_entry(r)->Object_0 =~= s6);
}

proof fn lemma_manifest_entry(m: ManifestView, key: Seq<char>)
    ensures
        manifest_json(m).get(key) == ({
            if key == "contentDigest"@ {
                text_or_none(m.content_digest)
            } else if key == "exists"@ {
                Some(JsonView::Bool(m.exists))
            } else if key == "identityDigest"@ {
                text_or_none(m.identity_digest)
            } else if key == "metadataDigest"@ {
                text_or_none(m.metadata_digest)
            } else if key == "path"@ {
                Some(JsonView::Text(path_text(m.path)))
            } else if key == "resourceKind"@ {
                Some(JsonView::Text(kind_text(m.resource_kind)))
            } else {
                None
            }
        }),
{
    lemma_names();
    let p0 = optional_text_field("contentDigest"@, m.content_digest);
    if p0.len() > 0 && key == "contentDigest"@ {
        lemma_field_at(p0, 0, key);
    } else {
        lemma_field_missing(p0, key);
    }
    let p1 = seq![("exists"@, JsonView::Bool(m.exists))];
    if key == "exists"@ {
        lemma_field_at(p1, 0, key);
    } else {
        lemma_field_missing(p1, key);
    }
    let p2 = optional_text_field("identityDigest"@, m.identity_digest);
    if p2.len() > 0 && key == "identityDigest"@ {
        lemma_field_at(p2, 0, key);
    } else {
        lemma_field_missing(p2, key);
    }
    let p3 = optional_text_field("metadataDigest"@, m.metadata_digest);
    if p3.len() > 0 && key == "metadataDigest"@ {
        lemma_field_at(p3, 0, key);
    } else {
        lemma_field_missing(p3, key);
    }
    let p4 = seq![("path"@, JsonView::Text(path_text(m.path))), ("resourceKind"@, JsonView::Text(kind_text(m.resource_kind)))];
    if key == "path"@ {
        lemma_field_at(p4, 0, key);
    } else if key == "resourceKind"@ {
        lemma_field_at(p4, 1, key);
    } else {
        lemma_field_missing(p4, key);
    }
    let s0 = p0;
    let s1 = s0 + p1;
    lemma_field_concat(s0, p1, key);
    let s2 = s1 + p2;
    lemma_field_concat(s1, p2, key);
    let s3 = s2 + p3;
    lemma_field_concat(s2, p3, key);
    let s4 = s3 + p4;
    lemma_field_concat(s3, p4, key);
    assert(manifest_json(m)->Object_0 =~= s4);
}

/// A preview is listed with its identifier, its time, its server, its
/// workspace, and whether it is reserved or stale.
pub proof fn law_listed_previews_say_what_they_hold(p: PreviewView)
    ensures
        preview_entry(p).get("previewId"@) == Some(JsonView::Text(p.preview_id)),
        preview_entry(p).get("expiresAt"@) == Some(JsonView::Text(p.expires_at)),
        preview_entry(p).get("workspaceUri"@) == Some(JsonView::Text(p.workspace_uri)),
        preview_entry(p).get("server"@) == text_or_none(p.server),
        preview_entry(p).get("reserved"@) == Some(JsonView::Bool(p.reserved)),
        preview_entry(p).get("stale"@) == Some(JsonView::Bool(true)) <==> p.stale_reasons.len() > 0,
        preview_entry(p).get("summary"@) == Some(summary_json(p.summary)),
{
    lemma_preview_entry(p, "previewId"@);
    lemma_preview_entry(p, "expiresAt"@);
    lemma_preview_entry(p, "workspaceUri"@);
    lemma_preview_entry(p, "server"@);
    lemma_preview_entry(p, "reserved"@);
    lemma_preview_entry(p, "stale"@);
    lemma_preview_entry(p, "summary"@);
    lemma_names();
}

/// A receipt is listed with what it is a receipt of and what came of it.
pub proof fn law_listed_receipts_say_what_they_hold(r: ReceiptView)
    ensures
        receipt_entry(r).get("receiptId"@) == Some(JsonView::Text(r.receipt_id)),
        receipt_entry(r).get("kind"@) == Some(JsonView::Text(r.kind)),
        receipt_entry(r).get("transactionId"@) == Some(JsonView::Text(r.transaction_id)),
        receipt_entry(r).get("workspaceUri"@) == Some(JsonView::Text(r.workspace_uri)),
        receipt_entry(r).get("outcome"@) == Some(JsonView::Text(r.outcome)),
        receipt_entry(r).get("filesystemState"@) == Some(JsonView::Text(r.filesystem_state)),
        receipt_entry(r).get("completedAt"@) == Some(JsonView::Text(r.completed_at)),
        receipt_entry(r).get("cleanupPending"@) == Some(JsonView::Bool(r.cleanup_pending)),
        receipt_entry(r).get("previewId"@) == text_or_none(r.preview_id),
        receipt_entry(r).get("linkedReceiptId"@) == text_or_none(r.linked_receipt_id),
        receipt_entry(r).get("server"@) == text_or_none(r.server),
        receipt_entry(r).get("summary"@) == Some(summary_json(r.summary)),
{
    lemma_receipt_entry(r, "receiptId"@);
    lemma_receipt_entry(r, "kind"@);
    lemma_receipt_entry(r, "transactionId"@);
    lemma_receipt_entry(r, "workspaceUri"@);
    lemma_receipt_entry(r, "outcome"@);
    lemma_receipt_entry(r, "filesystemState"@);
    lemma_receipt_entry(r, "completedAt"@);
    lemma_receipt_entry(r, "cleanupPending"@);
    lemma_receipt_entry(r, "previewId"@);
    lemma_receipt_entry(r, "linkedReceiptId"@);
    lemma_receipt_entry(r, "server"@);
    lemma_receipt_entry(r, "summary"@);
    lemma_names();
}

/// A file is reported with its path, what it is, whether it is there, and the
/// digests that are known of it.
pub proof fn law_files_are_reported(m: ManifestView)
    ensures
        manifest_json(m).get("path"@) == Some(JsonView::Text(path_text(m.path))),
        manifest_json(m).get("exists"@) == Some(JsonView::Bool(m.exists)),
        manifest_json(m).get("contentDigest"@) == text_or_none(m.content_digest),
        manifest_json(m).get("identityDigest"@) == text_or_none(m.identity_digest),
        manifest_json(m).get("metadataDigest"@) == text_or_none(m.metadata_digest),
        m.resource_kind == ResourceKind::File ==> manifest_json(m).get("resourceKind"@) == Some(
            JsonView::Text("file"@),
        ),
        m.resource_kind == ResourceKind::Directory ==> manifest_json(m).get("resourceKind"@) == Some(
            JsonView::Text("directory"@),
        ),
        m.resource_kind == ResourceKind::Missing ==> manifest_json(m).get("resourceKind"@) == Some(
            JsonView::Text("missing"@),
        ),
{
    lemma_manifest_entry(m, "path"@);
    lemma_manifest_entry(m, "exists"@);
    lemma_manifest_entry(m, "contentDigest"@);
    lemma_manifest_entry(m, "identityDigest"@);
    lemma_manifest_entry(m, "metadataDigest"@);
    lemma_manifest_entry(m, "resourceKind"@);
    lemma_names();
}

/// Files are reported one by one, in their order.
pub proof fn law_manifests_are_reported_in_order(list: Seq<ManifestView>, i: int)
    requires
        0 <= i < list.len(),
    ensures
        manifests_json(list) matches JsonView::Array(items) && items.len() == list.len() && items[i] == manifest_json(
            list[i],
        ),
{
}

/// A summary reports each count under its own name.
pub proof fn law_summaries_are_reported(s: PreviewSummary)
    ensures
        summary_json(s).get("creates"@) == Some(JsonView::Int(s.creates as int)),
        summary_json(s).get("deletes"@) == Some(JsonView::Int(s.deletes as int)),
        summary_json(s).get("filesChanged"@) == Some(JsonView::Int(s.files_changed as int)),
        summary_json(s).get("renames"@) == Some(JsonView::Int(s.renames as int)),
        summary_json(s).get("textEdits"@) == Some(JsonView::Int(s.text_edits as int)),
{
    lemma_names();
    let o = summary_json(s)->Object_0;
    lemma_field_at(o, 0, "creates"@);
    lemma_field_at(o, 1, "deletes"@);
    lemma_field_at(o, 2, "filesChanged"@);
    lemma_field_at(o, 3, "renames"@);
    lemma_field_at(o, 4, "textEdits"@);
}

/// A list shows what is of the workspace and of the server or the outcome that
/// are asked for, and all of it where none is asked for.
pub proof fn law_lists_show_what_is_asked_for(
    p: StoredPreviewView,
    r: StoredReceiptView,
    workspace_uri: Seq<char>,
    server: Seq<char>,
    outcome: Seq<char>,
)
    ensures
        preview_shown(None, None)(p),
        receipt_shown(None, None)(r),
        preview_shown(Some(workspace_uri), None)(p) <==> p.preview.workspace_uri == workspace_uri,
        preview_shown(None, Some(server))(p) <==> p.preview.server == Some(server),
        preview_shown(Some(workspace_uri), Some(server))(p) <==> p.preview.workspace_uri == workspace_uri
            && p.preview.server == Some(server),
        receipt_shown(Some(workspace_uri), None)(r) <==> r.receipt.workspace_uri == workspace_uri,
        receipt_shown(None, Some(outcome))(r) <==> r.receipt.outcome == outcome,
        receipt_shown(Some(workspace_uri), Some(outcome))(r) <==> r.receipt.workspace_uri == workspace_uri
            && r.receipt.outcome == outcome,
{
}

/// Each of what is shown has its entry, in the same order.
pub proof fn law_entries_keep_their_order(
    previews: Seq<StoredPreviewView>,
    receipts: Seq<StoredReceiptView>,
    i: int,
    j: int,
)
    requires
        0 <= i < previews.len(),
        0 <= j < receipts.len(),
    ensures
        preview_entries(previews).len() == previews.len(),
        preview_entries(previews)[i] == preview_entry(previews[i].preview),
        receipt_entries(receipts).len() == receipts.len(),
        receipt_entries(receipts)[j] == receipt_entry(receipts[j].receipt),
{
}

/// A number that a command line gives is taken as it is spelled, and where it
/// gives none, the usual one.
pub proof fn law_given_numbers_are_taken(inv: InvocationView, flag: Seq<char>, n: nat, other: nat)
    requires
        n <= u32::MAX,
    ensures
        inv.value(flag) is None ==> number_or(inv, flag, other) == other,
        inv.value(flag) == Some(decimal_text(n)) ==> number_or(inv, flag, other) == n,
{
    law_spelled_numbers_are_read(n, usize::MAX as nat);
}

/// A list is reported under its command with its page and its items.
pub proof fn law_lists_are_reported(first: Seq<char>, second: Seq<char>, items: Seq<JsonView>, page: JsonView)
    ensures
        list_json(first, second, items, page).get("command"@) == Some(
            JsonView::Array(seq![JsonView::Text(first), JsonView::Text(second)]),
        ),
        list_json(first, second, items, page).get("ok"@) == Some(JsonView::Bool(true)),
        list_json(first, second, items, page).get("page"@) == Some(page),
        list_json(first, second, items, page).get("result"@) == Some(JsonView::Array(items)),
{
    lemma_names();
    let o = list_json(first, second, items, page)->Object_0;
    lemma_field_at(o, 0, "command"@);
    lemma_field_at(o, 1, "ok"@);
    lemma_field_at(o, 2, "page"@);
    lemma_field_at(o, 3, "result"@);
    assert(o[0].1->Array_0 =~= seq![JsonView::Text(first), JsonView::Text(second)]);
}

/// A preview that is made is reported as previewed, and where there is nothing
/// to preview, nothing changes.
pub proof fn law_made_previews_are_reported(preview: JsonView)
    ensures
        creation_json(preview).get("result"@) == Some(preview),
        preview is Null ==> creation_json(preview).get("outcome"@) == Some(JsonView::Text("unchanged"@)),
        !(preview is Null) ==> creation_json(preview).get("outcome"@) == Some(JsonView::Text("previewed"@)),
{
    lemma_names();
    let o = creation_json(preview)->Object_0;
    lemma_field_at(o, 2, "outcome"@);
    lemma_field_at(o, 3, "result"@);
}

/// A journal is reported with what it holds, and with how its files stand:
/// partly changed where recovery is required, changed where only cleaning up
/// is left, and else in transition.
pub proof fn law_journals_say_how_files_stand(t: TransactionView)
    ensures
        t.state == TransactionState::RecoveryRequired ==> journal_json(t).get("filesystemState"@) == Some(
            JsonView::Text("partial"@),
        ),
        t.state == TransactionState::CleanupPending ==> journal_json(t).get("filesystemState"@) == Some(
            JsonView::Text("changed"@),
        ),
        t.state == TransactionState::Staged || t.state == TransactionState::Committing ==> journal_json(t).get(
            "filesystemState"@,
        ) == Some(JsonView::Text("in_transition"@)),
        journal_json(t).get("cleanupPending"@) == Some(JsonView::Bool(t.cleanup_pending)),
        journal_json(t).get("intendedManifest"@) == Some(manifests_json(t.intended_manifest)),
        journal_json(t).get("observedManifest"@) == Some(manifests_json(t.observed_manifest)),
        journal_json(t).get("manifestDigest"@) == Some(JsonView::Text(t.manifest_digest)),
        journal_json(t).get("protected"@) == Some(JsonView::Bool(true)),
        journal_json(t).get("receiptId"@) == Some(JsonView::Text(t.receipt_id)),
        journal_json(t).get("transactionId"@) == Some(JsonView::Text(t.transaction_id)),
        journal_json(t).get("workspaceUri"@) == Some(JsonView::Text(t.workspace_uri)),
{
    lemma_names();
    let o = journal_json(t)->Object_0;
    lemma_field_at(o, 0, "cleanupPending"@);
    lemma_field_at(o, 1, "filesystemState"@);
    lemma_field_at(o, 2, "intendedManifest"@);
    lemma_field_at(o, 4, "manifestDigest"@);
    lemma_field_at(o, 5, "observedManifest"@);
    lemma_field_at(o, 6, "protected"@);
    lemma_field_at(o, 7, "receiptId"@);
    lemma_field_at(o, 8, "transactionId"@);
    lemma_field_at(o, 9, "workspaceUri"@);
}

/// The journals of a workspace are reported in their order, with those that
/// cannot be read, and no other workspace's.
pub proof fn law_journals_of_the_workspace_are_reported(
    journals: Seq<JournalView>,
    next: JournalView,
    workspace_uri: Seq<char>,
)
    ensures
        ({
            let before = reported_journals(journals, workspace_uri);
            let after = reported_journals(journals.push(next), workspace_uri);
            match next {
                JournalView::Record(t) => if t.workspace_uri == workspace_uri {
                    after.len() == before.len() + 1 && after.drop_last() == before && after.last() == journal_json(t)
                } else {
                    after == before
                },
                JournalView::Corrupt(evidence) => after.len() == before.len() + 1 && after.drop_last() == before
                    && after.last() == evidence,
            }
        }),
        reported_journals(seq![], workspace_uri) == Seq::<JsonView>::empty(),
{
    assert(journals.push(next).drop_last() =~= journals);
    let before = reported_journals(journals, workspace_uri);
    let after = reported_journals(journals.push(next), workspace_uri);
    if after.len() == before.len() + 1 {
        assert(after.drop_last() =~= before);
    }
}

/// Once every session has followed an application, its report says so and
/// keeps all else it says.
pub proof fn law_followed_applications_are_reported(report: JsonView, result: JsonView, key: Seq<char>)
    requires
        report.get("result"@) == Some(result),
        result is Object,
    ensures
        synchronized_report(report, seq![]).get("result"@) matches Some(after) && after.get("sessionSynchronized"@)
            == Some(JsonView::Bool(true)) && (key != "sessionSynchronized"@ ==> after.get(key) == result.get(key)),
        key != "result"@ ==> synchronized_report(report, seq![]).get(key) == report.get(key),
{
    let o = report->Object_0;
    let inner = with_field(result->Object_0, "sessionSynchronized"@, JsonView::Bool(true));
    lemma_field_set(result->Object_0, "sessionSynchronized"@, JsonView::Bool(true), "sessionSynchronized"@);
    lemma_field_set(result->Object_0, "sessionSynchronized"@, JsonView::Bool(true), key);
    lemma_field_set(o, "result"@, JsonView::Object(inner), "result"@);
    lemma_field_set(o, "result"@, JsonView::Object(inner), key);
}

/// Sessions that could not follow an application are named in a warning, and
/// all else that its report says stays.
pub proof fn law_sessions_left_behind_are_named(report: JsonView, failures: Seq<Seq<char>>, i: int, key: Seq<char>)
    requires
        report is Object,
        0 <= i < failures.len(),
    ensures
        synchronized_report(report, failures).get("warnings"@) matches Some(JsonView::Array(warnings)) && {
            &&& warnings.len() == 1
            &&& warnings[0].get("code"@) == Some(JsonView::Text("session_synchronization_failed"@))
            &&& warnings[0].get("data"@) matches Some(data)
            &&& data.get("ownerGenerations"@) matches Some(JsonView::Array(names))
            &&& names.len() == failures.len()
            &&& names[i] == JsonView::Text(failures[i])
        },
        key != "warnings"@ ==> synchronized_report(report, failures).get(key) == report.get(key),
{
    lemma_names();
    let o = report->Object_0;
    let warning = synchronization_warning(failures);
    let warnings = JsonView::Array(seq![warning]);
    lemma_field_set(o, "warnings"@, warnings, "warnings"@);
    lemma_field_set(o, "warnings"@, warnings, key);
    lemma_field_at(warning->Object_0, 0, "code"@);
    lemma_field_at(warning->Object_0, 1, "data"@);
    lemma_field_at(warning->Object_0[1].1->Object_0, 0, "ownerGenerations"@);
}

/// The receipt of an application is marked later exactly where its report does
/// not say that the sessions have followed.
pub proof fn law_receipts_are_marked_where_owed(report: JsonView, result: JsonView, id: Seq<char>)
    requires
        report.get("result"@) == Some(result),
        result.get("receiptId"@) == Some(JsonView::Text(id)),
    ensures
        result.get("sessionSynchronized"@) == Some(JsonView::Bool(true)) ==> unsynchronized_receipt(report) is None,
        result.get("sessionSynchronized"@) != Some(JsonView::Bool(true)) ==> unsynchronized_receipt(report) == Some(id),
{
}

} // verus!
