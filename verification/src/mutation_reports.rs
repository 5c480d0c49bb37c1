//! Reports on previews, receipts and recoveries.

use vstd::prelude::*;
use vstd::utf8::{decode_utf8, encode_utf8, valid_utf8};

use crate::application::{Journal, JournalView};
use crate::checks::{preview_manifest_mismatches, preview_mismatches};
use crate::edits::{CanonicalTextEdit, EditView};
use crate::failure::{ContractFailure, FailureView, failed, failure};
use crate::invocation::{InvocationView, ParsedInvocation};
use crate::json::{
    Json,
    JsonView,
    array_view,
    copy_fields,
    object2,
    object3,
    object_view,
    push_field,
    set_field,
    text_value,
    with_field,
};
use crate::manifest::{
    ManifestEntry,
    ManifestView,
    PathView,
    manifests_json,
    manifests_to_json,
    optional_text_field,
    push_optional_text,
};
use crate::path::{NativePath, path_text};
use crate::plan::{CanonicalOperation, OperationView, PreviewSummary};
use crate::plan_tree::lemma_filter_take;
use crate::query_envelopes::{cut_page, page_items, page_json};
use crate::query_inputs::{Page, or_number};
use crate::records::{
    PreviewView,
    ReceiptRecord,
    ReceiptView,
    StoredPreview,
    StoredPreviewView,
    StoredReceipt,
    StoredReceiptView,
    TransactionRecord,
    TransactionState,
    TransactionView,
};
use crate::reports::texts_json;
use crate::store::texts_value;
use crate::text::{concat3, opt_view, parse_u64, parsed_unsigned, same, same_opt, utf8_text, views};
use crate::uri::{directory_uri_of, uri_of_directory};

verus! {

/// The differences between two texts, line by line, as a patch of the file at a
/// path, with so many lines around each.
pub uninterp spec fn line_diff(path: Seq<char>, old_text: Seq<char>, new_text: Seq<char>, radius: nat) -> Seq<char>;

/// `similar::TextDiff::from_lines` compares two texts line by line, and its
/// `unified_diff` writes the differences as a patch under a header with the path
/// on both sides. It doubles the number of lines around each difference, which
/// has to be small enough for that.
#[verifier::external_body]
fn unified_diff(path: &str, old_text: &str, new_text: &str, radius: usize) -> (r: String)
    requires
        radius <= usize::MAX / 2,
    ensures
        r@ == line_diff(path@, old_text@, new_text@, radius as nat),
{
    similar::TextDiff::from_lines(old_text, new_text)
        .unified_diff()
        .context_radius(radius)
        .header(path, path)
        .to_string()
}

/// The differences between two texts of a file, with three lines around each.
pub fn contextual_text_diff(path: &NativePath, old_text: &str, new_text: &str) -> (r: String)
    ensures
        r@ == line_diff(path_text(path@), old_text@, new_text@, 3),
{
    unified_diff(path.to_text().as_str(), old_text, new_text, 3)
}

/// Whether a place in a text stands between two characters.
pub open spec fn between_characters(text: Seq<u8>, i: int) -> bool {
    i == text.len() || 0 <= i < text.len() && !(0x80 <= text[i] < 0xc0)
}

/// A text after edits, where each stands between characters of the text behind
/// the one before it.
pub open spec fn presented(text: Seq<u8>, edits: Seq<EditView>, from: int, cursor: nat) -> Option<Seq<u8>>
    decreases edits.len() - from,
{
    if from < 0 || from >= edits.len() {
        if between_characters(text, cursor as int) {
            Some(text.skip(cursor as int))
        } else {
            None
        }
    } else if cursor <= edits[from].start <= text.len() && between_characters(text, cursor as int)
        && between_characters(text, edits[from].start as int) {
        match presented(text, edits, from + 1, edits[from].end) {
            Some(rest) => Some(
                text.subrange(cursor as int, edits[from].start as int) + encode_utf8(edits[from].new_text) + rest,
            ),
            None => None,
        }
    } else {
        None
    }
}

fn is_boundary(text: &Vec<u8>, i: usize) -> (r: bool)
    ensures
        r == between_characters(text@, i as int),
{
    if i >= text.len() {
        return i == text.len();
    }
    text[i] < 0x80 || text[i] >= 0xc0
}

fn push_bytes(out: &mut Vec<u8>, text: &Vec<u8>, from: usize, to: usize)
    requires
        from <= to <= text@.len(),
    ensures
        final(out)@ == old(out)@ + text@.subrange(from as int, to as int),
{
    let ghost start = out@;
    let mut i: usize = from;
    assert(start + text@.subrange(from as int, from as int) =~= start);
    while i < to
        invariant
            from <= i <= to <= text@.len(),
            out@ == start + text@.subrange(from as int, i as int),
        decreases to - i,
    {
        out.push(text[i]);
        assert(out@ =~= start + text@.subrange(from as int, i + 1));
        i += 1;
    }
}

fn push_text(out: &mut Vec<u8>, text: &str)
    ensures
        final(out)@ == old(out)@ + encode_utf8(text@),
{
    let bytes: &[u8] = text.as_bytes();
    let ghost all = encode_utf8(text@);
    let ghost start = out@;
    let mut i: usize = 0;
    assert(start + all.take(0) =~= start);
    while i < bytes.len()
        invariant
            i <= bytes@.len(),
            bytes@ == all,
            out@ == start + all.take(i as int),
        decreases bytes.len() - i,
    {
        out.push(bytes[i]);
        assert(out@ =~= start + all.take(i + 1));
        i += 1;
    }
    assert(all.take(i as int) =~= all);
}

/// A text after edits, for its presentation.
pub fn present_edits(text: &Vec<u8>, edits: &Vec<CanonicalTextEdit>) -> (r: Option<Vec<u8>>)
    ensures
        opt_view(r) == presented(text@, views(edits@), 0, 0),
{
    let ghost all = views(edits@);
    let mut out: Vec<u8> = Vec::new();
    let mut cursor: u64 = 0;
    let mut i: usize = 0;
    let ghost whole = presented(text@, all, 0, 0);
    proof {
        if whole is Some {
            assert(whole->0 =~= out@ + whole->0);
        }
    }
    while i < edits.len()
        invariant
            i <= edits@.len(),
            all == views(edits@),
            whole == presented(text@, all, 0, 0),
            whole == match presented(text@, all, i as int, cursor as nat) {
                Some(rest) => Some(out@ + rest),
                None => None,
            },
        decreases edits.len() - i,
    {
        assert(all[i as int] == edits@[i as int]@);
        let start: u64 = edits[i].start_byte;
        let length: usize = text.len();
        if !(cursor <= start && start <= length as u64) {
            return None;
        }
        if !is_boundary(text, cursor as usize) || !is_boundary(text, start as usize) {
            return None;
        }
        let ghost before = out@;
        push_bytes(&mut out, text, cursor as usize, start as usize);
        push_text(&mut out, edits[i].new_text.as_str());
        proof {
            let rest = presented(text@, all, i + 1, edits@[i as int]@.end);
            if rest is Some {
                assert(before + (text@.subrange(cursor as int, start as int) + encode_utf8(all[i as int].new_text)
                    + rest->0) =~= out@ + rest->0);
            }
        }
        cursor = edits[i].end_byte;
        i += 1;
    }
    let length: usize = text.len();
    if cursor > length as u64 || !is_boundary(text, cursor as usize) {
        return None;
    }
    let ghost before = out@;
    push_bytes(&mut out, text, cursor as usize, length);
    assert(text@.subrange(cursor as int, length as int) =~= text@.skip(cursor as int));
    Some(out)
}

/// What a file holds.
pub struct FileContent {
    pub path: NativePath,
    pub bytes: Vec<u8>,
}

/// What is in the file at a path, where it was read.
pub open spec fn content_of(files: Seq<FileContent>, path: PathView) -> Option<Seq<u8>>
    decreases files.len(),
{
    if files.len() == 0 {
        None
    } else if files[0].path@ == path {
        Some(files[0].bytes@)
    } else {
        content_of(files.drop_first(), path)
    }
}

fn find_file<'a>(files: &'a Vec<FileContent>, path: &NativePath) -> (r: Option<&'a Vec<u8>>)
    ensures
        match r {
            Some(bytes) => content_of(files@, path@) == Some(bytes@),
            None => content_of(files@, path@) is None,
        },
{
    let mut i: usize = 0;
    assert(files@.skip(0) =~= files@);
    while i < files.len()
        invariant
            i <= files@.len(),
            content_of(files@, path@) == content_of(files@.skip(i as int), path@),
        decreases files.len() - i,
    {
        proof {
            assert(files@.skip(i as int)[0] == files@[i as int]);
            assert(files@.skip(i as int).drop_first() =~= files@.skip(i + 1));
        }
        if files[i].path.same_path(path) {
            return Some(&files[i].bytes);
        }
        i += 1;
    }
    None
}

/// The part of a presentation that shows a step on a text, where the text and
/// what becomes of it can be read.
pub open spec fn text_part(path: PathView, edits: Seq<EditView>, content: Option<Seq<u8>>) -> Option<Seq<char>> {
    match content {
        None => None,
        Some(old_bytes) => if !valid_utf8(old_bytes) {
            None
        } else {
            match presented(old_bytes, edits, 0, 0) {
                None => None,
                Some(new_bytes) => if valid_utf8(new_bytes) {
                    Some(line_diff(path_text(path), decode_utf8(old_bytes), decode_utf8(new_bytes), 3))
                } else {
                    None
                },
            }
        },
    }
}

/// The part of a presentation that shows one step.
pub open spec fn step_part(op: OperationView, files: Seq<FileContent>) -> Option<Seq<char>> {
    match op {
        OperationView::Text { path, edits, .. } => text_part(path, edits, content_of(files, path)),
        OperationView::Create { path, .. } => Some("create "@ + path_text(path) + "\n"@),
        OperationView::Rename { old_path, new_path, .. } => Some(
            "rename "@ + path_text(old_path) + " -> "@ + path_text(new_path) + "\n"@,
        ),
        OperationView::Delete { path, .. } => Some("delete "@ + path_text(path) + "\n"@),
    }
}

/// The presentation of steps: that of each in turn. Where one cannot be shown
/// there is none.
pub open spec fn steps_text(ops: Seq<OperationView>, files: Seq<FileContent>) -> Option<Seq<char>>
    decreases ops.len(),
{
    if ops.len() == 0 {
        Some(Seq::empty())
    } else {
        match (steps_text(ops.drop_last(), files), step_part(ops.last(), files)) {
            (Some(shown), Some(part)) => Some(shown + part),
            _ => None,
        }
    }
}

fn show_text(path: &NativePath, edits: &Vec<CanonicalTextEdit>, files: &Vec<FileContent>) -> (r: Option<String>)
    ensures
        opt_view(r) == text_part(path@, views(edits@), content_of(files@, path@)),
{
    let bytes: &Vec<u8> = match find_file(files, path) {
        Some(bytes) => bytes,
        None => {
            return None;
        },
    };
    let old_text: String = match utf8_text(bytes) {
        Some(text) => text,
        None => {
            return None;
        },
    };
    match present_edits(bytes, edits) {
        None => None,
        Some(edited) => match utf8_text(&edited) {
            None => None,
            Some(new_text) => Some(contextual_text_diff(path, old_text.as_str(), new_text.as_str())),
        },
    }
}

fn show_step(op: &CanonicalOperation, files: &Vec<FileContent>) -> (r: Option<String>)
    ensures
        opt_view(r) == step_part(op@, files@),
{
    match op {
        CanonicalOperation::Text { path, edits, .. } => show_text(path, edits, files),
        CanonicalOperation::Create { path, .. } => Some(concat3("create ", path.to_text().as_str(), "\n")),
        CanonicalOperation::Rename { old_path, new_path, .. } => {
            let start: String = concat3("rename ", old_path.to_text().as_str(), " -> ");
            Some(concat3(start.as_str(), new_path.to_text().as_str(), "\n"))
        },
        CanonicalOperation::Delete { path, .. } => Some(concat3("delete ", path.to_text().as_str(), "\n")),
    }
}

proof fn lemma_steps_stop(ops: Seq<OperationView>, files: Seq<FileContent>, i: int)
    requires
        0 <= i <= ops.len(),
        steps_text(ops.take(i), files) is None,
    ensures
        steps_text(ops, files) is None,
    decreases ops.len() - i,
{
    if i < ops.len() {
        assert(ops.take(i + 1).drop_last() =~= ops.take(i));
        lemma_steps_stop(ops, files, i + 1);
    } else {
        assert(ops.take(i) =~= ops);
    }
}

/// The presentation of the steps of a preview, given what its files hold.
pub fn preview_diff(operations: &Vec<CanonicalOperation>, files: &Vec<FileContent>) -> (r: Option<String>)
    ensures
        opt_view(r) == steps_text(views(operations@), files@),
{
    let ghost all = views(operations@);
    let mut output: String = "".to_owned();
    let mut i: usize = 0;
    proof {
        reveal_strlit("");
        assert(output@ =~= Seq::<char>::empty());
        assert(all.take(0) =~= Seq::<OperationView>::empty());
    }
    while i < operations.len()
        invariant
            i <= operations@.len(),
            all == views(operations@),
            steps_text(all.take(i as int), files@) == Some(output@),
        decreases operations.len() - i,
    {
        proof {
            assert(all.take(i + 1).drop_last() =~= all.take(i as int));
            assert(all.take(i + 1).last() == operations@[i as int]@);
        }
        match show_step(&operations[i], files) {
            Some(part) => {
                output.push_str(part.as_str());
            },
            None => {
                proof { lemma_steps_stop(all, files@, i + 1); }
                return None;
            },
        }
        i += 1;
    }
    assert(all.take(i as int) =~= all);
    Some(output)
}

/// A preview with its presentation: why it may no longer be applied, and what it
/// would do where nothing speaks against it. Where its files could not be looked
/// at, nothing is shown.
pub open spec fn presented_preview(
    stored: StoredPreviewView,
    current: Option<Seq<ManifestView>>,
    files: Seq<FileContent>,
) -> StoredPreviewView {
    match current {
        None => StoredPreviewView { preview: PreviewView { diff: None, ..stored.preview }, ..stored },
        Some(manifest) => {
            let reasons = preview_mismatches(stored.preview.plan, manifest);
            StoredPreviewView {
                preview: PreviewView {
                    stale_reasons: reasons,
                    diff: if reasons.len() == 0 {
                        steps_text(stored.preview.plan.operations, files)
                    } else {
                        None
                    },
                    ..stored.preview
                },
                ..stored
            }
        },
    }
}

/// Completes a preview with its presentation.
pub fn refresh_preview_presentation(
    stored: &mut StoredPreview,
    current: Option<&Vec<ManifestEntry>>,
    files: &Vec<FileContent>,
)
    ensures
        final(stored)@ == presented_preview(
            old(stored)@,
            match current {
                Some(manifest) => Some(views(manifest@)),
                None => None,
            },
            files@,
        ),
{
    match current {
        None => {
            stored.preview.diff = None;
        },
        Some(manifest) => {
            let reasons: Vec<Json> = preview_manifest_mismatches(&stored.preview.plan, manifest);
            assert(array_view(reasons@).len() == reasons@.len());
            let diff: Option<String> = if reasons.len() == 0 {
                preview_diff(&stored.preview.plan.operations, files)
            } else {
                None
            };
            stored.preview.stale_reasons = reasons;
            stored.preview.diff = diff;
        },
    }
}

/// How much a plan does, in JSON.
pub open spec fn summary_json(s: PreviewSummary) -> JsonView {
    JsonView::Object(
        seq![
            ("creates"@, JsonView::Int(s.creates as int)),
            ("deletes"@, JsonView::Int(s.deletes as int)),
            ("filesChanged"@, JsonView::Int(s.files_changed as int)),
            ("renames"@, JsonView::Int(s.renames as int)),
            ("textEdits"@, JsonView::Int(s.text_edits as int)),
        ],
    )
}

/// How much a plan does, in JSON.
pub fn summary_value(s: PreviewSummary) -> (r: Json)
    ensures
        r@ == summary_json(s),
{
    let mut o: Vec<(String, Json)> = Vec::new();
    assert(object_view(o@) =~= Seq::<(Seq<char>, JsonView)>::empty());
    push_field(&mut o, "creates", Json::Unsigned(s.creates));
    push_field(&mut o, "deletes", Json::Unsigned(s.deletes));
    push_field(&mut o, "filesChanged", Json::Unsigned(s.files_changed));
    push_field(&mut o, "renames", Json::Unsigned(s.renames));
    push_field(&mut o, "textEdits", Json::Unsigned(s.text_edits));
    assert(object_view(o@) =~= summary_json(s)->Object_0);
    Json::Object(o)
}

/// A preview in a list, in JSON.
pub open spec fn preview_entry(p: PreviewView) -> JsonView {
    JsonView::Object(
        seq![
            ("expiresAt"@, JsonView::Text(p.expires_at)),
            ("previewId"@, JsonView::Text(p.preview_id)),
            ("reserved"@, JsonView::Bool(p.reserved)),
        ] + optional_text_field("server"@, p.server) + seq![
            ("stale"@, JsonView::Bool(p.stale_reasons.len() > 0)),
            ("summary"@, summary_json(p.summary)),
            ("workspaceUri"@, JsonView::Text(p.workspace_uri)),
        ],
    )
}

/// A preview in a list, in JSON.
pub fn preview_list_entry(stored: &StoredPreview) -> (r: Json)
    ensures
        r@ == preview_entry(stored@.preview),
{
    let p = &stored.preview;
    assert(array_view(p.stale_reasons@).len() == p.stale_reasons@.len());
    let mut o: Vec<(String, Json)> = Vec::new();
    assert(object_view(o@) =~= Seq::<(Seq<char>, JsonView)>::empty());
    push_field(&mut o, "expiresAt", text_value(p.expires_at.as_str()));
    push_field(&mut o, "previewId", text_value(p.preview_id.as_str()));
    push_field(&mut o, "reserved", Json::Bool(p.reserved));
    push_optional_text(&mut o, "server", &p.server);
    push_field(&mut o, "stale", Json::Bool(p.stale_reasons.len() > 0));
    push_field(&mut o, "summary", summary_value(p.summary));
    push_field(&mut o, "workspaceUri", text_value(p.workspace_uri.as_str()));
    assert(object_view(o@) =~= preview_entry(stored@.preview)->Object_0);
    Json::Object(o)
}

/// A receipt in a list, in JSON.
pub open spec fn receipt_entry(r: ReceiptView) -> JsonView {
    JsonView::Object(
        seq![
            ("cleanupPending"@, JsonView::Bool(r.cleanup_pending)),
            ("completedAt"@, JsonView::Text(r.completed_at)),
            ("filesystemState"@, JsonView::Text(r.filesystem_state)),
            ("kind"@, JsonView::Text(r.kind)),
        ] + optional_text_field("linkedReceiptId"@, r.linked_receipt_id) + seq![
            ("outcome"@, JsonView::Text(r.outcome)),
        ] + optional_text_field("previewId"@, r.preview_id) + seq![
            ("receiptId"@, JsonView::Text(r.receipt_id)),
        ] + optional_text_field("server"@, r.server) + seq![
            ("summary"@, summary_json(r.summary)),
            ("transactionId"@, JsonView::Text(r.transaction_id)),
            ("workspaceUri"@, JsonView::Text(r.workspace_uri)),
        ],
    )
}

/// A receipt in a list, in JSON.
pub fn receipt_list_entry(receipt: &ReceiptRecord) -> (r: Json)
    ensures
        r@ == receipt_entry(receipt@),
{
    let mut o: Vec<(String, Json)> = Vec::new();
    assert(object_view(o@) =~= Seq::<(Seq<char>, JsonView)>::empty());
    push_field(&mut o, "cleanupPending", Json::Bool(receipt.cleanup_pending));
    push_field(&mut o, "completedAt", text_value(receipt.completed_at.as_str()));
    push_field(&mut o, "filesystemState", text_value(receipt.filesystem_state.as_str()));
    push_field(&mut o, "kind", text_value(receipt.kind.as_str()));
    push_optional_text(&mut o, "linkedReceiptId", &receipt.linked_receipt_id);
    push_field(&mut o, "outcome", text_value(receipt.outcome.as_str()));
    push_optional_text(&mut o, "previewId", &receipt.preview_id);
    push_field(&mut o, "receiptId", text_value(receipt.receipt_id.as_str()));
    push_optional_text(&mut o, "server", &receipt.server);
    push_field(&mut o, "summary", summary_value(receipt.summary));
    push_field(&mut o, "transactionId", text_value(receipt.transaction_id.as_str()));
    push_field(&mut o, "workspaceUri", text_value(receipt.workspace_uri.as_str()));
    assert(object_view(o@) =~= receipt_entry(receipt@)->Object_0);
    Json::Object(o)
}

/// The number that an option gives, or another where it gives none.
pub open spec fn number_or(inv: InvocationView, flag: Seq<char>, other: nat) -> nat {
    match inv.value(flag) {
        Some(value) => or_number(parsed_unsigned(value, usize::MAX as nat), other),
        None => other,
    }
}

fn number_option_or(invocation: &ParsedInvocation, flag: &str, other: usize) -> (r: usize)
    ensures
        r == number_or(invocation@, flag@, other as nat),
{
    match invocation.option_string(flag) {
        Some(value) => match parse_u64(value.as_str()) {
            Some(n) => if n <= usize::MAX as u64 {
                n as usize
            } else {
                other
            },
            None => other,
        },
        None => other,
    }
}

/// The page of a list that a command line asks for, and what is said of it.
pub fn paginate(records: &Vec<Json>, invocation: &ParsedInvocation) -> (r: (Vec<Json>, Json))
    ensures
        ({
            let offset = number_or(invocation@, "--offset"@, 0);
            let limit = number_or(invocation@, "--limit"@, 100);
            &&& array_view(r.0@) == page_items(array_view(records@), offset, limit)
            &&& r.1@ == page_json(array_view(records@), offset, limit)
        }),
{
    let offset: usize = number_option_or(invocation, "--offset", 0);
    let limit: usize = number_option_or(invocation, "--limit", 100);
    cut_page(records, Page { offset, limit })
}

/// The report of a command of two words that lists something.
pub open spec fn list_json(first: Seq<char>, second: Seq<char>, items: Seq<JsonView>, page: JsonView) -> JsonView {
    JsonView::Object(
        seq![
            ("command"@, texts_json(seq![first, second])),
            ("ok"@, JsonView::Bool(true)),
            ("page"@, page),
            ("result"@, JsonView::Array(items)),
            ("schemaVersion"@, JsonView::Int(1)),
        ],
    )
}

fn two_words(first: &str, second: &str) -> (r: Json)
    ensures
        r@ == texts_json(seq![first@, second@]),
{
    let list: Vec<String> = vec![first.to_owned(), second.to_owned()];
    assert(views(list@) =~= seq![first@, second@]);
    texts_value(&list)
}

fn list_value(first: &str, second: &str, entries: &Vec<Json>, invocation: &ParsedInvocation) -> (r: Json)
    ensures
        ({
            let offset = number_or(invocation@, "--offset"@, 0);
            let limit = number_or(invocation@, "--limit"@, 100);
            let all = array_view(entries@);
            r@ == list_json(first@, second@, page_items(all, offset, limit), page_json(all, offset, limit))
        }),
{
    let (items, page) = paginate(entries, invocation);
    let ghost cut = array_view(items@);
    let ghost said = page@;
    let mut o: Vec<(String, Json)> = Vec::new();
    assert(object_view(o@) =~= Seq::<(Seq<char>, JsonView)>::empty());
    push_field(&mut o, "command", two_words(first, second));
    push_field(&mut o, "ok", Json::Bool(true));
    push_field(&mut o, "page", page);
    push_field(&mut o, "result", Json::Array(items));
    push_field(&mut o, "schemaVersion", Json::Unsigned(1));
    assert(object_view(o@) =~= list_json(first@, second@, cut, said)->Object_0);
    Json::Object(o)
}

/// Which previews a list shows.
pub open spec fn preview_shown(workspace_uri: Option<Seq<char>>, server: Option<Seq<char>>) -> spec_fn(StoredPreviewView) -> bool {
    |p: StoredPreviewView|
        (workspace_uri matches Some(w) ==> w == p.preview.workspace_uri) && (server is Some ==> p.preview.server
            == server)
}

/// The entries of the previews that a list shows.
pub open spec fn preview_entries(list: Seq<StoredPreviewView>) -> Seq<JsonView> {
    list.map_values(|p: StoredPreviewView| preview_entry(p.preview))
}

/// Whether a preview is of a workspace and a server, where they are asked for.
pub fn shows_preview(stored: &StoredPreview, workspace_uri: &Option<String>, server: &Option<String>) -> (r: bool)
    ensures
        r == preview_shown(opt_view(*workspace_uri), opt_view(*server))(stored@),
{
    let here: bool = match workspace_uri {
        Some(w) => same(w.as_str(), stored.preview.workspace_uri.as_str()),
        None => true,
    };
    here && (server.is_none() || same_opt(&stored.preview.server, server))
}

/// The report of the previews that are stored, given those that are asked for.
pub fn preview_list(shown: &Vec<StoredPreview>, invocation: &ParsedInvocation) -> (r: Json)
    ensures
        ({
            let offset = number_or(invocation@, "--offset"@, 0);
            let limit = number_or(invocation@, "--limit"@, 100);
            let all = preview_entries(views(shown@));
            r@ == list_json("preview"@, "list"@, page_items(all, offset, limit), page_json(all, offset, limit))
        }),
{
    let ghost all = preview_entries(views(shown@));
    let mut entries: Vec<Json> = Vec::new();
    let mut i: usize = 0;
    while i < shown.len()
        invariant
            i <= shown@.len(),
            all == preview_entries(views(shown@)),
            entries@.len() == i,
            forall|k: int| 0 <= k < i ==> (#[trigger] entries@[k])@ == all[k],
        decreases shown.len() - i,
    {
        assert(all[i as int] == preview_entry(shown@[i as int]@.preview));
        entries.push(preview_list_entry(&shown[i]));
        i += 1;
    }
    assert(array_view(entries@) =~= all);
    list_value("preview", "list", &entries, invocation)
}

/// Which receipts a list shows.
pub open spec fn receipt_shown(workspace_uri: Option<Seq<char>>, outcome: Option<Seq<char>>) -> spec_fn(StoredReceiptView) -> bool {
    |r: StoredReceiptView|
        (workspace_uri matches Some(w) ==> w == r.receipt.workspace_uri) && (outcome matches Some(o) ==> o
            == r.receipt.outcome)
}

/// The entries of receipts.
pub open spec fn receipt_entries(list: Seq<StoredReceiptView>) -> Seq<JsonView> {
    list.map_values(|r: StoredReceiptView| receipt_entry(r.receipt))
}

/// The report of the receipts that are stored, of a workspace and with an
/// outcome, where they are asked for.
pub fn receipt_list(
    stored: &Vec<StoredReceipt>,
    workspace_uri: &Option<String>,
    outcome: &Option<String>,
    invocation: &ParsedInvocation,
) -> (r: Json)
    ensures
        ({
            let offset = number_or(invocation@, "--offset"@, 0);
            let limit = number_or(invocation@, "--limit"@, 100);
            let all = receipt_entries(
                views(stored@).filter(receipt_shown(opt_view(*workspace_uri), opt_view(*outcome))),
            );
            r@ == list_json("receipt"@, "list"@, page_items(all, offset, limit), page_json(all, offset, limit))
        }),
{
    let ghost all = views(stored@);
    let ghost p = receipt_shown(opt_view(*workspace_uri), opt_view(*outcome));
    let mut entries: Vec<Json> = Vec::new();
    let mut i: usize = 0;
    proof {
        assert(all.take(0).filter(p) =~= seq![]) by {
            reveal(Seq::filter);
        }
        assert(array_view(entries@) =~= receipt_entries(all.take(0).filter(p)));
    }
    while i < stored.len()
        invariant
            i <= stored@.len(),
            all == views(stored@),
            p == receipt_shown(opt_view(*workspace_uri), opt_view(*outcome)),
            array_view(entries@) == receipt_entries(all.take(i as int).filter(p)),
        decreases stored.len() - i,
    {
        proof { lemma_filter_take(all, p, i as int); }
        assert(all[i as int] == stored@[i as int]@);
        let ghost before = array_view(entries@);
        let here: bool = match workspace_uri {
            Some(w) => same(w.as_str(), stored[i].receipt.workspace_uri.as_str()),
            None => true,
        };
        let asked: bool = match outcome {
            Some(o) => same(o.as_str(), stored[i].receipt.outcome.as_str()),
            None => true,
        };
        if here && asked {
            entries.push(receipt_list_entry(&stored[i].receipt));
            assert(array_view(entries@) =~= before.push(receipt_entry(all[i as int].receipt)));
            assert(receipt_entries(all.take(i + 1).filter(p)) =~= before.push(receipt_entry(all[i as int].receipt)));
        }
        i += 1;
    }
    assert(all.take(i as int) =~= all);
    list_value("receipt", "list", &entries, invocation)
}

/// The report of a command of two words.
pub open spec fn done_json(first: Seq<char>, second: Seq<char>, result: JsonView) -> JsonView {
    crate::trust_commands::ok_json(seq![first, second], result)
}

fn done_value(first: &str, second: &str, result: Json) -> (r: Json)
    ensures
        r@ == done_json(first@, second@, result@),
{
    let list: Vec<String> = vec![first.to_owned(), second.to_owned()];
    assert(views(list@) =~= seq![first@, second@]);
    crate::trust_commands::ok_value(&list, result)
}

/// The report of records that were removed.
pub fn state_prune(requested: &Vec<String>, removed: &Vec<String>) -> (r: Json)
    ensures
        r@ == done_json(
            "state"@,
            "prune"@,
            JsonView::Object(
                seq![
                    ("expiredOnly"@, JsonView::Bool(requested@.len() == 0)),
                    ("removedIds"@, texts_json(views(removed@))),
                    ("requestedIds"@, texts_json(views(requested@))),
                ],
            ),
        ),
{
    done_value(
        "state",
        "prune",
        object3(
            "expiredOnly",
            Json::Bool(requested.len() == 0),
            "removedIds",
            texts_value(removed),
            "requestedIds",
            texts_value(requested),
        ),
    )
}

/// The report of a preview that was given up.
pub fn preview_discard(id: &str) -> (r: Json)
    ensures
        r@ == done_json(
            "preview"@,
            "discard"@,
            JsonView::Object(seq![("discarded"@, JsonView::Bool(true)), ("previewId"@, JsonView::Text(id@))]),
        ),
{
    done_value("preview", "discard", object2("discarded", Json::Bool(true), "previewId", text_value(id)))
}

/// The report of a proposal: it changes nothing, or a preview was made of it.
pub open spec fn creation_json(preview: JsonView) -> JsonView {
    JsonView::Object(
        seq![
            ("command"@, texts_json(seq!["preview"@, "create"@])),
            ("ok"@, JsonView::Bool(true)),
            (
                "outcome"@,
                JsonView::Text(
                    if preview is Null {
                        "unchanged"@
                    } else {
                        "previewed"@
                    },
                ),
            ),
            ("result"@, preview),
            ("schemaVersion"@, JsonView::Int(1)),
        ],
    )
}

/// The report of a proposal.
pub fn preview_create(preview: Json) -> (r: Json)
    ensures
        r@ == creation_json(preview@),
{
    let ghost said = preview@;
    let outcome: &str = if preview.is_null() {
        "unchanged"
    } else {
        "previewed"
    };
    let mut o: Vec<(String, Json)> = Vec::new();
    assert(object_view(o@) =~= Seq::<(Seq<char>, JsonView)>::empty());
    push_field(&mut o, "command", two_words("preview", "create"));
    push_field(&mut o, "ok", Json::Bool(true));
    push_field(&mut o, "outcome", text_value(outcome));
    push_field(&mut o, "result", preview);
    push_field(&mut o, "schemaVersion", Json::Unsigned(1));
    assert(object_view(o@) =~= creation_json(said)->Object_0);
    Json::Object(o)
}

/// The report of an application that changed nothing.
pub open spec fn unchanged_json() -> JsonView {
    JsonView::Object(
        seq![
            ("command"@, texts_json(seq!["apply"@])),
            ("ok"@, JsonView::Bool(true)),
            ("outcome"@, JsonView::Text("applied"@)),
            (
                "result"@,
                JsonView::Object(
                    seq![
                        ("cleanupPending"@, JsonView::Bool(false)),
                        ("filesystemState"@, JsonView::Text("unchanged"@)),
                        ("manifest"@, JsonView::Array(seq![])),
                        ("outcome"@, JsonView::Text("applied"@)),
                        ("sessionSynchronized"@, JsonView::Bool(true)),
                        ("state"@, JsonView::Text("terminal"@)),
                    ],
                ),
            ),
            ("schemaVersion"@, JsonView::Int(1)),
        ],
    )
}

/// The report of an application that changed nothing.
pub fn unchanged_application() -> (r: Json)
    ensures
        r@ == unchanged_json(),
{
    let mut result: Vec<(String, Json)> = Vec::new();
    assert(object_view(result@) =~= Seq::<(Seq<char>, JsonView)>::empty());
    let manifest: Vec<Json> = Vec::new();
    assert(array_view(manifest@) =~= seq![]);
    push_field(&mut result, "cleanupPending", Json::Bool(false));
    push_field(&mut result, "filesystemState", text_value("unchanged"));
    push_field(&mut result, "manifest", Json::Array(manifest));
    push_field(&mut result, "outcome", text_value("applied"));
    push_field(&mut result, "sessionSynchronized", Json::Bool(true));
    push_field(&mut result, "state", text_value("terminal"));
    assert(object_view(result@) =~= unchanged_json()->Object_0[3].1->Object_0);
    let mut words: Vec<String> = Vec::new();
    words.push("apply".to_owned());
    assert(views(words@) =~= seq!["apply"@]);
    let mut o: Vec<(String, Json)> = Vec::new();
    assert(object_view(o@) =~= Seq::<(Seq<char>, JsonView)>::empty());
    push_field(&mut o, "command", texts_value(&words));
    push_field(&mut o, "ok", Json::Bool(true));
    push_field(&mut o, "outcome", text_value("applied"));
    push_field(&mut o, "result", Json::Object(result));
    push_field(&mut o, "schemaVersion", Json::Unsigned(1));
    assert(object_view(o@) =~= unchanged_json()->Object_0);
    Json::Object(o)
}

/// The failure of finding a path that was asked for.
pub open spec fn path_failed(reason: Seq<char>) -> FailureView {
    failed(
        4,
        "unavailable"@,
        "user_path_unavailable"@,
        "A requested local path is unavailable."@,
        "load_configuration"@,
        "not_applicable"@,
        "after_change"@,
        JsonView::Object(seq![("kind"@, JsonView::Text("workspace"@)), ("reason"@, JsonView::Text(reason))]),
    )
}

/// The failure of finding a path that was asked for.
pub fn user_path_failure(reason: &str) -> (r: ContractFailure)
    ensures
        r@ == path_failed(reason@),
{
    failure(
        4,
        "unavailable",
        "user_path_unavailable",
        "A requested local path is unavailable.",
        "load_configuration",
        "not_applicable",
        "after_change",
        object2("kind", text_value("workspace"), "reason", text_value(reason)),
    )
}

/// The URI of the workspace that records are asked of, given its path without
/// links, or why there is none.
pub fn workspace_filter(found: &Result<NativePath, String>) -> (r: Result<String, ContractFailure>)
    ensures
        match *found {
            Ok(path) => match directory_uri_of(path_text(path@)) {
                Some(uri) => r matches Ok(u) && u@ == uri,
                None => r matches Err(f) && f@ == path_failed(
                    "The Workspace path cannot be represented as a file URI."@,
                ),
            },
            Err(reason) => r matches Err(f) && f@ == path_failed(reason@),
        },
{
    match found {
        Ok(path) => {
            let text: String = path.to_text();
            match uri_of_directory(text.as_str()) {
                Some(uri) => Ok(uri),
                None => Err(user_path_failure("The Workspace path cannot be represented as a file URI.")),
            }
        },
        Err(reason) => Err(user_path_failure(reason.as_str())),
    }
}

/// How the files stand while a journal is there.
pub open spec fn journal_state(s: TransactionState) -> Seq<char> {
    match s {
        TransactionState::RecoveryRequired => "partial"@,
        TransactionState::CleanupPending => "changed"@,
        TransactionState::Staged | TransactionState::Committing => "in_transition"@,
    }
}

/// A journal in JSON.
pub open spec fn journal_json(t: TransactionView) -> JsonView {
    JsonView::Object(
        seq![
            ("cleanupPending"@, JsonView::Bool(t.cleanup_pending)),
            ("filesystemState"@, JsonView::Text(journal_state(t.state))),
            ("intendedManifest"@, manifests_json(t.intended_manifest)),
            ("kind"@, JsonView::Text("valid"@)),
            ("manifestDigest"@, JsonView::Text(t.manifest_digest)),
            ("observedManifest"@, manifests_json(t.observed_manifest)),
            ("protected"@, JsonView::Bool(true)),
            ("receiptId"@, JsonView::Text(t.receipt_id)),
            ("transactionId"@, JsonView::Text(t.transaction_id)),
            ("workspaceUri"@, JsonView::Text(t.workspace_uri)),
        ],
    )
}

fn journal_value(t: &TransactionRecord) -> (r: Json)
    ensures
        r@ == journal_json(t@),
{
    let state: &str = match t.state {
        TransactionState::RecoveryRequired => "partial",
        TransactionState::CleanupPending => "changed",
        TransactionState::Staged | TransactionState::Committing => "in_transition",
    };
    let mut o: Vec<(String, Json)> = Vec::new();
    assert(object_view(o@) =~= Seq::<(Seq<char>, JsonView)>::empty());
    push_field(&mut o, "cleanupPending", Json::Bool(t.cleanup_pending));
    push_field(&mut o, "filesystemState", text_value(state));
    push_field(&mut o, "intendedManifest", manifests_to_json(&t.intended_manifest));
    push_field(&mut o, "kind", text_value("valid"));
    push_field(&mut o, "manifestDigest", text_value(t.manifest_digest.as_str()));
    push_field(&mut o, "observedManifest", manifests_to_json(&t.observed_manifest));
    push_field(&mut o, "protected", Json::Bool(true));
    push_field(&mut o, "receiptId", text_value(t.receipt_id.as_str()));
    push_field(&mut o, "transactionId", text_value(t.transaction_id.as_str()));
    push_field(&mut o, "workspaceUri", text_value(t.workspace_uri.as_str()));
    assert(object_view(o@) =~= journal_json(t@)->Object_0);
    Json::Object(o)
}

/// The journals that are reported of a workspace: its own, and those that cannot
/// be read.
pub open spec fn reported_journals(journals: Seq<JournalView>, workspace_uri: Seq<char>) -> Seq<JsonView>
    decreases journals.len(),
{
    if journals.len() == 0 {
        seq![]
    } else {
        let rest = reported_journals(journals.drop_last(), workspace_uri);
        match journals.last() {
            JournalView::Record(t) => if t.workspace_uri == workspace_uri {
                rest.push(journal_json(t))
            } else {
                rest
            },
            JournalView::Corrupt(evidence) => rest.push(evidence),
        }
    }
}

/// The report of the recoveries that a workspace needs.
pub fn recovery_status(journals: &Vec<Journal>, workspace_uri: &str) -> (r: Json)
    ensures
        ({
            let entries = reported_journals(views(journals@), workspace_uri@);
            r@ == done_json(
                "recovery"@,
                "status"@,
                JsonView::Object(
                    seq![
                        ("required"@, JsonView::Bool(entries.len() > 0)),
                        ("transactions"@, JsonView::Array(entries)),
                        ("workspaceUri"@, JsonView::Text(workspace_uri@)),
                    ],
                ),
            )
        }),
{
    let ghost all = views(journals@);
    let mut entries: Vec<Json> = Vec::new();
    let mut i: usize = 0;
    assert(all.take(0) =~= Seq::<JournalView>::empty());
    assert(array_view(entries@) =~= Seq::<JsonView>::empty());
    while i < journals.len()
        invariant
            i <= journals@.len(),
            all == views(journals@),
            array_view(entries@) == reported_journals(all.take(i as int), workspace_uri@),
        decreases journals.len() - i,
    {
        proof {
            assert(all.take(i + 1).drop_last() =~= all.take(i as int));
            assert(all.take(i + 1).last() == journals@[i as int]@);
        }
        let ghost before = array_view(entries@);
        match &journals[i] {
            Journal::Record(t) => {
                if same(t.workspace_uri.as_str(), workspace_uri) {
                    entries.push(journal_value(t));
                    assert(array_view(entries@) =~= before.push(journal_json(t@)));
                }
            },
            Journal::Corrupt(evidence) => {
                entries.push(evidence.copy());
                assert(array_view(entries@) =~= before.push(evidence@));
            },
        }
        i += 1;
    }
    assert(all.take(i as int) =~= all);
    assert(array_view(entries@).len() == entries@.len());
    let required: bool = entries.len() > 0;
    done_value(
        "recovery",
        "status",
        object3(
            "required",
            Json::Bool(required),
            "transactions",
            Json::Array(entries),
            "workspaceUri",
            text_value(workspace_uri),
        ),
    )
}

/// The receipt of an application whose session is not synchronized yet.
pub open spec fn unsynchronized_receipt(application: JsonView) -> Option<Seq<char>> {
    match application.get("result"@) {
        Some(result) => if result.get("sessionSynchronized"@) == Some(JsonView::Bool(true)) {
            None
        } else {
            result.text_at("receiptId"@)
        },
        None => None,
    }
}

/// The receipt of an application whose session is not synchronized yet.
pub fn receipt_to_synchronize(application: &Json) -> (r: Option<String>)
    ensures
        opt_view(r) == unsynchronized_receipt(application@),
{
    match application.get("result") {
        Some(result) => {
            if let Some(Json::Bool(b)) = result.get("sessionSynchronized") {
                if *b {
                    return None;
                }
            }
            match result.text_at("receiptId") {
                Some(id) => Some(id.clone()),
                None => None,
            }
        },
        None => None,
    }
}

/// What is said of Owners that could not read their documents again.
pub open spec fn synchronization_warning(failures: Seq<Seq<char>>) -> JsonView {
    JsonView::Object(
        seq![
            ("code"@, JsonView::Text("session_synchronization_failed"@)),
            ("data"@, JsonView::Object(seq![("ownerGenerations"@, texts_json(failures))])),
            ("message"@, JsonView::Text("One or more live Owners could not refresh after the commit."@)),
        ],
    )
}

/// The report of an application after the Owners were told: synchronized, or with
/// a warning that names those that failed.
pub open spec fn synchronized_report(application: JsonView, failures: Seq<Seq<char>>) -> JsonView {
    match application {
        JsonView::Object(o) => if failures.len() == 0 {
            match application.get("result"@) {
                Some(JsonView::Object(result)) => JsonView::Object(
                    with_field(
                        o,
                        "result"@,
                        JsonView::Object(with_field(result, "sessionSynchronized"@, JsonView::Bool(true))),
                    ),
                ),
                _ => application,
            }
        } else {
            JsonView::Object(
                with_field(o, "warnings"@, JsonView::Array(seq![synchronization_warning(failures)])),
            )
        },
        _ => application,
    }
}

/// The report of an application after the Owners were told.
pub fn synchronize_application_receipt(application: Json, failures: &Vec<String>) -> (r: Json)
    ensures
        r@ == synchronized_report(application@, views(failures@)),
{
    let mut fields: Vec<(String, Json)> = match &application {
        Json::Object(o) => copy_fields(o),
        _ => {
            return application;
        },
    };
    if failures.len() == 0 {
        match application.get("result") {
            Some(Json::Object(result)) => {
                let mut inner: Vec<(String, Json)> = copy_fields(result);
                set_field(&mut inner, "sessionSynchronized", Json::Bool(true));
                set_field(&mut fields, "result", Json::Object(inner));
                return Json::Object(fields);
            },
            _ => {},
        }
        return application;
    }
    let data: Json = crate::json::object1("ownerGenerations", texts_value(failures));
    let warning: Json = object3(
        "code",
        text_value("session_synchronization_failed"),
        "data",
        data,
        "message",
        text_value("One or more live Owners could not refresh after the commit."),
    );
    assert(warning@ == synchronization_warning(views(failures@)));
    let ghost one = warning@;
    let mut warnings: Vec<Json> = Vec::new();
    warnings.push(warning);
    assert(array_view(warnings@) =~= seq![one]);
    set_field(&mut fields, "warnings", Json::Array(warnings));
    Json::Object(fields)
}

/// A preview that is stale shows nothing of what it would do.
pub proof fn law_stale_previews_show_nothing(
    stored: StoredPreviewView,
    current: Option<Seq<ManifestView>>,
    files: Seq<FileContent>,
)
    ensures
        ({
            let p = presented_preview(stored, current, files).preview;
            &&& current is Some && p.stale_reasons.len() > 0 ==> p.diff is None
            &&& current is None ==> p.diff is None
            &&& p.plan == stored.preview.plan
            &&& p.preview_id == stored.preview.preview_id
            &&& p.reserved == stored.preview.reserved
        }),
{
}

/// Edits that lie between characters, one behind the other, are presented as
/// they are applied.
pub proof fn law_presentation_shows_what_is_applied(text: Seq<u8>, edits: Seq<EditView>)
    requires
        crate::edits::edits_in_order(text.len(), edits, 0, 0),
    ensures
        presented(text, edits, 0, 0) matches Some(shown) ==> shown == crate::edits::edited(text, edits, 0, 0),
{
    lemma_presented(text, edits, 0, 0);
}

proof fn lemma_presented(text: Seq<u8>, edits: Seq<EditView>, from: int, cursor: nat)
    requires
        0 <= from,
        crate::edits::edits_in_order(text.len(), edits, from, cursor),
    ensures
        presented(text, edits, from, cursor) matches Some(shown) ==> shown == crate::edits::edited(
            text,
            edits,
            from,
            cursor,
        ),
    decreases edits.len() - from,
{
    if from < edits.len() {
        lemma_presented(text, edits, from + 1, edits[from].end);
    }
}

} // verus!
