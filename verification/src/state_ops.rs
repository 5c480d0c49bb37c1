//! Keeping previews, receipts and journals.

use vstd::prelude::*;

use crate::application::{Journal, JournalView};
use crate::chains::{expired_names, expired_receipt_ids};
use crate::failure::{ContractFailure, FailureView, result_view};
use crate::json::{Json, JsonView, array_view, object2, object4, text_value};
use crate::manifest::PathView;
use crate::path::{NativePath, path_text};
use crate::ranking::{Ranked, law_ranked, rank, ranked};
use crate::records::{
    MUTATION_STATE_VERSION,
    PreviewRecord,
    PreviewView,
    ReceiptRecord,
    ReceiptView,
    StoredPreview,
    StoredPreviewView,
    StoredReceipt,
    StoredReceiptView,
    TransactionRecord,
    TransactionView,
};
use crate::settings::{PreviewSettings, ReceiptSettings};
use crate::state::{
    Change,
    ChangeView,
    MutationStateStore,
    Removal,
    StoreView,
    past,
    preview_place,
    preview_read,
    receipts_read,
    transaction_place,
};
use crate::store::{
    FileView,
    RecordFile,
    busy_failed,
    busy_failure,
    capacity_failed,
    capacity_failure,
    drop_file,
    find_file,
    lock_place,
    place_of,
    put_file,
    record_path,
    removed,
    state_failed,
    state_failure,
    written,
};
use crate::text::{opt_view, same, views};
use crate::timing::{LockAttempt, format_rfc3339, rfc3339_text};

verus! {

/// How long a preview is kept, in seconds.
pub const PREVIEW_RETENTION_SECONDS: i64 = 86400;

/// How long a receipt is kept, in seconds.
pub const RECEIPT_RETENTION_SECONDS: i64 = 2592000;

/// Previews stand with the newest first.
impl Ranked for StoredPreview {
    open spec fn before(a: StoredPreviewView, b: StoredPreviewView) -> bool {
        a.created_unix_seconds > b.created_unix_seconds
    }

    proof fn lemma_not_before(a: StoredPreviewView, b: StoredPreviewView, c: StoredPreviewView) {
    }

    proof fn lemma_one_way(a: StoredPreviewView, b: StoredPreviewView) {
    }

    fn comes_before(&self, other: &Self) -> (r: bool) {
        self.created_unix_seconds > other.created_unix_seconds
    }
}

/// Receipts stand with the newest first.
impl Ranked for StoredReceipt {
    open spec fn before(a: StoredReceiptView, b: StoredReceiptView) -> bool {
        a.completed_unix_seconds > b.completed_unix_seconds
    }

    proof fn lemma_not_before(a: StoredReceiptView, b: StoredReceiptView, c: StoredReceiptView) {
    }

    proof fn lemma_one_way(a: StoredReceiptView, b: StoredReceiptView) {
    }

    fn comes_before(&self, other: &Self) -> (r: bool) {
        self.completed_unix_seconds > other.completed_unix_seconds
    }
}

/// Listing records with the newest first loses none, adds none and puts none
/// before a newer one.
pub proof fn law_newest_first(previews: Seq<StoredPreviewView>, receipts: Seq<StoredReceiptView>)
    ensures
        ranked::<StoredPreview>(previews).to_multiset() == previews.to_multiset(),
        ranked::<StoredReceipt>(receipts).to_multiset() == receipts.to_multiset(),
        forall|i: int, j: int|
            0 <= i < j < ranked::<StoredPreview>(previews).len() ==> (#[trigger] ranked::<StoredPreview>(
                previews,
            )[i]).created_unix_seconds >= (#[trigger] ranked::<StoredPreview>(previews)[j]).created_unix_seconds,
        forall|i: int, j: int|
            0 <= i < j < ranked::<StoredReceipt>(receipts).len() ==> (#[trigger] ranked::<StoredReceipt>(
                receipts,
            )[i]).completed_unix_seconds >= (#[trigger] ranked::<StoredReceipt>(receipts)[j]).completed_unix_seconds,
{
    law_ranked::<StoredPreview>(previews);
    law_ranked::<StoredReceipt>(receipts);
    let p = ranked::<StoredPreview>(previews);
    assert forall|i: int, j: int| 0 <= i < j < p.len() implies (#[trigger] p[i]).created_unix_seconds >= (
    #[trigger] p[j]).created_unix_seconds by {
        assert(!StoredPreview::before(p[j], p[i]));
    }
    let r = ranked::<StoredReceipt>(receipts);
    assert forall|i: int, j: int| 0 <= i < j < r.len() implies (#[trigger] r[i]).completed_unix_seconds >= (
    #[trigger] r[j]).completed_unix_seconds by {
        assert(!StoredReceipt::before(r[j], r[i]));
    }
}

/// All previews, or why the first of them that is not read is not.
pub open spec fn previews_read(root: PathView, files: Seq<FileView<StoredPreviewView>>, now: i64) -> Result<
    Seq<StoredPreviewView>,
    FailureView,
>
    decreases files.len(),
{
    if files.len() == 0 {
        Ok(Seq::empty())
    } else {
        match previews_read(root, files.drop_last(), now) {
            Err(f) => Err(f),
            Ok(earlier) => match preview_read(root, files.last(), now) {
                Err(f) => Err(f),
                Ok(p) => Ok(earlier.push(p)),
            },
        }
    }
}

/// The size of some files together, as far as it can be counted.
pub open spec fn total_bytes<V>(files: Seq<FileView<V>>) -> nat
    decreases files.len(),
{
    if files.len() == 0 {
        0
    } else {
        let more = total_bytes(files.drop_last()) + files.last().bytes as nat;
        if more > u64::MAX {
            u64::MAX as nat
        } else {
            more
        }
    }
}

/// The names of the previews that are past their time.
pub open spec fn past_names(list: Seq<StoredPreviewView>, now: i64) -> Seq<Seq<char>>
    decreases list.len(),
{
    if list.len() == 0 {
        Seq::empty()
    } else {
        let earlier = past_names(list.drop_last(), now);
        if past(list.last(), now) {
            earlier.push(list.last().preview.preview_id)
        } else {
            earlier
        }
    }
}

/// A preview as it is stored at some time.
pub open spec fn stored_at(
    preview: PreviewView,
    workspace_path: PathView,
    authorization_digest: Seq<char>,
    recovery_manifest_digest: Option<Seq<char>>,
    now: i64,
    expires_at: Seq<char>,
) -> StoredPreviewView {
    StoredPreviewView {
        format_version: MUTATION_STATE_VERSION,
        created_unix_seconds: now,
        expires_unix_seconds: (now + PREVIEW_RETENTION_SECONDS) as i64,
        workspace_path,
        authorization_digest,
        recovery_manifest_digest,
        preview: PreviewView { expires_at, ..preview },
    }
}

/// A preview as it is stored at some time.
pub fn stored_preview(
    preview: PreviewRecord,
    workspace_path: NativePath,
    authorization_digest: String,
    recovery_manifest_digest: Option<String>,
    now: i64,
    expires_at: String,
) -> (r: StoredPreview)
    requires
        now <= i64::MAX - PREVIEW_RETENTION_SECONDS,
    ensures
        r@ == stored_at(
            preview@,
            workspace_path@,
            authorization_digest@,
            opt_view(recovery_manifest_digest),
            now,
            expires_at@,
        ),
{
    let mut preview: PreviewRecord = preview;
    preview.expires_at = expires_at;
    StoredPreview {
        format_version: MUTATION_STATE_VERSION,
        created_unix_seconds: now,
        expires_unix_seconds: now + PREVIEW_RETENTION_SECONDS,
        workspace_path,
        authorization_digest,
        recovery_manifest_digest,
        preview,
    }
}

/// A preview as it is stored at some time, where the time at which it is to go
/// has a timestamp.
pub fn preview_to_store(
    preview: PreviewRecord,
    workspace_path: NativePath,
    authorization_digest: String,
    recovery_manifest_digest: Option<String>,
    now: i64,
    nanoseconds: u32,
) -> (r: Option<StoredPreview>)
    ensures
        match r {
            Some(stored) => now <= i64::MAX - PREVIEW_RETENTION_SECONDS && (rfc3339_text(
                (now + PREVIEW_RETENTION_SECONDS) as i64,
                nanoseconds,
            ) matches Some(text) && stored@ == stored_at(
                preview@,
                workspace_path@,
                authorization_digest@,
                opt_view(recovery_manifest_digest),
                now,
                text,
            )),
            None => now > i64::MAX - PREVIEW_RETENTION_SECONDS || rfc3339_text(
                (now + PREVIEW_RETENTION_SECONDS) as i64,
                nanoseconds,
            ) is None,
        },
{
    if now > i64::MAX - PREVIEW_RETENTION_SECONDS {
        return None;
    }
    match format_rfc3339(now + PREVIEW_RETENTION_SECONDS, nanoseconds) {
        Some(text) => Some(
            stored_preview(
                preview,
                workspace_path,
                authorization_digest,
                recovery_manifest_digest,
                now,
                text,
            ),
        ),
        None => None,
    }
}

/// A receipt as it is stored at some time.
pub open spec fn receipt_stored_at(receipt: ReceiptView, now: i64) -> StoredReceiptView {
    StoredReceiptView {
        format_version: MUTATION_STATE_VERSION,
        completed_unix_seconds: now,
        expires_unix_seconds: (now + RECEIPT_RETENTION_SECONDS) as i64,
        receipt,
    }
}

/// What is reported of a journal that cannot be read.
pub open spec fn corrupt_json(path: Seq<char>) -> JsonView {
    JsonView::Object(
        seq![
            ("kind"@, JsonView::Text("corrupt"@)),
            ("path"@, JsonView::Text(path)),
            (
                "problems"@,
                JsonView::Array(
                    seq![
                        JsonView::Object(
                            seq![
                                ("code"@, JsonView::Text("corrupt_journal"@)),
                                ("message"@, JsonView::Text("The transaction journal is invalid."@)),
                            ],
                        ),
                    ],
                ),
            ),
            ("protected"@, JsonView::Bool(true)),
        ],
    )
}

fn corrupt_value(path: &str) -> (r: Json)
    ensures
        r@ == corrupt_json(path@),
{
    let mut problems: Vec<Json> = Vec::new();
    problems.push(
        object2(
            "code",
            text_value("corrupt_journal"),
            "message",
            text_value("The transaction journal is invalid."),
        ),
    );
    assert(array_view(problems@) =~= corrupt_json(path@)->Object_0[2].1->Array_0);
    object4(
        "kind",
        text_value("corrupt"),
        "path",
        text_value(path),
        "problems",
        Json::Array(problems),
        "protected",
        Json::Bool(true),
    )
}

/// A journal as it is listed.
pub open spec fn journal_listed(root: PathView, f: FileView<TransactionView>) -> JournalView {
    match f.content {
        Ok(t) => if t.format_version == MUTATION_STATE_VERSION {
            JournalView::Record(t)
        } else {
            JournalView::Corrupt(corrupt_json(transaction_place(root, f.id)))
        },
        Err(_) => JournalView::Corrupt(corrupt_json(transaction_place(root, f.id))),
    }
}

/// The journals as they are listed.
pub open spec fn journals_listed(root: PathView, files: Seq<FileView<TransactionView>>) -> Seq<JournalView> {
    Seq::new(files.len(), |i: int| journal_listed(root, files[i]))
}

/// Whether a journal may belong to the application of a preview.
pub open spec fn may_hold(j: JournalView, preview_id: Seq<char>) -> bool {
    match j {
        JournalView::Record(t) => t.preview_id == preview_id,
        JournalView::Corrupt(_) => true,
    }
}

/// Whether some journal may belong to the application of a preview.
pub open spec fn held_by_journal(journals: Seq<JournalView>, preview_id: Seq<char>) -> bool {
    exists|i: int| 0 <= i < journals.len() && may_hold(#[trigger] journals[i], preview_id)
}

/// The preview with its reservation made, or given up.
pub open spec fn with_reserved(p: StoredPreviewView, reserved: bool) -> StoredPreviewView {
    StoredPreviewView { preview: PreviewView { reserved, ..p.preview }, ..p }
}

impl StoreView {
    /// The state once a preview is written.
    pub open spec fn with_preview(self, p: StoredPreviewView, bytes: u64) -> StoreView {
        StoreView {
            previews: written(
                self.previews,
                FileView { id: p.preview.preview_id, bytes, content: Ok(p) },
            ),
            ..self
        }.noting(ChangeView::WritePreview(p.preview.preview_id))
    }

    /// The state once a preview is removed.
    pub open spec fn without_preview(self, id: Seq<char>, why: Removal) -> StoreView {
        StoreView { previews: removed(self.previews, id), ..self }.noting(ChangeView::RemovePreview(id, why))
    }

    /// The state once a receipt is written to the file of a name.
    pub open spec fn with_receipt_at(self, id: Seq<char>, r: StoredReceiptView) -> StoreView {
        StoreView {
            receipts: written(self.receipts, FileView { id, bytes: 0, content: Ok(r) }),
            ..self
        }.noting(ChangeView::WriteReceipt(id))
    }

    /// The state once a receipt is written to the file of its own name.
    pub open spec fn with_receipt(self, r: StoredReceiptView) -> StoreView {
        self.with_receipt_at(r.receipt.receipt_id, r)
    }

    /// What noting that a session was told of a receipt comes to.
    pub open spec fn synchronized_receipt(self, id: Seq<char>) -> (StoreView, Result<(), FailureView>) {
        match self.asked_receipt(id) {
            Err(f) => (self, Err(f)),
            Ok(stored) => if stored.receipt.session_synchronized {
                (self, Ok(()))
            } else {
                let receipt = ReceiptView { session_synchronized: true, ..stored.receipt };
                (self.with_receipt_at(id, StoredReceiptView { receipt, ..stored }), Ok(()))
            },
        }
    }

    /// What noting that nothing of a receipt has to be cleaned up comes to.
    pub open spec fn cleaned_receipt(self, id: Seq<char>) -> (StoreView, Result<(), FailureView>) {
        match self.asked_receipt(id) {
            Err(f) => (self, Err(f)),
            Ok(stored) => if !stored.receipt.cleanup_pending {
                (self, Ok(()))
            } else {
                let receipt = ReceiptView { cleanup_pending: false, ..stored.receipt };
                (self.with_receipt_at(id, StoredReceiptView { receipt, ..stored }), Ok(()))
            },
        }
    }

    /// What listing the previews comes to.
    pub open spec fn listed_previews(self, now: i64) -> (StoreView, Result<Seq<StoredPreviewView>, FailureView>) {
        let (next, swept) = self.swept(now);
        match swept {
            Err(f) => (next, Err(f)),
            Ok(_) => match previews_read(next.root, next.previews, now) {
                Err(f) => (next, Err(f)),
                Ok(list) => (next, Ok(ranked::<StoredPreview>(list))),
            },
        }
    }

    /// What listing the receipts comes to.
    pub open spec fn listed_receipts(self, now: i64) -> (StoreView, Result<Seq<StoredReceiptView>, FailureView>) {
        let (next, swept) = self.swept(now);
        match swept {
            Err(f) => (next, Err(f)),
            Ok(_) => match receipts_read(next.root, next.receipts) {
                Err(f) => (next, Err(f)),
                Ok(list) => (next, Ok(ranked::<StoredReceipt>(list))),
            },
        }
    }

    /// The refusal of one preview more.
    pub open spec fn preview_refused(self, record_type: Seq<char>, limit: u64, current: u64, required: u64, now: i64) -> (
        StoreView,
        Result<(), FailureView>,
    ) {
        let (next, listed) = self.listed_previews(now);
        (
            next,
            Err(
                match listed {
                    Err(f) => f,
                    Ok(list) => capacity_failed(record_type, limit, current, required, past_names(list, now)),
                },
            ),
        )
    }

    /// What keeping a preview comes to.
    pub open spec fn created_preview(self, p: StoredPreviewView, bytes: u64, limits: PreviewSettings, now: i64) -> (
        StoreView,
        Result<(), FailureView>,
    ) {
        let (next, swept) = self.swept(now);
        let count = next.previews.len();
        let current = total_bytes(next.previews);
        match swept {
            Err(f) => (next, Err(f)),
            Ok(_) => if count >= limits.max_count {
                next.preview_refused("previewCount"@, limits.max_count, count as u64, 1, now)
            } else if (if current + bytes > u64::MAX { u64::MAX as nat } else { (current + bytes) as nat }) > limits.max_total_bytes {
                next.preview_refused("previewBytes"@, limits.max_total_bytes, current as u64, bytes, now)
            } else {
                (next.with_preview(p, bytes), Ok(()))
            },
        }
    }

    /// Whether one receipt more may be kept, once what is past its time is gone.
    pub open spec fn receipt_room(self, limits: ReceiptSettings, now: i64) -> (StoreView, Result<(), FailureView>) {
        let (next, swept) = self.swept(now);
        let count = next.receipts.len();
        match swept {
            Err(f) => (next, Err(f)),
            Ok(_) => if count >= limits.max_count {
                (
                    next,
                    Err(
                        match receipts_read(next.root, next.receipts) {
                            Err(f) => f,
                            Ok(list) => capacity_failed(
                                "receiptCount"@,
                                limits.max_count,
                                count as u64,
                                1,
                                expired_names(list, list.len() as int, now),
                            ),
                        },
                    ),
                )
            } else {
                (next, Ok(()))
            },
        }
    }

    /// What keeping a receipt comes to.
    pub open spec fn kept_receipt(self, receipt: ReceiptView, limits: ReceiptSettings, now: i64) -> (
        StoreView,
        Result<StoredReceiptView, FailureView>,
    ) {
        let (next, room) = self.receipt_room(limits, now);
        match room {
            Err(f) => (next, Err(f)),
            Ok(_) => {
                let stored = receipt_stored_at(receipt, now);
                (next.with_receipt(stored), Ok(stored))
            },
        }
    }

    /// What reserving a preview comes to.
    pub open spec fn reserved_preview(self, id: Seq<char>, now: i64) -> (StoreView, Result<StoredPreviewView, FailureView>) {
        let (next, read) = self.asked_preview(id, now);
        match read {
            Err(f) => (next, Err(f)),
            Ok(p) => if p.preview.reserved {
                (next, Err(busy_failed("The Preview is already reserved by an Application."@, id)))
            } else {
                let held = with_reserved(p, true);
                (next.with_preview(held, next.previews[place_of(next.previews, id)->0].bytes), Ok(held))
            },
        }
    }

    /// What a reservation comes to once it was written, or could not be: no journal
    /// can own it then, and it is given up, though the write may have come through.
    pub open spec fn settled_reservation(self, held: StoredPreviewView, bytes: u64, written: Result<(), FailureView>) -> (
        StoreView,
        Result<StoredPreviewView, FailureView>,
    ) {
        match written {
            Ok(_) => (self, Ok(held)),
            Err(f) => (self.with_preview(with_reserved(held, false), bytes), Err(f)),
        }
    }

    /// What discarding a preview comes to, given what the attempt to take the
    /// lock of its workspace came to.
    pub open spec fn discarded_preview(self, id: Seq<char>, lock: LockAttempt, now: i64) -> (
        StoreView,
        Result<(), FailureView>,
    ) {
        let (next, read) = self.asked_preview(id, now);
        let busy = busy_failed("A reserved Preview is owned by an active or recoverable Application."@, id);
        match read {
            Err(f) => (next, Err(f)),
            Ok(p) => if !p.preview.reserved {
                (next.without_preview(id, Removal::Discarded), Ok(()))
            } else {
                match lock {
                    LockAttempt::Busy => (next, Err(busy)),
                    LockAttempt::Failed(os_code) => (
                        next,
                        Err(
                            state_failed(
                                "transaction"@,
                                path_text(lock_place(next.root, p.preview.workspace_uri)),
                                "The Workspace Application lock failed."@,
                                os_code,
                            ),
                        ),
                    ),
                    LockAttempt::Taken => if held_by_journal(journals_listed(next.root, next.transactions), id) {
                        (next, Err(busy))
                    } else {
                        (next.without_preview(id, Removal::Discarded), Ok(()))
                    },
                }
            },
        }
    }
}

impl MutationStateStore {
    fn read_previews(&mut self, now: i64) -> (r: Result<Vec<StoredPreview>, ContractFailure>)
        ensures
            final(self)@ == old(self)@,
            match r {
                Ok(list) => previews_read(old(self)@.root, old(self)@.previews, now) == Ok::<
                    Seq<StoredPreviewView>,
                    FailureView,
                >(views(list@)),
                Err(f) => previews_read(old(self)@.root, old(self)@.previews, now) == Err::<
                    Seq<StoredPreviewView>,
                    FailureView,
                >(f@),
            },
    {
        let ghost all = self@.previews;
        let mut list: Vec<StoredPreview> = Vec::new();
        let mut i: usize = 0;
        assert(views(list@) =~= Seq::<StoredPreviewView>::empty());
        assert(all.take(0) =~= Seq::<FileView<StoredPreviewView>>::empty());
        while i < self.previews.len()
            invariant
                i <= self.previews@.len(),
                self@ == old(self)@,
                all == self@.previews,
                previews_read(self@.root, all.take(i as int), now) == Ok::<Seq<StoredPreviewView>, FailureView>(
                    views(list@),
                ),
            decreases self.previews.len() - i,
        {
            let ghost before = views(list@);
            proof {
                assert(all.take(i + 1).drop_last() =~= all.take(i as int));
                assert(all.take(i + 1).last() == self.previews@[i as int]@);
            }
            match self.read_preview_file(&self.previews[i], now) {
                Ok(p) => {
                    list.push(p);
                    assert(views(list@) =~= before.push(p@));
                },
                Err(f) => {
                    proof { lemma_first_unread(self@.root, all, i + 1, now); }
                    return Err(f);
                },
            }
            i += 1;
        }
        assert(all.take(i as int) =~= all);
        Ok(list)
    }

    /// The previews, the newest first, once what is past its time is gone.
    pub fn list_previews(&mut self, now: i64) -> (r: Result<Vec<StoredPreview>, ContractFailure>)
        ensures
            final(self)@ == old(self)@.listed_previews(now).0,
            match r {
                Ok(list) => old(self)@.listed_previews(now).1 == Ok::<Seq<StoredPreviewView>, FailureView>(
                    views(list@),
                ),
                Err(f) => old(self)@.listed_previews(now).1 == Err::<Seq<StoredPreviewView>, FailureView>(f@),
            },
    {
        match self.prune_expired_records(now) {
            Ok(_) => {},
            Err(f) => {
                return Err(f);
            },
        }
        match self.read_previews(now) {
            Ok(list) => Ok(rank(list)),
            Err(f) => Err(f),
        }
    }

    /// The receipts, the newest first, once what is past its time is gone.
    pub fn list_receipts(&mut self, now: i64) -> (r: Result<Vec<StoredReceipt>, ContractFailure>)
        ensures
            final(self)@ == old(self)@.listed_receipts(now).0,
            match r {
                Ok(list) => old(self)@.listed_receipts(now).1 == Ok::<Seq<StoredReceiptView>, FailureView>(
                    views(list@),
                ),
                Err(f) => old(self)@.listed_receipts(now).1 == Err::<Seq<StoredReceiptView>, FailureView>(f@),
            },
    {
        match self.prune_expired_records(now) {
            Ok(_) => {},
            Err(f) => {
                return Err(f);
            },
        }
        match self.read_all_receipts() {
            Ok(list) => Ok(rank(list)),
            Err(f) => Err(f),
        }
    }

    fn refuse_preview(&mut self, record_type: &str, limit: u64, current: u64, required: u64, now: i64) -> (r: Result<
        (),
        ContractFailure,
    >)
        ensures
            (final(self)@, unit_view(r)) == old(self)@.preview_refused(record_type@, limit, current, required, now),
    {
        match self.list_previews(now) {
            Ok(list) => {
                let ids: Vec<String> = expired_preview_ids(&list, now);
                Err(capacity_failure(record_type, limit, current, required, &ids))
            },
            Err(f) => Err(f),
        }
    }

    fn preview_bytes(&self) -> (r: u64)
        ensures
            r == total_bytes(self@.previews),
    {
        let ghost all = self@.previews;
        let mut total: u64 = 0;
        let mut i: usize = 0;
        assert(all.take(0) =~= Seq::<FileView<StoredPreviewView>>::empty());
        while i < self.previews.len()
            invariant
                i <= self.previews@.len(),
                all == self@.previews,
                total == total_bytes(all.take(i as int)),
            decreases self.previews.len() - i,
        {
            proof {
                assert(all.take(i + 1).drop_last() =~= all.take(i as int));
                assert(all.take(i + 1).last() == self.previews@[i as int]@);
            }
            total = total.saturating_add(self.previews[i].bytes);
            i += 1;
        }
        assert(all.take(i as int) =~= all);
        total
    }

    /// Writes a preview.
    pub fn write_preview(&mut self, preview: StoredPreview, bytes: u64)
        ensures
            final(self)@ == old(self)@.with_preview(preview@, bytes),
    {
        let id: String = preview.preview.preview_id.clone();
        put_file(&mut self.previews, RecordFile { id: id.clone(), bytes, content: Ok(preview) });
        self.note(Change::WritePreview(id));
    }

    /// Keeps a preview of a size, unless there are too many or they take too
    /// much room.
    pub fn create_preview(&mut self, preview: StoredPreview, bytes: u64, limits: &PreviewSettings, now: i64) -> (r: Result<
        (),
        ContractFailure,
    >)
        ensures
            (final(self)@, unit_view(r)) == old(self)@.created_preview(preview@, bytes, *limits, now),
    {
        match self.prune_expired_records(now) {
            Ok(_) => {},
            Err(f) => {
                return Err(f);
            },
        }
        let count: u64 = self.previews.len() as u64;
        let current: u64 = self.preview_bytes();
        if count >= limits.max_count {
            return self.refuse_preview("previewCount", limits.max_count, count, 1, now);
        }
        if current.saturating_add(bytes) > limits.max_total_bytes {
            return self.refuse_preview("previewBytes", limits.max_total_bytes, current, bytes, now);
        }
        self.write_preview(preview, bytes);
        Ok(())
    }

    /// Reserves a preview for an application that holds the lock of its
    /// workspace.
    pub fn reserve_preview(&mut self, preview_id: &str, now: i64) -> (r: Result<StoredPreview, ContractFailure>)
        ensures
            (final(self)@, result_view(r)) == old(self)@.reserved_preview(preview_id@, now),
    {
        let mut preview: StoredPreview = match self.read_preview(preview_id, now) {
            Ok(p) => p,
            Err(f) => {
                return Err(f);
            },
        };
        if preview.preview.reserved {
            return Err(busy_failure("The Preview is already reserved by an Application.", preview_id));
        }
        preview.preview.reserved = true;
        let bytes: u64 = match find_file(&self.previews, preview_id) {
            Some(i) => {
                assert(self@.previews[i as int] == self.previews@[i as int]@);
                self.previews[i].bytes
            },
            None => 0,
        };
        let held: StoredPreview = preview.copy();
        self.write_preview(held, bytes);
        Ok(preview)
    }

    /// Goes on with a reservation once it was written, or could not be. One that
    /// could not be written is given up.
    pub fn reserve_preview_with_writer(
        &mut self,
        held: StoredPreview,
        bytes: u64,
        written: Result<(), ContractFailure>,
    ) -> (r: Result<StoredPreview, ContractFailure>)
        ensures
            (final(self)@, result_view(r)) == old(self)@.settled_reservation(held@, bytes, unit_view(written)),
    {
        match written {
            Ok(_) => Ok(held),
            Err(f) => {
                let mut preview: StoredPreview = held;
                self.release_preview(&mut preview, bytes);
                Err(f)
            },
        }
    }

    /// Gives the reservation of a preview up.
    pub fn release_preview(&mut self, preview: &mut StoredPreview, bytes: u64)
        ensures
            final(preview)@ == with_reserved(old(preview)@, false),
            final(self)@ == old(self)@.with_preview(with_reserved(old(preview)@, false), bytes),
    {
        preview.preview.reserved = false;
        let copy: StoredPreview = preview.copy();
        self.write_preview(copy, bytes);
    }

    /// Removes a preview.
    fn remove_preview(&mut self, preview_id: &str, why: Removal)
        ensures
            final(self)@ == old(self)@.without_preview(preview_id@, why),
    {
        drop_file(&mut self.previews, preview_id);
        self.note(Change::RemovePreview(preview_id.to_owned(), why));
    }

    /// Discards a preview. One that is reserved is discarded only where the lock
    /// of its workspace was taken and no journal may belong to its application.
    pub fn discard_preview(&mut self, preview_id: &str, lock: LockAttempt, now: i64) -> (r: Result<(), ContractFailure>)
        ensures
            (final(self)@, unit_view(r)) == old(self)@.discarded_preview(preview_id@, lock, now),
    {
        let preview: StoredPreview = match self.read_preview(preview_id, now) {
            Ok(p) => p,
            Err(f) => {
                return Err(f);
            },
        };
        if preview.preview.reserved {
            match lock {
                LockAttempt::Busy => {
                    return Err(application_busy(preview_id));
                },
                LockAttempt::Failed(os_code) => {
                    let path: String = self.application_lock_path(
                        preview.preview.workspace_uri.as_str(),
                    ).to_text();
                    return Err(
                        state_failure("transaction", path.as_str(), "The Workspace Application lock failed.", os_code),
                    );
                },
                LockAttempt::Taken => {},
            }
            let journals: Vec<Journal> = self.list_transactions();
            if journal_may_hold(&journals, preview_id) {
                return Err(application_busy(preview_id));
            }
        }
        self.remove_preview(preview_id, Removal::Discarded);
        Ok(())
    }

    /// Takes a preview away that is applied, or recovered from.
    pub fn retire_preview_after_recovery(&mut self, preview_id: &str)
        ensures
            final(self)@ == old(self)@.without_preview(preview_id@, Removal::Retired),
    {
        self.remove_preview(preview_id, Removal::Retired);
    }

    /// Whether one receipt more may be kept, once what is past its time is gone.
    pub fn ensure_receipt_capacity(&mut self, limits: &ReceiptSettings, now: i64) -> (r: Result<(), ContractFailure>)
        ensures
            (final(self)@, unit_view(r)) == old(self)@.receipt_room(*limits, now),
    {
        match self.prune_expired_records(now) {
            Ok(_) => {},
            Err(f) => {
                return Err(f);
            },
        }
        let count: u64 = self.receipts.len() as u64;
        if count >= limits.max_count {
            return match self.read_all_receipts() {
                Ok(list) => {
                    let ids: Vec<String> = expired_receipt_ids(&list, now);
                    Err(capacity_failure("receiptCount", limits.max_count, count, 1, &ids))
                },
                Err(f) => Err(f),
            };
        }
        Ok(())
    }

    fn put_receipt(&mut self, id: String, stored: StoredReceipt)
        ensures
            final(self)@ == old(self)@.with_receipt_at(id@, stored@),
    {
        put_file(&mut self.receipts, RecordFile { id: id.clone(), bytes: 0, content: Ok(stored) });
        self.note(Change::WriteReceipt(id));
    }

    /// Keeps a receipt, unless there are too many.
    pub fn write_receipt(&mut self, receipt: ReceiptRecord, limits: &ReceiptSettings, now: i64) -> (r: Result<
        StoredReceipt,
        ContractFailure,
    >)
        requires
            now <= i64::MAX - RECEIPT_RETENTION_SECONDS,
        ensures
            (final(self)@, result_view(r)) == old(self)@.kept_receipt(receipt@, *limits, now),
    {
        match self.ensure_receipt_capacity(limits, now) {
            Ok(()) => {},
            Err(f) => {
                return Err(f);
            },
        }
        let stored = StoredReceipt {
            format_version: MUTATION_STATE_VERSION,
            completed_unix_seconds: now,
            expires_unix_seconds: now + RECEIPT_RETENTION_SECONDS,
            receipt,
        };
        let copy: StoredReceipt = stored.copy();
        self.put_receipt(stored.receipt.receipt_id.clone(), copy);
        Ok(stored)
    }

    /// Keeps the receipt of an application and takes its preview away.
    pub fn convert_preview_to_receipt(
        &mut self,
        preview_id: &str,
        receipt: ReceiptRecord,
        limits: &ReceiptSettings,
        now: i64,
    ) -> (r: Result<StoredReceipt, ContractFailure>)
        requires
            now <= i64::MAX - RECEIPT_RETENTION_SECONDS,
        ensures
            result_view(r) == old(self)@.kept_receipt(receipt@, *limits, now).1,
            final(self)@ == if r is Ok {
                old(self)@.kept_receipt(receipt@, *limits, now).0.without_preview(preview_id@, Removal::Retired)
            } else {
                old(self)@.kept_receipt(receipt@, *limits, now).0
            },
    {
        match self.write_receipt(receipt, limits, now) {
            Ok(stored) => {
                self.remove_preview(preview_id, Removal::Retired);
                Ok(stored)
            },
            Err(f) => Err(f),
        }
    }

    /// Notes that something of an application still has to be cleaned up.
    pub fn mark_receipt_cleanup_pending(&mut self, stored: StoredReceipt) -> (r: StoredReceipt)
        ensures
            r@ == (StoredReceiptView {
                receipt: ReceiptView { cleanup_pending: true, ..stored@.receipt },
                ..stored@
            }),
            final(self)@ == old(self)@.with_receipt(r@),
    {
        let mut stored: StoredReceipt = stored;
        stored.receipt.cleanup_pending = true;
        let copy: StoredReceipt = stored.copy();
        self.put_receipt(stored.receipt.receipt_id.clone(), copy);
        stored
    }

    /// Notes that a session was told of what was carried out.
    pub fn mark_receipt_session_synchronized(&mut self, receipt_id: &str) -> (r: Result<(), ContractFailure>)
        ensures
            (final(self)@, unit_view(r)) == old(self)@.synchronized_receipt(receipt_id@),
    {
        match self.read_receipt(receipt_id) {
            Ok(mut stored) => {
                if !stored.receipt.session_synchronized {
                    stored.receipt.session_synchronized = true;
                    self.put_receipt(receipt_id.to_owned(), stored);
                }
                Ok(())
            },
            Err(f) => Err(f),
        }
    }

    /// Notes that nothing of an application has to be cleaned up any more.
    pub fn mark_receipt_cleanup_complete(&mut self, receipt_id: &str) -> (r: Result<(), ContractFailure>)
        ensures
            (final(self)@, unit_view(r)) == old(self)@.cleaned_receipt(receipt_id@),
    {
        match self.read_receipt(receipt_id) {
            Ok(mut stored) => {
                if stored.receipt.cleanup_pending {
                    stored.receipt.cleanup_pending = false;
                    self.put_receipt(receipt_id.to_owned(), stored);
                }
                Ok(())
            },
            Err(f) => Err(f),
        }
    }

    /// The receipt of a preview that was applied, where there is one.
    pub fn already_applied(&self, preview_id: &str) -> (r: Result<Option<StoredReceipt>, ContractFailure>)
        ensures
            match r {
                Ok(found) => match place_of(self@.receipts, preview_id@) {
                    None => found is None,
                    Some(_) => found matches Some(stored) && self@.asked_receipt(preview_id@) == Ok::<
                        StoredReceiptView,
                        FailureView,
                    >(stored@),
                },
                Err(f) => place_of(self@.receipts, preview_id@) is Some && self@.asked_receipt(preview_id@) == Err::<
                    StoredReceiptView,
                    FailureView,
                >(f@),
            },
    {
        match find_file(&self.receipts, preview_id) {
            None => Ok(None),
            Some(_) => match self.read_receipt(preview_id) {
                Ok(stored) => Ok(Some(stored)),
                Err(f) => Err(f),
            },
        }
    }

    /// Writes a journal.
    pub fn write_transaction(&mut self, transaction: TransactionRecord)
        ensures
            final(self)@ == (StoreView {
                transactions: written(
                    old(self)@.transactions,
                    FileView { id: transaction@.transaction_id, bytes: 0, content: Ok(transaction@) },
                ),
                ..old(self)@
            }).noting(ChangeView::WriteTransaction(transaction@.transaction_id)),
    {
        let id: String = transaction.transaction_id.clone();
        put_file(&mut self.transactions, RecordFile { id: id.clone(), bytes: 0, content: Ok(transaction) });
        self.note(Change::WriteTransaction(id));
    }

    /// Removes a journal.
    pub fn remove_transaction(&mut self, transaction_id: &str)
        ensures
            final(self)@ == (StoreView {
                transactions: removed(old(self)@.transactions, transaction_id@),
                ..old(self)@
            }).noting(ChangeView::RemoveTransaction(transaction_id@)),
    {
        drop_file(&mut self.transactions, transaction_id);
        self.note(Change::RemoveTransaction(transaction_id.to_owned()));
    }

    /// The journals. One that cannot be read is reported as corrupt.
    pub fn list_transactions(&self) -> (r: Vec<Journal>)
        ensures
            views(r@) == journals_listed(self@.root, self@.transactions),
    {
        let ghost all = self@.transactions;
        let mut r: Vec<Journal> = Vec::new();
        let mut i: usize = 0;
        while i < self.transactions.len()
            invariant
                i <= self.transactions@.len(),
                all == self@.transactions,
                r@.len() == i,
                forall|j: int| 0 <= j < i ==> (#[trigger] r@[j])@ == journal_listed(self@.root, all[j]),
            decreases self.transactions.len() - i,
        {
            assert(all[i as int] == self.transactions@[i as int]@);
            let path: String = self.transaction_path(self.transactions[i].id.as_str()).to_text();
            let listed: Journal = match &self.transactions[i].content {
                Ok(t) => if t.format_version == MUTATION_STATE_VERSION {
                    Journal::Record(t.copy())
                } else {
                    Journal::Corrupt(corrupt_value(path.as_str()))
                },
                Err(_) => Journal::Corrupt(corrupt_value(path.as_str())),
            };
            r.push(listed);
            i += 1;
        }
        assert(views(r@) =~= journals_listed(self@.root, all));
        r
    }

    /// The paths of the files of previews.
    pub fn preview_files(&self) -> (r: Vec<NativePath>)
        ensures
            r@.len() == self@.previews.len(),
            forall|i: int|
                0 <= i < r@.len() ==> (#[trigger] r@[i])@ == record_path(
                    self@.root,
                    "previews"@,
                    self@.previews[i].id,
                ),
    {
        let mut r: Vec<NativePath> = Vec::new();
        let mut i: usize = 0;
        while i < self.previews.len()
            invariant
                i <= self.previews@.len(),
                r@.len() == i,
                forall|j: int|
                    0 <= j < i ==> (#[trigger] r@[j])@ == record_path(self@.root, "previews"@, self@.previews[j].id),
            decreases self.previews.len() - i,
        {
            r.push(self.preview_path(self.previews[i].id.as_str()));
            i += 1;
        }
        r
    }

    /// The paths of the files of receipts.
    pub fn receipt_files(&self) -> (r: Vec<NativePath>)
        ensures
            r@.len() == self@.receipts.len(),
            forall|i: int|
                0 <= i < r@.len() ==> (#[trigger] r@[i])@ == record_path(
                    self@.root,
                    "receipts"@,
                    self@.receipts[i].id,
                ),
    {
        let mut r: Vec<NativePath> = Vec::new();
        let mut i: usize = 0;
        while i < self.receipts.len()
            invariant
                i <= self.receipts@.len(),
                r@.len() == i,
                forall|j: int|
                    0 <= j < i ==> (#[trigger] r@[j])@ == record_path(self@.root, "receipts"@, self@.receipts[j].id),
            decreases self.receipts.len() - i,
        {
            r.push(self.receipt_path(self.receipts[i].id.as_str()));
            i += 1;
        }
        r
    }

    /// The paths of the files of journals.
    pub fn transaction_files(&self) -> (r: Vec<NativePath>)
        ensures
            r@.len() == self@.transactions.len(),
            forall|i: int|
                0 <= i < r@.len() ==> (#[trigger] r@[i])@ == record_path(
                    self@.root,
                    "transactions"@,
                    self@.transactions[i].id,
                ),
    {
        let mut r: Vec<NativePath> = Vec::new();
        let mut i: usize = 0;
        while i < self.transactions.len()
            invariant
                i <= self.transactions@.len(),
                r@.len() == i,
                forall|j: int|
                    0 <= j < i ==> (#[trigger] r@[j])@ == record_path(
                        self@.root,
                        "transactions"@,
                        self@.transactions[j].id,
                    ),
            decreases self.transactions.len() - i,
        {
            r.push(self.transaction_path(self.transactions[i].id.as_str()));
            i += 1;
        }
        r
    }

    /// The failure of a removal on disk, where it matters.
    pub fn removal_failure(&self, change: &Change, os_code: Option<i32>) -> (r: Option<ContractFailure>)
        ensures
            opt_view(r) == removal_failed(self@.root, change@, os_code),
    {
        match change {
            Change::RemovePreview(id, why) => {
                let path: String = self.preview_path(id.as_str()).to_text();
                match why {
                    Removal::Expired => Some(
                        state_failure("preview", path.as_str(), "An expired Preview cannot be pruned.", os_code),
                    ),
                    Removal::Lapsed => None,
                    Removal::Discarded => Some(
                        state_failure("preview", path.as_str(), "The Preview cannot be discarded.", os_code),
                    ),
                    Removal::Retired => Some(
                        state_failure("preview", path.as_str(), "The recovered Preview cannot be retired.", os_code),
                    ),
                    Removal::Pruned => Some(
                        state_failure("mutation", path.as_str(), "A state record cannot be pruned.", os_code),
                    ),
                }
            },
            Change::RemoveReceipt(id, why) => {
                let path: String = self.receipt_path(id.as_str()).to_text();
                match why {
                    Removal::Pruned => Some(
                        state_failure("mutation", path.as_str(), "A state record cannot be pruned.", os_code),
                    ),
                    _ => Some(
                        state_failure("receipt", path.as_str(), "An expired Receipt chain cannot be pruned.", os_code),
                    ),
                }
            },
            Change::RemoveTransaction(id) => {
                let path: String = self.transaction_path(id.as_str()).to_text();
                Some(
                    state_failure(
                        "transaction",
                        path.as_str(),
                        "The transaction journal cannot be removed.",
                        os_code,
                    ),
                )
            },
            _ => None,
        }
    }
}

/// The failure of a removal on disk, where it matters.
pub open spec fn removal_failed(root: PathView, change: ChangeView, os_code: Option<i32>) -> Option<FailureView> {
    match change {
        ChangeView::RemovePreview(id, why) => match why {
            Removal::Expired => Some(
                state_failed("preview"@, preview_place(root, id), "An expired Preview cannot be pruned."@, os_code),
            ),
            Removal::Lapsed => None,
            Removal::Discarded => Some(
                state_failed("preview"@, preview_place(root, id), "The Preview cannot be discarded."@, os_code),
            ),
            Removal::Retired => Some(
                state_failed("preview"@, preview_place(root, id), "The recovered Preview cannot be retired."@, os_code),
            ),
            Removal::Pruned => Some(
                state_failed("mutation"@, preview_place(root, id), "A state record cannot be pruned."@, os_code),
            ),
        },
        ChangeView::RemoveReceipt(id, why) => {
            let path = crate::state::receipt_place(root, id);
            match why {
                Removal::Pruned => Some(
                    state_failed("mutation"@, path, "A state record cannot be pruned."@, os_code),
                ),
                _ => Some(state_failed("receipt"@, path, "An expired Receipt chain cannot be pruned."@, os_code)),
            }
        },
        ChangeView::RemoveTransaction(id) => Some(
            state_failed(
                "transaction"@,
                transaction_place(root, id),
                "The transaction journal cannot be removed."@,
                os_code,
            ),
        ),
        _ => None,
    }
}

/// The view of a result without a value.
pub open spec fn unit_view(r: Result<(), ContractFailure>) -> Result<(), FailureView> {
    match r {
        Ok(_) => Ok(()),
        Err(f) => Err(f@),
    }
}

/// The failure of touching a preview that an application holds.
pub fn application_busy(preview_id: &str) -> (r: ContractFailure)
    ensures
        r@ == busy_failed("A reserved Preview is owned by an active or recoverable Application."@, preview_id@),
{
    busy_failure("A reserved Preview is owned by an active or recoverable Application.", preview_id)
}

fn journal_may_hold(journals: &Vec<Journal>, preview_id: &str) -> (r: bool)
    ensures
        r == held_by_journal(views(journals@), preview_id@),
{
    let ghost all = views(journals@);
    let mut i: usize = 0;
    while i < journals.len()
        invariant
            i <= journals@.len(),
            all == views(journals@),
            forall|j: int| 0 <= j < i ==> !may_hold(#[trigger] all[j], preview_id@),
        decreases journals.len() - i,
    {
        assert(all[i as int] == journals@[i as int]@);
        let holds: bool = match &journals[i] {
            Journal::Record(t) => same(t.preview_id.as_str(), preview_id),
            Journal::Corrupt(_) => true,
        };
        if holds {
            assert(may_hold(all[i as int], preview_id@));
            return true;
        }
        i += 1;
    }
    false
}

/// The names of the previews that are past their time.
pub fn expired_preview_ids(list: &Vec<StoredPreview>, now: i64) -> (r: Vec<String>)
    ensures
        views(r@) == past_names(views(list@), now),
{
    let ghost all = views(list@);
    let mut r: Vec<String> = Vec::new();
    let mut i: usize = 0;
    assert(views(r@) =~= past_names(all.take(0), now));
    while i < list.len()
        invariant
            i <= list@.len(),
            all == views(list@),
            views(r@) == past_names(all.take(i as int), now),
        decreases list.len() - i,
    {
        proof {
            assert(all.take(i + 1).drop_last() =~= all.take(i as int));
            assert(all.take(i + 1).last() == list@[i as int]@);
        }
        let ghost before = views(r@);
        let p: &StoredPreview = &list[i];
        if p.expires_unix_seconds <= now && !p.preview.reserved {
            r.push(p.preview.preview_id.clone());
            assert(views(r@) =~= before.push(p@.preview.preview_id));
        }
        i += 1;
    }
    assert(all.take(i as int) =~= all);
    r
}

proof fn lemma_first_unread(root: PathView, files: Seq<FileView<StoredPreviewView>>, n: int, now: i64)
    requires
        0 < n <= files.len(),
        previews_read(root, files.take(n), now) is Err,
    ensures
        previews_read(root, files, now) == previews_read(root, files.take(n), now),
    decreases files.len() - n,
{
    if n == files.len() {
        assert(files.take(n) =~= files);
    } else {
        assert(files.take(n + 1).drop_last() =~= files.take(n));
        lemma_first_unread(root, files, n + 1, now);
    }
}

} // verus!
