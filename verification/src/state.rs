//! The state of mutations: what is kept of previews, receipts and journals,
//! and what of it is past its time.
//!
//! The state is held as it was found on disk. Each operation says what the
//! state is afterwards, and notes the changes that the caller has to carry
//! out on disk, in order.

use vstd::prelude::*;

use crate::chains::{expired_names, expired_receipt_ids};
use crate::failure::{ContractFailure, FailureView, result_view};
use crate::manifest::PathView;
use crate::order::Key;
use crate::path::{NativePath, path_text};
use crate::records::{
    MUTATION_STATE_VERSION,
    StoredPreview,
    StoredPreviewView,
    StoredReceipt,
    StoredReceiptView,
    TransactionRecord,
    TransactionView,
};
use crate::store::{
    FileView,
    ReadFault,
    RecordFile,
    drop_file,
    find_file,
    is_identifier,
    is_undrawn,
    lock_path,
    lock_place,
    path_of_record,
    place_of,
    preview_unknown,
    receipt_unknown,
    record_path,
    recovery_not_found,
    removed,
    state_failed,
    state_failure,
    state_root,
    stored_version_failure,
    unknown_preview,
    unknown_receipt,
    unknown_recovery,
    version_failed,
};
use crate::text::views;

verus! {

/// Why a record is removed.
#[derive(Clone, Copy, Debug, PartialEq, Eq, Structural)]
pub enum Removal {
    /// It is past its time.
    Expired,
    /// It was asked for past its time. It does not matter whether it can be
    /// removed.
    Lapsed,
    /// Its owner gave it up.
    Discarded,
    /// It is applied, or recovered from.
    Retired,
    /// Its owner asked for it to go.
    Pruned,
}

/// What has to be done on disk.
pub enum Change {
    WritePreview(String),
    RemovePreview(String, Removal),
    WriteReceipt(String),
    RemoveReceipt(String, Removal),
    WriteTransaction(String),
    RemoveTransaction(String),
}

/// What a [`Change`] stands for.
pub ghost enum ChangeView {
    WritePreview(Seq<char>),
    RemovePreview(Seq<char>, Removal),
    WriteReceipt(Seq<char>),
    RemoveReceipt(Seq<char>, Removal),
    WriteTransaction(Seq<char>),
    RemoveTransaction(Seq<char>),
}

impl View for Change {
    type V = ChangeView;

    open spec fn view(&self) -> ChangeView {
        match self {
            Change::WritePreview(id) => ChangeView::WritePreview(id@),
            Change::RemovePreview(id, why) => ChangeView::RemovePreview(id@, *why),
            Change::WriteReceipt(id) => ChangeView::WriteReceipt(id@),
            Change::RemoveReceipt(id, why) => ChangeView::RemoveReceipt(id@, *why),
            Change::WriteTransaction(id) => ChangeView::WriteTransaction(id@),
            Change::RemoveTransaction(id) => ChangeView::RemoveTransaction(id@),
        }
    }
}

/// The state of mutations. The files of each kind stand in the order of their
/// names.
pub struct MutationStateStore {
    pub root: NativePath,
    pub previews: Vec<RecordFile<StoredPreview>>,
    pub receipts: Vec<RecordFile<StoredReceipt>>,
    pub transactions: Vec<RecordFile<TransactionRecord>>,
    /// What has to be done on disk.
    pub changes: Vec<Change>,
}

/// What a [`MutationStateStore`] stands for.
#[verifier::ext_equal]
pub ghost struct StoreView {
    pub root: PathView,
    pub previews: Seq<FileView<StoredPreviewView>>,
    pub receipts: Seq<FileView<StoredReceiptView>>,
    pub transactions: Seq<FileView<TransactionView>>,
    pub changes: Seq<ChangeView>,
}

impl View for MutationStateStore {
    type V = StoreView;

    open spec fn view(&self) -> StoreView {
        StoreView {
            root: self.root@,
            previews: views(self.previews@),
            receipts: views(self.receipts@),
            transactions: views(self.transactions@),
            changes: views(self.changes@),
        }
    }
}

/// The path of a preview's file, in text.
pub open spec fn preview_place(root: PathView, id: Seq<char>) -> Seq<char> {
    path_text(record_path(root, "previews"@, id))
}

/// The path of a receipt's file, in text.
pub open spec fn receipt_place(root: PathView, id: Seq<char>) -> Seq<char> {
    path_text(record_path(root, "receipts"@, id))
}

/// The path of a journal's file, in text.
pub open spec fn transaction_place(root: PathView, id: Seq<char>) -> Seq<char> {
    path_text(record_path(root, "transactions"@, id))
}

/// Why a record could not be read. Where it is missing, what that means
/// depends on the record.
pub open spec fn read_failed(fault: ReadFault, record_type: Seq<char>, path: Seq<char>, missing: FailureView) -> FailureView {
    match fault {
        ReadFault::Missing(_) => missing,
        ReadFault::Open(os_code) => state_failed(record_type, path, "A state record cannot be opened."@, os_code),
        ReadFault::Read(os_code) => state_failed(record_type, path, "A state record cannot be read."@, os_code),
        ReadFault::Corrupt => version_failed(record_type, path, 0),
    }
}

fn read_failure(fault: ReadFault, record_type: &str, path: &NativePath, missing: ContractFailure) -> (r: ContractFailure)
    ensures
        r@ == read_failed(fault, record_type@, path_text(path@), missing@),
{
    let text: String = path.to_text();
    match fault {
        ReadFault::Missing(_) => missing,
        ReadFault::Open(os_code) => state_failure(
            record_type,
            text.as_str(),
            "A state record cannot be opened.",
            os_code,
        ),
        ReadFault::Read(os_code) => state_failure(
            record_type,
            text.as_str(),
            "A state record cannot be read.",
            os_code,
        ),
        ReadFault::Corrupt => stored_version_failure(record_type, text.as_str(), 0),
    }
}

/// Whether a preview is past its time and nobody holds it.
pub open spec fn past(p: StoredPreviewView, now: i64) -> bool {
    p.expires_unix_seconds <= now && !p.preview.reserved
}

fn is_past(p: &StoredPreview, now: i64) -> (r: bool)
    ensures
        r == past(p@, now),
{
    p.expires_unix_seconds <= now && !p.preview.reserved
}

/// Why a preview stands in the way of a sweep.
pub open spec fn unfit(root: PathView, f: FileView<StoredPreviewView>) -> Option<FailureView> {
    let path = preview_place(root, f.id);
    match f.content {
        Err(ReadFault::Missing(c)) | Err(ReadFault::Open(c)) | Err(ReadFault::Read(c)) => Some(
            state_failed("preview"@, path, "A Preview cannot be inspected for pruning."@, c),
        ),
        Err(ReadFault::Corrupt) => Some(version_failed("preview"@, path, 0)),
        Ok(p) => if p.format_version != MUTATION_STATE_VERSION {
            Some(version_failed("preview"@, path, p.format_version))
        } else {
            None
        },
    }
}

/// What a sweep of previews comes to.
#[verifier::ext_equal]
pub ghost struct Sweep {
    pub kept: Seq<FileView<StoredPreviewView>>,
    /// The names of the files that are removed.
    pub files: Seq<Seq<char>>,
    /// The names of the previews that are removed.
    pub names: Seq<Seq<char>>,
    pub stop: Option<FailureView>,
}

/// The sweep of previews, up to the first that stands in its way.
pub open spec fn sweep(root: PathView, files: Seq<FileView<StoredPreviewView>>, now: i64) -> Sweep
    decreases files.len(),
{
    if files.len() == 0 {
        Sweep { kept: Seq::empty(), files: Seq::empty(), names: Seq::empty(), stop: None }
    } else {
        match unfit(root, files[0]) {
            Some(f) => Sweep { kept: files, files: Seq::empty(), names: Seq::empty(), stop: Some(f) },
            None => {
                let rest = sweep(root, files.drop_first(), now);
                let p = files[0].content->Ok_0;
                if past(p, now) {
                    Sweep {
                        files: seq![files[0].id] + rest.files,
                        names: seq![p.preview.preview_id] + rest.names,
                        ..rest
                    }
                } else {
                    Sweep { kept: seq![files[0]] + rest.kept, ..rest }
                }
            },
        }
    }
}

/// The removals of previews that are past their time.
pub open spec fn preview_removals(files: Seq<Seq<char>>) -> Seq<ChangeView> {
    Seq::new(files.len(), |i: int| ChangeView::RemovePreview(files[i], Removal::Expired))
}

/// The removals of receipts that are past their time.
pub open spec fn receipt_removals(ids: Seq<Seq<char>>) -> Seq<ChangeView> {
    Seq::new(ids.len(), |i: int| ChangeView::RemoveReceipt(ids[i], Removal::Expired))
}

/// A receipt as it is read, or why it is not.
pub open spec fn receipt_read(root: PathView, f: FileView<StoredReceiptView>) -> Result<StoredReceiptView, FailureView> {
    let path = receipt_place(root, f.id);
    match f.content {
        Err(fault) => Err(read_failed(fault, "receipt"@, path, unknown_receipt(f.id))),
        Ok(r) => if r.format_version != MUTATION_STATE_VERSION {
            Err(version_failed("receipt"@, path, r.format_version))
        } else {
            Ok(r)
        },
    }
}

/// All receipts, or why the first of them that is not read is not.
pub open spec fn receipts_read(root: PathView, files: Seq<FileView<StoredReceiptView>>) -> Result<
    Seq<StoredReceiptView>,
    FailureView,
>
    decreases files.len(),
{
    if files.len() == 0 {
        Ok(Seq::empty())
    } else {
        match receipts_read(root, files.drop_last()) {
            Err(f) => Err(f),
            Ok(earlier) => match receipt_read(root, files.last()) {
                Err(f) => Err(f),
                Ok(r) => Ok(earlier.push(r)),
            },
        }
    }
}

/// The files without those of some records.
pub open spec fn all_removed<V>(files: Seq<FileView<V>>, ids: Seq<Seq<char>>) -> Seq<FileView<V>>
    decreases ids.len(),
{
    if ids.len() == 0 {
        files
    } else {
        removed(all_removed(files, ids.drop_last()), ids.last())
    }
}

/// A preview as it is read, or why it is not.
pub open spec fn preview_read(root: PathView, f: FileView<StoredPreviewView>, now: i64) -> Result<
    StoredPreviewView,
    FailureView,
> {
    let path = preview_place(root, f.id);
    match f.content {
        Err(fault) => Err(read_failed(fault, "preview"@, path, unknown_preview(f.id, "inspect"@))),
        Ok(p) => if p.format_version != MUTATION_STATE_VERSION {
            Err(version_failed("preview"@, path, p.format_version))
        } else if past(p, now) {
            Err(unknown_preview(f.id, "inspect"@))
        } else {
            Ok(p)
        },
    }
}

/// A journal as it is read, or why it is not.
pub open spec fn transaction_read(root: PathView, f: FileView<TransactionView>) -> Result<TransactionView, FailureView> {
    let path = transaction_place(root, f.id);
    match f.content {
        Err(fault) => Err(read_failed(fault, "transaction"@, path, unknown_recovery(f.id))),
        Ok(t) => if t.format_version != MUTATION_STATE_VERSION {
            Err(version_failed("transaction"@, path, t.format_version))
        } else {
            Ok(t)
        },
    }
}

impl StoreView {
    /// The state with one more change.
    pub open spec fn noting(self, change: ChangeView) -> StoreView {
        StoreView { changes: self.changes.push(change), ..self }
    }

    /// The state without what is past its time, and the names of what went.
    pub open spec fn swept(self, now: i64) -> (StoreView, Result<Seq<Seq<char>>, FailureView>) {
        let s = sweep(self.root, self.previews, now);
        let next = StoreView { previews: s.kept, changes: self.changes + preview_removals(s.files), ..self };
        match s.stop {
            Some(f) => (next, Err(f)),
            None => match receipts_read(self.root, self.receipts) {
                Err(f) => (next, Err(f)),
                Ok(receipts) => {
                    let ids = expired_names(receipts, receipts.len() as int, now);
                    (
                        StoreView {
                            receipts: all_removed(self.receipts, ids),
                            changes: next.changes + receipt_removals(ids),
                            ..next
                        },
                        Ok(s.names + ids),
                    )
                },
            },
        }
    }

    /// What asking for a preview comes to.
    pub open spec fn asked_preview(self, id: Seq<char>, now: i64) -> (StoreView, Result<StoredPreviewView, FailureView>) {
        match place_of(self.previews, id) {
            None => (self, Err(unknown_preview(id, "inspect"@))),
            Some(i) => {
                let f = self.previews[i];
                let lapsed = f.content matches Ok(p) && p.format_version == MUTATION_STATE_VERSION && past(p, now);
                (
                    if lapsed {
                        StoreView { previews: removed(self.previews, id), ..self }.noting(
                            ChangeView::RemovePreview(id, Removal::Lapsed),
                        )
                    } else {
                        self
                    },
                    preview_read(self.root, f, now),
                )
            },
        }
    }

    /// What asking for a receipt comes to.
    pub open spec fn asked_receipt(self, id: Seq<char>) -> Result<StoredReceiptView, FailureView> {
        match place_of(self.receipts, id) {
            None => Err(unknown_receipt(id)),
            Some(i) => receipt_read(self.root, self.receipts[i]),
        }
    }

    /// What asking for a journal comes to.
    pub open spec fn asked_transaction(self, id: Seq<char>) -> Result<TransactionView, FailureView> {
        match place_of(self.transactions, id) {
            None => Err(unknown_recovery(id)),
            Some(i) => transaction_read(self.root, self.transactions[i]),
        }
    }
}

impl MutationStateStore {
    /// The state under the directory for the user's state, with nothing found
    /// in it yet.
    pub fn open(user_state: Option<NativePath>) -> (r: Result<MutationStateStore, ContractFailure>)
        ensures
            match user_state {
                Some(path) => r matches Ok(store) && store@ == (StoreView {
                    root: state_root(path@),
                    previews: Seq::empty(),
                    receipts: Seq::empty(),
                    transactions: Seq::empty(),
                    changes: Seq::empty(),
                }),
                None => r matches Err(f) && f@ == state_failed(
                    "mutation"@,
                    ""@,
                    "The user state directory is unavailable."@,
                    None,
                ),
            },
    {
        match user_state {
            Some(path) => Ok(MutationStateStore::open_at(path.join("mutation-v1"))),
            None => Err(state_failure("mutation", "", "The user state directory is unavailable.", None)),
        }
    }

    /// The state under a directory, with nothing found in it yet.
    pub fn open_at(root: NativePath) -> (r: MutationStateStore)
        ensures
            r@ == (StoreView {
                root: root@,
                previews: Seq::empty(),
                receipts: Seq::empty(),
                transactions: Seq::empty(),
                changes: Seq::empty(),
            }),
    {
        let r = MutationStateStore {
            root,
            previews: Vec::new(),
            receipts: Vec::new(),
            transactions: Vec::new(),
            changes: Vec::new(),
        };
        assert(r@ =~= StoreView {
            root: root@,
            previews: Seq::empty(),
            receipts: Seq::empty(),
            transactions: Seq::empty(),
            changes: Seq::empty(),
        });
        r
    }

    /// The name of a new preview.
    pub fn new_preview_id(&self) -> (r: Result<String, ContractFailure>)
        ensures
            match r {
                Ok(id) => "prv_"@.is_prefix_of(id@) && id@.len() == "prv_"@.len() + 32 && is_identifier("prv_"@, id@),
                Err(f) => is_undrawn(f@),
            },
    {
        crate::store::random_identifier("prv_")
    }

    /// The name of a new journal.
    pub fn new_transaction_id(&self) -> (r: Result<String, ContractFailure>)
        ensures
            match r {
                Ok(id) => "txn_"@.is_prefix_of(id@) && id@.len() == "txn_"@.len() + 32 && is_identifier("txn_"@, id@),
                Err(f) => is_undrawn(f@),
            },
    {
        crate::store::random_identifier("txn_")
    }

    /// The name of a new receipt.
    pub fn new_receipt_id(&self) -> (r: Result<String, ContractFailure>)
        ensures
            match r {
                Ok(id) => "rcp_"@.is_prefix_of(id@) && id@.len() == "rcp_"@.len() + 32 && is_identifier("rcp_"@, id@),
                Err(f) => is_undrawn(f@),
            },
    {
        crate::store::random_identifier("rcp_")
    }

    /// The path of a preview's file.
    pub fn preview_path(&self, id: &str) -> (r: NativePath)
        ensures
            r@ == record_path(self@.root, "previews"@, id@),
    {
        path_of_record(&self.root, "previews", id)
    }

    /// The path of a receipt's file.
    pub fn receipt_path(&self, id: &str) -> (r: NativePath)
        ensures
            r@ == record_path(self@.root, "receipts"@, id@),
    {
        path_of_record(&self.root, "receipts", id)
    }

    /// The path of a journal's file.
    pub fn transaction_path(&self, id: &str) -> (r: NativePath)
        ensures
            r@ == record_path(self@.root, "transactions"@, id@),
    {
        path_of_record(&self.root, "transactions", id)
    }

    /// The path of the lock of a workspace.
    pub fn application_lock_path(&self, workspace_uri: &str) -> (r: NativePath)
        ensures
            r@ == lock_place(self@.root, workspace_uri@),
    {
        lock_path(&self.root, workspace_uri)
    }

    /// Notes what has to be done on disk.
    pub fn note(&mut self, change: Change)
        ensures
            final(self)@ == old(self)@.noting(change@),
    {
        let ghost before = views(self.changes@);
        self.changes.push(change);
        assert(views(self.changes@) =~= before.push(change@));
    }

    fn unfit_preview(&self, f: &RecordFile<StoredPreview>) -> (r: Option<ContractFailure>)
        ensures
            crate::text::opt_view(r) == unfit(self@.root, f@),
    {
        let path: String = self.preview_path(f.id.as_str()).to_text();
        match &f.content {
            Err(ReadFault::Missing(c)) | Err(ReadFault::Open(c)) | Err(ReadFault::Read(c)) => Some(
                state_failure("preview", path.as_str(), "A Preview cannot be inspected for pruning.", *c),
            ),
            Err(ReadFault::Corrupt) => Some(stored_version_failure("preview", path.as_str(), 0)),
            Ok(p) => if p.format_version != MUTATION_STATE_VERSION {
                Some(stored_version_failure("preview", path.as_str(), p.format_version))
            } else {
                None
            },
        }
    }

    /// Removes the previews that are past their time.
    fn sweep_previews(&mut self, now: i64) -> (r: Result<Vec<String>, ContractFailure>)
        ensures
            final(self)@ == (StoreView {
                previews: sweep(old(self)@.root, old(self)@.previews, now).kept,
                changes: old(self)@.changes + preview_removals(
                    sweep(old(self)@.root, old(self)@.previews, now).files,
                ),
                ..old(self)@
            }),
            match r {
                Ok(names) => sweep(old(self)@.root, old(self)@.previews, now).stop is None && views(names@) == sweep(
                    old(self)@.root,
                    old(self)@.previews,
                    now,
                ).names,
                Err(f) => sweep(old(self)@.root, old(self)@.previews, now).stop == Some(f@),
            },
    {
        let ghost start = self@;
        let ghost s = sweep(start.root, start.previews, now);
        let ghost mut gone: Seq<Seq<char>> = Seq::empty();
        let mut names: Vec<String> = Vec::new();
        let mut i: usize = 0;
        proof {
            assert(views(names@) =~= Seq::<Seq<char>>::empty());
            assert(start.previews.skip(0) =~= start.previews);
            assert(start.previews.take(0) + s.kept =~= s.kept);
            assert(gone + s.files =~= s.files);
            assert(views(names@) + s.names =~= s.names);
            assert(start.changes + preview_removals(gone) =~= start.changes);
        }
        while i < self.previews.len()
            invariant
                i <= self.previews@.len(),
                start == old(self)@,
                s == sweep(start.root, start.previews, now),
                self@.root == start.root,
                self@.receipts == start.receipts,
                self@.transactions == start.transactions,
                self@.changes == start.changes + preview_removals(gone),
                s.kept == self@.previews.take(i as int) + sweep(start.root, self@.previews.skip(i as int), now).kept,
                s.files == gone + sweep(start.root, self@.previews.skip(i as int), now).files,
                s.names == views(names@) + sweep(start.root, self@.previews.skip(i as int), now).names,
                s.stop == sweep(start.root, self@.previews.skip(i as int), now).stop,
            decreases self.previews.len() - i,
        {
            let ghost all = self@.previews;
            let ghost rest = all.skip(i as int);
            proof {
                assert(rest[0] == all[i as int]);
                assert(all[i as int] == self.previews@[i as int]@);
                assert(rest.drop_first() =~= all.skip(i + 1));
            }
            match self.unfit_preview(&self.previews[i]) {
                Some(f) => {
                    proof {
                        assert(all.take(i as int) + rest =~= all);
                        assert(gone + Seq::<Seq<char>>::empty() =~= gone);
                        assert(self@ =~= StoreView {
                            previews: s.kept,
                            changes: start.changes + preview_removals(s.files),
                            ..start
                        });
                    }
                    return Err(f);
                },
                None => {},
            }
            let ghost p = rest[0].content->Ok_0;
            let mut gone_name: Option<String> = None;
            match &self.previews[i].content {
                Ok(p) => {
                    if is_past(p, now) {
                        gone_name = Some(p.preview.preview_id.clone());
                    }
                },
                Err(_) => {},
            }
            match gone_name {
                Some(name) => {
                    let ghost names_before = views(names@);
                    let ghost gone_before = gone;
                    let ghost changes_before = self@.changes;
                    names.push(name);
                    let file: RecordFile<StoredPreview> = self.previews.remove(i);
                    self.note(Change::RemovePreview(file.id, Removal::Expired));
                    proof {
                        gone = gone.push(rest[0].id);
                        assert(self@.previews =~= all.remove(i as int));
                        assert(self@.previews.skip(i as int) =~= all.skip(i + 1));
                        assert(self@.previews.take(i as int) =~= all.take(i as int));
                        assert(views(names@) =~= names_before.push(p.preview.preview_id));
                        let later = sweep(start.root, all.skip(i + 1), now);
                        assert(gone_before + (seq![rest[0].id] + later.files) =~= gone + later.files);
                        assert(names_before + (seq![p.preview.preview_id] + later.names) =~= views(names@)
                            + later.names);
                        assert(start.changes + preview_removals(gone) =~= changes_before.push(
                            ChangeView::RemovePreview(rest[0].id, Removal::Expired),
                        ));
                    }
                },
                None => {
                    proof {
                        let later = sweep(start.root, all.skip(i + 1), now);
                        assert(all.take(i as int) + (seq![rest[0]] + later.kept) =~= all.take(i + 1) + later.kept);
                    }
                    i += 1;
                },
            }
        }
        proof {
            let rest = self@.previews.skip(i as int);
            assert(rest =~= Seq::<FileView<StoredPreviewView>>::empty());
            assert(self@.previews.take(i as int) + Seq::<FileView<StoredPreviewView>>::empty() =~= self@.previews);
            assert(gone + Seq::<Seq<char>>::empty() =~= gone);
            assert(views(names@) + Seq::<Seq<char>>::empty() =~= views(names@));
            assert(self@ =~= StoreView {
                previews: s.kept,
                changes: start.changes + preview_removals(s.files),
                ..start
            });
        }
        Ok(names)
    }

    fn read_receipt_file(&self, f: &RecordFile<StoredReceipt>) -> (r: Result<StoredReceipt, ContractFailure>)
        ensures
            result_view(r) == receipt_read(self@.root, f@),
    {
        let path: NativePath = self.receipt_path(f.id.as_str());
        match &f.content {
            Err(fault) => Err(read_failure(*fault, "receipt", &path, receipt_unknown(f.id.as_str()))),
            Ok(r) => if r.format_version != MUTATION_STATE_VERSION {
                Err(stored_version_failure("receipt", path.to_text().as_str(), r.format_version))
            } else {
                Ok(r.copy())
            },
        }
    }

    /// All receipts.
    pub fn read_all_receipts(&self) -> (r: Result<Vec<StoredReceipt>, ContractFailure>)
        ensures
            match r {
                Ok(list) => receipts_read(self@.root, self@.receipts) == Ok::<Seq<StoredReceiptView>, FailureView>(
                    views(list@),
                ),
                Err(f) => receipts_read(self@.root, self@.receipts) == Err::<Seq<StoredReceiptView>, FailureView>(f@),
            },
    {
        let ghost all = self@.receipts;
        let mut list: Vec<StoredReceipt> = Vec::new();
        let mut i: usize = 0;
        assert(views(list@) =~= Seq::<StoredReceiptView>::empty());
        assert(all.take(0) =~= Seq::<FileView<StoredReceiptView>>::empty());
        while i < self.receipts.len()
            invariant
                i <= self.receipts@.len(),
                all == self@.receipts,
                receipts_read(self@.root, all.take(i as int)) == Ok::<Seq<StoredReceiptView>, FailureView>(
                    views(list@),
                ),
            decreases self.receipts.len() - i,
        {
            let ghost before = views(list@);
            proof {
                assert(all.take(i + 1).drop_last() =~= all.take(i as int));
                assert(all.take(i + 1).last() == self.receipts@[i as int]@);
            }
            match self.read_receipt_file(&self.receipts[i]) {
                Ok(r) => {
                    list.push(r);
                    assert(views(list@) =~= before.push(r@));
                },
                Err(f) => {
                    proof { lemma_first_failure(self@.root, all, i + 1); }
                    return Err(f);
                },
            }
            i += 1;
        }
        assert(all.take(i as int) =~= all);
        Ok(list)
    }

    /// Removes receipts.
    fn remove_receipts(&mut self, ids: &Vec<String>)
        ensures
            final(self)@ == (StoreView {
                receipts: all_removed(old(self)@.receipts, views(ids@)),
                changes: old(self)@.changes + receipt_removals(views(ids@)),
                ..old(self)@
            }),
    {
        let ghost start = self@;
        let ghost all = views(ids@);
        let mut i: usize = 0;
        proof {
            assert(all.take(0) =~= Seq::<Seq<char>>::empty());
            assert(start.changes + receipt_removals(all.take(0)) =~= start.changes);
        }
        while i < ids.len()
            invariant
                i <= ids@.len(),
                all == views(ids@),
                start == old(self)@,
                self@.root == start.root,
                self@.previews == start.previews,
                self@.transactions == start.transactions,
                self@.receipts == all_removed(start.receipts, all.take(i as int)),
                self@.changes == start.changes + receipt_removals(all.take(i as int)),
            decreases ids.len() - i,
        {
            proof {
                assert(all.take(i + 1).drop_last() =~= all.take(i as int));
                assert(all.take(i + 1).last() == ids@[i as int]@);
            }
            let ghost changes_before = self@.changes;
            drop_file(&mut self.receipts, ids[i].as_str());
            self.note(Change::RemoveReceipt(ids[i].clone(), Removal::Expired));
            assert(start.changes + receipt_removals(all.take(i + 1)) =~= changes_before.push(
                ChangeView::RemoveReceipt(ids@[i as int]@, Removal::Expired),
            ));
            i += 1;
        }
        assert(all.take(i as int) =~= all);
        assert(self@ =~= StoreView {
            receipts: all_removed(start.receipts, all),
            changes: start.changes + receipt_removals(all),
            ..start
        });
    }

    /// Removes what is past its time: previews that nobody holds, and chains of
    /// receipts of which nothing has to be kept.
    pub fn prune_expired_records(&mut self, now: i64) -> (r: Result<Vec<String>, ContractFailure>)
        ensures
            final(self)@ == old(self)@.swept(now).0,
            match r {
                Ok(names) => old(self)@.swept(now).1 == Ok::<Seq<Seq<char>>, FailureView>(views(names@)),
                Err(f) => old(self)@.swept(now).1 == Err::<Seq<Seq<char>>, FailureView>(f@),
            },
    {
        let mut names: Vec<String> = match self.sweep_previews(now) {
            Ok(names) => names,
            Err(f) => {
                return Err(f);
            },
        };
        let receipts: Vec<StoredReceipt> = match self.read_all_receipts() {
            Ok(receipts) => receipts,
            Err(f) => {
                return Err(f);
            },
        };
        let mut ids: Vec<String> = expired_receipt_ids(&receipts, now);
        self.remove_receipts(&ids);
        let ghost a = views(names@);
        let ghost b = views(ids@);
        names.append(&mut ids);
        assert(views(names@) =~= a + b);
        Ok(names)
    }

    pub(crate) fn read_preview_file(&self, f: &RecordFile<StoredPreview>, now: i64) -> (r: Result<StoredPreview, ContractFailure>)
        ensures
            result_view(r) == preview_read(self@.root, f@, now),
    {
        let path: NativePath = self.preview_path(f.id.as_str());
        match &f.content {
            Err(fault) => Err(read_failure(*fault, "preview", &path, preview_unknown(f.id.as_str(), "inspect"))),
            Ok(p) => if p.format_version != MUTATION_STATE_VERSION {
                Err(stored_version_failure("preview", path.to_text().as_str(), p.format_version))
            } else if is_past(p, now) {
                Err(preview_unknown(f.id.as_str(), "inspect"))
            } else {
                Ok(p.copy())
            },
        }
    }

    /// Reads a preview. One that is past its time is removed, and unknown.
    pub fn read_preview(&mut self, preview_id: &str, now: i64) -> (r: Result<StoredPreview, ContractFailure>)
        ensures
            (final(self)@, result_view(r)) == old(self)@.asked_preview(preview_id@, now),
    {
        let i: usize = match find_file(&self.previews, preview_id) {
            Some(i) => i,
            None => {
                return Err(preview_unknown(preview_id, "inspect"));
            },
        };
        assert(self@.previews[i as int] == self.previews@[i as int]@);
        let r = self.read_preview_file(&self.previews[i], now);
        let lapsed: bool = match &self.previews[i].content {
            Ok(p) => p.format_version == MUTATION_STATE_VERSION && is_past(p, now),
            Err(_) => false,
        };
        if lapsed {
            drop_file(&mut self.previews, preview_id);
            self.note(Change::RemovePreview(preview_id.to_owned(), Removal::Lapsed));
        }
        r
    }

    /// Reads a receipt.
    pub fn read_receipt(&self, receipt_id: &str) -> (r: Result<StoredReceipt, ContractFailure>)
        ensures
            result_view(r) == self@.asked_receipt(receipt_id@),
    {
        match find_file(&self.receipts, receipt_id) {
            Some(i) => {
                assert(self@.receipts[i as int] == self.receipts@[i as int]@);
                self.read_receipt_file(&self.receipts[i])
            },
            None => Err(receipt_unknown(receipt_id)),
        }
    }

    /// Reads a journal.
    pub fn read_transaction(&self, transaction_id: &str) -> (r: Result<TransactionRecord, ContractFailure>)
        ensures
            result_view(r) == self@.asked_transaction(transaction_id@),
    {
        let i: usize = match find_file(&self.transactions, transaction_id) {
            Some(i) => i,
            None => {
                return Err(recovery_not_found(transaction_id));
            },
        };
        assert(self@.transactions[i as int] == self.transactions@[i as int]@);
        let path: NativePath = self.transaction_path(transaction_id);
        match &self.transactions[i].content {
            Err(fault) => Err(read_failure(*fault, "transaction", &path, recovery_not_found(transaction_id))),
            Ok(t) => if t.format_version != MUTATION_STATE_VERSION {
                Err(stored_version_failure("transaction", path.to_text().as_str(), t.format_version))
            } else {
                Ok(t.copy())
            },
        }
    }
}

proof fn lemma_first_failure(root: PathView, files: Seq<FileView<StoredReceiptView>>, n: int)
    requires
        0 < n <= files.len(),
        receipts_read(root, files.take(n)) is Err,
    ensures
        receipts_read(root, files) == receipts_read(root, files.take(n)),
    decreases files.len() - n,
{
    if n == files.len() {
        assert(files.take(n) =~= files);
    } else {
        assert(files.take(n + 1).drop_last() =~= files.take(n));
        lemma_first_failure(root, files, n + 1);
    }
}

} // verus!
