//! What holds of the state of mutations, whatever is done to it.

use vstd::prelude::*;

use crate::chains::{chain_of, protected};
use crate::failure::FailureView;
use crate::manifest::{ManifestView, PathView};
use crate::mutation_reports::{FileContent, presented_preview};
use crate::records::{MUTATION_STATE_VERSION, PreviewView, ReceiptView, StoredPreviewView, StoredReceiptView};
use crate::settings::{PreviewSettings, ReceiptSettings};
use crate::state::{StoreView, Sweep, past, receipts_read, sweep, unfit};
use crate::state_ops::{receipt_stored_at, with_reserved};
use crate::state_prune::Pruning;
use crate::store::{
    FileView,
    busy_failed,
    law_removal_leaves_others,
    law_removed_is_gone,
    law_writing_leaves_others,
    law_written_is_read,
    place_of,
    unknown_preview,
    written,
};
use crate::timing::LockAttempt;

verus! {

/// Whether a preview can stay where nothing stands in the way of a sweep.
pub open spec fn stays(root: PathView, f: FileView<StoredPreviewView>, now: i64) -> bool {
    unfit(root, f) is None && !past(f.content->Ok_0, now)
}

proof fn lemma_kept_stay(root: PathView, files: Seq<FileView<StoredPreviewView>>, now: i64)
    requires
        sweep(root, files, now).stop is None,
    ensures
        forall|i: int|
            0 <= i < sweep(root, files, now).kept.len() ==> stays(
                root,
                #[trigger] sweep(root, files, now).kept[i],
                now,
            ),
        sweep(root, files, now).kept.len() <= files.len(),
    decreases files.len(),
{
    if files.len() > 0 {
        let rest = files.drop_first();
        lemma_kept_stay(root, rest, now);
        let kept = sweep(root, files, now).kept;
        let later = sweep(root, rest, now).kept;
        assert forall|i: int| 0 <= i < kept.len() implies stays(root, #[trigger] kept[i], now) by {
            if !past(files[0].content->Ok_0, now) {
                if i > 0 {
                    assert(kept[i] == later[i - 1]);
                }
            } else {
                assert(kept[i] == later[i]);
            }
        }
    }
}

proof fn lemma_all_stay(root: PathView, files: Seq<FileView<StoredPreviewView>>, now: i64)
    requires
        forall|i: int| 0 <= i < files.len() ==> stays(root, #[trigger] files[i], now),
    ensures
        sweep(root, files, now) == (Sweep { kept: files, files: Seq::empty(), names: Seq::empty(), stop: None }),
    decreases files.len(),
{
    if files.len() > 0 {
        let rest = files.drop_first();
        assert forall|i: int| 0 <= i < rest.len() implies stays(root, #[trigger] rest[i], now) by {
            assert(rest[i] == files[i + 1]);
        }
        lemma_all_stay(root, rest, now);
        assert(stays(root, files[0], now));
        assert(seq![files[0]] + rest =~= files);
    } else {
        assert(files =~= Seq::empty());
    }
}

/// A sweep leaves nothing for a second one at the same time.
pub proof fn law_sweeping_again_finds_nothing(root: PathView, files: Seq<FileView<StoredPreviewView>>, now: i64)
    requires
        sweep(root, files, now).stop is None,
    ensures
        sweep(root, sweep(root, files, now).kept, now) == (Sweep {
            kept: sweep(root, files, now).kept,
            files: Seq::empty(),
            names: Seq::empty(),
            stop: None,
        }),
{
    lemma_kept_stay(root, files, now);
    lemma_all_stay(root, sweep(root, files, now).kept, now);
}

/// A preview that an application holds survives each sweep.
pub proof fn law_held_preview_survives(root: PathView, files: Seq<FileView<StoredPreviewView>>, now: i64, i: int)
    requires
        0 <= i < files.len(),
        files[i].content matches Ok(p) && p.preview.reserved,
    ensures
        sweep(root, files, now).kept.contains(files[i]),
    decreases files.len(),
{
    let kept = sweep(root, files, now).kept;
    if unfit(root, files[0]) is Some {
        assert(kept[i] == files[i]);
    } else {
        let rest = files.drop_first();
        let later = sweep(root, rest, now).kept;
        if i == 0 {
            assert(kept[0] == files[0]);
        } else {
            law_held_preview_survives(root, rest, now, i - 1);
            assert(rest[i - 1] == files[i]);
            let k = choose|k: int| 0 <= k < later.len() && later[k] == files[i];
            if past(files[0].content->Ok_0, now) {
                assert(kept[k] == files[i]);
            } else {
                assert(kept[k + 1] == files[i]);
            }
        }
    }
}

/// What a preview was kept as is what it is read as, for as long as it is kept.
pub proof fn law_created_preview_is_read(
    s: StoreView,
    p: StoredPreviewView,
    bytes: u64,
    limits: PreviewSettings,
    now: i64,
    later: i64,
)
    requires
        s.created_preview(p, bytes, limits, now).1 is Ok,
        p.format_version == MUTATION_STATE_VERSION,
        !past(p, later),
    ensures
        s.created_preview(p, bytes, limits, now).0.asked_preview(p.preview.preview_id, later).1 == Ok::<
            StoredPreviewView,
            FailureView,
        >(p),
{
    let next = s.swept(now).0;
    law_written_is_read(next.previews, FileView { id: p.preview.preview_id, bytes, content: Ok(p) });
}

/// Where a preview is kept, there are no more previews than there may be.
pub proof fn law_previews_stay_within_count(
    s: StoreView,
    p: StoredPreviewView,
    bytes: u64,
    limits: PreviewSettings,
    now: i64,
)
    requires
        s.created_preview(p, bytes, limits, now).1 is Ok,
    ensures
        s.created_preview(p, bytes, limits, now).0.previews.len() <= limits.max_count,
{
    let next = s.swept(now).0;
    law_written_is_read(next.previews, FileView { id: p.preview.preview_id, bytes, content: Ok(p) });
}

/// Where there is no room for a preview, none of those that are kept changes but
/// those past their time.
pub proof fn law_refused_preview_changes_nothing(
    s: StoreView,
    p: StoredPreviewView,
    bytes: u64,
    limits: PreviewSettings,
    now: i64,
)
    requires
        s.created_preview(p, bytes, limits, now).1 is Err,
        sweep(s.root, s.previews, now).stop is None,
    ensures
        s.created_preview(p, bytes, limits, now).0.previews == s.swept(now).0.previews,
{
    law_sweeping_again_finds_nothing(s.root, s.previews, now);
}

/// What a receipt was kept as is what it is read as.
pub proof fn law_kept_receipt_is_read(s: StoreView, receipt: ReceiptView, limits: ReceiptSettings, now: i64)
    requires
        s.kept_receipt(receipt, limits, now).1 is Ok,
    ensures
        s.kept_receipt(receipt, limits, now).0.asked_receipt(receipt.receipt_id) == Ok::<StoredReceiptView, FailureView>(
            receipt_stored_at(receipt, now),
        ),
        s.kept_receipt(receipt, limits, now).0.receipts.len() <= limits.max_count,
{
    let next = s.swept(now).0;
    let stored = receipt_stored_at(receipt, now);
    law_written_is_read(next.receipts, FileView { id: receipt.receipt_id, bytes: 0, content: Ok(stored) });
}

proof fn lemma_receipt_at(s: StoreView, id: Seq<char>, r: StoredReceiptView, other: Seq<char>)
    requires
        s.asked_receipt(id) matches Ok(stored) && stored.format_version == r.format_version,
    ensures
        s.with_receipt_at(id, r).asked_receipt(id) == Ok::<StoredReceiptView, FailureView>(r),
        other != id ==> s.with_receipt_at(id, r).asked_receipt(other) == s.asked_receipt(other),
{
    let f = FileView { id, bytes: 0, content: Ok(r) };
    law_written_is_read(s.receipts, f);
    if other != id {
        law_writing_leaves_others(s.receipts, f, other);
    }
}

/// Once a session was told of a receipt, the file that was asked for says so and
/// says all else as before; every other file is read as before; and noting it
/// again changes nothing.
pub proof fn law_synchronized_receipt_is_read(s: StoreView, id: Seq<char>, other: Seq<char>)
    requires
        s.synchronized_receipt(id).1 is Ok,
    ensures
        ({
            let next = s.synchronized_receipt(id).0;
            &&& s.asked_receipt(id) matches Ok(stored) && next.asked_receipt(id) == Ok::<StoredReceiptView, FailureView>(
                StoredReceiptView { receipt: ReceiptView { session_synchronized: true, ..stored.receipt }, ..stored },
            )
            &&& other != id ==> next.asked_receipt(other) == s.asked_receipt(other)
            &&& next.synchronized_receipt(id) == (next, Ok::<(), FailureView>(()))
        }),
{
    let stored = s.asked_receipt(id)->Ok_0;
    let receipt = ReceiptView { session_synchronized: true, ..stored.receipt };
    lemma_receipt_at(s, id, StoredReceiptView { receipt, ..stored }, other);
}

/// Once nothing of a receipt has to be cleaned up, the file that was asked for says
/// so and says all else as before; every other file is read as before; and noting
/// it again changes nothing.
pub proof fn law_cleaned_receipt_is_read(s: StoreView, id: Seq<char>, other: Seq<char>)
    requires
        s.cleaned_receipt(id).1 is Ok,
    ensures
        ({
            let next = s.cleaned_receipt(id).0;
            &&& s.asked_receipt(id) matches Ok(stored) && next.asked_receipt(id) == Ok::<StoredReceiptView, FailureView>(
                StoredReceiptView { receipt: ReceiptView { cleanup_pending: false, ..stored.receipt }, ..stored },
            )
            &&& other != id ==> next.asked_receipt(other) == s.asked_receipt(other)
            &&& next.cleaned_receipt(id) == (next, Ok::<(), FailureView>(()))
        }),
{
    let stored = s.asked_receipt(id)->Ok_0;
    let receipt = ReceiptView { cleanup_pending: false, ..stored.receipt };
    lemma_receipt_at(s, id, StoredReceiptView { receipt, ..stored }, other);
}

/// A preview that was reserved is found reserved, and is not reserved again.
pub proof fn law_reserved_once(s: StoreView, id: Seq<char>, now: i64, later: i64)
    requires
        s.reserved_preview(id, now).1 matches Ok(p) && p.preview.preview_id == id,
    ensures
        s.reserved_preview(id, now).0.asked_preview(id, later).1 == s.reserved_preview(id, now).1,
        s.reserved_preview(id, now).0.reserved_preview(id, later).1 == Err::<StoredPreviewView, FailureView>(
            busy_failed("The Preview is already reserved by an Application."@, id),
        ),
{
    let next = s.asked_preview(id, now).0;
    let p = s.reserved_preview(id, now).1->Ok_0;
    let bytes = next.previews[place_of(next.previews, id)->0].bytes;
    law_written_is_read(next.previews, FileView { id, bytes, content: Ok(p) });
}

/// What a preview proposes.
pub open spec fn same_proposal(a: PreviewView, b: PreviewView) -> bool {
    &&& a.preview_id == b.preview_id
    &&& a.workspace_uri == b.workspace_uri
    &&& a.server == b.server
    &&& a.session_identity == b.session_identity
    &&& a.position_encoding == b.position_encoding
    &&& a.edit == b.edit
    &&& a.command == b.command
    &&& a.plan == b.plan
    &&& a.preconditions == b.preconditions
}

/// What a preview proposes stays as it was made: neither reserving it, nor giving
/// the reservation up, nor showing it changes anything of it.
pub proof fn law_previews_are_immutable(
    s: StoreView,
    id: Seq<char>,
    bytes: u64,
    written: Result<(), FailureView>,
    current: Option<Seq<ManifestView>>,
    files: Seq<FileContent>,
    now: i64,
    later: i64,
)
    requires
        s.asked_preview(id, now).1 matches Ok(p) && p.preview.preview_id == id && !past(p, later),
    ensures
        ({
            let p = s.asked_preview(id, now).1->Ok_0;
            &&& same_proposal(presented_preview(p, current, files).preview, p.preview)
            &&& s.reserved_preview(id, now).1 matches Ok(held) ==> {
                &&& same_proposal(held.preview, p.preview)
                &&& s.reserved_preview(id, now).0.settled_reservation(held, bytes, written).0.asked_preview(
                    id,
                    later,
                ).1 matches Ok(found) && same_proposal(found.preview, p.preview)
            }
        }),
{
    let p = s.asked_preview(id, now).1->Ok_0;
    if !p.preview.reserved {
        let held = with_reserved(p, true);
        let next = s.reserved_preview(id, now).0;
        let kept = s.previews[place_of(s.previews, id)->0].bytes;
        law_written_is_read(s.previews, FileView { id, bytes: kept, content: Ok(held) });
        law_written_is_read(next.previews, FileView { id, bytes, content: Ok(with_reserved(held, false)) });
    }
}

/// A reservation that could not be written is given up: the preview is found as it
/// was, whether the write came through or not, and can be reserved again. One that
/// another application holds is not given up by the attempt.
pub proof fn law_failed_reservation_is_given_up(
    s: StoreView,
    id: Seq<char>,
    bytes: u64,
    problem: FailureView,
    now: i64,
    later: i64,
)
    requires
        s.asked_preview(id, now).1 matches Ok(p) && p.preview.preview_id == id && !past(p, later),
    ensures
        ({
            let p = s.asked_preview(id, now).1->Ok_0;
            let (next, reserved) = s.reserved_preview(id, now);
            if p.preview.reserved {
                reserved is Err && next == s
            } else {
                let held = with_reserved(p, true);
                &&& reserved == Ok::<StoredPreviewView, FailureView>(held)
                &&& next.settled_reservation(held, bytes, Err(problem)).1 == Err::<StoredPreviewView, FailureView>(
                    problem,
                )
                &&& next.settled_reservation(held, bytes, Err(problem)).0.asked_preview(id, later).1 == Ok::<
                    StoredPreviewView,
                    FailureView,
                >(p)
                &&& s.settled_reservation(held, bytes, Err(problem)).0.asked_preview(id, later).1 == Ok::<
                    StoredPreviewView,
                    FailureView,
                >(p)
            }
        }),
{
    let p = s.asked_preview(id, now).1->Ok_0;
    let next = s.reserved_preview(id, now).0;
    let file = FileView { id, bytes, content: Ok(with_reserved(with_reserved(p, true), false)) };
    if !p.preview.reserved {
        assert(with_reserved(with_reserved(p, true), false) =~= p);
        law_written_is_read(next.previews, file);
        law_written_is_read(s.previews, file);
    }
}

/// A preview that an application holds is not discarded while the lock of its
/// workspace is held.
pub proof fn law_held_preview_is_not_discarded(s: StoreView, id: Seq<char>, now: i64)
    requires
        s.asked_preview(id, now).1 matches Ok(p) && p.preview.reserved,
    ensures
        s.discarded_preview(id, LockAttempt::Busy, now).1 is Err,
        s.discarded_preview(id, LockAttempt::Busy, now).0 == s,
{
}

/// A preview that was discarded is unknown, where each name is used once.
pub proof fn law_discarded_is_unknown(s: StoreView, id: Seq<char>, lock: LockAttempt, now: i64, later: i64)
    requires
        forall|i: int, j: int|
            0 <= i < j < s.previews.len() ==> (#[trigger] s.previews[i]).id != (#[trigger] s.previews[j]).id,
        s.discarded_preview(id, lock, now).1 is Ok,
    ensures
        s.discarded_preview(id, lock, now).0.asked_preview(id, later).1 == Err::<StoredPreviewView, FailureView>(
            unknown_preview(id, "inspect"@),
        ),
{
    law_removed_is_gone(s.previews, id);
}

proof fn lemma_problems_stay(p: Pruning, receipts: Seq<StoredReceiptView>, ids: Seq<Seq<char>>, n: int, now: i64)
    requires
        0 <= n <= ids.len(),
        p.with_names(receipts, ids.take(n), now).problems.len() > 0,
    ensures
        p.with_names(receipts, ids, now).problems.len() > 0,
    decreases ids.len() - n,
{
    if n == ids.len() {
        assert(ids.take(n) =~= ids);
    } else {
        assert(ids.take(n + 1).drop_last() =~= ids.take(n));
        lemma_problems_stay(p, receipts, ids, n + 1, now);
    }
}

/// A chain of receipts that has to be kept is not pruned, nor is anything that
/// was named beside it.
pub proof fn law_protected_chain_is_not_pruned(s: StoreView, ids: Seq<Seq<char>>, now: i64, k: int)
    requires
        0 <= k < ids.len(),
        "rcp_"@.is_prefix_of(ids[k]),
        !"prv_"@.is_prefix_of(ids[k]),
        receipts_read(s.root, s.receipts) matches Ok(list) && protected(chain_of(list, ids[k])),
    ensures
        s.pruned(ids, now).1 is Err,
        s.pruned(ids, now).0.receipts == s.receipts,
{
    let list = receipts_read(s.root, s.receipts)->Ok_0;
    let p = Pruning { store: s, chosen: Map::empty(), problems: Seq::empty() };
    assert(ids.take(k + 1).drop_last() =~= ids.take(k));
    lemma_problems_stay(p, list, ids, k + 1, now);
    lemma_pruning_keeps_receipts(p, list, ids, now);
}

proof fn lemma_pruning_keeps_receipts(p: Pruning, receipts: Seq<StoredReceiptView>, ids: Seq<Seq<char>>, now: i64)
    ensures
        p.with_names(receipts, ids, now).store.receipts == p.store.receipts,
        p.with_names(receipts, ids, now).store.transactions == p.store.transactions,
    decreases ids.len(),
{
    if ids.len() > 0 {
        lemma_pruning_keeps_receipts(p, receipts, ids.drop_last(), now);
    }
}

proof fn lemma_targets_keep_journals(s: StoreView, ids: Seq<Seq<char>>, chosen: Map<Seq<char>, crate::state_prune::Target>)
    ensures
        s.without_targets(ids, chosen).transactions == s.transactions,
    decreases ids.len(),
{
    if ids.len() > 0 {
        lemma_targets_keep_journals(s, ids.drop_last(), chosen);
    }
}

/// Pruning never touches a journal.
pub proof fn law_pruning_keeps_journals(s: StoreView, ids: Seq<Seq<char>>, now: i64)
    ensures
        s.pruned(ids, now).0.transactions == s.transactions,
{
    if ids.len() > 0 {
        if let Ok(list) = receipts_read(s.root, s.receipts) {
            let p = Pruning { store: s, chosen: Map::empty(), problems: Seq::empty() };
            lemma_pruning_keeps_receipts(p, list, ids, now);
            let q = p.with_names(list, ids, now);
            lemma_targets_keep_journals(
                q.store,
                crate::sorted::listing::<String>(q.chosen.dom()),
                q.chosen,
            );
        }
    }
}

/// Whether a preview is found that an application holds.
pub open spec fn holds_preview(s: StoreView, id: Seq<char>) -> bool {
    place_of(s.previews, id) matches Some(i) && (s.previews[i].content matches Ok(p) && p.preview.reserved)
}

proof fn lemma_pruning_keeps_held(
    p: Pruning,
    receipts: Seq<StoredReceiptView>,
    ids: Seq<Seq<char>>,
    now: i64,
    held: Seq<char>,
)
    requires
        holds_preview(p.store, held),
    ensures
        holds_preview(p.with_names(receipts, ids, now).store, held),
    decreases ids.len(),
{
    if ids.len() > 0 {
        let q = p.with_names(receipts, ids.drop_last(), now);
        let id = ids.last();
        lemma_pruning_keeps_held(p, receipts, ids.drop_last(), now, held);
        if id != held {
            law_removal_leaves_others(q.store.previews, id, held);
        }
    }
}

/// A preview that an application holds is not pruned by its name, nor is
/// anything that was named beside it.
pub proof fn law_held_preview_is_not_pruned(s: StoreView, ids: Seq<Seq<char>>, now: i64, k: int)
    requires
        0 <= k < ids.len(),
        "prv_"@.is_prefix_of(ids[k]),
        holds_preview(s, ids[k]),
    ensures
        s.pruned(ids, now).1 is Err,
        holds_preview(s.pruned(ids, now).0, ids[k]),
{
    if let Ok(list) = receipts_read(s.root, s.receipts) {
        let p = Pruning { store: s, chosen: Map::empty(), problems: Seq::empty() };
        assert(ids.take(k + 1).drop_last() =~= ids.take(k));
        assert(ids.take(k + 1).last() == ids[k]);
        lemma_pruning_keeps_held(p, list, ids.take(k), now, ids[k]);
        lemma_problems_stay(p, list, ids, k + 1, now);
        lemma_pruning_keeps_held(p, list, ids, now, ids[k]);
    }
}

} // verus!
