//! How long previews and receipts are kept, and what goes.

use vstd::prelude::*;

use crate::chains::{chain_of, disposable, in_chain, law_chain_holds_its_start, protected};
use crate::failure::FailureView;
use crate::manifest::PathView;
use crate::records::{MUTATION_STATE_VERSION, PreviewView, ReceiptView, StoredPreviewView, StoredReceiptView};
use crate::settings::{PreviewSettings, ReceiptSettings};
use crate::sorted::{lemma_listing_exists, listing, lists_keys};
use crate::state::{StoreView, receipts_read, sweep};
use crate::state_ops::{law_newest_first, previews_read, receipt_stored_at, stored_at, total_bytes};
use crate::state_prune::{Pruning, has_receipt, with_chain};
use crate::store::{FileView, place_of, removed, unknown_preview};

verus! {

/// A preview is found until its time is up, and not from then on; one that an
/// application holds is found for as long as it is held.
pub proof fn law_previews_are_found_until_their_time(s: StoreView, id: Seq<char>, p: StoredPreviewView, now: i64)
    requires
        place_of(s.previews, id) matches Some(i) && s.previews[i].content == Ok::<
            StoredPreviewView,
            crate::store::ReadFault,
        >(p) && s.previews[i].id == id,
        p.format_version == MUTATION_STATE_VERSION,
    ensures
        now < p.expires_unix_seconds || p.preview.reserved ==> s.asked_preview(id, now) == (
            s,
            Ok::<StoredPreviewView, FailureView>(p),
        ),
        now >= p.expires_unix_seconds && !p.preview.reserved ==> s.asked_preview(id, now).1 == Err::<
            StoredPreviewView,
            FailureView,
        >(unknown_preview(id, "inspect"@)) && s.asked_preview(id, now).0.previews == removed(s.previews, id),
{
}

/// A preview is stored for a day and a receipt for thirty, from the time at
/// which they are stored; nothing else of them changes but the time that a
/// preview names.
pub proof fn law_records_are_kept_for_their_time(
    preview: PreviewView,
    workspace_path: PathView,
    authorization_digest: Seq<char>,
    recovery_manifest_digest: Option<Seq<char>>,
    receipt: ReceiptView,
    now: i64,
    expires_at: Seq<char>,
)
    requires
        now <= i64::MAX - 30 * 24 * 60 * 60,
    ensures
        ({
            let p = stored_at(
                preview,
                workspace_path,
                authorization_digest,
                recovery_manifest_digest,
                now,
                expires_at,
            );
            let r = receipt_stored_at(receipt, now);
            &&& p.created_unix_seconds == now
            &&& p.expires_unix_seconds == now + 24 * 60 * 60
            &&& p.preview.expires_at == expires_at
            &&& p.preview.plan == preview.plan && p.preview.preview_id == preview.preview_id && p.preview.reserved
                == preview.reserved && p.preview.edit == preview.edit && p.preview.workspace_uri == preview.workspace_uri
            &&& p.workspace_path == workspace_path && p.authorization_digest == authorization_digest
                && p.recovery_manifest_digest == recovery_manifest_digest
            &&& r.completed_unix_seconds == now
            &&& r.expires_unix_seconds == now + 30 * 24 * 60 * 60
            &&& r.receipt == receipt
        }),
{
}

/// Whether the time of a preview in a file is not up, or an application holds
/// it.
pub open spec fn is_current(now: i64) -> spec_fn(FileView<StoredPreviewView>) -> bool {
    |f: FileView<StoredPreviewView>|
        f.content matches Ok(p) && (now < p.expires_unix_seconds || p.preview.reserved)
}

/// A sweep takes away the previews whose time is up and that no application
/// holds, and leaves every other where it is.
pub proof fn law_sweeps_take_what_is_past(root: PathView, files: Seq<FileView<StoredPreviewView>>, now: i64)
    requires
        sweep(root, files, now).stop is None,
    ensures
        sweep(root, files, now).kept == files.filter(is_current(now)),
        forall|i: int|
            0 <= i < files.len() ==> (sweep(root, files, now).files.contains((#[trigger] files[i]).id) || is_current(
                now,
            )(files[i])),
        sweep(root, files, now).files.len() == files.len() - sweep(root, files, now).kept.len(),
    decreases files.len(),
{
    let kept = sweep(root, files, now).kept;
    let gone = sweep(root, files, now).files;
    let p = is_current(now);
    if files.len() == 0 {
        reveal(Seq::filter);
        assert(files.filter(p) =~= kept);
    } else {
        let rest = files.drop_first();
        let first = seq![files[0]];
        let later = sweep(root, rest, now);
        law_sweeps_take_what_is_past(root, rest, now);
        assert(files =~= first + rest);
        Seq::filter_distributes_over_add(first, rest, p);
        assert(first.filter(p) =~= (if p(files[0]) {
            first
        } else {
            Seq::empty()
        })) by {
            reveal(Seq::filter);
            assert(first.drop_last() =~= Seq::empty());
            assert(first.drop_last().filter(p) =~= Seq::empty());
        }
        if p(files[0]) {
            assert(kept =~= first + later.kept);
            assert(gone == later.files);
        } else {
            assert(Seq::empty() + later.kept =~= later.kept);
            assert(gone =~= seq![files[0].id] + later.files);
        }
        assert forall|i: int| 0 <= i < files.len() implies gone.contains((#[trigger] files[i]).id) || p(files[i]) by {
            if i == 0 {
                if !p(files[0]) {
                    assert(gone[0] == files[0].id);
                }
            } else {
                assert(rest[i - 1] == files[i]);
                if later.files.contains(files[i].id) {
                    let k = choose|k: int| 0 <= k < later.files.len() && later.files[k] == files[i].id;
                    if p(files[0]) {
                        assert(gone[k] == files[i].id);
                    } else {
                        assert(gone[k + 1] == files[i].id);
                    }
                }
            }
        }
    }
}

/// The size of files is that of each of them together, as far as it can be
/// counted.
pub proof fn law_sizes_add_up<V>(files: Seq<FileView<V>>, f: FileView<V>)
    ensures
        total_bytes(files.push(f)) == (if total_bytes(files) + f.bytes > u64::MAX {
            u64::MAX as int
        } else {
            total_bytes(files) + f.bytes
        }),
        total_bytes(Seq::<FileView<V>>::empty()) == 0,
{
    assert(files.push(f).drop_last() =~= files);
}

/// A preview is kept exactly where nothing stands in the way of a sweep and
/// there is room for one more, in number and in size.
pub proof fn law_previews_are_kept_where_there_is_room(
    s: StoreView,
    p: StoredPreviewView,
    bytes: u64,
    limits: PreviewSettings,
    now: i64,
)
    requires
        limits.max_total_bytes < u64::MAX,
    ensures
        ({
            let (next, swept) = s.swept(now);
            s.created_preview(p, bytes, limits, now).1 is Ok <==> swept is Ok && next.previews.len() < limits.max_count
                && total_bytes(next.previews) + bytes <= limits.max_total_bytes
        }),
{
}

/// A receipt is kept exactly where nothing stands in the way of a sweep and
/// there is room for one more.
pub proof fn law_receipts_are_kept_where_there_is_room(
    s: StoreView,
    receipt: ReceiptView,
    limits: ReceiptSettings,
    now: i64,
)
    ensures
        ({
            let (next, swept) = s.swept(now);
            s.kept_receipt(receipt, limits, now).1 is Ok <==> swept is Ok && next.receipts.len() < limits.max_count
        }),
{
}

/// Receipts that belong together have to stay exactly where one of them is to
/// be cleaned up and none of them is the receipt of a recovery that is over.
pub proof fn law_unfinished_receipts_are_protected(chain: Seq<StoredReceiptView>)
    ensures
        (forall|i: int| 0 <= i < chain.len() ==> !(#[trigger] chain[i]).receipt.cleanup_pending) ==> !protected(chain),
        (forall|i: int| 0 <= i < chain.len() ==> (#[trigger] chain[i]).receipt.kind != "recovery_receipt"@) && (exists|
            i: int,
        | 0 <= i < chain.len() && (#[trigger] chain[i]).receipt.cleanup_pending) ==> protected(chain),
        (forall|i: int|
            0 <= i < chain.len() ==> (#[trigger] chain[i]).receipt.outcome != "restored"@ && chain[i].receipt.outcome
                != "accepted_current"@) && (exists|i: int|
            0 <= i < chain.len() && (#[trigger] chain[i]).receipt.cleanup_pending) ==> protected(chain),
        (exists|i: int|
            0 <= i < chain.len() && (#[trigger] chain[i]).receipt.kind == "recovery_receipt"@
                && chain[i].receipt.outcome == "restored"@ && !chain[i].receipt.cleanup_pending) ==> !protected(chain),
        (exists|i: int|
            0 <= i < chain.len() && (#[trigger] chain[i]).receipt.kind == "recovery_receipt"@
                && chain[i].receipt.outcome == "accepted_current"@ && !chain[i].receipt.cleanup_pending) ==> !protected(
            chain,
        ),
{
    if exists|i: int|
        0 <= i < chain.len() && (#[trigger] chain[i]).receipt.kind == "recovery_receipt"@ && chain[i].receipt.outcome
            == "restored"@ && !chain[i].receipt.cleanup_pending {
        let i = choose|i: int|
            0 <= i < chain.len() && (#[trigger] chain[i]).receipt.kind == "recovery_receipt"@
                && chain[i].receipt.outcome == "restored"@ && !chain[i].receipt.cleanup_pending;
        assert(crate::chains::ends_recovery(chain[i].receipt));
    }
    if exists|i: int|
        0 <= i < chain.len() && (#[trigger] chain[i]).receipt.kind == "recovery_receipt"@ && chain[i].receipt.outcome
            == "accepted_current"@ && !chain[i].receipt.cleanup_pending {
        let i = choose|i: int|
            0 <= i < chain.len() && (#[trigger] chain[i]).receipt.kind == "recovery_receipt"@
                && chain[i].receipt.outcome == "accepted_current"@ && !chain[i].receipt.cleanup_pending;
        assert(crate::chains::ends_recovery(chain[i].receipt));
    }
}

/// A receipt goes by itself only once its time and that of every receipt that
/// belongs to it is up.
pub proof fn law_receipts_stay_until_their_time(receipts: Seq<StoredReceiptView>, k: int, now: i64)
    requires
        0 <= k < receipts.len(),
        now < receipts[k].expires_unix_seconds,
    ensures
        !disposable(receipts, receipts[k].receipt.receipt_id, now),
{
    broadcast use vstd::seq_lib::group_filter_ensures;

    let id = receipts[k].receipt.receipt_id;
    law_chain_holds_its_start(receipts, id);
    let p = in_chain(receipts, id);
    assert(p(receipts[k]));
    assert(receipts.contains(receipts[k]));
    assert(chain_of(receipts, id).contains(receipts[k]));
    let i = chain_of(receipts, id).index_of(receipts[k]);
    assert(chain_of(receipts, id)[i] == receipts[k]);
}

proof fn lemma_previews_read(root: PathView, files: Seq<FileView<StoredPreviewView>>, now: i64)
    ensures
        previews_read(root, files, now) matches Ok(list) ==> list.len() == files.len() && forall|i: int|
            0 <= i < files.len() ==> (#[trigger] files[i]).content == Ok::<StoredPreviewView, crate::store::ReadFault>(
                list[i],
            ),
    decreases files.len(),
{
    if files.len() > 0 {
        let rest = files.drop_last();
        lemma_previews_read(root, rest, now);
        if let Ok(list) = previews_read(root, files, now) {
            let earlier = previews_read(root, rest, now)->Ok_0;
            assert forall|i: int| 0 <= i < files.len() implies (#[trigger] files[i]).content == Ok::<
                StoredPreviewView,
                crate::store::ReadFault,
            >(list[i]) by {
                if i < rest.len() {
                    assert(rest[i].content == Ok::<StoredPreviewView, crate::store::ReadFault>(earlier[i]));
                }
            }
        }
    }
}

/// A list of previews holds each that is kept once, as it is kept, the newest
/// first.
pub proof fn law_lists_hold_every_preview(s: StoreView, now: i64, i: int)
    requires
        s.listed_previews(now).1 is Ok,
        0 <= i < s.listed_previews(now).0.previews.len(),
    ensures
        ({
            let (next, listed) = s.listed_previews(now);
            let list = listed->Ok_0;
            &&& list.len() == next.previews.len()
            &&& next.previews[i].content matches Ok(p) && list.contains(p)
            &&& forall|a: int, b: int|
                0 <= a < b < list.len() ==> (#[trigger] list[a]).created_unix_seconds >= (
                #[trigger] list[b]).created_unix_seconds
        }),
{
    broadcast use vstd::seq_lib::group_to_multiset_ensures;

    let next = s.listed_previews(now).0;
    let list = s.listed_previews(now).1->Ok_0;
    let read = previews_read(next.root, next.previews, now)->Ok_0;
    lemma_previews_read(next.root, next.previews, now);
    law_newest_first(read, Seq::empty());
    assert(next.previews[i].content == Ok::<StoredPreviewView, crate::store::ReadFault>(read[i]));
    crate::ranking::lemma_ranked_contains::<crate::records::StoredPreview>(read, read[i]);
    assert(read.contains(read[i]));
    assert(list.len() == list.to_multiset().len());
    assert(read.len() == read.to_multiset().len());
}

proof fn lemma_chain_chosen(
    chosen: Map<Seq<char>, crate::state_prune::Target>,
    chain: Seq<StoredReceiptView>,
    id: Seq<char>,
)
    ensures
        with_chain(chosen, chain).dom().contains(id) <==> chosen.dom().contains(id) || exists|i: int|
            0 <= i < chain.len() && (#[trigger] chain[i]).receipt.receipt_id == id,
    decreases chain.len(),
{
    if chain.len() > 0 {
        let rest = chain.drop_last();
        lemma_chain_chosen(chosen, rest, id);
        if exists|i: int| 0 <= i < rest.len() && (#[trigger] rest[i]).receipt.receipt_id == id {
            let i = choose|i: int| 0 <= i < rest.len() && (#[trigger] rest[i]).receipt.receipt_id == id;
            assert(chain[i].receipt.receipt_id == id);
        }
        if exists|i: int| 0 <= i < chain.len() && (#[trigger] chain[i]).receipt.receipt_id == id {
            let i = choose|i: int| 0 <= i < chain.len() && (#[trigger] chain[i]).receipt.receipt_id == id;
            if i < rest.len() {
                assert(rest[i].receipt.receipt_id == id);
            }
        }
    }
}

proof fn lemma_named_is_chosen(
    p: Pruning,
    receipts: Seq<StoredReceiptView>,
    ids: Seq<Seq<char>>,
    now: i64,
    k: int,
)
    requires
        0 <= k < ids.len(),
        p.with_names(receipts, ids, now).problems.len() == 0,
    ensures
        p.with_names(receipts, ids, now).chosen.dom().contains(ids[k]),
    decreases ids.len(),
{
    broadcast use vstd::seq_lib::group_filter_ensures;

    let rest = ids.drop_last();
    let q = p.with_names(receipts, rest, now);
    let id = ids.last();
    assert(q.problems.len() == 0);
    let chain = chain_of(receipts, id);
    if k < rest.len() {
        lemma_named_is_chosen(p, receipts, rest, now, k);
        lemma_chain_chosen(q.chosen, chain, ids[k]);
    } else if !("prv_"@.is_prefix_of(id) && place_of(q.store.previews, id) is Some) {
        assert(has_receipt(receipts, id));
        let i = choose|i: int| 0 <= i < receipts.len() && (#[trigger] receipts[i]).receipt.receipt_id == id;
        law_chain_holds_its_start(receipts, id);
        assert(in_chain(receipts, id)(receipts[i]));
        assert(receipts.contains(receipts[i]));
        assert(chain.contains(receipts[i]));
        let j = chain.index_of(receipts[i]);
        assert(chain[j].receipt.receipt_id == id);
        lemma_chain_chosen(q.chosen, chain, id);
    }
}

proof fn lemma_chosen_is_finite(p: Pruning, receipts: Seq<StoredReceiptView>, ids: Seq<Seq<char>>, now: i64)
    requires
        p.chosen.dom().finite(),
    ensures
        p.with_names(receipts, ids, now).chosen.dom().finite(),
    decreases ids.len(),
{
    if ids.len() > 0 {
        lemma_chosen_is_finite(p, receipts, ids.drop_last(), now);
        lemma_chain_is_finite(
            p.with_names(receipts, ids.drop_last(), now).chosen,
            chain_of(receipts, ids.last()),
        );
    }
}

proof fn lemma_chain_is_finite(chosen: Map<Seq<char>, crate::state_prune::Target>, chain: Seq<StoredReceiptView>)
    requires
        chosen.dom().finite(),
    ensures
        with_chain(chosen, chain).dom().finite(),
    decreases chain.len(),
{
    if chain.len() > 0 {
        lemma_chain_is_finite(chosen, chain.drop_last());
    }
}

/// Whatever is named to a pruning that succeeds is among what went.
pub proof fn law_named_records_are_pruned(s: StoreView, ids: Seq<Seq<char>>, now: i64, k: int)
    requires
        0 <= k < ids.len(),
        s.pruned(ids, now).1 is Ok,
    ensures
        s.pruned(ids, now).1->Ok_0.contains(ids[k]),
{
    let receipts = receipts_read(s.root, s.receipts)->Ok_0;
    let start = Pruning { store: s, chosen: Map::empty(), problems: Seq::empty() };
    let p = start.with_names(receipts, ids, now);
    lemma_named_is_chosen(start, receipts, ids, now, k);
    lemma_chosen_is_finite(start, receipts, ids, now);
    lemma_listing_exists::<String>(p.chosen.dom());
    assert(lists_keys::<String>(listing::<String>(p.chosen.dom()), p.chosen.dom()));
}

} // verus!
