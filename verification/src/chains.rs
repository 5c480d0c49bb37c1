//! Chains of receipts that are linked to each other.

use vstd::prelude::*;

use crate::plan_tree::lemma_filter_take;
use crate::records::{ReceiptView, StoredReceipt, StoredReceiptView};
use crate::text::{contains_string, same, views};

verus! {

/// Whether a set of names holds both ends of a link or neither, for each link.
pub open spec fn link_closed(receipts: Seq<StoredReceiptView>, ids: Set<Seq<char>>) -> bool {
    forall|i: int|
        0 <= i < receipts.len() ==> ((#[trigger] receipts[i]).receipt.linked_receipt_id matches Some(l) ==> (
        ids.contains(receipts[i].receipt.receipt_id) <==> ids.contains(l)))
}

/// Whether links lead from one name to another, in whichever direction.
#[verifier::opaque]
pub open spec fn chained(receipts: Seq<StoredReceiptView>, start: Seq<char>, id: Seq<char>) -> bool {
    forall|ids: Set<Seq<char>>| #[trigger] link_closed(receipts, ids) && ids.contains(start) ==> ids.contains(id)
}

/// The receipts that links lead to from a name.
pub open spec fn in_chain(receipts: Seq<StoredReceiptView>, start: Seq<char>) -> spec_fn(StoredReceiptView) -> bool {
    |r: StoredReceiptView| chained(receipts, start, r.receipt.receipt_id)
}

/// The receipts that links lead to from a name, in the order in which they
/// stand.
pub open spec fn chain_of(receipts: Seq<StoredReceiptView>, start: Seq<char>) -> Seq<StoredReceiptView> {
    receipts.filter(in_chain(receipts, start))
}

/// Each name is chained to itself.
pub proof fn law_chain_holds_its_start(receipts: Seq<StoredReceiptView>, start: Seq<char>)
    ensures
        chained(receipts, start, start),
{
    reveal(chained);
}

/// What one name is chained to is chained to it.
pub proof fn law_chains_are_mutual(receipts: Seq<StoredReceiptView>, a: Seq<char>, b: Seq<char>)
    requires
        chained(receipts, a, b),
    ensures
        chained(receipts, b, a),
{
    reveal(chained);
    assert forall|ids: Set<Seq<char>>| #[trigger] link_closed(receipts, ids) && ids.contains(b) implies ids.contains(
        a,
    ) by {
        let others = ids.complement();
        assert(link_closed(receipts, others));
        if others.contains(a) {
            assert(others.contains(b));
        }
    }
}

/// What is chained to something chained to a name is chained to that name.
pub proof fn law_chains_go_on(receipts: Seq<StoredReceiptView>, a: Seq<char>, b: Seq<char>, c: Seq<char>)
    requires
        chained(receipts, a, b),
        chained(receipts, b, c),
    ensures
        chained(receipts, a, c),
{
    reveal(chained);
    assert forall|ids: Set<Seq<char>>| #[trigger] link_closed(receipts, ids) && ids.contains(a) implies ids.contains(
        c,
    ) by {
        assert(ids.contains(b));
    }
}

/// Whichever of its receipts one starts from, a chain is the same.
pub proof fn law_one_chain(receipts: Seq<StoredReceiptView>, a: Seq<char>, b: Seq<char>)
    requires
        chained(receipts, a, b),
    ensures
        chain_of(receipts, a) == chain_of(receipts, b),
{
    let p = in_chain(receipts, a);
    let q = in_chain(receipts, b);
    law_chains_are_mutual(receipts, a, b);
    assert forall|r: StoredReceiptView| #[trigger] p(r) == q(r) by {
        let c = r.receipt.receipt_id;
        if chained(receipts, a, c) {
            law_chains_go_on(receipts, b, a, c);
        }
        if chained(receipts, b, c) {
            law_chains_go_on(receipts, a, b, c);
        }
    }
    assert(p =~= q);
}

/// A receipt with a link is chained to what it is linked to.
pub proof fn law_links_are_chained(receipts: Seq<StoredReceiptView>, i: int)
    requires
        0 <= i < receipts.len(),
        receipts[i].receipt.linked_receipt_id is Some,
    ensures
        chained(receipts, receipts[i].receipt.receipt_id, receipts[i].receipt.linked_receipt_id->0),
{
    reveal(chained);
}

spec fn universe(receipts: Seq<StoredReceiptView>, start: Seq<char>) -> Seq<Seq<char>>
    decreases receipts.len(),
{
    if receipts.len() == 0 {
        seq![start]
    } else {
        let r = receipts.last().receipt;
        universe(receipts.drop_last(), start).push(r.receipt_id).push(
            match r.linked_receipt_id {
                Some(l) => l,
                None => r.receipt_id,
            },
        )
    }
}

proof fn lemma_universe(receipts: Seq<StoredReceiptView>, start: Seq<char>)
    ensures
        universe(receipts, start).len() == 2 * receipts.len() + 1,
        universe(receipts, start).contains(start),
        forall|i: int|
            0 <= i < receipts.len() ==> universe(receipts, start).contains(
                (#[trigger] receipts[i]).receipt.receipt_id,
            ) && (receipts[i].receipt.linked_receipt_id matches Some(l) ==> universe(receipts, start).contains(l)),
    decreases receipts.len(),
{
    let u = universe(receipts, start);
    if receipts.len() == 0 {
        assert(u[0] == start);
    } else {
        let rest = receipts.drop_last();
        let v = universe(rest, start);
        lemma_universe(rest, start);
        assert forall|x: Seq<char>| #[trigger] v.contains(x) implies u.contains(x) by {
            let k = choose|k: int| 0 <= k < v.len() && v[k] == x;
            assert(u[k] == x);
        }
        assert(v.contains(start));
        assert(u[u.len() - 2] == receipts.last().receipt.receipt_id);
        assert(u[u.len() - 1] == match receipts.last().receipt.linked_receipt_id {
            Some(l) => l,
            None => receipts.last().receipt.receipt_id,
        });
        assert forall|i: int| 0 <= i < receipts.len() implies u.contains((#[trigger] receipts[i]).receipt.receipt_id)
            && (receipts[i].receipt.linked_receipt_id matches Some(l) ==> u.contains(l)) by {
            if i < rest.len() {
                assert(rest[i] == receipts[i]);
                assert(v.contains(rest[i].receipt.receipt_id));
            }
        }
    }
}

proof fn lemma_bounded(ids: Seq<Seq<char>>, u: Seq<Seq<char>>)
    requires
        ids.no_duplicates(),
        forall|i: int| 0 <= i < ids.len() ==> u.contains(#[trigger] ids[i]),
    ensures
        ids.len() <= u.len(),
{
    ids.unique_seq_to_set();
    u.lemma_cardinality_of_set();
    assert(ids.to_set().subset_of(u.to_set())) by {
        assert forall|x: Seq<char>| ids.to_set().contains(x) implies u.to_set().contains(x) by {
            let i = choose|i: int| 0 <= i < ids.len() && ids[i] == x;
            assert(u.contains(ids[i]));
        }
    }
    vstd::set_lib::lemma_len_subset(ids.to_set(), u.to_set());
}

/// Whether names are different ones that are chained to a start.
spec fn gathered(receipts: Seq<StoredReceiptView>, start: Seq<char>, ids: Seq<Seq<char>>) -> bool {
    &&& ids.no_duplicates()
    &&& ids.contains(start)
    &&& forall|i: int|
        0 <= i < ids.len() ==> chained(receipts, start, #[trigger] ids[i]) && universe(receipts, start).contains(ids[i])
}

fn gather(receipts: &Vec<StoredReceipt>, start: &str, ids: &mut Vec<String>, id: &String)
    requires
        gathered(views(receipts@), start@, views(old(ids)@)),
        chained(views(receipts@), start@, id@),
        universe(views(receipts@), start@).contains(id@),
    ensures
        gathered(views(receipts@), start@, views(final(ids)@)),
        forall|x: Seq<char>| views(old(ids)@).contains(x) ==> #[trigger] views(final(ids)@).contains(x),
        views(final(ids)@).contains(id@),
        final(ids)@.len() >= old(ids)@.len(),
        final(ids)@.len() == old(ids)@.len() ==> final(ids)@ == old(ids)@,
{
    let ghost before = views(ids@);
    if !contains_string(ids, id.as_str()) {
        ids.push(id.clone());
        assert(views(ids@) =~= before.push(id@));
        assert(views(ids@)[before.len() as int] == id@);
        assert forall|x: Seq<char>| before.contains(x) implies #[trigger] views(ids@).contains(x) by {
            let k = choose|k: int| 0 <= k < before.len() && before[k] == x;
            assert(views(ids@)[k] == x);
        }
    }
}

fn chain_names(receipts: &Vec<StoredReceipt>, start: &str) -> (ids: Vec<String>)
    ensures
        forall|x: Seq<char>| #[trigger] views(ids@).contains(x) <==> chained(views(receipts@), start@, x),
{
    let ghost all = views(receipts@);
    let ghost u = universe(all, start@);
    let mut ids: Vec<String> = Vec::new();
    ids.push(start.to_owned());
    proof {
        lemma_universe(all, start@);
        law_chain_holds_its_start(all, start@);
        assert(views(ids@) =~= seq![start@]);
        assert(views(ids@)[0] == start@);
    }
    let mut grows: bool = true;
    while grows
        invariant
            all == views(receipts@),
            u == universe(all, start@),
            gathered(all, start@, views(ids@)),
            !grows ==> link_closed(all, views(ids@).to_set()),
        decreases u.len() + 1 - ids@.len(), if grows { 1int } else { 0int },
    {
        let before: usize = ids.len();
        let ghost previous = ids@;
        let mut i: usize = 0;
        proof {
            lemma_universe(all, start@);
            lemma_bounded(views(ids@), u);
        }
        while i < receipts.len()
            invariant
                all == views(receipts@),
                u == universe(all, start@),
                i <= receipts@.len(),
                before == previous.len(),
                gathered(all, start@, views(ids@)),
                ids@.len() >= before,
                ids@.len() == before ==> ids@ == previous,
                ids@.len() == before ==> forall|j: int|
                    0 <= j < i ==> ((#[trigger] all[j]).receipt.linked_receipt_id matches Some(l) ==> (views(
                        previous,
                    ).contains(all[j].receipt.receipt_id) <==> views(previous).contains(l))),
            decreases receipts.len() - i,
        {
            proof {
                lemma_universe(all, start@);
            }
            let ghost here = ids@;
            let r = &receipts[i].receipt;
            assert(all[i as int].receipt == r@);
            if let Some(linked) = &r.linked_receipt_id {
                if contains_string(&ids, r.receipt_id.as_str()) || contains_string(&ids, linked.as_str()) {
                    proof {
                        assert(all[i as int].receipt.linked_receipt_id == Some(linked@));
                        law_links_are_chained(all, i as int);
                        law_chains_are_mutual(all, r@.receipt_id, linked@);
                        if views(here).contains(r@.receipt_id) {
                            let k = choose|k: int| 0 <= k < here.len() && views(here)[k] == r@.receipt_id;
                            assert(chained(all, start@, views(here)[k]));
                            law_chains_go_on(all, start@, r@.receipt_id, linked@);
                        } else {
                            let k = choose|k: int| 0 <= k < here.len() && views(here)[k] == linked@;
                            assert(chained(all, start@, views(here)[k]));
                            law_chains_go_on(all, start@, linked@, r@.receipt_id);
                        }
                    }
                    gather(receipts, start, &mut ids, &r.receipt_id);
                    gather(receipts, start, &mut ids, linked);
                }
            }
            i += 1;
        }
        if ids.len() == before {
            grows = false;
            proof {
                assert forall|j: int| 0 <= j < all.len() implies ((#[trigger] all[j]).receipt.linked_receipt_id matches Some(
                    l,
                ) ==> (views(ids@).to_set().contains(all[j].receipt.receipt_id) <==> views(ids@).to_set().contains(
                    l,
                ))) by {}
                assert(link_closed(all, views(ids@).to_set()));
            }
        }
        proof {
            lemma_bounded(views(ids@), u);
        }
    }
    proof {
        let s = views(ids@).to_set();
        assert(link_closed(all, s));
        assert(s.contains(start@));
        assert forall|x: Seq<char>| #[trigger] views(ids@).contains(x) <==> chained(all, start@, x) by {
            if views(ids@).contains(x) {
                let k = choose|k: int| 0 <= k < ids@.len() && views(ids@)[k] == x;
                assert(chained(all, start@, views(ids@)[k]));
            }
            if chained(all, start@, x) {
                reveal(chained);
                assert(s.contains(x));
            }
        }
    }
    ids
}

/// The receipts that links lead to from a name, in the order in which they
/// stand.
pub fn receipt_chain<'a>(receipts: &'a Vec<StoredReceipt>, start: &str) -> (r: Vec<&'a StoredReceipt>)
    ensures
        views(r@) == chain_of(views(receipts@), start@),
{
    let ids: Vec<String> = chain_names(receipts, start);
    let ghost all = views(receipts@);
    let ghost p = in_chain(all, start@);
    let mut r: Vec<&'a StoredReceipt> = Vec::new();
    let mut i: usize = 0;
    proof {
        assert(all.take(0).filter(p) =~= seq![]) by {
            reveal(Seq::filter);
        }
        assert(views(r@) =~= seq![]);
    }
    while i < receipts.len()
        invariant
            i <= receipts@.len(),
            all == views(receipts@),
            p == in_chain(all, start@),
            forall|x: Seq<char>| #[trigger] views(ids@).contains(x) <==> chained(all, start@, x),
            views(r@) == all.take(i as int).filter(p),
        decreases receipts.len() - i,
    {
        let ghost before = r@;
        proof {
            lemma_filter_take(all, p, i as int);
        }
        assert(all[i as int] == receipts@[i as int]@);
        if contains_string(&ids, receipts[i].receipt.receipt_id.as_str()) {
            r.push(&receipts[i]);
            assert(views(r@) =~= views(before).push(all[i as int]));
        }
        i += 1;
    }
    assert(all.take(i as int) =~= all);
    r
}

/// Whether a receipt is of a recovery that came to its end.
pub open spec fn ends_recovery(r: ReceiptView) -> bool {
    r.kind == "recovery_receipt"@ && (r.outcome == "restored"@ || r.outcome == "accepted_current"@)
        && !r.cleanup_pending
}

/// Whether a chain has to be kept: something in it still has to be cleaned
/// up, and no recovery in it came to its end.
pub open spec fn protected(chain: Seq<StoredReceiptView>) -> bool {
    &&& !exists|i: int| 0 <= i < chain.len() && ends_recovery((#[trigger] chain[i]).receipt)
    &&& exists|i: int| 0 <= i < chain.len() && (#[trigger] chain[i]).receipt.cleanup_pending
}

/// Whether a chain has to be kept: something in it still has to be cleaned
/// up, and no recovery in it came to its end.
pub fn receipt_chain_protected(chain: &Vec<&StoredReceipt>) -> (r: bool)
    ensures
        r == protected(views(chain@)),
{
    let ghost all = views(chain@);
    let mut pending: bool = false;
    let mut i: usize = 0;
    while i < chain.len()
        invariant
            i <= chain@.len(),
            all == views(chain@),
            forall|j: int| 0 <= j < i ==> !ends_recovery((#[trigger] all[j]).receipt),
            pending <==> exists|j: int| 0 <= j < i && (#[trigger] all[j]).receipt.cleanup_pending,
        decreases chain.len() - i,
    {
        let r = &chain[i].receipt;
        assert(all[i as int].receipt == r@);
        if same(r.kind.as_str(), "recovery_receipt") && (same(r.outcome.as_str(), "restored") || same(
            r.outcome.as_str(),
            "accepted_current",
        )) && !r.cleanup_pending {
            return false;
        }
        if r.cleanup_pending {
            pending = true;
        }
        i += 1;
    }
    pending
}

/// Whether each receipt of a chain is past its time.
pub open spec fn all_expired(chain: Seq<StoredReceiptView>, now: i64) -> bool {
    forall|i: int| 0 <= i < chain.len() ==> (#[trigger] chain[i]).expires_unix_seconds <= now
}

/// Whether each receipt of a chain is past its time.
fn chain_expired(chain: &Vec<&StoredReceipt>, now: i64) -> (r: bool)
    ensures
        r == all_expired(views(chain@), now),
{
    let ghost all = views(chain@);
    let mut i: usize = 0;
    while i < chain.len()
        invariant
            i <= chain@.len(),
            all == views(chain@),
            forall|j: int| 0 <= j < i ==> (#[trigger] all[j]).expires_unix_seconds <= now,
        decreases chain.len() - i,
    {
        assert(all[i as int].expires_unix_seconds == chain@[i as int].expires_unix_seconds);
        if chain[i].expires_unix_seconds > now {
            return false;
        }
        i += 1;
    }
    true
}

/// Whether a receipt can go: its whole chain is past its time, and nothing in
/// the chain has to be kept.
pub open spec fn disposable(receipts: Seq<StoredReceiptView>, id: Seq<char>, now: i64) -> bool {
    all_expired(chain_of(receipts, id), now) && !protected(chain_of(receipts, id))
}

/// The names of receipts.
pub open spec fn receipt_names(list: Seq<StoredReceiptView>) -> Seq<Seq<char>> {
    Seq::new(list.len(), |i: int| list[i].receipt.receipt_id)
}

/// The names of the receipts that can go, chain by chain, in the order in which
/// the first receipt of each chain stands.
pub open spec fn expired_names(receipts: Seq<StoredReceiptView>, n: int, now: i64) -> Seq<Seq<char>>
    decreases n,
{
    if n <= 0 {
        Seq::empty()
    } else {
        let earlier = expired_names(receipts, n - 1, now);
        let id = receipts[n - 1].receipt.receipt_id;
        if chained_to_earlier(receipts, n - 1) || !disposable(receipts, id, now) {
            earlier
        } else {
            earlier + receipt_names(chain_of(receipts, id))
        }
    }
}

/// Whether a receipt belongs to the chain of one that stands before it.
pub open spec fn chained_to_earlier(receipts: Seq<StoredReceiptView>, n: int) -> bool {
    exists|j: int|
        0 <= j < n && chained(receipts, (#[trigger] receipts[j]).receipt.receipt_id, receipts[n].receipt.receipt_id)
}

fn push_names(names: &mut Vec<String>, chain: &Vec<&StoredReceipt>)
    ensures
        views(final(names)@) == views(old(names)@) + receipt_names(views(chain@)),
{
    let ghost all = receipt_names(views(chain@));
    let ghost start = views(names@);
    let mut i: usize = 0;
    assert(start + all.take(0) =~= start);
    while i < chain.len()
        invariant
            i <= chain@.len(),
            all == receipt_names(views(chain@)),
            views(names@) == start + all.take(i as int),
        decreases chain.len() - i,
    {
        let ghost before = views(names@);
        names.push(chain[i].receipt.receipt_id.clone());
        assert(views(names@) =~= before.push(all[i as int]));
        assert(start + all.take(i + 1) =~= (start + all.take(i as int)).push(all[i as int]));
        i += 1;
    }
    assert(all.take(i as int) =~= all);
}

/// Whether a name belongs to the chain of one of the first receipts.
spec fn reached(all: Seq<StoredReceiptView>, i: int, x: Seq<char>) -> bool {
    exists|j: int| 0 <= j < i && chained(all, (#[trigger] all[j]).receipt.receipt_id, x)
}

spec fn marks(all: Seq<StoredReceiptView>, i: int, visited: Seq<Seq<char>>) -> bool {
    forall|n: int|
        0 <= n < all.len() ==> (visited.contains((#[trigger] all[n]).receipt.receipt_id) <==> reached(
            all,
            i,
            all[n].receipt.receipt_id,
        ))
}

proof fn lemma_chain_names(all: Seq<StoredReceiptView>, start: Seq<char>, n: int)
    requires
        0 <= n < all.len(),
    ensures
        receipt_names(chain_of(all, start)).contains(all[n].receipt.receipt_id) <==> chained(
            all,
            start,
            all[n].receipt.receipt_id,
        ),
{
    let chain = chain_of(all, start);
    let names = receipt_names(chain);
    let p = in_chain(all, start);
    let x = all[n].receipt.receipt_id;
    if chained(all, start, x) {
        assert(p(all[n]));
        assert(all.contains(all[n]));
        assert(chain.contains(all[n])) by {
            broadcast use vstd::seq_lib::group_filter_ensures;

        }
        let k = choose|k: int| 0 <= k < chain.len() && chain[k] == all[n];
        assert(names[k] == x);
    }
    if names.contains(x) {
        let k = choose|k: int| 0 <= k < names.len() && names[k] == x;
        assert(p(chain[k])) by {
            broadcast use vstd::seq_lib::group_filter_ensures;

        }
    }
}

proof fn lemma_joined(a: Seq<Seq<char>>, b: Seq<Seq<char>>, x: Seq<char>)
    ensures
        (a + b).contains(x) <==> a.contains(x) || b.contains(x),
{
    let s = a + b;
    if a.contains(x) {
        let k = choose|k: int| 0 <= k < a.len() && a[k] == x;
        assert(s[k] == x);
    }
    if b.contains(x) {
        let k = choose|k: int| 0 <= k < b.len() && b[k] == x;
        assert(s[a.len() + k] == x);
    }
    if s.contains(x) {
        let k = choose|k: int| 0 <= k < s.len() && s[k] == x;
        if k < a.len() {
            assert(a[k] == x);
        } else {
            assert(b[k - a.len()] == x);
        }
    }
}

proof fn lemma_reached_more(all: Seq<StoredReceiptView>, i: int, x: Seq<char>)
    requires
        0 <= i < all.len(),
    ensures
        reached(all, i + 1, x) <==> reached(all, i, x) || chained(all, all[i].receipt.receipt_id, x),
{
    if chained(all, all[i].receipt.receipt_id, x) {
        assert(0 <= i < i + 1 && chained(all, all[i].receipt.receipt_id, x));
    }
    if reached(all, i, x) {
        let j = choose|j: int| 0 <= j < i && chained(all, (#[trigger] all[j]).receipt.receipt_id, x);
        assert(0 <= j < i + 1 && chained(all, all[j].receipt.receipt_id, x));
    }
}

proof fn lemma_visited(all: Seq<StoredReceiptView>, i: int, seen: Seq<Seq<char>>)
    requires
        0 <= i < all.len(),
        marks(all, i, seen),
    ensures
        marks(all, i + 1, seen + receipt_names(chain_of(all, all[i].receipt.receipt_id))),
{
    let id = all[i].receipt.receipt_id;
    let more = receipt_names(chain_of(all, id));
    assert forall|n: int| 0 <= n < all.len() implies ((seen + more).contains((#[trigger] all[n]).receipt.receipt_id)
        <==> reached(all, i + 1, all[n].receipt.receipt_id)) by {
        let x = all[n].receipt.receipt_id;
        lemma_chain_names(all, id, n);
        lemma_joined(seen, more, x);
        lemma_reached_more(all, i, x);
    }
}

proof fn lemma_already_visited(all: Seq<StoredReceiptView>, i: int, seen: Seq<Seq<char>>)
    requires
        0 <= i < all.len(),
        marks(all, i, seen),
        seen.contains(all[i].receipt.receipt_id),
    ensures
        marks(all, i + 1, seen),
{
    let id = all[i].receipt.receipt_id;
    assert(reached(all, i, id));
    let first = choose|j: int| 0 <= j < i && chained(all, (#[trigger] all[j]).receipt.receipt_id, id);
    assert forall|n: int| 0 <= n < all.len() implies (seen.contains((#[trigger] all[n]).receipt.receipt_id)
        <==> reached(all, i + 1, all[n].receipt.receipt_id)) by {
        let x = all[n].receipt.receipt_id;
        lemma_reached_more(all, i, x);
        if chained(all, id, x) {
            law_chains_go_on(all, all[first].receipt.receipt_id, id, x);
            assert(0 <= first < i && chained(all, all[first].receipt.receipt_id, x));
        }
    }
}

/// The names of the receipts that can go, chain by chain.
pub fn expired_receipt_ids(receipts: &Vec<StoredReceipt>, now: i64) -> (r: Vec<String>)
    ensures
        views(r@) == expired_names(views(receipts@), receipts@.len() as int, now),
{
    let ghost all = views(receipts@);
    let mut visited: Vec<String> = Vec::new();
    let mut r: Vec<String> = Vec::new();
    let mut i: usize = 0;
    assert(views(r@) =~= Seq::<Seq<char>>::empty());
    assert(views(visited@) =~= Seq::<Seq<char>>::empty());
    while i < receipts.len()
        invariant
            i <= receipts@.len(),
            all == views(receipts@),
            views(r@) == expired_names(all, i as int, now),
            marks(all, i as int, views(visited@)),
        decreases receipts.len() - i,
    {
        let id: &String = &receipts[i].receipt.receipt_id;
        assert(all[i as int].receipt.receipt_id == id@);
        assert(chained_to_earlier(all, i as int) == reached(all, i as int, id@));
        let ghost seen = views(visited@);
        if !contains_string(&visited, id.as_str()) {
            let chain: Vec<&StoredReceipt> = receipt_chain(receipts, id.as_str());
            push_names(&mut visited, &chain);
            proof {
                lemma_visited(all, i as int, seen);
            }
            if chain_expired(&chain, now) && !receipt_chain_protected(&chain) {
                push_names(&mut r, &chain);
            }
        } else {
            proof {
                lemma_already_visited(all, i as int, seen);
            }
        }
        i += 1;
    }
    r
}

/// A receipt is among those that can go exactly where its whole chain is past
/// its time and nothing in the chain has to be kept.
pub proof fn law_expired_receipts_are_disposable(receipts: Seq<StoredReceiptView>, now: i64, k: int)
    requires
        0 <= k < receipts.len(),
    ensures
        expired_names(receipts, receipts.len() as int, now).contains(receipts[k].receipt.receipt_id) <==> disposable(
            receipts,
            receipts[k].receipt.receipt_id,
            now,
        ),
{
    lemma_expired(receipts, receipts.len() as int, now, k);
    law_chain_holds_its_start(receipts, receipts[k].receipt.receipt_id);
    assert(reached(receipts, receipts.len() as int, receipts[k].receipt.receipt_id));
}

proof fn lemma_expired(receipts: Seq<StoredReceiptView>, n: int, now: i64, k: int)
    requires
        0 <= n <= receipts.len(),
        0 <= k < receipts.len(),
    ensures
        expired_names(receipts, n, now).contains(receipts[k].receipt.receipt_id) <==> disposable(
            receipts,
            receipts[k].receipt.receipt_id,
            now,
        ) && reached(receipts, n, receipts[k].receipt.receipt_id),
    decreases n,
{
    let id = receipts[k].receipt.receipt_id;
    if n > 0 {
        let m = receipts[n - 1].receipt.receipt_id;
        let earlier = expired_names(receipts, n - 1, now);
        lemma_expired(receipts, n - 1, now, k);
        lemma_reached_more(receipts, n - 1, id);
        lemma_chain_names(receipts, m, k);
        lemma_joined(earlier, receipt_names(chain_of(receipts, m)), id);
        assert(chained_to_earlier(receipts, n - 1) == reached(receipts, n - 1, m));
        if chained(receipts, m, id) {
            law_one_chain(receipts, m, id);
            if reached(receipts, n - 1, m) {
                let j = choose|j: int|
                    0 <= j < n - 1 && chained(receipts, (#[trigger] receipts[j]).receipt.receipt_id, m);
                law_chains_go_on(receipts, receipts[j].receipt.receipt_id, m, id);
                assert(0 <= j < n - 1 && chained(receipts, receipts[j].receipt.receipt_id, id));
            }
        }
    }
}

} // verus!
