//! Pruning named records.

use vstd::prelude::*;

use crate::chains::{chain_of, protected, receipt_chain, receipt_chain_protected};
use crate::failure::{ContractFailure, FailureView, failed, failure};
use crate::json::{Json, JsonView, array_view, object1, object3, text_value};
use crate::order::Key;
use crate::records::{StoredReceipt, StoredReceiptView};
use crate::sorted::{SortedMap, listing};
use crate::state::{Change, ChangeView, MutationStateStore, Removal, StoreView, receipts_read};
use crate::store::{drop_file, find_file, place_of, removed};
use crate::text::{same, starts_with, views};

verus! {

/// Which file a name stands for.
#[derive(Clone, Copy, Debug, PartialEq, Eq, Structural)]
pub enum Target {
    Preview,
    Receipt,
}

impl View for Target {
    type V = Target;

    open spec fn view(&self) -> Target {
        *self
    }
}

/// What is known of a pruning so far.
#[verifier::ext_equal]
pub ghost struct Pruning {
    pub store: StoreView,
    /// What is to be removed.
    pub chosen: Map<Seq<char>, Target>,
    pub problems: Seq<JsonView>,
}

/// Why a name cannot be pruned.
pub open spec fn prune_problem(id: Seq<char>, code: Seq<char>, message: Seq<char>) -> JsonView {
    JsonView::Object(
        seq![
            ("code"@, JsonView::Text(code)),
            ("id"@, JsonView::Text(id)),
            ("message"@, JsonView::Text(message)),
        ],
    )
}

/// Why a name that stands for nothing cannot be pruned.
pub open spec fn unknown_name(id: Seq<char>) -> JsonView {
    prune_problem(id, "unknown"@, "The state identifier is unknown."@)
}

/// Whether some receipt has a name.
pub open spec fn has_receipt(receipts: Seq<StoredReceiptView>, id: Seq<char>) -> bool {
    exists|i: int| 0 <= i < receipts.len() && (#[trigger] receipts[i]).receipt.receipt_id == id
}

/// The receipts of a chain, added to what is to be removed.
pub open spec fn with_chain(chosen: Map<Seq<char>, Target>, chain: Seq<StoredReceiptView>) -> Map<Seq<char>, Target>
    decreases chain.len(),
{
    if chain.len() == 0 {
        chosen
    } else {
        with_chain(chosen, chain.drop_last()).insert(chain.last().receipt.receipt_id, Target::Receipt)
    }
}

impl Pruning {
    /// One problem more.
    pub open spec fn with_problem(self, problem: JsonView) -> Pruning {
        Pruning { problems: self.problems.push(problem), ..self }
    }

    /// One preview more.
    pub open spec fn with_preview(self, id: Seq<char>, now: i64) -> Pruning {
        let (store, read) = self.store.asked_preview(id, now);
        let next = Pruning { store, ..self };
        match read {
            Err(_) => next.with_problem(unknown_name(id)),
            Ok(p) => if p.preview.reserved {
                next.with_problem(prune_problem(id, "protected"@, "A reserved Preview is protected."@))
            } else {
                Pruning { chosen: next.chosen.insert(id, Target::Preview), ..next }
            },
        }
    }

    /// One chain of receipts more.
    pub open spec fn with_receipts(self, receipts: Seq<StoredReceiptView>, id: Seq<char>) -> Pruning {
        if !has_receipt(receipts, id) {
            self.with_problem(unknown_name(id))
        } else if protected(chain_of(receipts, id)) {
            self.with_problem(
                prune_problem(
                    id,
                    "protected"@,
                    "A nonterminal or cleanup-pending Receipt chain is protected."@,
                ),
            )
        } else {
            Pruning { chosen: with_chain(self.chosen, chain_of(receipts, id)), ..self }
        }
    }

    /// One name more.
    pub open spec fn with_name(self, receipts: Seq<StoredReceiptView>, id: Seq<char>, now: i64) -> Pruning {
        if "prv_"@.is_prefix_of(id) && place_of(self.store.previews, id) is Some {
            self.with_preview(id, now)
        } else if "prv_"@.is_prefix_of(id) || "rcp_"@.is_prefix_of(id) {
            self.with_receipts(receipts, id)
        } else if "txn_"@.is_prefix_of(id) && place_of(self.store.transactions, id) is Some {
            self.with_problem(prune_problem(id, "protected"@, "Recovery transaction evidence is protected."@))
        } else {
            self.with_problem(unknown_name(id))
        }
    }

    /// Some names more.
    pub open spec fn with_names(self, receipts: Seq<StoredReceiptView>, ids: Seq<Seq<char>>, now: i64) -> Pruning
        decreases ids.len(),
    {
        if ids.len() == 0 {
            self
        } else {
            self.with_names(receipts, ids.drop_last(), now).with_name(receipts, ids.last(), now)
        }
    }
}

/// The failure of a pruning that would not be safe.
pub open spec fn rejected(problems: Seq<JsonView>) -> FailureView {
    failed(
        3,
        "blocked"@,
        "state_prune_rejected"@,
        "The requested state prune is not safe."@,
        "prune"@,
        "not_applicable"@,
        "after_change"@,
        JsonView::Object(seq![("problems"@, JsonView::Array(problems))]),
    )
}

impl StoreView {
    /// The state once a record is pruned.
    pub open spec fn without_target(self, id: Seq<char>, target: Target) -> StoreView {
        match target {
            Target::Preview => StoreView { previews: removed(self.previews, id), ..self }.noting(
                ChangeView::RemovePreview(id, Removal::Pruned),
            ),
            Target::Receipt => StoreView { receipts: removed(self.receipts, id), ..self }.noting(
                ChangeView::RemoveReceipt(id, Removal::Pruned),
            ),
        }
    }

    /// The state once records are pruned.
    pub open spec fn without_targets(self, ids: Seq<Seq<char>>, chosen: Map<Seq<char>, Target>) -> StoreView
        decreases ids.len(),
    {
        if ids.len() == 0 {
            self
        } else {
            self.without_targets(ids.drop_last(), chosen).without_target(ids.last(), chosen[ids.last()])
        }
    }

    /// What pruning named records comes to. Without names it is what is past its
    /// time that goes.
    pub open spec fn pruned(self, ids: Seq<Seq<char>>, now: i64) -> (StoreView, Result<Seq<Seq<char>>, FailureView>) {
        if ids.len() == 0 {
            self.swept(now)
        } else {
            match receipts_read(self.root, self.receipts) {
                Err(f) => (self, Err(f)),
                Ok(receipts) => {
                    let p = Pruning { store: self, chosen: Map::empty(), problems: Seq::empty() }.with_names(
                        receipts,
                        ids,
                        now,
                    );
                    if p.problems.len() > 0 {
                        (p.store, Err(rejected(p.problems)))
                    } else {
                        let names = listing::<String>(p.chosen.dom());
                        (p.store.without_targets(names, p.chosen), Ok(names))
                    }
                },
            }
        }
    }
}

fn problem_value(id: &str, code: &str, message: &str) -> (r: Json)
    ensures
        r@ == prune_problem(id@, code@, message@),
{
    object3("code", text_value(code), "id", text_value(id), "message", text_value(message))
}

fn unknown_value(id: &str) -> (r: Json)
    ensures
        r@ == unknown_name(id@),
{
    problem_value(id, "unknown", "The state identifier is unknown.")
}

fn receipt_exists(receipts: &Vec<StoredReceipt>, id: &str) -> (r: bool)
    ensures
        r == has_receipt(views(receipts@), id@),
{
    let ghost all = views(receipts@);
    let mut i: usize = 0;
    while i < receipts.len()
        invariant
            i <= receipts@.len(),
            all == views(receipts@),
            forall|j: int| 0 <= j < i ==> (#[trigger] all[j]).receipt.receipt_id != id@,
        decreases receipts.len() - i,
    {
        assert(all[i as int].receipt.receipt_id == receipts@[i as int].receipt.receipt_id@);
        if same(receipts[i].receipt.receipt_id.as_str(), id) {
            return true;
        }
        i += 1;
    }
    false
}

fn choose_chain(chosen: &mut SortedMap<String, Target>, chain: &Vec<&StoredReceipt>)
    ensures
        final(chosen)@ == with_chain(old(chosen)@, views(chain@)),
{
    let ghost all = views(chain@);
    let ghost start = chosen@;
    let mut i: usize = 0;
    assert(all.take(0) =~= Seq::<StoredReceiptView>::empty());
    while i < chain.len()
        invariant
            i <= chain@.len(),
            all == views(chain@),
            chosen@ == with_chain(start, all.take(i as int)),
        decreases chain.len() - i,
    {
        proof {
            assert(all.take(i + 1).drop_last() =~= all.take(i as int));
            assert(all.take(i + 1).last() == all[i as int]);
            assert(all[i as int] == chain@[i as int]@);
        }
        chosen.insert(chain[i].receipt.receipt_id.clone(), Target::Receipt);
        i += 1;
    }
    assert(all.take(i as int) =~= all);
}

impl MutationStateStore {
    fn prune_name(
        &mut self,
        receipts: &Vec<StoredReceipt>,
        chosen: &mut SortedMap<String, Target>,
        problems: &mut Vec<Json>,
        id: &str,
        now: i64,
    )
        ensures
            (Pruning {
                store: final(self)@,
                chosen: final(chosen)@,
                problems: array_view(final(problems)@),
            }) == (Pruning { store: old(self)@, chosen: old(chosen)@, problems: array_view(old(problems)@) }).with_name(
                views(receipts@),
                id@,
                now,
            ),
    {
        let ghost before = array_view(problems@);
        if starts_with(id, "prv_") && find_file(&self.previews, id).is_some() {
            match self.read_preview(id, now) {
                Ok(p) => {
                    if p.preview.reserved {
                        let v: Json = problem_value(id, "protected", "A reserved Preview is protected.");
                        problems.push(v);
                        assert(array_view(problems@) =~= before.push(v@));
                    } else {
                        chosen.insert(id.to_owned(), Target::Preview);
                    }
                },
                Err(_) => {
                    let v: Json = unknown_value(id);
                    problems.push(v);
                    assert(array_view(problems@) =~= before.push(v@));
                },
            }
        } else if starts_with(id, "prv_") || starts_with(id, "rcp_") {
            if !receipt_exists(receipts, id) {
                let v: Json = unknown_value(id);
                problems.push(v);
                assert(array_view(problems@) =~= before.push(v@));
            } else {
                let chain: Vec<&StoredReceipt> = receipt_chain(receipts, id);
                if receipt_chain_protected(&chain) {
                    let v: Json = problem_value(
                        id,
                        "protected",
                        "A nonterminal or cleanup-pending Receipt chain is protected.",
                    );
                    problems.push(v);
                    assert(array_view(problems@) =~= before.push(v@));
                } else {
                    choose_chain(chosen, &chain);
                }
            }
        } else if starts_with(id, "txn_") && find_file(&self.transactions, id).is_some() {
            let v: Json = problem_value(id, "protected", "Recovery transaction evidence is protected.");
            problems.push(v);
            assert(array_view(problems@) =~= before.push(v@));
        } else {
            let v: Json = unknown_value(id);
            problems.push(v);
            assert(array_view(problems@) =~= before.push(v@));
        }
    }

    fn remove_target(&mut self, id: &str, target: Target)
        ensures
            final(self)@ == old(self)@.without_target(id@, target),
    {
        match target {
            Target::Preview => {
                drop_file(&mut self.previews, id);
                self.note(Change::RemovePreview(id.to_owned(), Removal::Pruned));
            },
            Target::Receipt => {
                drop_file(&mut self.receipts, id);
                self.note(Change::RemoveReceipt(id.to_owned(), Removal::Pruned));
            },
        }
    }

    /// Prunes named records, all of them or none. Without names it prunes what
    /// is past its time.
    pub fn prune_state(&mut self, requested_ids: &Vec<String>, now: i64) -> (r: Result<Vec<String>, ContractFailure>)
        ensures
            final(self)@ == old(self)@.pruned(views(requested_ids@), now).0,
            match r {
                Ok(names) => old(self)@.pruned(views(requested_ids@), now).1 == Ok::<Seq<Seq<char>>, FailureView>(
                    views(names@),
                ),
                Err(f) => old(self)@.pruned(views(requested_ids@), now).1 == Err::<Seq<Seq<char>>, FailureView>(f@),
            },
    {
        if requested_ids.len() == 0 {
            return self.prune_expired_records(now);
        }
        let receipts: Vec<StoredReceipt> = match self.read_all_receipts() {
            Ok(receipts) => receipts,
            Err(f) => {
                return Err(f);
            },
        };
        let ghost start = self@;
        let ghost list = views(receipts@);
        let ghost ids = views(requested_ids@);
        let ghost first = Pruning { store: start, chosen: Map::empty(), problems: Seq::empty() };
        let mut chosen: SortedMap<String, Target> = SortedMap::new();
        let mut problems: Vec<Json> = Vec::new();
        let mut i: usize = 0;
        proof {
            assert(array_view(problems@) =~= Seq::<JsonView>::empty());
            assert(ids.take(0) =~= Seq::<Seq<char>>::empty());
        }
        while i < requested_ids.len()
            invariant
                i <= requested_ids@.len(),
                ids == views(requested_ids@),
                list == views(receipts@),
                (Pruning { store: self@, chosen: chosen@, problems: array_view(problems@) }) == first.with_names(
                    list,
                    ids.take(i as int),
                    now,
                ),
            decreases requested_ids.len() - i,
        {
            proof {
                assert(ids.take(i + 1).drop_last() =~= ids.take(i as int));
                assert(ids.take(i + 1).last() == requested_ids@[i as int]@);
            }
            self.prune_name(&receipts, &mut chosen, &mut problems, requested_ids[i].as_str(), now);
            i += 1;
        }
        assert(ids.take(i as int) =~= ids);
        if problems.len() > 0 {
            return Err(
                failure(
                    3,
                    "blocked",
                    "state_prune_rejected",
                    "The requested state prune is not safe.",
                    "prune",
                    "not_applicable",
                    "after_change",
                    object1("problems", Json::Array(problems)),
                ),
            );
        }
        let ghost p = first.with_names(list, ids, now);
        let n: usize = chosen.len();
        let ghost names = chosen.keys();
        let mut removed_names: Vec<String> = Vec::new();
        let mut k: usize = 0;
        assert(views(removed_names@) =~= names.take(0));
        while k < n
            invariant
                k <= n,
                n == names.len(),
                names == chosen.keys(),
                chosen.listed(),
                chosen@ == p.chosen,
                self@ == p.store.without_targets(names.take(k as int), p.chosen),
                views(removed_names@) == names.take(k as int),
            decreases n - k,
        {
            proof {
                assert(names.take(k + 1).drop_last() =~= names.take(k as int));
                assert(names.take(k + 1).last() == names[k as int]);
            }
            let name: String = chosen.key_at(k).clone();
            let target: Target = *chosen.value_at(k);
            self.remove_target(name.as_str(), target);
            removed_names.push(name);
            assert(views(removed_names@) =~= names.take(k + 1));
            k += 1;
        }
        assert(names.take(k as int) =~= names);
        Ok(removed_names)
    }
}

} // verus!
