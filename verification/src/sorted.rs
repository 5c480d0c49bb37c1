//! A map kept as a vector of entries in ascending key order.

use vstd::prelude::*;

use crate::order::{Key, Order};

verus! {

/// Whether the keys ascend strictly.
pub open spec fn ascending<K: Key>(keys: Seq<K::V>) -> bool {
    forall|i: int, j: int| 0 <= i < j < keys.len() ==> K::precedes(#[trigger] keys[i], #[trigger] keys[j])
}

/// Whether `keys` lists the keys of `domain`, each once, in ascending order.
pub open spec fn lists_keys<K: Key>(keys: Seq<K::V>, domain: Set<K::V>) -> bool {
    &&& ascending::<K>(keys)
    &&& forall|k: K::V| #[trigger] domain.contains(k) <==> keys.contains(k)
}

/// The keys of `domain` in ascending order.
pub open spec fn listing<K: Key>(domain: Set<K::V>) -> Seq<K::V> {
    choose|keys: Seq<K::V>| lists_keys::<K>(keys, domain)
}

/// Only one list holds the keys of a domain in ascending order.
pub proof fn lemma_listing_unique<K: Key>(a: Seq<K::V>, b: Seq<K::V>, domain: Set<K::V>)
    requires
        lists_keys::<K>(a, domain),
        lists_keys::<K>(b, domain),
    ensures
        a == b,
    decreases a.len(),
{
    if a.len() == 0 {
        if b.len() > 0 {
            assert(b.contains(b[0]));
            assert(domain.contains(b[0]));
        }
        assert(a =~= b);
    } else {
        let m = a.last();
        assert(a.contains(m));
        assert(domain.contains(m));
        let j = b.index_of(m);
        assert(b[j] == m);
        let n = b.last();
        assert(b.contains(n));
        assert(domain.contains(n));
        let i = a.index_of(n);
        assert(a[i] == n);
        if m != n {
            assert(K::precedes(m, n));
            assert(K::precedes(n, m));
            K::precedes_transitive(m, n, m);
            K::precedes_irreflexive(m);
        }
        let rest = domain.remove(m);
        let a1 = a.drop_last();
        let b1 = b.drop_last();
        assert forall|k: K::V| #[trigger] rest.contains(k) <==> a1.contains(k) by {
            if rest.contains(k) {
                assert(domain.contains(k));
                let x = a.index_of(k);
                assert(a[x] == k);
                assert(a1[x] == k);
            }
            if a1.contains(k) {
                let x = a1.index_of(k);
                assert(a1[x] == k && a[x] == k);
                assert(a.contains(k));
                assert(domain.contains(k));
                K::precedes_irreflexive(m);
            }
        }
        assert forall|k: K::V| #[trigger] rest.contains(k) <==> b1.contains(k) by {
            if rest.contains(k) {
                assert(domain.contains(k));
                let x = b.index_of(k);
                assert(b[x] == k);
                assert(b1[x] == k);
            }
            if b1.contains(k) {
                let x = b1.index_of(k);
                assert(b1[x] == k && b[x] == k);
                assert(b.contains(k));
                assert(domain.contains(k));
                K::precedes_irreflexive(m);
            }
        }
        lemma_listing_unique::<K>(a1, b1, rest);
        assert(a =~= a1.push(m));
        assert(b =~= b1.push(m));
    }
}

/// The first place in ascending keys that does not come before `key`.
spec fn place_in<K: Key>(keys: Seq<K::V>, key: K::V) -> int
    decreases keys.len(),
{
    if keys.len() == 0 || !K::precedes(keys[0], key) {
        0
    } else {
        1 + place_in::<K>(keys.drop_first(), key)
    }
}

proof fn lemma_place_in<K: Key>(keys: Seq<K::V>, key: K::V)
    requires
        ascending::<K>(keys),
        !keys.contains(key),
    ensures
        0 <= place_in::<K>(keys, key) <= keys.len(),
        forall|i: int| 0 <= i < place_in::<K>(keys, key) ==> K::precedes(#[trigger] keys[i], key),
        forall|i: int| place_in::<K>(keys, key) <= i < keys.len() ==> K::precedes(key, #[trigger] keys[i]),
    decreases keys.len(),
{
    if keys.len() > 0 {
        assert(keys.contains(keys[0]));
        K::precedes_total(keys[0], key);
        if K::precedes(keys[0], key) {
            let rest = keys.drop_first();
            assert(!rest.contains(key)) by {
                if rest.contains(key) {
                    let i = rest.index_of(key);
                    assert(keys[i + 1] == key);
                }
            }
            lemma_place_in::<K>(rest, key);
            let p = place_in::<K>(rest, key);
            assert forall|i: int| 0 <= i < p + 1 implies K::precedes(#[trigger] keys[i], key) by {
                if i > 0 {
                    assert(rest[i - 1] == keys[i]);
                }
            }
            assert forall|i: int| p + 1 <= i < keys.len() implies K::precedes(key, #[trigger] keys[i]) by {
                assert(rest[i - 1] == keys[i]);
            }
        } else {
            assert forall|i: int| 0 <= i < keys.len() implies K::precedes(key, #[trigger] keys[i]) by {
                if i > 0 {
                    K::precedes_transitive(key, keys[0], keys[i]);
                }
            }
        }
    }
}

/// The keys of a finite domain can be listed.
pub proof fn lemma_listing_exists<K: Key>(domain: Set<K::V>)
    requires
        domain.finite(),
    ensures
        lists_keys::<K>(listing::<K>(domain), domain),
    decreases domain.len(),
{
    if domain.len() == 0 {
        let none = Seq::<K::V>::empty();
        assert(domain =~= Set::empty());
        assert(lists_keys::<K>(none, domain));
    } else {
        let a = domain.choose();
        let rest = domain.remove(a);
        lemma_listing_exists::<K>(rest);
        let keys = listing::<K>(rest);
        assert(!keys.contains(a)) by {
            assert(!rest.contains(a));
        }
        lemma_place_in::<K>(keys, a);
        let p = place_in::<K>(keys, a);
        let more = keys.insert(p, a);
        assert forall|i: int, j: int| 0 <= i < j < more.len() implies K::precedes(#[trigger] more[i], #[trigger] more[j]) by {
            let x = if i < p { i } else { i - 1 };
            let y = if j < p { j } else { j - 1 };
            if i != p {
                assert(more[i] == keys[x]);
            }
            if j != p {
                assert(more[j] == keys[y]);
            }
        }
        assert forall|k: K::V| #[trigger] domain.contains(k) <==> more.contains(k) by {
            if domain.contains(k) {
                if k == a {
                    assert(more[p] == k);
                } else {
                    assert(rest.contains(k));
                    let x = keys.index_of(k);
                    assert(keys[x] == k);
                    if x < p {
                        assert(more[x] == k);
                    } else {
                        assert(more[x + 1] == k);
                    }
                }
            }
            if more.contains(k) {
                let x = more.index_of(k);
                assert(more[x] == k);
                if x != p {
                    let y = if x < p { x } else { x - 1 };
                    assert(keys[y] == k);
                    assert(keys.contains(k));
                    assert(rest.contains(k));
                }
            }
        }
        assert(lists_keys::<K>(more, domain));
    }
}

/// A map from keys to values. Its view is a mathematical map.
pub struct SortedMap<K: Key, T: View> {
    entries: Vec<(K, T)>,
}

impl<K: Key, T: View> SortedMap<K, T> {
    /// The keys in the order in which they are stored.
    pub closed spec fn keys(&self) -> Seq<K::V> {
        Seq::new(self.entries@.len(), |i: int| self.entries@[i].0@)
    }

    /// The values in the order of their keys.
    pub closed spec fn values(&self) -> Seq<T::V> {
        Seq::new(self.entries@.len(), |i: int| self.entries@[i].1@)
    }

    #[verifier::type_invariant]
    closed spec fn sorted(&self) -> bool {
        ascending::<K>(self.keys())
    }
}

impl<K: Key, T: View> View for SortedMap<K, T> {
    type V = Map<K::V, T::V>;

    closed spec fn view(&self) -> Map<K::V, T::V> {
        Map::new(
            |k: K::V| self.keys().contains(k),
            |k: K::V| self.values()[self.keys().index_of(k)],
        )
    }
}

impl<K: Key, T: View> SortedMap<K, T> {
    proof fn lemma_entry(&self, i: int)
        requires
            self.sorted(),
            0 <= i < self.entries@.len(),
        ensures
            self@.dom().contains(self.entries@[i].0@),
            self@[self.entries@[i].0@] == self.entries@[i].1@,
    {
        let k = self.keys()[i];
        assert(self.keys().contains(k));
        let j = self.keys().index_of(k);
        assert(self.keys()[j] == k);
        if i < j {
            K::precedes_irreflexive(k);
        } else if j < i {
            K::precedes_irreflexive(k);
        }
    }

    /// The map without entries.
    pub fn new() -> (r: Self)
        ensures
            r@ == Map::<K::V, T::V>::empty(),
            r.keys() == Seq::<K::V>::empty(),
            r.values() == Seq::<T::V>::empty(),
    {
        let r = SortedMap { entries: Vec::new() };
        assert(r@ =~= Map::<K::V, T::V>::empty());
        r
    }

    /// The keys list the domain, and each value stands at its key's place.
    pub open spec fn listed(&self) -> bool {
        &&& lists_keys::<K>(self.keys(), self@.dom())
        &&& self.values().len() == self.keys().len()
        &&& forall|i: int| 0 <= i < self.keys().len() ==> self@.dom().contains(#[trigger] self.keys()[i])
            && self@[self.keys()[i]] == self.values()[i]
    }

    /// The number of entries.
    pub fn len(&self) -> (r: usize)
        ensures
            r == self.keys().len(),
            self.listed(),
            self.keys() == listing::<K>(self@.dom()),
    {
        proof {
            use_type_invariant(self);
            assert forall|i: int| 0 <= i < self.keys().len() implies self@.dom().contains(#[trigger] self.keys()[i])
                && self@[self.keys()[i]] == self.values()[i] by {
                self.lemma_entry(i);
            }
            assert(lists_keys::<K>(self.keys(), self@.dom()));
            lemma_listing_unique::<K>(self.keys(), listing::<K>(self@.dom()), self@.dom());
        }
        self.entries.len()
    }

    /// The key at place `i`.
    pub fn key_at(&self, i: usize) -> (r: &K)
        requires
            i < self.keys().len(),
        ensures
            r@ == self.keys()[i as int],
            self@.dom().contains(r@),
    {
        proof {
            use_type_invariant(self);
            self.lemma_entry(i as int);
        }
        &self.entries[i].0
    }

    /// The value at place `i`.
    pub fn value_at(&self, i: usize) -> (r: &T)
        requires
            i < self.keys().len(),
        ensures
            r@ == self.values()[i as int],
            r@ == self@[self.keys()[i as int]],
    {
        proof {
            use_type_invariant(self);
            self.lemma_entry(i as int);
        }
        &self.entries[i].1
    }

    /// The first place whose key does not come before `key`.
    fn place(&self, key: &K) -> (r: usize)
        ensures
            r <= self.entries@.len(),
            forall|i: int| 0 <= i < r ==> K::precedes(#[trigger] self.keys()[i], key@),
            r < self.entries@.len() ==> !K::precedes(self.keys()[r as int], key@),
    {
        let mut i: usize = 0;
        while i < self.entries.len()
            invariant
                i <= self.entries@.len(),
                forall|j: int| 0 <= j < i ==> K::precedes(#[trigger] self.keys()[j], key@),
            decreases self.entries.len() - i,
        {
            match self.entries[i].0.order(key) {
                Order::Less => {
                    assert(K::precedes(self.keys()[i as int], key@));
                    i += 1;
                },
                Order::Same => {
                    proof { K::precedes_irreflexive(key@); }
                    return i;
                },
                Order::Greater => {
                    proof {
                        if K::precedes(self.keys()[i as int], key@) {
                            K::precedes_transitive(key@, self.keys()[i as int], key@);
                            K::precedes_irreflexive(key@);
                        }
                    }
                    return i;
                },
            }
        }
        i
    }

    proof fn lemma_absent(&self, p: int, key: K::V)
        requires
            self.sorted(),
            0 <= p <= self.entries@.len(),
            forall|i: int| 0 <= i < p ==> K::precedes(#[trigger] self.keys()[i], key),
            p < self.entries@.len() ==> K::precedes(key, self.keys()[p]),
        ensures
            !self@.dom().contains(key),
            forall|i: int| p <= i < self.entries@.len() ==> K::precedes(key, #[trigger] self.keys()[i]),
    {
        assert forall|i: int| p <= i < self.entries@.len() implies K::precedes(key, #[trigger] self.keys()[i]) by {
            if p < i {
                K::precedes_transitive(key, self.keys()[p], self.keys()[i]);
            }
        }
        if self.keys().contains(key) {
            let i = self.keys().index_of(key);
            assert(self.keys()[i] == key);
            K::precedes_irreflexive(key);
        }
    }

    /// The value of `key`.
    pub fn get(&self, key: &K) -> (r: Option<&T>)
        ensures
            match r {
                Some(v) => self@.dom().contains(key@) && v@ == self@[key@],
                None => !self@.dom().contains(key@),
            },
    {
        let p: usize = self.place(key);
        proof { use_type_invariant(self); }
        if p < self.entries.len() {
            match self.entries[p].0.order(key) {
                Order::Same => {
                    proof { self.lemma_entry(p as int); }
                    return Some(&self.entries[p].1);
                },
                _ => {},
            }
        }
        proof {
            if p < self.entries@.len() {
                K::precedes_total(self.keys()[p as int], key@);
            }
            self.lemma_absent(p as int, key@);
        }
        None
    }

    /// Whether `key` has a value.
    pub fn contains_key(&self, key: &K) -> (r: bool)
        ensures
            r == self@.dom().contains(key@),
    {
        self.get(key).is_some()
    }

    /// Gives `key` the value `value`, in place of the one it may have.
    pub fn insert(&mut self, key: K, value: T)
        ensures
            final(self)@ == old(self)@.insert(key@, value@),
    {
        let p: usize = self.place(&key);
        proof { use_type_invariant(&*self); }
        let ghost before = *self;
        let ghost k = key@;
        let ghost v = value@;
        let mut entries: Vec<(K, T)> = Vec::new();
        std::mem::swap(&mut entries, &mut self.entries);
        let mut present: bool = false;
        if p < entries.len() {
            match entries[p].0.order(&key) {
                Order::Same => { present = true; },
                _ => {},
            }
        }
        if present {
            entries.set(p, (key, value));
            proof {
                assert(before.keys()[p as int] == k);
                let after = SortedMap::<K, T> { entries };
                assert(after.keys() =~= before.keys());
                assert(after.values() =~= before.values().update(p as int, v));
                assert(after@ =~= before@.insert(k, v)) by {
                    assert forall|x: K::V| #[trigger] before@.insert(k, v).dom().contains(x) implies after@[x] == before@.insert(k, v)[x] by {
                        let i = after.keys().index_of(x);
                        if x == k {
                            after.lemma_entry(p as int);
                        } else {
                            assert(after.keys().contains(x));
                            assert(after.keys()[i] == x);
                            assert(i != p);
                        }
                    }
                }
            }
        } else {
            proof {
                if p < before.entries@.len() {
                    K::precedes_total(before.keys()[p as int], k);
                }
                before.lemma_absent(p as int, k);
            }
            entries.insert(p, (key, value));
            proof {
                let after = SortedMap::<K, T> { entries };
                assert(after.keys() =~= before.keys().insert(p as int, k));
                assert(after.values() =~= before.values().insert(p as int, v));
                assert(after.sorted()) by {
                    assert forall|i: int, j: int| 0 <= i < j < after.keys().len() implies K::precedes(#[trigger] after.keys()[i], #[trigger] after.keys()[j]) by {
                        let a = if i < p { i } else { i - 1 };
                        let b = if j < p { j } else { j - 1 };
                        if i != p {
                            assert(after.keys()[i] == before.keys()[a]);
                        }
                        if j != p {
                            assert(after.keys()[j] == before.keys()[b]);
                        }
                    }
                }
                assert(after@ =~= before@.insert(k, v)) by {
                    assert forall|x: K::V| after@.dom().contains(x) <==> #[trigger] before@.insert(k, v).dom().contains(x) by {
                        if before.keys().contains(x) {
                            let i = before.keys().index_of(x);
                            assert(before.keys()[i] == x);
                            if i < p {
                                assert(after.keys()[i] == x);
                            } else {
                                assert(after.keys()[i + 1] == x);
                            }
                        }
                        if x == k {
                            assert(after.keys()[p as int] == x);
                        }
                        if after.keys().contains(x) {
                            let i = after.keys().index_of(x);
                            assert(after.keys()[i] == x);
                            if i < p {
                                assert(before.keys()[i] == x);
                            } else if i > p {
                                assert(before.keys()[i - 1] == x);
                            }
                        }
                    }
                    assert(after@.dom() =~= before@.insert(k, v).dom());
                    assert forall|x: K::V| #[trigger] before@.insert(k, v).dom().contains(x) implies after@[x] == before@.insert(k, v)[x] by {
                        if x == k {
                            after.lemma_entry(p as int);
                        } else {
                            let i = before.keys().index_of(x);
                            assert(before.keys().contains(x));
                            assert(before.keys()[i] == x);
                            before.lemma_entry(i);
                            if i < p {
                                after.lemma_entry(i);
                            } else {
                                after.lemma_entry(i + 1);
                            }
                        }
                    }
                }
            }
        }
        self.entries = entries;
    }

    /// Takes `key` out of the map.
    pub fn remove(&mut self, key: &K)
        ensures
            final(self)@ == old(self)@.remove(key@),
    {
        let p: usize = self.place(key);
        proof { use_type_invariant(&*self); }
        let ghost before = *self;
        let mut present: bool = false;
        if p < self.entries.len() {
            match self.entries[p].0.order(key) {
                Order::Same => { present = true; },
                _ => {},
            }
        }
        if !present {
            proof {
                if p < before.entries@.len() {
                    K::precedes_total(before.keys()[p as int], key@);
                }
                before.lemma_absent(p as int, key@);
                assert(self@ =~= self@.remove(key@));
            }
            return ;
        }
        let mut entries: Vec<(K, T)> = Vec::new();
        std::mem::swap(&mut entries, &mut self.entries);
        let _ = entries.remove(p);
        proof {
            let after = SortedMap::<K, T> { entries };
            assert(after.keys() =~= before.keys().remove(p as int));
            assert(after.values() =~= before.values().remove(p as int));
            assert(after.sorted()) by {
                assert forall|i: int, j: int| 0 <= i < j < after.keys().len() implies K::precedes(
                    #[trigger] after.keys()[i],
                    #[trigger] after.keys()[j],
                ) by {
                    let a = if i < p { i } else { i + 1 };
                    let b = if j < p { j } else { j + 1 };
                    assert(after.keys()[i] == before.keys()[a]);
                    assert(after.keys()[j] == before.keys()[b]);
                }
            }
            assert(after@ =~= before@.remove(key@)) by {
                assert forall|x: K::V| after@.dom().contains(x) <==> #[trigger] before@.remove(key@).dom().contains(
                    x,
                ) by {
                    if after.keys().contains(x) {
                        let i = after.keys().index_of(x);
                        let a = if i < p { i } else { i + 1 };
                        assert(after.keys()[i] == x);
                        assert(before.keys()[a] == x);
                        if x == key@ {
                            if a < p {
                                K::precedes_irreflexive(x);
                            } else {
                                K::precedes_irreflexive(x);
                            }
                        }
                    }
                    if before.keys().contains(x) && x != key@ {
                        let a = before.keys().index_of(x);
                        assert(before.keys()[a] == x);
                        let i = if a < p { a } else { a - 1 };
                        assert(after.keys()[i] == x);
                    }
                }
                assert(after@.dom() =~= before@.remove(key@).dom());
                assert forall|x: K::V| #[trigger] after@.dom().contains(x) implies after@[x] == before@.remove(key@)[x] by {
                    let i = after.keys().index_of(x);
                    assert(after.keys().contains(x));
                    assert(after.keys()[i] == x);
                    after.lemma_entry(i);
                    if i < p {
                        before.lemma_entry(i);
                    } else {
                        before.lemma_entry(i + 1);
                    }
                }
            }
        }
        self.entries = entries;
    }
}

/// A value of which there can be another with the same view.
pub trait Replica: View + Sized {
    /// A value with the same view.
    fn replica(&self) -> (r: Self)
        ensures
            r@ == self@,
    ;
}

impl Replica for String {
    fn replica(&self) -> (r: Self) {
        self.clone()
    }
}

impl Replica for () {
    fn replica(&self) -> (r: Self) {
    }
}

impl<K: Key, T: Replica> Replica for SortedMap<K, T> {
    fn replica(&self) -> (r: Self) {
        let n: usize = self.len();
        let ghost keys = self.keys();
        let ghost all = self@;
        let mut r: SortedMap<K, T> = SortedMap::new();
        let mut i: usize = 0;
        assert(all.restrict(keys.take(0).to_set()) =~= Map::empty());
        while i < n
            invariant
                i <= n,
                n == keys.len(),
                keys == self.keys(),
                all == self@,
                self.listed(),
                r@ == all.restrict(keys.take(i as int).to_set()),
            decreases n - i,
        {
            let k: K = self.key_at(i).duplicate();
            let v: T = self.value_at(i).replica();
            r.insert(k, v);
            proof {
                let now = keys.take(i as int).to_set();
                let later = keys.take(i + 1).to_set();
                assert forall|x: K::V| later.contains(x) <==> #[trigger] now.insert(keys[i as int]).contains(x) by {
                    if now.contains(x) {
                        let m = choose|m: int| 0 <= m < i && keys.take(i as int)[m] == x;
                        assert(keys.take(i + 1)[m] == x);
                    }
                    if x == keys[i as int] {
                        assert(keys.take(i + 1)[i as int] == x);
                    }
                    if later.contains(x) && x != keys[i as int] {
                        let more = keys.take(i + 1);
                        let m = choose|m: int| 0 <= m < more.len() && more[m] == x;
                        assert(keys.take(i as int)[m] == x);
                    }
                }
                assert(later =~= now.insert(keys[i as int]));
                assert(r@ =~= all.restrict(later));
            }
            i += 1;
        }
        proof {
            assert(keys.take(i as int) =~= keys);
            assert forall|x: K::V| #[trigger] all.dom().contains(x) implies keys.to_set().contains(x) by {
                assert(keys.contains(x));
            }
            assert(r@ =~= all);
        }
        r
    }
}

} // verus!
