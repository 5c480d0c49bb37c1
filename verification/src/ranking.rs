//! Sorting, with equals left in their order.

use vstd::prelude::*;

use crate::order::{
    lemma_text_irreflexive,
    lemma_text_total,
    lemma_text_transitive,
    text_order,
    text_precedes,
    Order,
};
use crate::text::views;

verus! {

/// A value that has a place among others.
pub trait Ranked: View + Sized {
    /// Whether one value comes before another.
    spec fn before(a: Self::V, b: Self::V) -> bool;

    /// What does not come before what does not come before a third, does not
    /// come before the third.
    proof fn lemma_not_before(a: Self::V, b: Self::V, c: Self::V)
        requires
            !Self::before(b, a),
            !Self::before(c, b),
        ensures
            !Self::before(c, a),
    ;

    /// Of two values at most one comes before the other.
    proof fn lemma_one_way(a: Self::V, b: Self::V)
        requires
            Self::before(a, b),
        ensures
            !Self::before(b, a),
    ;

    /// Whether this value comes before another.
    fn comes_before(&self, other: &Self) -> (r: bool)
        ensures
            r == Self::before(self@, other@),
    ;
}

/// A sorted row with one more value, behind its equals.
pub open spec fn ranked_with<T: Ranked>(s: Seq<T::V>, x: T::V) -> Seq<T::V>
    decreases s.len(),
{
    if s.len() > 0 && T::before(x, s.last()) {
        ranked_with::<T>(s.drop_last(), x).push(s.last())
    } else {
        s.push(x)
    }
}

/// A row in order.
pub open spec fn ranked<T: Ranked>(s: Seq<T::V>) -> Seq<T::V>
    decreases s.len(),
{
    if s.len() == 0 {
        Seq::empty()
    } else {
        ranked_with::<T>(ranked::<T>(s.drop_last()), s.last())
    }
}

/// Puts a value into a sorted row, behind its equals.
pub fn insert_ranked<T: Ranked>(list: &mut Vec<T>, x: T)
    ensures
        views(final(list)@) == ranked_with::<T>(views(old(list)@), x@),
{
    let ghost all = views(list@);
    let mut i: usize = list.len();
    let mut done: bool = false;
    proof {
        assert(all.take(i as int) =~= all);
        assert(ranked_with::<T>(all, x@) + all.skip(i as int) =~= ranked_with::<T>(all, x@));
    }
    while i > 0 && !done
        invariant
            i <= list@.len(),
            all == views(list@),
            ranked_with::<T>(all, x@) == ranked_with::<T>(all.take(i as int), x@) + all.skip(i as int),
            done ==> i > 0 && !T::before(x@, all[i - 1]),
        decreases i, if done { 0int } else { 1int },
    {
        assert(all[i - 1] == list@[i - 1]@);
        if x.comes_before(&list[i - 1]) {
            proof {
                assert(all.take(i as int).drop_last() =~= all.take(i - 1));
                assert(all.take(i as int).last() == all[i - 1]);
                assert(ranked_with::<T>(all.take(i - 1), x@).push(all[i - 1]) + all.skip(i as int) =~= ranked_with::<T>(
                    all.take(i - 1),
                    x@,
                ) + all.skip(i - 1));
            }
            i = i - 1;
        } else {
            done = true;
        }
    }
    proof {
        if i > 0 {
            assert(all.take(i as int).last() == all[i - 1]);
        }
        assert(ranked_with::<T>(all.take(i as int), x@) == all.take(i as int).push(x@));
        assert(all.take(i as int).push(x@) + all.skip(i as int) =~= all.insert(i as int, x@));
    }
    list.insert(i, x);
    assert(views(list@) =~= all.insert(i as int, x@));
}

/// Sorts a row.
pub fn rank<T: Ranked>(list: Vec<T>) -> (r: Vec<T>)
    ensures
        views(r@) == ranked::<T>(views(list@)),
{
    let ghost all = views(list@);
    let mut rest: Vec<T> = list;
    let mut turned: Vec<T> = Vec::new();
    let n: usize = rest.len();
    let mut k: usize = 0;
    while k < n
        invariant
            k <= n,
            n == all.len(),
            views(rest@) == all.take(n - k),
            turned@.len() == k,
            forall|m: int| 0 <= m < k ==> (#[trigger] turned@[m])@ == all[n - 1 - m],
        decreases n - k,
    {
        assert(rest@.len() == views(rest@).len());
        let ghost before = views(rest@);
        assert(before.last() == rest@[rest@.len() - 1]@);
        match rest.pop() {
            Some(x) => {
                turned.push(x);
                assert(views(rest@) =~= all.take(n - k - 1));
            },
            None => {},
        }
        k += 1;
    }
    let mut r: Vec<T> = Vec::new();
    let mut i: usize = 0;
    assert(views(r@) =~= ranked::<T>(all.take(0)));
    while i < n
        invariant
            i <= n,
            n == all.len(),
            turned@.len() == n - i,
            forall|m: int| 0 <= m < n - i ==> (#[trigger] turned@[m])@ == all[n - 1 - m],
            views(r@) == ranked::<T>(all.take(i as int)),
        decreases n - i,
    {
        proof {
            assert(all.take(i + 1).drop_last() =~= all.take(i as int));
            assert(all.take(i + 1).last() == all[i as int]);
            assert(turned@[n - 1 - i]@ == all[i as int]);
        }
        match turned.pop() {
            Some(x) => {
                insert_ranked(&mut r, x);
            },
            None => {},
        }
        i += 1;
    }
    assert(all.take(i as int) =~= all);
    r
}

/// Whether no value comes before one that stands in front of it.
pub open spec fn in_order<T: Ranked>(s: Seq<T::V>) -> bool {
    forall|i: int, j: int| 0 <= i < j < s.len() ==> !T::before(#[trigger] s[j], #[trigger] s[i])
}

proof fn lemma_ranked_with<T: Ranked>(s: Seq<T::V>, x: T::V)
    requires
        in_order::<T>(s),
    ensures
        in_order::<T>(ranked_with::<T>(s, x)),
        ranked_with::<T>(s, x).to_multiset() == s.to_multiset().insert(x),
        forall|i: int|
            0 <= i < ranked_with::<T>(s, x).len() ==> #[trigger] ranked_with::<T>(s, x)[i] == x || s.contains(
                ranked_with::<T>(s, x)[i],
            ),
    decreases s.len(),
{
    broadcast use vstd::seq_lib::group_to_multiset_ensures;

    let r = ranked_with::<T>(s, x);
    if s.len() > 0 && T::before(x, s.last()) {
        let rest = s.drop_last();
        assert(in_order::<T>(rest)) by {
            assert forall|i: int, j: int| 0 <= i < j < rest.len() implies !T::before(
                #[trigger] rest[j],
                #[trigger] rest[i],
            ) by {
                assert(rest[j] == s[j] && rest[i] == s[i]);
            }
        }
        lemma_ranked_with::<T>(rest, x);
        let q = ranked_with::<T>(rest, x);
        T::lemma_one_way(x, s.last());
        assert forall|i: int, j: int| 0 <= i < j < r.len() implies !T::before(#[trigger] r[j], #[trigger] r[i]) by {
            if j < q.len() {
                assert(r[j] == q[j] && r[i] == q[i]);
            } else {
                assert(r[j] == s.last());
                assert(r[i] == q[i]);
                if q[i] != x {
                    let m = rest.index_of(q[i]);
                    assert(rest.contains(q[i]));
                    assert(s[m] == q[i]);
                    assert(!T::before(s[s.len() - 1], s[m]));
                }
            }
        }
        assert(s =~= rest.push(s.last()));
        assert forall|i: int| 0 <= i < r.len() implies #[trigger] r[i] == x || s.contains(r[i]) by {
            if i < q.len() {
                assert(r[i] == q[i]);
                if q[i] != x {
                    let m = rest.index_of(q[i]);
                    assert(rest.contains(q[i]));
                    assert(s[m] == q[i]);
                }
            } else {
                assert(s[s.len() - 1] == r[i]);
            }
        }
    } else {
        assert forall|i: int, j: int| 0 <= i < j < r.len() implies !T::before(#[trigger] r[j], #[trigger] r[i]) by {
            if j < s.len() {
                assert(r[j] == s[j] && r[i] == s[i]);
            } else if i < s.len() - 1 {
                assert(r[i] == s[i]);
                assert(!T::before(s[s.len() - 1], s[i]));
                T::lemma_not_before(s[i], s[s.len() - 1], x);
            } else {
                assert(r[i] == s[i]);
            }
        }
        assert forall|i: int| 0 <= i < r.len() implies #[trigger] r[i] == x || s.contains(r[i]) by {
            if i < s.len() {
                assert(s[i] == r[i]);
            }
        }
    }
}

/// A row in order holds what the row held, and holds it in order.
pub proof fn law_ranked<T: Ranked>(s: Seq<T::V>)
    ensures
        in_order::<T>(ranked::<T>(s)),
        ranked::<T>(s).to_multiset() == s.to_multiset(),
    decreases s.len(),
{
    broadcast use vstd::seq_lib::group_to_multiset_ensures;

    if s.len() > 0 {
        law_ranked::<T>(s.drop_last());
        lemma_ranked_with::<T>(ranked::<T>(s.drop_last()), s.last());
        assert(s =~= s.drop_last().push(s.last()));
    } else {
        assert(ranked::<T>(s) =~= s);
    }
}

/// A row in order holds a value where the row held it.
pub proof fn lemma_ranked_contains<T: Ranked>(s: Seq<T::V>, x: T::V)
    ensures
        ranked::<T>(s).contains(x) <==> s.contains(x),
{
    broadcast use vstd::seq_lib::group_to_multiset_ensures;

    law_ranked::<T>(s);
    assert(ranked::<T>(s).contains(x) <==> ranked::<T>(s).to_multiset().count(x) > 0);
    assert(s.contains(x) <==> s.to_multiset().count(x) > 0);
}

/// Whether a relation holds between every two values of a row.
pub open spec fn pairwise<V>(s: Seq<V>, related: spec_fn(V, V) -> bool) -> bool {
    forall|i: int, j: int| 0 <= i < j < s.len() ==> related(#[trigger] s[i], #[trigger] s[j])
}

proof fn lemma_pairwise_with<T: Ranked>(s: Seq<T::V>, x: T::V, related: spec_fn(T::V, T::V) -> bool)
    requires
        forall|a: T::V, b: T::V| #[trigger] related(a, b) ==> related(b, a),
    ensures
        ranked_with::<T>(s, x).len() == s.len() + 1,
        pairwise(ranked_with::<T>(s, x), related) <==> pairwise(s.push(x), related),
        forall|k: int| 0 <= k < s.len() ==> ranked_with::<T>(s, x).contains(#[trigger] s[k]),
        forall|k: int|
            0 <= k <= s.len() ==> #[trigger] ranked_with::<T>(s, x)[k] == x || s.contains(ranked_with::<T>(s, x)[k]),
        ranked_with::<T>(s, x).contains(x),
    decreases s.len(),
{
    let r = ranked_with::<T>(s, x);
    if s.len() > 0 && T::before(x, s.last()) {
        let rest = s.drop_last();
        let q = ranked_with::<T>(rest, x);
        lemma_pairwise_with::<T>(rest, x, related);
        assert(r == q.push(s.last()));
        assert(r[q.len() as int] == s.last());
        assert(s[s.len() - 1] == s.last());
        assert forall|k: int| 0 <= k < s.len() implies r.contains(#[trigger] s[k]) by {
            if k < rest.len() {
                assert(q.contains(rest[k]));
                let m = q.index_of(rest[k]);
                assert(r[m] == s[k]);
            }
        }
        let at = q.index_of(x);
        assert(r[at] == x);
        assert forall|k: int| 0 <= k <= s.len() implies #[trigger] r[k] == x || s.contains(r[k]) by {
            if k < q.len() {
                assert(r[k] == q[k]);
                if q[k] != x {
                    let m = rest.index_of(q[k]);
                    assert(s[m] == q[k]);
                }
            }
        }
        let p = s.push(x);
        if pairwise(p, related) {
            assert forall|i: int, j: int| 0 <= i < j < rest.push(x).len() implies related(
                #[trigger] rest.push(x)[i],
                #[trigger] rest.push(x)[j],
            ) by {
                let b = if j == rest.len() { s.len() as int } else { j };
                assert(related(p[i], p[b]));
            }
            assert(pairwise(q, related));
            assert forall|i: int, j: int| 0 <= i < j < r.len() implies related(#[trigger] r[i], #[trigger] r[j]) by {
                if j < q.len() {
                    assert(related(q[i], q[j]));
                } else if q[i] == x {
                    assert(related(p[s.len() - 1], p[s.len() as int]));
                } else {
                    let m = rest.index_of(q[i]);
                    assert(rest.contains(q[i]));
                    assert(related(p[m], p[s.len() - 1]));
                }
            }
        }
        if pairwise(r, related) {
            assert forall|i: int, j: int| 0 <= i < j < q.len() implies related(#[trigger] q[i], #[trigger] q[j]) by {
                assert(related(r[i], r[j]));
            }
            assert(pairwise(rest.push(x), related));
            assert forall|i: int, j: int| 0 <= i < j < p.len() implies related(#[trigger] p[i], #[trigger] p[j]) by {
                if j < rest.len() {
                    assert(related(rest.push(x)[i], rest.push(x)[j]));
                } else if j == rest.len() {
                    assert(q.contains(rest[i]));
                    let m = q.index_of(rest[i]);
                    assert(related(r[m], r[q.len() as int]));
                } else if i < rest.len() {
                    assert(related(rest.push(x)[i], rest.push(x)[rest.len() as int]));
                } else {
                    assert(related(r[at], r[q.len() as int]));
                }
            }
        }
    } else {
        assert(r == s.push(x));
        assert(r[s.len() as int] == x);
        assert forall|k: int| 0 <= k < s.len() implies r.contains(#[trigger] s[k]) by {
            assert(r[k] == s[k]);
        }
        assert forall|k: int| 0 <= k <= s.len() implies #[trigger] r[k] == x || s.contains(r[k]) by {
            if k < s.len() {
                assert(s[k] == r[k]);
            }
        }
    }
}

/// Putting a row in order leaves open or settled what holds between every two
/// of its values, whichever way round they stand.
pub proof fn law_order_keeps_pairs<T: Ranked>(s: Seq<T::V>, related: spec_fn(T::V, T::V) -> bool)
    requires
        forall|a: T::V, b: T::V| #[trigger] related(a, b) ==> related(b, a),
    ensures
        ranked::<T>(s).len() == s.len(),
        pairwise(ranked::<T>(s), related) <==> pairwise(s, related),
    decreases s.len(),
{
    if s.len() > 0 {
        let rest = s.drop_last();
        let x = s.last();
        let q = ranked::<T>(rest);
        law_order_keeps_pairs::<T>(rest, related);
        lemma_pairwise_with::<T>(q, x, related);
        assert(s =~= rest.push(x));
        if pairwise(q.push(x), related) {
            assert forall|i: int, j: int| 0 <= i < j < q.len() implies related(#[trigger] q[i], #[trigger] q[j]) by {
                assert(related(q.push(x)[i], q.push(x)[j]));
            }
            assert forall|i: int, j: int| 0 <= i < j < s.len() implies related(#[trigger] s[i], #[trigger] s[j]) by {
                if j < rest.len() {
                    assert(related(rest[i], rest[j]));
                } else {
                    lemma_ranked_contains::<T>(rest, rest[i]);
                    assert(rest.contains(rest[i]));
                    let m = q.index_of(rest[i]);
                    assert(related(q.push(x)[m], q.push(x)[q.len() as int]));
                }
            }
        }
        if pairwise(s, related) {
            assert forall|i: int, j: int| 0 <= i < j < rest.len() implies related(
                #[trigger] rest[i],
                #[trigger] rest[j],
            ) by {
                assert(related(s[i], s[j]));
            }
            assert forall|i: int, j: int| 0 <= i < j < q.push(x).len() implies related(
                #[trigger] q.push(x)[i],
                #[trigger] q.push(x)[j],
            ) by {
                if j < q.len() {
                    assert(related(q[i], q[j]));
                } else {
                    lemma_ranked_contains::<T>(rest, q[i]);
                    assert(q.contains(q[i]));
                    let m = rest.index_of(q[i]);
                    assert(related(s[m], s[s.len() - 1]));
                }
            }
        }
    }
}

impl Ranked for String {
    open spec fn before(a: Seq<char>, b: Seq<char>) -> bool {
        text_precedes(a, b)
    }

    proof fn lemma_not_before(a: Seq<char>, b: Seq<char>, c: Seq<char>) {
        assert(!Self::before(b, a) && !Self::before(c, b));
        if text_precedes(c, a) {
            lemma_text_total(b, a);
            lemma_text_total(c, b);
            if b != a && c != b {
                lemma_text_transitive(b, c, a);
            }
        }
    }

    proof fn lemma_one_way(a: Seq<char>, b: Seq<char>) {
        if text_precedes(b, a) {
            lemma_text_transitive(a, b, a);
            lemma_text_irreflexive(a);
        }
    }

    fn comes_before(&self, other: &Self) -> (r: bool) {
        match text_order(self.as_str(), other.as_str()) {
            Order::Less => true,
            _ => false,
        }
    }
}

} // verus!
