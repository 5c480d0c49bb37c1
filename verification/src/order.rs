//! Total orders on keys, and the lexicographic order on sequences of keys.

use vstd::prelude::*;

verus! {

/// How one key stands to another.
#[derive(Clone, Copy, Debug, PartialEq, Eq, Structural)]
pub enum Order {
    Less,
    Same,
    Greater,
}

/// A key with a strict total order on its view.
pub trait Key: View + Sized {
    /// The strict order.
    spec fn precedes(a: Self::V, b: Self::V) -> bool;

    proof fn precedes_irreflexive(a: Self::V)
        ensures
            !Self::precedes(a, a),
    ;

    proof fn precedes_transitive(a: Self::V, b: Self::V, c: Self::V)
        requires
            Self::precedes(a, b),
            Self::precedes(b, c),
        ensures
            Self::precedes(a, c),
    ;

    proof fn precedes_total(a: Self::V, b: Self::V)
        ensures
            a == b || Self::precedes(a, b) || Self::precedes(b, a),
    ;

    /// Decides the order of two keys.
    fn order(&self, other: &Self) -> (r: Order)
        ensures
            r is Less <==> Self::precedes(self@, other@),
            r is Same <==> self@ == other@,
            r is Greater <==> Self::precedes(other@, self@),
    ;

    /// A key with the same view.
    fn duplicate(&self) -> (r: Self)
        ensures
            r@ == self@,
    ;
}

/// The dictionary order on texts: the first differing character decides, and a
/// proper prefix comes first.
pub open spec fn text_precedes(a: Seq<char>, b: Seq<char>) -> bool
    decreases a.len(),
{
    if b.len() == 0 {
        false
    } else if a.len() == 0 {
        true
    } else if a[0] == b[0] {
        text_precedes(a.drop_first(), b.drop_first())
    } else {
        a[0] < b[0]
    }
}

/// The dictionary order on lists of texts.
pub open spec fn texts_precede(a: Seq<Seq<char>>, b: Seq<Seq<char>>) -> bool
    decreases a.len(),
{
    if b.len() == 0 {
        false
    } else if a.len() == 0 {
        true
    } else if a[0] == b[0] {
        texts_precede(a.drop_first(), b.drop_first())
    } else {
        text_precedes(a[0], b[0])
    }
}

pub proof fn lemma_text_irreflexive(a: Seq<char>)
    ensures
        !text_precedes(a, a),
    decreases a.len(),
{
    if a.len() > 0 {
        lemma_text_irreflexive(a.drop_first());
    }
}

pub proof fn lemma_text_transitive(a: Seq<char>, b: Seq<char>, c: Seq<char>)
    requires
        text_precedes(a, b),
        text_precedes(b, c),
    ensures
        text_precedes(a, c),
    decreases a.len(),
{
    if a.len() > 0 && b.len() > 0 && c.len() > 0 && a[0] == b[0] && b[0] == c[0] {
        lemma_text_transitive(a.drop_first(), b.drop_first(), c.drop_first());
    }
}

pub proof fn lemma_text_total(a: Seq<char>, b: Seq<char>)
    ensures
        a == b || text_precedes(a, b) || text_precedes(b, a),
    decreases a.len(),
{
    if a.len() == 0 && b.len() == 0 {
        assert(a =~= b);
    } else if a.len() > 0 && b.len() > 0 && a[0] == b[0] {
        lemma_text_total(a.drop_first(), b.drop_first());
        if a.drop_first() == b.drop_first() {
            assert(a =~= seq![a[0]] + a.drop_first());
            assert(b =~= seq![b[0]] + b.drop_first());
        }
    }
}

pub proof fn lemma_texts_irreflexive(a: Seq<Seq<char>>)
    ensures
        !texts_precede(a, a),
    decreases a.len(),
{
    if a.len() > 0 {
        lemma_texts_irreflexive(a.drop_first());
    }
}

pub proof fn lemma_texts_transitive(a: Seq<Seq<char>>, b: Seq<Seq<char>>, c: Seq<Seq<char>>)
    requires
        texts_precede(a, b),
        texts_precede(b, c),
    ensures
        texts_precede(a, c),
    decreases a.len(),
{
    if a.len() > 0 && b.len() > 0 && c.len() > 0 {
        if a[0] == b[0] && b[0] == c[0] {
            lemma_texts_transitive(a.drop_first(), b.drop_first(), c.drop_first());
        } else if a[0] != b[0] && b[0] != c[0] {
            lemma_text_transitive(a[0], b[0], c[0]);
            if a[0] == c[0] {
                lemma_text_irreflexive(a[0]);
            }
        }
    }
}

pub proof fn lemma_texts_total(a: Seq<Seq<char>>, b: Seq<Seq<char>>)
    ensures
        a == b || texts_precede(a, b) || texts_precede(b, a),
    decreases a.len(),
{
    if a.len() == 0 && b.len() == 0 {
        assert(a =~= b);
    } else if a.len() > 0 && b.len() > 0 {
        if a[0] == b[0] {
            lemma_texts_total(a.drop_first(), b.drop_first());
            if a.drop_first() == b.drop_first() {
                assert(a =~= seq![a[0]] + a.drop_first());
                assert(b =~= seq![b[0]] + b.drop_first());
            }
        } else {
            lemma_text_total(a[0], b[0]);
        }
    }
}

proof fn lemma_text_common_prefix(a: Seq<char>, b: Seq<char>, k: int)
    requires
        0 <= k <= a.len(),
        k <= b.len(),
        a.take(k) == b.take(k),
    ensures
        text_precedes(a, b) == text_precedes(a.skip(k), b.skip(k)),
    decreases k,
{
    if k == 0 {
        assert(a.skip(0) =~= a);
        assert(b.skip(0) =~= b);
    } else {
        assert(a[0] == a.take(k)[0]);
        assert(b[0] == b.take(k)[0]);
        assert(a.drop_first().take(k - 1) =~= a.take(k).drop_first());
        assert(b.drop_first().take(k - 1) =~= b.take(k).drop_first());
        lemma_text_common_prefix(a.drop_first(), b.drop_first(), k - 1);
        assert(a.drop_first().skip(k - 1) =~= a.skip(k));
        assert(b.drop_first().skip(k - 1) =~= b.skip(k));
    }
}

/// Compares two texts in dictionary order.
pub fn text_order(a: &str, b: &str) -> (r: Order)
    ensures
        r is Less <==> text_precedes(a@, b@),
        r is Same <==> a@ == b@,
        r is Greater <==> text_precedes(b@, a@),
{
    let x: Vec<char> = crate::text::chars_of(a);
    let y: Vec<char> = crate::text::chars_of(b);
    let mut i: usize = 0;
    while i < x.len() && i < y.len() && x[i] == y[i]
        invariant
            x@ == a@,
            y@ == b@,
            i <= x.len(),
            i <= y.len(),
            x@.take(i as int) == y@.take(i as int),
        decreases x.len() - i,
    {
        proof {
            assert(x@.take(i + 1) =~= x@.take(i as int).push(x@[i as int]));
            assert(y@.take(i + 1) =~= y@.take(i as int).push(y@[i as int]));
        }
        i += 1;
    }
    proof {
        lemma_text_common_prefix(x@, y@, i as int);
        lemma_text_common_prefix(y@, x@, i as int);
        lemma_text_irreflexive(x@);
        if i == x.len() && i == y.len() {
            assert(x@ =~= x@.take(i as int));
            assert(y@ =~= y@.take(i as int));
        }
    }
    if i < x.len() && i < y.len() {
        if x[i] < y[i] {
            Order::Less
        } else {
            Order::Greater
        }
    } else if i < y.len() {
        Order::Less
    } else if i < x.len() {
        Order::Greater
    } else {
        Order::Same
    }
}

impl Key for String {
    open spec fn precedes(a: Seq<char>, b: Seq<char>) -> bool {
        text_precedes(a, b)
    }

    proof fn precedes_irreflexive(a: Seq<char>) {
        lemma_text_irreflexive(a);
    }

    proof fn precedes_transitive(a: Seq<char>, b: Seq<char>, c: Seq<char>) {
        lemma_text_transitive(a, b, c);
    }

    proof fn precedes_total(a: Seq<char>, b: Seq<char>) {
        lemma_text_total(a, b);
    }

    fn order(&self, other: &Self) -> (r: Order) {
        text_order(self.as_str(), other.as_str())
    }

    fn duplicate(&self) -> (r: Self) {
        self.clone()
    }
}

} // verus!
