//! Absolute paths as lists of components.

use vstd::prelude::*;

use crate::order::{
    Key,
    Order,
    lemma_texts_irreflexive,
    lemma_texts_total,
    lemma_texts_transitive,
    text_order,
    texts_precede,
};
use crate::text::{same, views};

verus! {

/// An absolute native path: its components, the root first. `..` may occur;
/// `.` never does. Slashes that repeat or end a path tell no paths apart and are
/// not kept.
pub struct NativePath {
    pub components: Vec<String>,
}

impl View for NativePath {
    type V = Seq<Seq<char>>;

    open spec fn view(&self) -> Seq<Seq<char>> {
        views(self.components@)
    }
}

/// The directory that holds `path`; the root has none.
pub open spec fn parent_of(path: Seq<Seq<char>>) -> Option<Seq<Seq<char>>> {
    if path.len() >= 2 {
        Some(path.drop_last())
    } else {
        None
    }
}

/// Whether `path` lies in the tree at `root`, without a step upwards on the way.
pub open spec fn beneath(root: Seq<Seq<char>>, path: Seq<Seq<char>>) -> bool {
    &&& path.len() > 0
    &&& path[0] == "/"@
    &&& root.is_prefix_of(path)
    &&& forall|i: int| root.len() <= i < path.len() ==> #[trigger] path[i] != ".."@
}

/// The components with a slash between each two.
pub open spec fn slash_joined(path: Seq<Seq<char>>) -> Seq<char>
    decreases path.len(),
{
    if path.len() == 0 {
        Seq::empty()
    } else if path.len() == 1 {
        path[0]
    } else {
        slash_joined(path.drop_last()).push('/') + path.last()
    }
}

/// The path in text.
pub open spec fn path_text(path: Seq<Seq<char>>) -> Seq<char> {
    if path.len() >= 2 && path[0] == "/"@ {
        "/"@ + slash_joined(path.drop_first())
    } else {
        slash_joined(path)
    }
}

/// The path under `new` at the place that `path` has under `old`.
pub open spec fn rebased(path: Seq<Seq<char>>, old_root: Seq<Seq<char>>, new_root: Seq<Seq<char>>) -> Seq<Seq<char>> {
    new_root + path.skip(old_root.len() as int)
}

proof fn lemma_texts_common_prefix(a: Seq<Seq<char>>, b: Seq<Seq<char>>, k: int)
    requires
        0 <= k <= a.len(),
        k <= b.len(),
        a.take(k) == b.take(k),
    ensures
        texts_precede(a, b) == texts_precede(a.skip(k), b.skip(k)),
    decreases k,
{
    if k == 0 {
        assert(a.skip(0) =~= a);
        assert(b.skip(0) =~= b);
    } else {
        assert(a[0] == a.take(k)[0]);
        assert(b[0] == b.take(k)[0]);
        assert(a.drop_first().take(k - 1) =~= a.take(k).drop_first());
        assert(b.drop_first().take(k - 1) =~= b.take(k).drop_first());
        lemma_texts_common_prefix(a.drop_first(), b.drop_first(), k - 1);
        assert(a.drop_first().skip(k - 1) =~= a.skip(k));
        assert(b.drop_first().skip(k - 1) =~= b.skip(k));
    }
}

impl NativePath {
    /// Whether both paths have the same components.
    pub fn same_path(&self, other: &NativePath) -> (r: bool)
        ensures
            r == (self@ == other@),
    {
        crate::text::same_strings(&self.components, &other.components)
    }

    /// Whether the components begin with those of `root`.
    pub fn starts_with(&self, root: &NativePath) -> (r: bool)
        ensures
            r == root@.is_prefix_of(self@),
    {
        if self.components.len() < root.components.len() {
            return false;
        }
        let mut i: usize = 0;
        while i < root.components.len()
            invariant
                i <= root.components.len() <= self.components.len(),
                forall|j: int| 0 <= j < i ==> #[trigger] self@[j] == root@[j],
            decreases root.components.len() - i,
        {
            if !same(self.components[i].as_str(), root.components[i].as_str()) {
                assert(self@.subrange(0, root@.len() as int)[i as int] != root@[i as int]);
                return false;
            }
            i += 1;
        }
        assert(self@.subrange(0, root@.len() as int) =~= root@);
        true
    }

    /// The first `n` components.
    fn first(&self, n: usize) -> (r: NativePath)
        requires
            n <= self@.len(),
        ensures
            r@ == self@.take(n as int),
    {
        let mut components: Vec<String> = Vec::new();
        let mut i: usize = 0;
        while i < n
            invariant
                i <= n <= self@.len(),
                components@.len() == i,
                forall|j: int| 0 <= j < i ==> #[trigger] components@[j]@ == self@[j],
            decreases n - i,
        {
            components.push(self.components[i].clone());
            i += 1;
        }
        assert(views(components@) =~= self@.take(n as int));
        NativePath { components }
    }

    /// The directory that holds the path.
    pub fn parent(&self) -> (r: Option<NativePath>)
        ensures
            crate::text::opt_view(r) == parent_of(self@),
    {
        if self.components.len() >= 2 {
            let r: NativePath = self.first(self.components.len() - 1);
            assert(r@ =~= self@.drop_last());
            Some(r)
        } else {
            None
        }
    }

    /// Whether `directory` is the directory that holds the path.
    pub fn has_parent(&self, directory: &NativePath) -> (r: bool)
        ensures
            r == (parent_of(self@) == Some(directory@)),
    {
        match self.parent() {
            Some(p) => p.same_path(directory),
            None => false,
        }
    }

    /// The prefix of `n` components.
    pub fn ancestor(&self, n: usize) -> (r: NativePath)
        requires
            n <= self@.len(),
        ensures
            r@ == self@.take(n as int),
    {
        self.first(n)
    }

    /// The last component.
    pub fn last_name(&self) -> (r: String)
        requires
            self@.len() > 0,
        ensures
            r@ == self@.last(),
    {
        self.components[self.components.len() - 1].clone()
    }

    /// The path of the child `name`.
    pub fn join(&self, name: &str) -> (r: NativePath)
        ensures
            r@ == self@.push(name@),
    {
        let mut r: NativePath = self.first(self.components.len());
        let ghost before = r@;
        r.components.push(name.to_owned());
        assert(r@ =~= before.push(name@));
        assert(before =~= self@);
        r
    }

    /// The components from the `from`th on with a slash between each two.
    fn joined(&self, from: usize) -> (r: String)
        requires
            from <= self@.len(),
        ensures
            r@ == slash_joined(self@.skip(from as int)),
    {
        let ghost parts = self@.skip(from as int);
        let mut r: String = String::new();
        let mut i: usize = from;
        assert(r@ =~= slash_joined(parts.take(0)));
        while i < self.components.len()
            invariant
                from <= i <= self@.len(),
                parts == self@.skip(from as int),
                r@ == slash_joined(parts.take(i - from)),
            decreases self.components.len() - i,
        {
            proof {
                assert(parts.take(i - from + 1).drop_last() =~= parts.take(i - from));
                assert(parts.take(i - from + 1).last() == self@[i as int]);
            }
            let ghost before = r@;
            if i > from {
                r.push('/');
            }
            r.push_str(self.components[i].as_str());
            if i == from {
                assert(r@ =~= self@[i as int]);
            }
            i += 1;
        }
        assert(parts.take(i - from) =~= parts);
        r
    }

    /// The path in text.
    pub fn to_text(&self) -> (r: String)
        ensures
            r@ == path_text(self@),
    {
        if self.components.len() >= 2 && same(self.components[0].as_str(), "/") {
            let rest: String = self.joined(1);
            assert(self@.skip(1) =~= self@.drop_first());
            crate::text::concat("/", rest.as_str())
        } else {
            let r: String = self.joined(0);
            assert(self@.skip(0) =~= self@);
            r
        }
    }

    /// The path under `new_root` at the place that this path has under `old_root`.
    pub fn rebase(&self, old_root: &NativePath, new_root: &NativePath) -> (r: NativePath)
        requires
            old_root@.len() <= self@.len(),
        ensures
            r@ == rebased(self@, old_root@, new_root@),
    {
        let mut r: NativePath = new_root.first(new_root.components.len());
        assert(r@ =~= new_root@);
        let mut i: usize = old_root.components.len();
        while i < self.components.len()
            invariant
                old_root@.len() <= i <= self@.len(),
                r@ =~= new_root@ + self@.subrange(old_root@.len() as int, i as int),
            decreases self.components.len() - i,
        {
            let ghost before = r@;
            r.components.push(self.components[i].clone());
            assert(r@ =~= before.push(self@[i as int]));
            i += 1;
        }
        assert(r@ =~= rebased(self@, old_root@, new_root@));
        r
    }
}

/// Whether `path` lies in the tree at `root`, without a step upwards on the way.
pub fn lexically_beneath(root: &NativePath, path: &NativePath) -> (r: bool)
    ensures
        r == beneath(root@, path@),
{
    if path.components.len() == 0 || !same(path.components[0].as_str(), "/") {
        return false;
    }
    if !path.starts_with(root) {
        return false;
    }
    let mut i: usize = root.components.len();
    while i < path.components.len()
        invariant
            root@.len() <= i <= path@.len(),
            forall|j: int| root@.len() <= j < i ==> #[trigger] path@[j] != ".."@,
        decreases path.components.len() - i,
    {
        if same(path.components[i].as_str(), "..") {
            assert(path@[i as int] == ".."@);
            return false;
        }
        i += 1;
    }
    true
}

impl Key for NativePath {
    open spec fn precedes(a: Seq<Seq<char>>, b: Seq<Seq<char>>) -> bool {
        texts_precede(a, b)
    }

    proof fn precedes_irreflexive(a: Seq<Seq<char>>) {
        lemma_texts_irreflexive(a);
    }

    proof fn precedes_transitive(a: Seq<Seq<char>>, b: Seq<Seq<char>>, c: Seq<Seq<char>>) {
        lemma_texts_transitive(a, b, c);
    }

    proof fn precedes_total(a: Seq<Seq<char>>, b: Seq<Seq<char>>) {
        lemma_texts_total(a, b);
    }

    fn order(&self, other: &Self) -> (r: Order) {
        let mut i: usize = 0;
        let ghost x = self@;
        let ghost y = other@;
        while i < self.components.len() && i < other.components.len()
            invariant
                x == self@,
                y == other@,
                i <= x.len(),
                i <= y.len(),
                x.take(i as int) == y.take(i as int),
            decreases self.components.len() - i,
        {
            let o: Order = text_order(self.components[i].as_str(), other.components[i].as_str());
            match o {
                Order::Same => {
                    proof {
                        assert(x.take(i + 1) =~= x.take(i as int).push(x[i as int]));
                        assert(y.take(i + 1) =~= y.take(i as int).push(y[i as int]));
                    }
                    i += 1;
                },
                _ => {
                    proof {
                        lemma_texts_common_prefix(x, y, i as int);
                        lemma_texts_common_prefix(y, x, i as int);
                    }
                    return o;
                },
            }
        }
        proof {
            lemma_texts_common_prefix(x, y, i as int);
            lemma_texts_common_prefix(y, x, i as int);
            lemma_texts_irreflexive(x);
            if i == x.len() && i == y.len() {
                assert(x =~= x.take(i as int));
                assert(y =~= y.take(i as int));
            }
        }
        if i < other.components.len() {
            Order::Less
        } else if i < self.components.len() {
            Order::Greater
        } else {
            Order::Same
        }
    }

    fn duplicate(&self) -> (r: Self) {
        let r: NativePath = self.first(self.components.len());
        assert(r@ =~= self@);
        r
    }
}

} // verus!
