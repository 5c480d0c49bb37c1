//! Glob patterns of the protocol, over bytes.

use vstd::prelude::*;
use vstd::utf8::encode_utf8;

verus! {

/// How many patterns one pattern with braces stands for at most.
pub const EXPANSION_LIMIT: usize = 256;

/// Where the first `{` stands, from `i` on.
pub open spec fn opening(p: Seq<u8>, i: int) -> Option<int>
    decreases p.len() - i,
{
    if i < 0 || i >= p.len() {
        None
    } else if p[i] == 0x7b {
        Some(i)
    } else {
        opening(p, i + 1)
    }
}

/// Where the braces that are open at `i` are closed, `depth` of them.
pub open spec fn closing(p: Seq<u8>, i: int, depth: nat) -> Option<int>
    decreases p.len() - i,
{
    if i < 0 || i >= p.len() || depth == 0 {
        None
    } else if p[i] == 0x7b {
        closing(p, i + 1, depth + 1)
    } else if p[i] == 0x7d {
        if depth == 1 {
            Some(i)
        } else {
            closing(p, i + 1, (depth - 1) as nat)
        }
    } else {
        closing(p, i + 1, depth)
    }
}

/// How deep the braces are after a byte.
pub open spec fn depth_after(depth: nat, b: u8) -> nat {
    if b == 0x7b {
        depth + 1
    } else if b == 0x7d && depth > 0 {
        (depth - 1) as nat
    } else {
        depth
    }
}

/// The parts between commas outside of braces: the part that began at `start`,
/// read up to `i`, and those behind it.
pub open spec fn parts_from(v: Seq<u8>, start: int, i: int, depth: nat) -> Seq<Seq<u8>>
    decreases v.len() - i,
{
    if i < 0 || i >= v.len() {
        seq![v.subrange(start, v.len() as int)]
    } else if v[i] == 0x2c && depth == 0 {
        seq![v.subrange(start, i)] + parts_from(v, i + 1, i + 1, 0)
    } else {
        parts_from(v, start, i + 1, depth_after(depth, v[i]))
    }
}

/// The alternatives between two braces.
pub open spec fn alternatives(v: Seq<u8>) -> Seq<Seq<u8>> {
    parts_from(v, 0, 0, 0)
}

/// The first pair of braces of a pattern.
pub open spec fn first_group(p: Seq<u8>) -> Option<(int, int)> {
    match opening(p, 0) {
        Some(open) => match closing(p, open + 1, 1) {
            Some(close) => Some((open, close)),
            None => None,
        },
        None => None,
    }
}

/// A pattern with its first pair of braces replaced.
pub open spec fn replaced(p: Seq<u8>, open: int, close: int, alternative: Seq<u8>) -> Seq<u8> {
    p.subrange(0, open) + alternative + p.subrange(close + 1, p.len() as int)
}

proof fn lemma_opening(p: Seq<u8>, i: int)
    requires
        0 <= i,
    ensures
        match opening(p, i) {
            Some(k) => i <= k < p.len() && p[k] == 0x7b && (forall|m: int| i <= m < k ==> #[trigger] p[m] != 0x7b),
            None => forall|m: int| i <= m < p.len() ==> #[trigger] p[m] != 0x7b,
        },
    decreases p.len() - i,
{
    if i < p.len() && p[i] != 0x7b {
        lemma_opening(p, i + 1);
    }
}

proof fn lemma_closing(p: Seq<u8>, i: int, depth: nat)
    requires
        0 <= i,
    ensures
        closing(p, i, depth) matches Some(k) ==> i <= k < p.len() && p[k] == 0x7d,
    decreases p.len() - i,
{
    if i < p.len() && depth > 0 {
        if p[i] == 0x7b {
            lemma_closing(p, i + 1, depth + 1);
        } else if p[i] == 0x7d {
            if depth > 1 {
                lemma_closing(p, i + 1, (depth - 1) as nat);
            }
        } else {
            lemma_closing(p, i + 1, depth);
        }
    }
}

proof fn lemma_parts(v: Seq<u8>, start: int, i: int, depth: nat)
    requires
        0 <= start <= i <= v.len(),
    ensures
        ({
            let parts = parts_from(v, start, i, depth);
            &&& parts.len() >= 1
            &&& forall|k: int| 0 <= k < parts.len() ==> (#[trigger] parts[k]).len() <= v.len() - start
            &&& parts.len() >= 2 ==> forall|k: int|
                0 <= k < parts.len() ==> (#[trigger] parts[k]).len() < v.len() - start
        }),
    decreases v.len() - i,
{
    if i < v.len() {
        if v[i] == 0x2c && depth == 0 {
            lemma_parts(v, i + 1, i + 1, 0);
            let rest = parts_from(v, i + 1, i + 1, 0);
            let parts = parts_from(v, start, i, depth);
            assert forall|k: int| 0 <= k < parts.len() implies (#[trigger] parts[k]).len() < v.len() - start by {
                if k > 0 {
                    assert(parts[k] == rest[k - 1]);
                }
            }
        } else {
            lemma_parts(v, start, i + 1, depth_after(depth, v[i]));
        }
    }
}

/// What a pattern with braces stands for: the first pair of braces is replaced
/// by each of its alternatives in turn. Braces around one alternative stand for
/// themselves, with all that follows them.
pub open spec fn expansions(p: Seq<u8>) -> Seq<Seq<u8>>
    decreases p.len(), 1nat, 0nat,
{
    match first_group(p) {
        Some((open, close)) => {
            let list = alternatives(p.subrange(open + 1, close));
            if list.len() <= 1 {
                seq![p]
            } else {
                expansions_of(p, open, close, list, 0)
            }
        },
        None => seq![p],
    }
}

/// What a pattern stands for with the alternatives from `k` on.
pub open spec fn expansions_of(p: Seq<u8>, open: int, close: int, list: Seq<Seq<u8>>, k: nat) -> Seq<Seq<u8>>
    decreases p.len(), 0nat, list.len() - k,
{
    if k >= list.len() || replaced(p, open, close, list[k as int]).len() >= p.len() {
        seq![]
    } else {
        expansions(replaced(p, open, close, list[k as int])) + expansions_of(p, open, close, list, k + 1)
    }
}

proof fn lemma_replaced_shorter(p: Seq<u8>, open: int, close: int, k: int)
    requires
        first_group(p) == Some((open, close)),
        alternatives(p.subrange(open + 1, close)).len() >= 2,
        0 <= k < alternatives(p.subrange(open + 1, close)).len(),
    ensures
        0 <= open < close < p.len(),
        replaced(p, open, close, alternatives(p.subrange(open + 1, close))[k]).len() < p.len(),
{
    lemma_opening(p, 0);
    lemma_closing(p, open + 1, 1);
    lemma_parts(p.subrange(open + 1, close), 0, 0, 0);
}

/// Splits what stands between two braces at the commas outside of inner braces.
pub fn split_brace_alternatives(value: &Vec<u8>) -> (r: Vec<Vec<u8>>)
    ensures
        crate::text::views(r@) == alternatives(value@),
{
    let ghost v = value@;
    let mut r: Vec<Vec<u8>> = Vec::new();
    let mut start: usize = 0;
    let mut depth: usize = 0;
    let mut i: usize = 0;
    assert(crate::text::views(r@) + parts_from(v, 0, 0, 0) =~= parts_from(v, 0, 0, 0));
    while i < value.len()
        invariant
            start <= i <= value@.len(),
            depth <= i,
            v == value@,
            crate::text::views(r@) + parts_from(v, start as int, i as int, depth as nat) == alternatives(v),
        decreases value.len() - i,
    {
        let b: u8 = value[i];
        let ghost before = crate::text::views(r@);
        if b == 0x2c && depth == 0 {
            let part: Vec<u8> = bytes_between(value, start, i);
            r.push(part);
            assert(crate::text::views(r@) =~= before.push(v.subrange(start as int, i as int)));
            assert(before + (seq![v.subrange(start as int, i as int)] + parts_from(v, i + 1, i + 1, 0))
                =~= crate::text::views(r@) + parts_from(v, i + 1, i + 1, 0));
            start = i + 1;
        } else if b == 0x7b {
            depth += 1;
        } else if b == 0x7d && depth > 0 {
            depth -= 1;
        }
        i += 1;
    }
    let ghost before = crate::text::views(r@);
    let part: Vec<u8> = bytes_between(value, start, value.len());
    r.push(part);
    assert(crate::text::views(r@) =~= before.push(v.subrange(start as int, v.len() as int)));
    assert(before + seq![v.subrange(start as int, v.len() as int)] =~= crate::text::views(r@));
    r
}

/// The bytes from one place to another.
fn bytes_between(v: &Vec<u8>, from: usize, to: usize) -> (r: Vec<u8>)
    requires
        from <= to <= v@.len(),
    ensures
        r@ == v@.subrange(from as int, to as int),
{
    let mut r: Vec<u8> = Vec::new();
    let mut i: usize = from;
    while i < to
        invariant
            from <= i <= to <= v@.len(),
            r@ == v@.subrange(from as int, i as int),
        decreases to - i,
    {
        r.push(v[i]);
        assert(r@ =~= v@.subrange(from as int, i + 1));
        i += 1;
    }
    r
}

fn find_opening(p: &Vec<u8>) -> (r: Option<usize>)
    ensures
        match r {
            Some(k) => opening(p@, 0) == Some(k as int),
            None => opening(p@, 0) is None,
        },
{
    let mut i: usize = 0;
    while i < p.len()
        invariant
            i <= p@.len(),
            opening(p@, 0) == opening(p@, i as int),
        decreases p.len() - i,
    {
        if p[i] == 0x7b {
            return Some(i);
        }
        i += 1;
    }
    None
}

fn find_closing(p: &Vec<u8>, from: usize) -> (r: Option<usize>)
    requires
        1 <= from <= p@.len(),
    ensures
        match r {
            Some(k) => closing(p@, from as int, 1) == Some(k as int) && from <= k < p@.len(),
            None => closing(p@, from as int, 1) is None,
        },
{
    let mut i: usize = from;
    let mut depth: usize = 1;
    while i < p.len()
        invariant
            1 <= from <= i <= p@.len(),
            1 <= depth <= i,
            closing(p@, from as int, 1) == closing(p@, i as int, depth as nat),
        decreases p.len() - i,
    {
        if p[i] == 0x7b {
            depth += 1;
        } else if p[i] == 0x7d {
            if depth == 1 {
                return Some(i);
            }
            depth -= 1;
        }
        i += 1;
    }
    None
}

/// The first elements of a row that is too long.
pub open spec fn at_most(s: Seq<Seq<u8>>, limit: int) -> Seq<Seq<u8>> {
    if s.len() <= limit {
        s
    } else {
        s.take(limit)
    }
}

/// A row with as many more elements behind it as a limit leaves room for.
pub open spec fn filled(s: Seq<Seq<u8>>, more: Seq<Seq<u8>>, limit: int) -> Seq<Seq<u8>> {
    if s.len() >= limit {
        s
    } else {
        at_most(s + more, limit)
    }
}

/// Adds what a pattern stands for, up to a limit. A row that has reached the limit
/// stays as it is.
pub fn expand_braces(pattern: &Vec<u8>, output: &mut Vec<Vec<u8>>, limit: usize)
    ensures
        crate::text::views(final(output)@) == filled(
            crate::text::views(old(output)@),
            expansions(pattern@),
            limit as int,
        ),
    decreases pattern@.len(),
{
    let ghost start = crate::text::views(output@);
    let ghost p = pattern@;
    let size: usize = pattern.len();
    if output.len() >= limit {
        return;
    }
    let open: usize = match find_opening(pattern) {
        Some(open) => open,
        None => {
            push_bytes(output, pattern);
            return;
        },
    };
    proof { lemma_opening(p, 0); }
    let close: usize = match find_closing(pattern, open + 1) {
        Some(close) => close,
        None => {
            push_bytes(output, pattern);
            return;
        },
    };
    let inner: Vec<u8> = bytes_between(pattern, open + 1, close);
    let list: Vec<Vec<u8>> = split_brace_alternatives(&inner);
    if list.len() <= 1 {
        push_bytes(output, pattern);
        return;
    }
    let ghost parts = crate::text::views(list@);
    let mut k: usize = 0;
    assert(at_most(start, limit as int) =~= start);
    while k < list.len()
        invariant
            k <= list@.len(),
            open < close < size,
            size == pattern@.len(),
            p == pattern@,
            first_group(p) == Some((open as int, close as int)),
            parts == crate::text::views(list@),
            parts == alternatives(p.subrange(open + 1, close as int)),
            parts.len() >= 2,
            start.len() < limit,
            output@.len() <= limit,
            at_most(
                crate::text::views(output@) + expansions_of(p, open as int, close as int, parts, k as nat),
                limit as int,
            ) == at_most(start + expansions(p), limit as int),
        decreases list.len() - k,
    {
        proof { lemma_replaced_shorter(p, open as int, close as int, k as int); }
        let ghost before = crate::text::views(output@);
        let mut expanded: Vec<u8> = bytes_between(pattern, 0, open);
        crate::digest::extend(&mut expanded, &list[k]);
        let tail: Vec<u8> = bytes_between(pattern, close + 1, size);
        crate::digest::extend(&mut expanded, &tail);
        assert(expanded@ =~= replaced(p, open as int, close as int, parts[k as int]));
        expand_braces(&expanded, output, limit);
        proof {
            let more = expansions(expanded@);
            let rest = expansions_of(p, open as int, close as int, parts, k as nat + 1);
            let now = crate::text::views(output@);
            if before.len() == limit {
                assert(at_most(before + more, limit as int) =~= before);
            }
            assert(before + (more + rest) =~= (before + more) + rest);
            if (before + more).len() > limit {
                assert(now.len() == limit);
                assert(at_most(now + rest, limit as int) =~= now);
                assert(at_most((before + more) + rest, limit as int) =~= now);
            }
        }
        k += 1;
    }
    proof {
        let now = crate::text::views(output@);
        assert(now + expansions_of(p, open as int, close as int, parts, k as nat) =~= now);
        assert(at_most(now, limit as int) =~= now);
    }
}

fn push_bytes(output: &mut Vec<Vec<u8>>, bytes: &Vec<u8>)
    ensures
        crate::text::views(final(output)@) == crate::text::views(old(output)@) + seq![bytes@],
{
    let ghost before = crate::text::views(output@);
    output.push(bytes_between(bytes, 0, bytes.len()));
    assert(bytes@.subrange(0, bytes@.len() as int) =~= bytes@);
    assert(crate::text::views(output@) =~= before + seq![bytes@]);
}

/// Whether two stars stand at `i`.
pub open spec fn recursive_star(p: Seq<u8>, i: int) -> bool {
    i + 1 < p.len() && p[i + 1] == 0x2a
}

/// Whether two stars and a slash stand at `i`.
pub open spec fn directory_star(p: Seq<u8>, i: int) -> bool {
    recursive_star(p, i) && i + 2 < p.len() && p[i + 2] == 0x2f
}

/// Where the pattern goes on behind the stars at `i`.
pub open spec fn after_star(p: Seq<u8>, i: int) -> int {
    if directory_star(p, i) {
        i + 3
    } else if recursive_star(p, i) {
        i + 2
    } else {
        i + 1
    }
}

/// Whether the stars at `i` stand for the bytes from `j` to `k`: one star stands
/// for no slash; two stars and a slash end where a name begins.
pub open spec fn star_spans(p: Seq<u8>, path: Seq<u8>, i: int, j: int, k: int) -> bool {
    &&& recursive_star(p, i) || forall|m: int| j <= m < k ==> #[trigger] path[m] != 0x2f
    &&& directory_star(p, i) ==> k == 0 || path[k - 1] == 0x2f
}

/// Where the first `]` stands, from `i` on.
pub open spec fn class_end(p: Seq<u8>, i: int) -> Option<int>
    decreases p.len() - i,
{
    if i < 0 || i >= p.len() {
        None
    } else if p[i] == 0x5d {
        Some(i)
    } else {
        class_end(p, i + 1)
    }
}

/// Whether a byte is listed in a class, alone or within a range, from `i` on.
pub open spec fn class_lists(class: Seq<u8>, i: int, b: u8) -> bool
    decreases class.len() - i,
{
    if i < 0 || i >= class.len() {
        false
    } else if i + 2 < class.len() && class[i + 1] == 0x2d {
        class[i] <= b <= class[i + 2] || class_lists(class, i + 3, b)
    } else {
        class[i] == b || class_lists(class, i + 1, b)
    }
}

/// Whether the class between two places admits a byte.
pub open spec fn class_admits(class: Seq<u8>, b: u8) -> bool {
    if class.len() > 0 && class[0] == 0x21 {
        !class_lists(class.drop_first(), 0, b)
    } else {
        class_lists(class, 0, b)
    }
}

/// Whether the class that begins at `start` admits a byte, and where the pattern
/// goes on behind it. No class admits a slash.
pub open spec fn class_result(p: Seq<u8>, start: int, b: Option<u8>) -> Option<(bool, int)> {
    match (b, class_end(p, start + 1)) {
        (Some(b), Some(end)) => if b == 0x2f {
            None
        } else {
            Some((class_admits(p.subrange(start + 1, end), b), end + 1))
        },
        _ => None,
    }
}

proof fn lemma_class_end(p: Seq<u8>, i: int)
    requires
        0 <= i,
    ensures
        class_end(p, i) matches Some(k) ==> i <= k < p.len(),
    decreases p.len() - i,
{
    if i < p.len() && p[i] != 0x5d {
        lemma_class_end(p, i + 1);
    }
}

/// Whether the pattern from `i` on matches the path from `j` on.
pub open spec fn glob_at(p: Seq<u8>, path: Seq<u8>, i: int, j: int) -> bool
    decreases p.len() - i,
{
    if i < 0 || i >= p.len() {
        j == path.len()
    } else if p[i] == 0x2a {
        exists|k: int|
            j <= k <= path.len() && #[trigger] star_spans(p, path, i, j, k) && glob_at(p, path, after_star(p, i), k)
    } else if p[i] == 0x3f {
        j < path.len() && path[j] != 0x2f && glob_at(p, path, i + 1, j + 1)
    } else if p[i] == 0x5b {
        match class_result(
            p,
            i,
            if j < path.len() {
                Some(path[j])
            } else {
                None
            },
        ) {
            Some((admits, next)) => i < next <= p.len() && admits && glob_at(p, path, next, j + 1),
            None => false,
        }
    } else {
        j < path.len() && path[j] == p[i] && glob_at(p, path, i + 1, j + 1)
    }
}

/// Whether a pattern without braces matches a path.
pub open spec fn plain_glob(p: Seq<u8>, path: Seq<u8>) -> bool {
    glob_at(p, path, 0, 0)
}

/// Whether one of some patterns matches a path.
pub open spec fn some_glob(list: Seq<Seq<u8>>, path: Seq<u8>) -> bool {
    exists|i: int| 0 <= i < list.len() && plain_glob(#[trigger] list[i], path)
}

/// Whether a pattern matches a path.
pub open spec fn glob_matched(p: Seq<u8>, path: Seq<u8>) -> bool {
    some_glob(at_most(expansions(p), EXPANSION_LIMIT as int), path)
}

proof fn lemma_star_step(p: Seq<u8>, path: Seq<u8>, i: int, j: int)
    requires
        0 <= i < p.len(),
        0 <= j <= path.len(),
        p[i] == 0x2a,
    ensures
        glob_at(p, path, i, j) <==> (star_spans(p, path, i, j, j) && glob_at(p, path, after_star(p, i), j)) || (j
            < path.len() && (recursive_star(p, i) || path[j] != 0x2f) && glob_at(p, path, i, j + 1)),
{
    let next = after_star(p, i);
    if glob_at(p, path, i, j) {
        let k = choose|k: int|
            j <= k <= path.len() && #[trigger] star_spans(p, path, i, j, k) && glob_at(p, path, next, k);
        if k > j {
            assert(star_spans(p, path, i, j + 1, k));
            assert(glob_at(p, path, next, k));
            if !recursive_star(p, i) {
                assert(path[j] != 0x2f);
            }
            assert(glob_at(p, path, i, j + 1));
        }
    }
    if j < path.len() && (recursive_star(p, i) || path[j] != 0x2f) && glob_at(p, path, i, j + 1) {
        let k = choose|k: int|
            j + 1 <= k <= path.len() && #[trigger] star_spans(p, path, i, j + 1, k) && glob_at(p, path, next, k);
        assert(star_spans(p, path, i, j, k)) by {
            if !recursive_star(p, i) {
                assert forall|m: int| j <= m < k implies #[trigger] path[m] != 0x2f by {}
            }
        }
        assert(glob_at(p, path, next, k));
    }
}

/// Whether the class that begins at `start` admits a byte, and where the pattern
/// goes on behind it.
pub fn character_class(pattern: &Vec<u8>, start: usize, character: Option<u8>) -> (r: Option<(bool, usize)>)
    requires
        start < pattern@.len(),
    ensures
        match r {
            Some((admits, next)) => class_result(pattern@, start as int, character) == Some((admits, next as int))
                && start < next <= pattern@.len(),
            None => class_result(pattern@, start as int, character) is None,
        },
{
    let ghost p = pattern@;
    let b: u8 = match character {
        Some(b) => b,
        None => {
            return None;
        },
    };
    if b == 0x2f {
        return None;
    }
    let size: usize = pattern.len();
    let mut end: usize = start + 1;
    while end < pattern.len() && pattern[end] != 0x5d
        invariant
            start + 1 <= end <= pattern@.len(),
            p == pattern@,
            class_end(p, start + 1) == class_end(p, end as int),
        decreases pattern.len() - end,
    {
        end += 1;
    }
    if end == size {
        return None;
    }
    let class: Vec<u8> = bytes_between(pattern, start + 1, end);
    let negated: bool = class.len() > 0 && class[0] == 0x21;
    let listed: Vec<u8> = if negated {
        bytes_between(&class, 1, class.len())
    } else {
        bytes_between(&class, 0, class.len())
    };
    proof {
        if negated {
            assert(listed@ =~= class@.drop_first());
        } else {
            assert(listed@ =~= class@);
        }
    }
    let mut matched: bool = false;
    let mut i: usize = 0;
    let n: usize = listed.len();
    while i < n
        invariant
            i <= n,
            n == listed@.len(),
            class_lists(listed@, 0, b) == (matched || class_lists(listed@, i as int, b)),
        decreases n - i,
    {
        if n - i > 2 && listed[i + 1] == 0x2d {
            if listed[i] <= b && b <= listed[i + 2] {
                matched = true;
            }
            i += 3;
        } else {
            if listed[i] == b {
                matched = true;
            }
            i += 1;
        }
    }
    Some((matched != negated, end + 1))
}

/// Whether a table has a cell for two places.
pub open spec fn has_cell(states: Seq<Vec<Option<bool>>>, i: int, j: int) -> bool {
    0 <= i < states.len() && 0 <= j < states[i]@.len()
}

/// Whether each answer that is kept is right.
pub open spec fn answers_hold(states: Seq<Vec<Option<bool>>>, p: Seq<u8>, path: Seq<u8>) -> bool {
    forall|i: int, j: int|
        has_cell(states, i, j) && i <= p.len() && j <= path.len() ==> ((#[trigger] states[i]@[j]) matches Some(b) ==> b
            == glob_at(p, path, i, j))
}

/// Whether a table has the cells of another, and keeps what is kept there.
pub open spec fn keeps_answers(states: Seq<Vec<Option<bool>>>, before: Seq<Vec<Option<bool>>>) -> bool {
    &&& states.len() == before.len()
    &&& forall|i: int| 0 <= i < states.len() ==> (#[trigger] states[i])@.len() == before[i]@.len()
    &&& forall|i: int, j: int|
        has_cell(states, i, j) && before[i]@[j] is Some ==> #[trigger] states[i]@[j] == before[i]@[j]
}

/// Whether the pattern from one place on matches the path from another place on.
/// Each answer that the table has a cell for is kept, so that it is found once.
pub fn glob_matches_at(
    pattern: &Vec<u8>,
    path: &[u8],
    pattern_index: usize,
    path_index: usize,
    states: &mut Vec<Vec<Option<bool>>>,
) -> (r: bool)
    requires
        pattern_index <= pattern@.len(),
        path_index <= path@.len(),
        answers_hold(old(states)@, pattern@, path@),
    ensures
        r == glob_at(pattern@, path@, pattern_index as int, path_index as int),
        answers_hold(final(states)@, pattern@, path@),
        keeps_answers(final(states)@, old(states)@),
        has_cell(final(states)@, pattern_index as int, path_index as int)
            ==> final(states)@[pattern_index as int]@[path_index as int] == Some(r),
    decreases pattern@.len() - pattern_index, path@.len() - path_index,
{
    let ghost p = pattern@;
    let ghost s = path@;
    let kept: bool = pattern_index < states.len() && path_index < states[pattern_index].len();
    if kept {
        if let Some(known) = states[pattern_index][path_index] {
            assert(states@[pattern_index as int]@[path_index as int] == Some(known));
            return known;
        }
    }
    let result: bool = if pattern_index == pattern.len() {
        path_index == path.len()
    } else if pattern[pattern_index] == 0x2a {
        let left: usize = pattern.len() - pattern_index;
        let recursive: bool = left > 1 && pattern[pattern_index + 1] == 0x2a;
        let directory: bool = recursive && left > 2 && pattern[pattern_index + 2] == 0x2f;
        let next: usize = if directory {
            pattern_index + 3
        } else if recursive {
            pattern_index + 2
        } else {
            pattern_index + 1
        };
        proof { lemma_star_step(p, s, pattern_index as int, path_index as int); }
        let here: bool = (!directory || path_index == 0 || path[path_index - 1] == 0x2f) && glob_matches_at(
            pattern,
            path,
            next,
            path_index,
            states,
        );
        here || (path_index < path.len() && (recursive || path[path_index] != 0x2f) && glob_matches_at(
            pattern,
            path,
            pattern_index,
            path_index + 1,
            states,
        ))
    } else if pattern[pattern_index] == 0x3f {
        path_index < path.len() && path[path_index] != 0x2f && glob_matches_at(
            pattern,
            path,
            pattern_index + 1,
            path_index + 1,
            states,
        )
    } else if pattern[pattern_index] == 0x5b {
        let character: Option<u8> = if path_index < path.len() {
            Some(path[path_index])
        } else {
            None
        };
        match character_class(pattern, pattern_index, character) {
            Some((admits, next)) => admits && glob_matches_at(pattern, path, next, path_index + 1, states),
            None => false,
        }
    } else {
        path_index < path.len() && path[path_index] == pattern[pattern_index] && glob_matches_at(
            pattern,
            path,
            pattern_index + 1,
            path_index + 1,
            states,
        )
    };
    if kept {
        states[pattern_index][path_index] = Some(result);
    }
    result
}

/// A table without an answer, with a cell for each place in a pattern and in a
/// path, their ends among them.
fn unanswered(pattern_length: usize, path_length: usize) -> (r: Vec<Vec<Option<bool>>>)
    ensures
        r@.len() == pattern_length + 1,
        forall|i: int| 0 <= i <= pattern_length ==> (#[trigger] r@[i])@.len() == path_length + 1,
        forall|i: int, j: int| 0 <= i <= pattern_length && 0 <= j <= path_length ==> #[trigger] r@[i]@[j] is None,
{
    let mut r: Vec<Vec<Option<bool>>> = Vec::new();
    r.push(unanswered_row(path_length));
    let mut i: usize = 0;
    while i < pattern_length
        invariant
            i <= pattern_length,
            r@.len() == i + 1,
            forall|a: int| 0 <= a <= i ==> (#[trigger] r@[a])@.len() == path_length + 1,
            forall|a: int, b: int| 0 <= a <= i && 0 <= b <= path_length ==> #[trigger] r@[a]@[b] is None,
        decreases pattern_length - i,
    {
        r.push(unanswered_row(path_length));
        i += 1;
    }
    r
}

fn unanswered_row(path_length: usize) -> (r: Vec<Option<bool>>)
    ensures
        r@.len() == path_length + 1,
        forall|j: int| 0 <= j <= path_length ==> #[trigger] r@[j] is None,
{
    let mut r: Vec<Option<bool>> = Vec::new();
    r.push(None);
    let mut j: usize = 0;
    while j < path_length
        invariant
            j <= path_length,
            r@.len() == j + 1,
            forall|b: int| 0 <= b <= j ==> #[trigger] r@[b] is None,
        decreases path_length - j,
    {
        r.push(None);
        j += 1;
    }
    r
}

/// Whether a pattern matches a path.
pub fn glob_matches(pattern: &[u8], path: &[u8]) -> (r: bool)
    ensures
        r == glob_matched(pattern@, path@),
{
    let mut whole: Vec<u8> = Vec::new();
    let mut n: usize = 0;
    while n < pattern.len()
        invariant
            n <= pattern@.len(),
            whole@ == pattern@.take(n as int),
        decreases pattern.len() - n,
    {
        whole.push(pattern[n]);
        assert(whole@ =~= pattern@.take(n + 1));
        n += 1;
    }
    assert(whole@ =~= pattern@);
    let mut expanded: Vec<Vec<u8>> = Vec::new();
    assert(crate::text::views(expanded@) + expansions(pattern@) =~= expansions(pattern@));
    expand_braces(&whole, &mut expanded, EXPANSION_LIMIT);
    let ghost list = crate::text::views(expanded@);
    let mut i: usize = 0;
    while i < expanded.len()
        invariant
            i <= expanded@.len(),
            list == crate::text::views(expanded@),
            list == at_most(expansions(pattern@), EXPANSION_LIMIT as int),
            forall|k: int| 0 <= k < i ==> !plain_glob(#[trigger] list[k], path@),
        decreases expanded.len() - i,
    {
        assert(list[i as int] == expanded@[i as int]@);
        let mut states: Vec<Vec<Option<bool>>> = unanswered(expanded[i].len(), path.len());
        if glob_matches_at(&expanded[i], path, 0, 0, &mut states) {
            assert(plain_glob(list[i as int], path@));
            assert(some_glob(list, path@));
            return true;
        }
        i += 1;
    }
    false
}

/// A byte with an upper-case letter of ASCII made lower-case.
pub open spec fn lower_byte(b: u8) -> u8 {
    if 0x41 <= b <= 0x5a {
        (b + 0x20) as u8
    } else {
        b
    }
}

/// Bytes with the upper-case letters of ASCII made lower-case.
pub open spec fn lower_bytes(s: Seq<u8>) -> Seq<u8> {
    s.map_values(|b: u8| lower_byte(b))
}

fn lowered(s: &[u8]) -> (r: Vec<u8>)
    ensures
        r@ == lower_bytes(s@),
{
    let mut r: Vec<u8> = Vec::new();
    let mut i: usize = 0;
    while i < s.len()
        invariant
            i <= s@.len(),
            r@ == lower_bytes(s@.take(i as int)),
        decreases s.len() - i,
    {
        let b: u8 = s[i];
        if b >= 0x41 && b <= 0x5a {
            r.push(b + 0x20);
        } else {
            r.push(b);
        }
        assert(r@ =~= lower_bytes(s@.take(i + 1)));
        i += 1;
    }
    assert(s@.take(i as int) =~= s@);
    r
}

/// Whether a pattern matches a path, with or without regard to the case of
/// ASCII letters.
pub fn protocol_glob_matches(pattern: &str, path: &str, ignore_case: bool) -> (r: bool)
    ensures
        r == if ignore_case {
            glob_matched(lower_bytes(encode_utf8(pattern@)), lower_bytes(encode_utf8(path@)))
        } else {
            glob_matched(encode_utf8(pattern@), encode_utf8(path@))
        },
{
    if ignore_case {
        let p: Vec<u8> = lowered(pattern.as_bytes());
        let s: Vec<u8> = lowered(path.as_bytes());
        glob_matches(p.as_slice(), s.as_slice())
    } else {
        glob_matches(pattern.as_bytes(), path.as_bytes())
    }
}

/// Whether bytes hold nothing that a pattern gives a meaning to.
pub open spec fn is_name(s: Seq<u8>) -> bool {
    forall|i: int|
        0 <= i < s.len() ==> {
            let b = #[trigger] s[i];
            b != 0x2a && b != 0x3f && b != 0x5b && b != 0x7b
        }
}

proof fn lemma_name_matches(p: Seq<u8>, path: Seq<u8>, i: int, j: int)
    requires
        0 <= i <= p.len(),
        0 <= j <= path.len(),
        is_name(p.skip(i)),
    ensures
        glob_at(p, path, i, j) <==> path.skip(j) == p.skip(i),
    decreases p.len() - i,
{
    let a = path.skip(j);
    let b = p.skip(i);
    if i < p.len() {
        assert(b[0] == p[i]);
        assert(p.skip(i + 1) =~= b.drop_first());
        if j < path.len() {
            lemma_name_matches(p, path, i + 1, j + 1);
            assert(a[0] == path[j]);
            assert(path.skip(j + 1) =~= a.drop_first());
            if glob_at(p, path, i, j) {
                assert(a =~= b) by {
                    assert forall|m: int| 0 <= m < a.len() implies a[m] == b[m] by {
                        if m > 0 {
                            assert(a.drop_first()[m - 1] == b.drop_first()[m - 1]);
                        }
                    }
                }
            }
        }
    } else if glob_at(p, path, i, j) {
        assert(a =~= b);
    }
}

proof fn lemma_no_braces(p: Seq<u8>)
    requires
        forall|i: int| 0 <= i < p.len() ==> #[trigger] p[i] != 0x7b,
    ensures
        expansions(p) == seq![p],
{
    lemma_opening(p, 0);
}

/// A pattern that says nothing but a name, or names with slashes between them,
/// matches that alone.
pub proof fn law_name_matches_itself(name: Seq<u8>, path: Seq<u8>)
    requires
        is_name(name),
    ensures
        glob_matched(name, path) <==> path == name,
{
    lemma_no_braces(name);
    let list = at_most(expansions(name), EXPANSION_LIMIT as int);
    assert(list =~= seq![name]);
    assert(list[0] == name);
    assert(name.skip(0) =~= name);
    assert(path.skip(0) =~= path);
    lemma_name_matches(name, path, 0, 0);
    assert(plain_glob(list[0], path) <==> path == name);
}

/// Two stars and a slash before a name match the paths whose last name it is,
/// and no path that merely ends with its letters. The same holds of names with
/// slashes between them.
pub proof fn law_recursive_glob_respects_directories(name: Seq<u8>, path: Seq<u8>)
    requires
        is_name(name),
    ensures
        ({
            let at = path.len() - name.len();
            glob_matched(seq![0x2au8, 0x2au8, 0x2fu8] + name, path) <==> at >= 0 && path.skip(at) == name && (at == 0
                || path[at - 1] == 0x2f)
        }),
{
    let p = seq![0x2au8, 0x2au8, 0x2fu8] + name;
    let at = path.len() - name.len();
    assert(forall|i: int| 3 <= i < p.len() ==> #[trigger] p[i] == name[i - 3]);
    lemma_no_braces(p);
    let list = at_most(expansions(p), EXPANSION_LIMIT as int);
    assert(list =~= seq![p]);
    assert(list[0] == p);
    assert(p.skip(3) =~= name);
    assert(p[0] == 0x2a && p[1] == 0x2a && p[2] == 0x2f);
    assert(directory_star(p, 0) && recursive_star(p, 0));
    if glob_matched(p, path) {
        let n = choose|n: int| 0 <= n < list.len() && plain_glob(#[trigger] list[n], path);
        assert(n == 0);
        assert(glob_at(p, path, 0, 0));
        let k = choose|k: int|
            0 <= k <= path.len() && #[trigger] star_spans(p, path, 0, 0, k) && glob_at(p, path, after_star(p, 0), k);
        lemma_name_matches(p, path, 3, k);
        assert(path.skip(k).len() == name.len());
        assert(k == at);
    }
    if at >= 0 && path.skip(at) == name && (at == 0 || path[at - 1] == 0x2f) {
        lemma_name_matches(p, path, 3, at);
        assert(star_spans(p, path, 0, 0, at));
        assert(glob_at(p, path, after_star(p, 0), at));
        assert(glob_at(p, path, 0, 0));
        assert(plain_glob(list[0], path));
    }
}

/// One star stands for no slash.
pub proof fn law_star_stays_in_a_directory(path: Seq<u8>)
    ensures
        glob_matched(seq![0x2au8], path) <==> forall|m: int| 0 <= m < path.len() ==> #[trigger] path[m] != 0x2f,
{
    let p = seq![0x2au8];
    lemma_no_braces(p);
    let list = at_most(expansions(p), EXPANSION_LIMIT as int);
    assert(list =~= seq![p]);
    assert(list[0] == p);
    assert(p[0] == 0x2a);
    if glob_matched(p, path) {
        let n = choose|n: int| 0 <= n < list.len() && plain_glob(#[trigger] list[n], path);
        assert(n == 0);
        assert(glob_at(p, path, 0, 0));
        let k = choose|k: int|
            0 <= k <= path.len() && #[trigger] star_spans(p, path, 0, 0, k) && glob_at(p, path, after_star(p, 0), k);
        assert(k == path.len());
    }
    if forall|m: int| 0 <= m < path.len() ==> #[trigger] path[m] != 0x2f {
        assert(star_spans(p, path, 0, 0, path.len() as int));
        assert(glob_at(p, path, after_star(p, 0), path.len() as int));
        assert(glob_at(p, path, 0, 0));
        assert(plain_glob(list[0], path));
    }
}

proof fn lemma_name_prefix(p: Seq<u8>, path: Seq<u8>, i: int, n: int)
    requires
        0 <= i <= n <= p.len(),
        i <= path.len(),
        is_name(p.subrange(i, n)),
    ensures
        glob_at(p, path, i, i) <==> n <= path.len() && path.subrange(i, n) == p.subrange(i, n) && glob_at(p, path, n, n),
    decreases n - i,
{
    if i < n {
        let name = p.subrange(i, n);
        assert(name[0] == p[i]);
        assert(p.subrange(i + 1, n) =~= name.drop_first());
        if i < path.len() {
            lemma_name_prefix(p, path, i + 1, n);
            if n <= path.len() {
                let part = path.subrange(i, n);
                assert(path.subrange(i + 1, n) =~= part.drop_first());
                if path[i] == p[i] && path.subrange(i + 1, n) == p.subrange(i + 1, n) {
                    assert(part =~= name) by {
                        assert forall|k: int| 0 <= k < n - i implies part[k] == name[k] by {
                            if k > 0 {
                                assert(part[k] == part.drop_first()[k - 1]);
                                assert(name[k] == name.drop_first()[k - 1]);
                            }
                        }
                    }
                }
                if part == name {
                    assert(part[0] == name[0]);
                    assert(part.drop_first() == name.drop_first());
                }
            }
        }
    } else {
        assert(path.subrange(i, n) =~= p.subrange(i, n));
    }
}

/// A question mark behind a name stands for one more byte that is no slash.
pub proof fn law_question_mark_is_one_byte(name: Seq<u8>, path: Seq<u8>)
    requires
        is_name(name),
    ensures
        glob_matched(name.push(0x3f), path) <==> path.len() == name.len() + 1 && path.take(name.len() as int) == name
            && path.last() != 0x2f,
{
    let p = name.push(0x3f);
    let n = name.len() as int;
    assert forall|i: int| 0 <= i < p.len() implies #[trigger] p[i] != 0x7b by {
        if i < n {
            assert(p[i] == name[i]);
        }
    }
    lemma_no_braces(p);
    let list = at_most(expansions(p), EXPANSION_LIMIT as int);
    assert(list =~= seq![p]);
    assert(list[0] == p);
    assert(p.subrange(0, n) =~= name);
    lemma_name_prefix(p, path, 0, n);
    if n <= path.len() {
        assert(path.subrange(0, n) =~= path.take(n));
    }
    assert(glob_at(p, path, n + 1, n + 1) <==> path.len() == n + 1);
    assert(glob_at(p, path, n, n) <==> n < path.len() && path[n] != 0x2f && path.len() == n + 1);
    assert(plain_glob(list[0], path) <==> glob_matched(p, path));
}

/// A class admits the bytes that it lists: a range those between its ends, both
/// of them among them, anything else itself; and a class behind an exclamation
/// mark those that the class does not admit.
pub proof fn law_classes_admit_what_they_list(a: u8, z: u8, class: Seq<u8>, b: u8)
    requires
        a != 0x21,
        class.len() == 0 || class[0] != 0x21,
    ensures
        class_admits(seq![a, 0x2du8, z], b) <==> a <= b <= z,
        class_admits(seq![a], b) <==> b == a,
        class_admits(seq![0x21u8] + class, b) <==> !class_admits(class, b),
        !class_admits(seq![], b),
{
    reveal_with_fuel(class_lists, 2);
    let range = seq![a, 0x2du8, z];
    assert(range[0] == a && range[1] == 0x2d && range[2] == z);
    assert(!class_lists(range, 3, b));
    let one = seq![a];
    assert(one[0] == a);
    assert(!class_lists(one, 1, b));
    let negated = seq![0x21u8] + class;
    assert(negated.drop_first() =~= class);
    assert(negated[0] == 0x21);
}

proof fn lemma_class_closes(p: Seq<u8>, i: int, end: int)
    requires
        0 <= i <= end < p.len(),
        p[end] == 0x5d,
        forall|k: int| i <= k < end ==> #[trigger] p[k] != 0x5d,
    ensures
        class_end(p, i) == Some(end),
    decreases end - i,
{
    if i < end {
        lemma_class_closes(p, i + 1, end);
    }
}

/// A class in brackets behind a name stands for one more byte that the class
/// admits and that is no slash.
pub proof fn law_class_is_one_byte(name: Seq<u8>, class: Seq<u8>, path: Seq<u8>)
    requires
        is_name(name),
        forall|i: int| 0 <= i < class.len() ==> #[trigger] class[i] != 0x5d && class[i] != 0x7b,
    ensures
        glob_matched(name + seq![0x5bu8] + class + seq![0x5du8], path) <==> path.len() == name.len() + 1 && path.take(
            name.len() as int,
        ) == name && path.last() != 0x2f && class_admits(class, path.last()),
{
    let p = name + seq![0x5bu8] + class + seq![0x5du8];
    let n = name.len() as int;
    let end = n + 1 + class.len();
    assert(p[n] == 0x5b && p[end] == 0x5d && p.len() == end + 1);
    assert forall|k: int| n + 1 <= k < end implies #[trigger] p[k] != 0x5d by {
        assert(p[k] == class[k - n - 1]);
    }
    assert forall|i: int| 0 <= i < p.len() implies #[trigger] p[i] != 0x7b by {
        if i < n {
            assert(p[i] == name[i]);
        } else if n < i < end {
            assert(p[i] == class[i - n - 1]);
        }
    }
    lemma_no_braces(p);
    let list = at_most(expansions(p), EXPANSION_LIMIT as int);
    assert(list =~= seq![p]);
    assert(list[0] == p);
    assert(p.subrange(0, n) =~= name);
    lemma_name_prefix(p, path, 0, n);
    if n <= path.len() {
        assert(path.subrange(0, n) =~= path.take(n));
    }
    lemma_class_closes(p, n + 1, end);
    assert(p.subrange(n + 1, end) =~= class);
    assert(glob_at(p, path, end + 1, n + 1) <==> path.len() == n + 1);
    if n < path.len() {
        assert(glob_at(p, path, n, n) <==> path[n] != 0x2f && class_admits(class, path[n]) && path.len() == n + 1);
    }
    assert(plain_glob(list[0], path) <==> glob_matched(p, path));
}

/// Whether a part of a pattern has neither braces nor commas.
pub open spec fn is_alternative(s: Seq<u8>) -> bool {
    forall|i: int|
        0 <= i < s.len() ==> {
            let b = #[trigger] s[i];
            b != 0x7b && b != 0x7d && b != 0x2c
        }
}

proof fn lemma_last_part(v: Seq<u8>, start: int, i: int)
    requires
        0 <= start <= i <= v.len(),
        is_alternative(v.subrange(start, v.len() as int)),
    ensures
        parts_from(v, start, i, 0) == seq![v.subrange(start, v.len() as int)],
    decreases v.len() - i,
{
    if i < v.len() {
        assert(v.subrange(start, v.len() as int)[i - start] == v[i]);
        lemma_last_part(v, start, i + 1);
    }
}

proof fn lemma_first_part(v: Seq<u8>, i: int, at: int)
    requires
        0 <= i <= at < v.len(),
        v[at] == 0x2c,
        is_alternative(v.subrange(0, at)),
    ensures
        parts_from(v, 0, i, 0) == seq![v.subrange(0, at)] + parts_from(v, at + 1, at + 1, 0),
    decreases at - i,
{
    if i < at {
        assert(v.subrange(0, at)[i] == v[i]);
        lemma_first_part(v, i + 1, at);
    }
}

proof fn lemma_opens(p: Seq<u8>, i: int, at: int)
    requires
        0 <= i <= at < p.len(),
        p[at] == 0x7b,
        forall|k: int| i <= k < at ==> #[trigger] p[k] != 0x7b,
    ensures
        opening(p, i) == Some(at),
    decreases at - i,
{
    if i < at {
        lemma_opens(p, i + 1, at);
    }
}

proof fn lemma_closes(p: Seq<u8>, i: int, at: int)
    requires
        0 <= i <= at < p.len(),
        p[at] == 0x7d,
        forall|k: int| i <= k < at ==> #[trigger] p[k] != 0x7b && p[k] != 0x7d,
    ensures
        closing(p, i, 1) == Some(at),
    decreases at - i,
{
    if i < at {
        lemma_closes(p, i + 1, at);
    }
}

/// A pattern with two alternatives in braces matches what it matches with the
/// one or with the other in their place.
pub proof fn law_braces_are_alternatives(
    front: Seq<u8>,
    first: Seq<u8>,
    second: Seq<u8>,
    back: Seq<u8>,
    path: Seq<u8>,
)
    requires
        is_alternative(first),
        is_alternative(second),
        forall|i: int| 0 <= i < front.len() ==> #[trigger] front[i] != 0x7b,
        forall|i: int| 0 <= i < back.len() ==> #[trigger] back[i] != 0x7b,
    ensures
        glob_matched(front + seq![0x7bu8] + first + seq![0x2cu8] + second + seq![0x7du8] + back, path) <==> glob_matched(
            front + first + back,
            path,
        ) || glob_matched(front + second + back, path),
{
    let p = front + seq![0x7bu8] + first + seq![0x2cu8] + second + seq![0x7du8] + back;
    let open = front.len() as int;
    let comma = open + 1 + first.len();
    let close = comma + 1 + second.len();
    let v = first + seq![0x2cu8] + second;
    assert(p[open] == 0x7b && p[comma] == 0x2c && p[close] == 0x7d);
    assert forall|k: int| 0 <= k < open implies #[trigger] p[k] != 0x7b by {
        assert(p[k] == front[k]);
    }
    assert forall|k: int| open + 1 <= k < close implies #[trigger] p[k] != 0x7b && p[k] != 0x7d by {
        if k < comma {
            assert(p[k] == first[k - open - 1]);
        } else if k > comma {
            assert(p[k] == second[k - comma - 1]);
        }
    }
    lemma_opens(p, 0, open);
    lemma_closes(p, open + 1, close);
    assert(p.subrange(open + 1, close) =~= v);
    assert(v.subrange(0, first.len() as int) =~= first);
    let behind = first.len() as int + 1;
    assert(v.subrange(behind, v.len() as int) =~= second);
    lemma_first_part(v, 0, first.len() as int);
    lemma_last_part(v, behind, behind);
    let list = alternatives(v);
    assert(list =~= seq![first, second]);
    let a = front + first + back;
    let b = front + second + back;
    assert(p.subrange(0, open) =~= front);
    assert(p.subrange(close + 1, p.len() as int) =~= back);
    assert(replaced(p, open, close, list[0]) =~= a);
    assert(replaced(p, open, close, list[1]) =~= b);
    assert forall|i: int| 0 <= i < a.len() implies #[trigger] a[i] != 0x7b by {
        if i < front.len() {
            assert(a[i] == front[i]);
        } else if i < front.len() + first.len() {
            assert(a[i] == first[i - front.len()]);
        } else {
            assert(a[i] == back[i - front.len() - first.len()]);
        }
    }
    assert forall|i: int| 0 <= i < b.len() implies #[trigger] b[i] != 0x7b by {
        if i < front.len() {
            assert(b[i] == front[i]);
        } else if i < front.len() + second.len() {
            assert(b[i] == second[i - front.len()]);
        } else {
            assert(b[i] == back[i - front.len() - second.len()]);
        }
    }
    lemma_no_braces(a);
    lemma_no_braces(b);
    assert(expansions_of(p, open, close, list, 2) =~= seq![]);
    assert(expansions_of(p, open, close, list, 1) =~= seq![b]);
    assert(expansions_of(p, open, close, list, 0) =~= seq![a, b]);
    assert(expansions(p) =~= seq![a, b]);
    let both = at_most(expansions(p), EXPANSION_LIMIT as int);
    assert(both =~= seq![a, b]);
    assert(both[0] == a && both[1] == b);
    let left = at_most(expansions(a), EXPANSION_LIMIT as int);
    let right = at_most(expansions(b), EXPANSION_LIMIT as int);
    assert(left =~= seq![a] && right =~= seq![b]);
    assert(left[0] == a && right[0] == b);
    if glob_matched(p, path) {
        let n = choose|n: int| 0 <= n < both.len() && plain_glob(#[trigger] both[n], path);
        if n == 0 {
            assert(plain_glob(left[0], path));
        } else {
            assert(plain_glob(right[0], path));
        }
    }
    if glob_matched(a, path) {
        assert(plain_glob(both[0], path));
    }
    if glob_matched(b, path) {
        assert(plain_glob(both[1], path));
    }
}

} // verus!
