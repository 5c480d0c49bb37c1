//! Character-level helpers on strings. A string stands for the sequence of its
//! Unicode scalar values.

use vstd::prelude::*;
use vstd::utf8::{decode_utf8, valid_utf8};

verus! {

/// `String::push` appends one character.
pub assume_specification[ String::push ](s: &mut String, c: char)
    ensures
        final(s)@ == old(s)@.push(c),
;

/// `String::push_str` appends a string.
pub assume_specification[ String::push_str ](s: &mut String, t: &str)
    ensures
        final(s)@ == old(s)@ + t@,
;

/// Equality of `str` values compares the characters.
pub assume_specification[ <str as PartialEq<str>>::eq ](a: &str, b: &str) -> (r: bool)
    ensures
        r == (a@ == b@),
;

/// `std::str::from_utf8` reads bytes as UTF-8, if they are.
#[verifier::external_body]
pub(crate) fn utf8_text(bytes: &Vec<u8>) -> (r: Option<String>)
    ensures
        r is Some <==> valid_utf8(bytes@),
        r matches Some(s) ==> s@ == decode_utf8(bytes@),
{
    std::str::from_utf8(bytes).ok().map(|s| s.to_owned())
}

/// A text as `Debug` writes it: between quotation marks, with escapes.
pub uninterp spec fn quoted_text(s: Seq<char>) -> Seq<char>;

/// `<str as Debug>::fmt` writes a text between quotation marks, with escapes.
#[verifier::external_body]
pub(crate) fn quoted(s: &str) -> (r: String)
    ensures
        r@ == quoted_text(s@),
{
    format!("{s:?}")
}

/// The views of a sequence of values.
pub open spec fn views<T: View>(s: Seq<T>) -> Seq<T::V> {
    Seq::new(s.len(), |i: int| s[i]@)
}

/// The view of an optional value.
pub open spec fn opt_view<T: View>(o: Option<T>) -> Option<T::V> {
    match o {
        Some(t) => Some(t@),
        None => None,
    }
}

/// The view of an optional reference.
pub open spec fn opt_ref_view<T: View + ?Sized>(o: Option<&T>) -> Option<T::V> {
    match o {
        Some(t) => Some(t@),
        None => None,
    }
}

/// Whether two strings hold the same characters.
pub fn same(a: &str, b: &str) -> (r: bool)
    ensures
        r == (a@ == b@),
{
    a.eq(b)
}

/// Whether two optional strings are equal.
pub fn same_opt(a: &Option<String>, b: &Option<String>) -> (r: bool)
    ensures
        r == (opt_view(*a) == opt_view(*b)),
{
    match (a, b) {
        (Some(x), Some(y)) => same(x.as_str(), y.as_str()),
        (None, None) => true,
        _ => false,
    }
}

/// A copy of an optional string.
pub fn copy_opt(a: &Option<String>) -> (r: Option<String>)
    ensures
        opt_view(r) == opt_view(*a),
{
    match a {
        Some(x) => Some(x.clone()),
        None => None,
    }
}

/// A copy of a list of strings.
pub fn copy_strings(a: &Vec<String>) -> (r: Vec<String>)
    ensures
        views(r@) == views(a@),
{
    let mut r: Vec<String> = Vec::new();
    let mut i: usize = 0;
    while i < a.len()
        invariant
            i <= a.len(),
            r@.len() == i,
            forall|j: int| 0 <= j < i ==> #[trigger] r@[j]@ == a@[j]@,
        decreases a.len() - i,
    {
        r.push(a[i].clone());
        i += 1;
    }
    assert(views(r@) =~= views(a@));
    r
}

/// Whether two lists of strings are equal.
pub fn same_strings(a: &Vec<String>, b: &Vec<String>) -> (r: bool)
    ensures
        r == (views(a@) == views(b@)),
{
    if a.len() != b.len() {
        assert(views(a@).len() != views(b@).len());
        return false;
    }
    let mut i: usize = 0;
    while i < a.len()
        invariant
            i <= a.len(),
            a.len() == b.len(),
            forall|j: int| 0 <= j < i ==> #[trigger] a@[j]@ == b@[j]@,
        decreases a.len() - i,
    {
        if !same(a[i].as_str(), b[i].as_str()) {
            assert(views(a@)[i as int] != views(b@)[i as int]);
            return false;
        }
        i += 1;
    }
    assert(views(a@) =~= views(b@));
    true
}

/// The place of the first string equal to `wanted`.
pub fn find_string(list: &Vec<String>, wanted: &str) -> (r: Option<usize>)
    ensures
        match r {
            Some(i) => i < list@.len() && list@[i as int]@ == wanted@ && forall|j: int|
                0 <= j < i ==> #[trigger] list@[j]@ != wanted@,
            None => !views(list@).contains(wanted@),
        },
{
    let mut i: usize = 0;
    while i < list.len()
        invariant
            i <= list.len(),
            forall|j: int| 0 <= j < i ==> #[trigger] list@[j]@ != wanted@,
        decreases list.len() - i,
    {
        if same(list[i].as_str(), wanted) {
            return Some(i);
        }
        i += 1;
    }
    assert(!views(list@).contains(wanted@)) by {
        if views(list@).contains(wanted@) {
            let j = views(list@).index_of(wanted@);
            assert(views(list@)[j] == wanted@);
            assert(list@[j]@ == wanted@);
        }
    }
    None
}

/// Whether `list` holds `wanted`.
pub fn contains_string(list: &Vec<String>, wanted: &str) -> (r: bool)
    ensures
        r == views(list@).contains(wanted@),
{
    match find_string(list, wanted) {
        Some(i) => {
            assert(views(list@)[i as int] == wanted@);
            true
        },
        None => false,
    }
}

/// The characters of a string.
pub fn chars_of(s: &str) -> (r: Vec<char>)
    ensures
        r@ == s@,
{
    let mut r: Vec<char> = Vec::new();
    for c in it: s.chars()
        invariant
            r@ == it.seq().take(it.index()),
            it.seq() == s@,
    {
        r.push(c);
    }
    r
}

/// The string made of `c[from..to]`.
pub fn string_of(c: &Vec<char>, from: usize, to: usize) -> (r: String)
    requires
        from <= to <= c@.len(),
    ensures
        r@ == c@.subrange(from as int, to as int),
{
    let mut r: String = String::new();
    let mut i: usize = from;
    while i < to
        invariant
            from <= i <= to <= c@.len(),
            r@ == c@.subrange(from as int, i as int),
        decreases to - i,
    {
        r.push(c[i]);
        i += 1;
    }
    r
}

/// `a` followed by `b`.
pub fn concat(a: &str, b: &str) -> (r: String)
    ensures
        r@ == a@ + b@,
{
    let mut r: String = a.to_owned();
    r.push_str(b);
    r
}

/// `a`, `b` and `c` in a row.
pub fn concat3(a: &str, b: &str, c: &str) -> (r: String)
    ensures
        r@ == a@ + b@ + c@,
{
    let mut r: String = a.to_owned();
    r.push_str(b);
    r.push_str(c);
    r
}

/// Whether `s` begins with `prefix`.
pub fn starts_with(s: &str, prefix: &str) -> (r: bool)
    ensures
        r == prefix@.is_prefix_of(s@),
{
    strip_prefix(s, prefix).is_some()
}

/// What follows `prefix` in `s`.
pub fn strip_prefix(s: &str, prefix: &str) -> (r: Option<String>)
    ensures
        r is Some <==> prefix@.is_prefix_of(s@),
        r matches Some(t) ==> t@ == s@.skip(prefix@.len() as int) && s@ == prefix@ + t@,
{
    let c: Vec<char> = chars_of(s);
    let p: Vec<char> = chars_of(prefix);
    if c.len() < p.len() {
        return None;
    }
    let mut i: usize = 0;
    while i < p.len()
        invariant
            i <= p.len() <= c.len(),
            c@ == s@,
            p@ == prefix@,
            forall|j: int| 0 <= j < i ==> c@[j] == p@[j],
        decreases p.len() - i,
    {
        if c[i] != p[i] {
            assert(s@.subrange(0, p@.len() as int)[i as int] != p@[i as int]);
            return None;
        }
        i += 1;
    }
    assert(s@.subrange(0, p@.len() as int) =~= p@);
    let t: String = string_of(&c, p.len(), c.len());
    assert(t@ =~= s@.skip(prefix@.len() as int));
    assert(s@ =~= prefix@ + t@);
    Some(t)
}

/// What precedes `suffix` in `s`.
pub fn strip_suffix(s: &str, suffix: &str) -> (r: Option<String>)
    ensures
        r is Some <==> suffix@.is_suffix_of(s@),
        r matches Some(t) ==> t@ == s@.take(s@.len() - suffix@.len()) && s@ == t@ + suffix@,
{
    let c: Vec<char> = chars_of(s);
    let p: Vec<char> = chars_of(suffix);
    if c.len() < p.len() {
        return None;
    }
    let base: usize = c.len() - p.len();
    let mut i: usize = 0;
    while i < p.len()
        invariant
            i <= p.len() <= c.len(),
            base == c.len() - p.len(),
            c@ == s@,
            p@ == suffix@,
            forall|j: int| 0 <= j < i ==> c@[base + j] == p@[j],
        decreases p.len() - i,
    {
        if c[base + i] != p[i] {
            assert(s@.subrange(base as int, s@.len() as int)[i as int] != p@[i as int]);
            return None;
        }
        i += 1;
    }
    assert(s@.subrange(base as int, s@.len() as int) =~= p@);
    let t: String = string_of(&c, 0, base);
    assert(t@ =~= s@.take(s@.len() - suffix@.len()));
    assert(s@ =~= t@ + suffix@);
    Some(t)
}

/// Whether `c` is a decimal digit.
pub open spec fn is_digit(c: char) -> bool {
    '0' <= c <= '9'
}

/// Whether `c` is an ASCII letter.
pub open spec fn is_letter(c: char) -> bool {
    ('a' <= c <= 'z') || ('A' <= c <= 'Z')
}

/// The value of a digit.
pub open spec fn digit_value(c: char) -> nat {
    (c as int - '0' as int) as nat
}

/// The digit of a value below ten.
pub open spec fn digit_of(n: nat) -> char {
    if n == 0 { '0' } else if n == 1 { '1' } else if n == 2 { '2' } else if n == 3 { '3' } else if n == 4 { '4' }
    else if n == 5 { '5' } else if n == 6 { '6' } else if n == 7 { '7' } else if n == 8 { '8' } else { '9' }
}

/// Whether every character is a digit.
pub open spec fn all_digits(s: Seq<char>) -> bool {
    forall|i: int| 0 <= i < s.len() ==> is_digit(#[trigger] s[i])
}

/// The number that a row of digits spells.
pub open spec fn decimal_value(s: Seq<char>) -> nat
    decreases s.len(),
{
    if s.len() == 0 {
        0
    } else {
        decimal_value(s.drop_last()) * 10 + digit_value(s.last())
    }
}

/// The row of digits that spells a number, without leading zeros.
pub open spec fn decimal_text(n: nat) -> Seq<char>
    decreases n,
{
    if n < 10 {
        seq![digit_of(n)]
    } else {
        decimal_text(n / 10).push(digit_of(n % 10))
    }
}

/// The digits of a number behind an optional plus sign.
pub open spec fn unsigned_digits(s: Seq<char>) -> Seq<char> {
    if s.len() > 0 && s[0] == '+' {
        s.drop_first()
    } else {
        s
    }
}

/// The number up to `limit` that a text spells in decimal, behind an optional plus sign.
pub open spec fn parsed_unsigned(s: Seq<char>, limit: nat) -> Option<nat> {
    let digits = unsigned_digits(s);
    if digits.len() > 0 && all_digits(digits) && decimal_value(digits) <= limit {
        Some(decimal_value(digits))
    } else {
        None
    }
}

/// Spelling a number and reading it back gives the number.
pub proof fn lemma_decimal_round_trip(n: nat)
    ensures
        decimal_text(n).len() > 0,
        all_digits(decimal_text(n)),
        decimal_value(decimal_text(n)) == n,
    decreases n,
{
    if n < 10 {
        assert(decimal_text(n).drop_last() =~= Seq::<char>::empty());
        assert(decimal_value(Seq::<char>::empty()) == 0);
    } else {
        lemma_decimal_round_trip(n / 10);
        assert(decimal_text(n).drop_last() =~= decimal_text(n / 10));
        assert(decimal_text(n).last() == digit_of(n % 10));
    }
}

proof fn lemma_prefix_value_bounded(s: Seq<char>, k: int)
    requires
        0 <= k <= s.len(),
    ensures
        decimal_value(s.take(k)) <= decimal_value(s),
    decreases s.len() - k,
{
    if k < s.len() {
        lemma_prefix_value_bounded(s, k + 1);
        assert(s.take(k + 1).drop_last() =~= s.take(k));
    } else {
        assert(s.take(k) =~= s);
    }
}

/// Reads a decimal number that fits in 64 bits.
pub fn parse_u64(s: &str) -> (r: Option<u64>)
    ensures
        match r {
            Some(n) => parsed_unsigned(s@, u64::MAX as nat) == Some(n as nat),
            None => parsed_unsigned(s@, u64::MAX as nat) is None,
        },
{
    let c: Vec<char> = chars_of(s);
    let start: usize = if c.len() > 0 && c[0] == '+' { 1 } else { 0 };
    let ghost digits = unsigned_digits(s@);
    assert(digits =~= c@.skip(start as int));
    if start == c.len() {
        return None;
    }
    let mut n: u64 = 0;
    let mut i: usize = start;
    while i < c.len()
        invariant
            start <= i <= c.len(),
            start < c.len(),
            c@ == s@,
            digits == unsigned_digits(s@),
            digits == c@.skip(start as int),
            all_digits(digits.take(i - start)),
            n == decimal_value(digits.take(i - start)),
        decreases c.len() - i,
    {
        let ghost k = i - start;
        assert(digits[k] == c@[i as int]);
        assert(digits.take(k + 1).drop_last() =~= digits.take(k));
        if c[i] < '0' || c[i] > '9' {
            assert(!is_digit(digits[k]));
            return None;
        }
        let d: u64 = (c[i] as u32 - '0' as u32) as u64;
        assert(all_digits(digits.take(k + 1))) by {
            assert forall|j: int| 0 <= j < k + 1 implies is_digit(#[trigger] digits.take(k + 1)[j]) by {
                if j < k {
                    assert(digits.take(k)[j] == digits[j]);
                }
            }
        }
        assert(decimal_value(digits.take(k + 1)) == n * 10 + d);
        if n > (u64::MAX - d) / 10 {
            proof {
                lemma_prefix_value_bounded(digits, k + 1);
                assert(n * 10 + d > u64::MAX);
            }
            return None;
        }
        n = n * 10 + d;
        i += 1;
    }
    assert(digits.take(i - start) =~= digits);
    Some(n)
}

/// Appends the decimal spelling of `n`.
fn push_decimal(out: &mut String, n: u64)
    ensures
        final(out)@ == old(out)@ + decimal_text(n as nat),
    decreases n,
{
    if n >= 10 {
        push_decimal(out, n / 10);
    }
    let d: u64 = n % 10;
    let c: char = match d {
        0 => '0',
        1 => '1',
        2 => '2',
        3 => '3',
        4 => '4',
        5 => '5',
        6 => '6',
        7 => '7',
        8 => '8',
        _ => '9',
    };
    out.push(c);
    assert(out@ =~= old(out)@ + decimal_text(n as nat));
}

/// The decimal spelling of `n`.
pub fn decimal(n: u64) -> (r: String)
    ensures
        r@ == decimal_text(n as nat),
{
    let mut r: String = String::new();
    push_decimal(&mut r, n);
    assert(r@ =~= decimal_text(n as nat));
    r
}

/// The lower case of an ASCII letter; other characters stand for themselves.
pub open spec fn lower(c: char) -> char {
    if 'A' <= c <= 'Z' {
        ((c as int) + 32) as char
    } else {
        c
    }
}

/// Two characters that differ at most in ASCII case.
pub fn same_letter(a: char, b: char) -> (r: bool)
    ensures
        r == (lower(a) == lower(b)),
{
    if a == b {
        return true;
    }
    let x: u32 = a as u32;
    let y: u32 = b as u32;
    if 65 <= x && x <= 90 {
        y == x + 32
    } else if 65 <= y && y <= 90 {
        x == y + 32
    } else {
        false
    }
}

/// A text with its ASCII letters in lower case.
pub open spec fn folded(s: Seq<char>) -> Seq<char> {
    Seq::new(s.len(), |i: int| lower(s[i]))
}

fn same_letters_at(a: &Vec<char>, from: usize, b: &Vec<char>) -> (r: bool)
    requires
        from + b@.len() == a@.len(),
    ensures
        r == (folded(a@.skip(from as int)) == folded(b@)),
{
    let mut i: usize = 0;
    let n: usize = a.len();
    let ghost x = folded(a@.skip(from as int));
    let ghost y = folded(b@);
    while i < b.len()
        invariant
            i <= b@.len(),
            n == a@.len(),
            from + b@.len() == a@.len(),
            x == folded(a@.skip(from as int)),
            y == folded(b@),
            forall|j: int| 0 <= j < i ==> x[j] == y[j],
        decreases b.len() - i,
    {
        assert(x[i as int] == lower(a@[from + i]));
        assert(y[i as int] == lower(b@[i as int]));
        if !same_letter(a[from + i], b[i]) {
            return false;
        }
        i += 1;
    }
    assert(x =~= y);
    true
}

/// Whether two texts differ at most in ASCII case.
pub fn same_folded(a: &str, b: &str) -> (r: bool)
    ensures
        r == (folded(a@) == folded(b@)),
{
    let x: Vec<char> = chars_of(a);
    let y: Vec<char> = chars_of(b);
    if x.len() != y.len() {
        assert(folded(a@).len() != folded(b@).len());
        return false;
    }
    assert(x@.skip(0) =~= x@);
    same_letters_at(&x, 0, &y)
}

/// Whether a text ends in another, up to ASCII case.
pub fn ends_with_folded(s: &str, suffix: &str) -> (r: bool)
    ensures
        r == folded(suffix@).is_suffix_of(folded(s@)),
{
    let x: Vec<char> = chars_of(s);
    let y: Vec<char> = chars_of(suffix);
    if x.len() < y.len() {
        return false;
    }
    let from: usize = x.len() - y.len();
    assert(folded(s@).subrange(from as int, s@.len() as int) =~= folded(s@.skip(from as int)));
    same_letters_at(&x, from, &y)
}

/// Whether a character occurs in a text.
pub fn contains_char(s: &str, c: char) -> (r: bool)
    ensures
        r == s@.contains(c),
{
    let x: Vec<char> = chars_of(s);
    let mut i: usize = 0;
    while i < x.len()
        invariant
            i <= x@.len(),
            x@ == s@,
            forall|j: int| 0 <= j < i ==> x@[j] != c,
        decreases x.len() - i,
    {
        if x[i] == c {
            return true;
        }
        i += 1;
    }
    false
}

} // verus!
