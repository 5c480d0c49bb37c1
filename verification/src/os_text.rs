//! Text as the operating system holds it, which need not be Unicode.

use vstd::prelude::*;
use vstd::utf8::{decode_utf8, valid_utf8};

use crate::digest::{hex_encode, hex_text, law_hex_tells_bytes_apart};
use crate::json::{Json, JsonView, array_view, object1};
use crate::order::{Key, Order};
use crate::plan::copy_bytes;
use crate::sorted::Replica;
use crate::text::utf8_text;

verus! {

/// Text as the operating system holds it: its bytes, or on Windows its UTF-8, in
/// which a surrogate that stands alone is a character.
pub struct OsText {
    pub bytes: Vec<u8>,
}

impl View for OsText {
    type V = Seq<u8>;

    open spec fn view(&self) -> Seq<u8> {
        self.bytes@
    }
}

/// The dictionary order on bytes.
pub open spec fn bytes_precede(a: Seq<u8>, b: Seq<u8>) -> bool
    decreases a.len(),
{
    if b.len() == 0 {
        false
    } else if a.len() == 0 {
        true
    } else if a[0] != b[0] {
        a[0] < b[0]
    } else {
        bytes_precede(a.drop_first(), b.drop_first())
    }
}

proof fn lemma_irreflexive(a: Seq<u8>)
    ensures
        !bytes_precede(a, a),
    decreases a.len(),
{
    if a.len() > 0 {
        lemma_irreflexive(a.drop_first());
    }
}

proof fn lemma_transitive(a: Seq<u8>, b: Seq<u8>, c: Seq<u8>)
    requires
        bytes_precede(a, b),
        bytes_precede(b, c),
    ensures
        bytes_precede(a, c),
    decreases a.len(),
{
    if a.len() > 0 && a[0] == b[0] && b[0] == c[0] {
        lemma_transitive(a.drop_first(), b.drop_first(), c.drop_first());
    }
}

proof fn lemma_total(a: Seq<u8>, b: Seq<u8>)
    ensures
        a == b || bytes_precede(a, b) || bytes_precede(b, a),
    decreases a.len(),
{
    if a.len() == 0 && b.len() == 0 {
        assert(a =~= b);
    } else if a.len() > 0 && b.len() > 0 && a[0] == b[0] {
        lemma_total(a.drop_first(), b.drop_first());
        if a.drop_first() == b.drop_first() {
            assert(a =~= seq![a[0]] + a.drop_first());
            assert(b =~= seq![b[0]] + b.drop_first());
        }
    }
}

proof fn lemma_common(a: Seq<u8>, b: Seq<u8>, k: int)
    requires
        0 <= k <= a.len(),
        k <= b.len(),
        a.take(k) == b.take(k),
    ensures
        bytes_precede(a, b) == bytes_precede(a.skip(k), b.skip(k)),
    decreases k,
{
    if k == 0 {
        assert(a.skip(0) =~= a);
        assert(b.skip(0) =~= b);
    } else {
        assert(a[0] == a.take(k)[0]);
        assert(b[0] == b.take(k)[0]);
        assert(a.drop_first().take(k - 1) =~= a.take(k).drop_first());
        assert(b.drop_first().take(k - 1) =~= b.take(k).drop_first());
        lemma_common(a.drop_first(), b.drop_first(), k - 1);
        assert(a.drop_first().skip(k - 1) =~= a.skip(k));
        assert(b.drop_first().skip(k - 1) =~= b.skip(k));
    }
}

impl Key for OsText {
    open spec fn precedes(a: Seq<u8>, b: Seq<u8>) -> bool {
        bytes_precede(a, b)
    }

    proof fn precedes_irreflexive(a: Seq<u8>) {
        lemma_irreflexive(a);
    }

    proof fn precedes_transitive(a: Seq<u8>, b: Seq<u8>, c: Seq<u8>) {
        lemma_transitive(a, b, c);
    }

    proof fn precedes_total(a: Seq<u8>, b: Seq<u8>) {
        lemma_total(a, b);
    }

    fn order(&self, other: &Self) -> (r: Order) {
        let x: &Vec<u8> = &self.bytes;
        let y: &Vec<u8> = &other.bytes;
        let mut i: usize = 0;
        while i < x.len() && i < y.len() && x[i] == y[i]
            invariant
                i <= x@.len(),
                i <= y@.len(),
                forall|j: int| 0 <= j < i ==> x@[j] == y@[j],
            decreases x.len() - i,
        {
            i += 1;
        }
        proof {
            assert(x@.take(i as int) =~= y@.take(i as int));
            lemma_common(x@, y@, i as int);
            lemma_common(y@, x@, i as int);
            let a = x@.skip(i as int);
            let b = y@.skip(i as int);
            if i < x@.len() {
                assert(a[0] == x@[i as int]);
            }
            if i < y@.len() {
                assert(b[0] == y@[i as int]);
            }
            if i == x@.len() && i == y@.len() {
                assert(x@ =~= x@.take(i as int));
                assert(y@ =~= y@.take(i as int));
                lemma_irreflexive(x@);
            }
        }
        if i < x.len() && i < y.len() {
            if x[i] < y[i] {
                Order::Less
            } else {
                Order::Greater
            }
        } else if i < y.len() {
            Order::Less
        } else if i < x.len() {
            Order::Greater
        } else {
            Order::Same
        }
    }

    fn duplicate(&self) -> (r: Self) {
        OsText { bytes: copy_bytes(&self.bytes) }
    }
}

impl Replica for OsText {
    fn replica(&self) -> (r: Self) {
        OsText { bytes: copy_bytes(&self.bytes) }
    }
}

/// The text of a string.
pub fn os_text(s: &str) -> (r: OsText)
    ensures
        r@ == vstd::utf8::encode_utf8(s@),
{
    let mut bytes: Vec<u8> = Vec::new();
    crate::digest::extend(&mut bytes, s.as_bytes());
    assert(bytes@ =~= vstd::utf8::encode_utf8(s@));
    OsText { bytes }
}

/// How many bytes a character that begins with a byte takes, in UTF-8 that may
/// hold surrogates.
pub open spec fn character_width(first: u8) -> nat {
    if first < 0x80 {
        1
    } else if first < 0xe0 {
        2
    } else if first < 0xf0 {
        3
    } else {
        4
    }
}

/// The number of the character that bytes begin with, in UTF-8 that may hold
/// surrogates. Bytes that break off count as zero.
pub open spec fn character_at(s: Seq<u8>, i: int) -> int {
    let next = |k: int| if i + k < s.len() { s[i + k] as int % 64 } else { 0 };
    if s[i] < 0x80 {
        s[i] as int
    } else if s[i] < 0xe0 {
        (s[i] as int % 32) * 64 + next(1)
    } else if s[i] < 0xf0 {
        (s[i] as int % 16) * 4096 + next(1) * 64 + next(2)
    } else {
        (s[i] as int % 8) * 262144 + next(1) * 4096 + next(2) * 64 + next(3)
    }
}

/// A character in units of sixteen bits.
pub open spec fn character_units(c: int) -> Seq<u16> {
    if c < 0x10000 {
        seq![c as u16]
    } else {
        seq![(0xd800 + (c - 0x10000) / 1024) as u16, (0xdc00 + (c - 0x10000) % 1024) as u16]
    }
}

/// The units of sixteen bits of text in UTF-8 that may hold surrogates, from `i` on.
pub open spec fn wide_from(s: Seq<u8>, i: int) -> Seq<u16>
    decreases s.len() - i,
{
    if i < 0 || i >= s.len() {
        Seq::empty()
    } else {
        let next = i + character_width(s[i]);
        character_units(character_at(s, i)) + wide_from(s, if next < s.len() { next } else { s.len() as int })
    }
}

/// The units of sixteen bits of text in UTF-8 that may hold surrogates.
pub open spec fn wide_units(s: Seq<u8>) -> Seq<u16> {
    wide_from(s, 0)
}

fn low_bits(s: &Vec<u8>, i: usize) -> (r: u32)
    ensures
        r == if i < s@.len() {
            s@[i as int] as int % 64
        } else {
            0
        },
        r < 64,
{
    if i < s.len() {
        (s[i] % 64) as u32
    } else {
        0
    }
}

/// The units of sixteen bits of text in UTF-8 that may hold surrogates.
fn encode_wide(s: &Vec<u8>) -> (r: Vec<u16>)
    ensures
        r@ == wide_units(s@),
{
    let n: usize = s.len();
    let mut r: Vec<u16> = Vec::new();
    let mut i: usize = 0;
    assert(r@ + wide_from(s@, 0) =~= wide_units(s@));
    while i < n
        invariant
            i <= n,
            n == s@.len(),
            r@ + wide_from(s@, i as int) == wide_units(s@),
        decreases n - i,
    {
        let ghost before = r@;
        let ghost at = i as int;
        let b: u8 = s[i];
        let left: usize = n - i;
        let second: u32 = if left > 1 { low_bits(s, i + 1) } else { 0 };
        let third: u32 = if left > 2 { low_bits(s, i + 2) } else { 0 };
        let fourth: u32 = if left > 3 { low_bits(s, i + 3) } else { 0 };
        let (c, width): (u32, usize) = if b < 0x80 {
            (b as u32, 1)
        } else if b < 0xe0 {
            ((b % 32) as u32 * 64 + second, 2)
        } else if b < 0xf0 {
            ((b % 16) as u32 * 4096 + second * 64 + third, 3)
        } else {
            ((b % 8) as u32 * 262144 + second * 4096 + third * 64 + fourth, 4)
        };
        assert(c as int == character_at(s@, at));
        assert(width as nat == character_width(s@[at]));
        if c < 0x10000 {
            r.push(c as u16);
            assert(r@ =~= before + character_units(c as int));
        } else {
            r.push((0xd800 + (c - 0x10000) / 1024) as u16);
            r.push((0xdc00 + (c - 0x10000) % 1024) as u16);
            assert(r@ =~= before + character_units(c as int));
        }
        if left > width {
            i += width;
        } else {
            i = n;
        }
        assert(wide_from(s@, at) == character_units(c as int) + wide_from(s@, i as int));
        assert(before + (character_units(c as int) + wide_from(s@, i as int)) =~= r@ + wide_from(s@, i as int));
    }
    assert(r@ + wide_from(s@, i as int) =~= r@);
    r
}

/// Units of sixteen bits in JSON.
pub open spec fn units_json(units: Seq<u16>) -> JsonView {
    JsonView::Array(Seq::new(units.len(), |i: int| JsonView::Int(units[i] as int)))
}

fn units_value(units: &Vec<u16>) -> (r: Json)
    ensures
        r@ == units_json(units@),
{
    let mut items: Vec<Json> = Vec::new();
    let mut i: usize = 0;
    while i < units.len()
        invariant
            i <= units@.len(),
            items@.len() == i,
            forall|j: int| 0 <= j < i ==> (#[trigger] items@[j])@ == JsonView::Int(units@[j] as int),
        decreases units.len() - i,
    {
        items.push(Json::Unsigned(units[i] as u64));
        i += 1;
    }
    assert(array_view(items@) =~= units_json(units@)->Array_0);
    Json::Array(items)
}

/// Text of the operating system in JSON. What is not Unicode is told by its bytes,
/// and on Windows by its units of sixteen bits.
pub open spec fn os_text_json(bytes: Seq<u8>, windows: bool) -> JsonView {
    if valid_utf8(bytes) {
        JsonView::Object(seq![("utf8"@, JsonView::Text(decode_utf8(bytes)))])
    } else if windows {
        JsonView::Object(seq![("windowsWide"@, units_json(wide_units(bytes)))])
    } else {
        JsonView::Object(seq![("unixBytes"@, JsonView::Text(hex_text(bytes)))])
    }
}

/// Text of the operating system in JSON.
pub fn encode_os_string(value: &OsText, windows: bool) -> (r: Json)
    ensures
        r@ == os_text_json(value@, windows),
{
    match utf8_text(&value.bytes) {
        Some(text) => object1("utf8", Json::Text(text)),
        None => if windows {
            object1("windowsWide", units_value(&encode_wide(&value.bytes)))
        } else {
            object1("unixBytes", Json::Text(hex_encode(&value.bytes)))
        },
    }
}

/// No two texts of an operating system that holds text in bytes have the same form
/// in JSON.
pub proof fn law_os_texts_told_apart(a: Seq<u8>, b: Seq<u8>)
    requires
        os_text_json(a, false) == os_text_json(b, false),
    ensures
        a == b,
{
    reveal_strlit("utf8");
    reveal_strlit("unixBytes");
    let x = os_text_json(a, false)->Object_0[0];
    let y = os_text_json(b, false)->Object_0[0];
    assert("utf8"@.len() != "unixBytes"@.len());
    assert(valid_utf8(a) == valid_utf8(b));
    if valid_utf8(a) {
        vstd::utf8::decode_utf8_encode_utf8(a);
        vstd::utf8::decode_utf8_encode_utf8(b);
        assert(x.1 == JsonView::Text(decode_utf8(a)));
        assert(y.1 == JsonView::Text(decode_utf8(b)));
    } else {
        assert(x.1 == JsonView::Text(hex_text(a)));
        assert(y.1 == JsonView::Text(hex_text(b)));
        law_hex_tells_bytes_apart(a, b);
    }
}

} // verus!
