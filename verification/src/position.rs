//! Positions in documents and the byte offsets that they stand for.

use vstd::prelude::*;
use vstd::utf8::{encode_scalar, encode_utf8};

use crate::text::{chars_of, string_of};

verus! {

/// The unit in which a position counts the characters of a line.
#[derive(Clone, Copy, Debug, PartialEq, Eq, Structural)]
pub enum PositionEncoding {
    Utf8,
    Utf16,
}

impl PositionEncoding {
    /// The name of the encoding in the protocol.
    pub open spec fn name_text(self) -> Seq<char> {
        match self {
            PositionEncoding::Utf8 => "utf-8"@,
            PositionEncoding::Utf16 => "utf-16"@,
        }
    }

    /// The name of the encoding in the protocol.
    pub fn name(self) -> (r: &'static str)
        ensures
            r@ == self.name_text(),
    {
        match self {
            PositionEncoding::Utf8 => "utf-8",
            PositionEncoding::Utf16 => "utf-16",
        }
    }
}

/// A line and a place in it, both from zero.
#[derive(Clone, Copy, Debug, PartialEq, Eq, Structural)]
pub struct ProtocolPosition {
    pub line: u32,
    pub character: u32,
}

/// The number of units that one character takes.
pub open spec fn width(c: char, encoding: PositionEncoding) -> nat {
    match encoding {
        PositionEncoding::Utf8 => encode_scalar(c as u32).len(),
        PositionEncoding::Utf16 => if c as u32 >= 0x10000 { 2 } else { 1 },
    }
}

/// The number of units that a text takes.
pub open spec fn units(s: Seq<char>, encoding: PositionEncoding) -> nat
    decreases s.len(),
{
    if s.len() == 0 {
        0
    } else {
        units(s.drop_last(), encoding) + width(s.last(), encoding)
    }
}

/// The number of bytes that a text takes.
pub open spec fn byte_len(s: Seq<char>) -> nat {
    encode_utf8(s).len()
}

/// The first line break at or after `from`.
pub open spec fn next_break(text: Seq<char>, from: int) -> Option<int>
    decreases text.len() - from,
{
    if from >= text.len() {
        None
    } else if text[from] == '\n' {
        Some(from)
    } else {
        next_break(text, from + 1)
    }
}

/// The place just behind the `n`th line break; the start of the text for none.
pub open spec fn line_start(text: Seq<char>, n: nat) -> Option<int>
    decreases n,
{
    if n == 0 {
        Some(0)
    } else {
        match line_start(text, (n - 1) as nat) {
            Some(start) => match next_break(text, start) {
                Some(b) => Some(b + 1),
                None => None,
            },
            None => None,
        }
    }
}

/// The line that begins at `start`, without its line break.
pub open spec fn line_at(text: Seq<char>, start: int) -> Seq<char> {
    let end = match next_break(text, start) {
        Some(b) => b,
        None => text.len() as int,
    };
    let line = text.subrange(start, end);
    if line.len() > 0 && line.last() == '\r' {
        line.drop_last()
    } else {
        line
    }
}

/// Whether the first `k` characters of a line take `column` units.
pub open spec fn column_is(line: Seq<char>, k: int, column: nat, encoding: PositionEncoding) -> bool {
    0 <= k <= line.len() && units(line.take(k), encoding) == column
}

/// The number of characters of a line that take `column` units, if some do.
pub open spec fn column_index(line: Seq<char>, column: nat, encoding: PositionEncoding) -> Option<int> {
    if exists|k: int| column_is(line, k, column, encoding) {
        Some(choose|k: int| column_is(line, k, column, encoding))
    } else {
        None
    }
}

/// The byte offset in a line of the place `column`.
pub open spec fn column_offset(line: Seq<char>, column: nat, encoding: PositionEncoding) -> Option<nat> {
    match column_index(line, column, encoding) {
        Some(k) => Some(byte_len(line.take(k))),
        None => None,
    }
}

/// The byte offset in a text of a position. The empty line behind a final line
/// break counts as a line.
pub open spec fn position_offset(text: Seq<char>, line: nat, column: nat, encoding: PositionEncoding) -> Option<nat> {
    match line_start(text, line) {
        Some(start) => match column_offset(line_at(text, start), column, encoding) {
            Some(offset) => Some(byte_len(text.take(start)) + offset),
            None => None,
        },
        None => None,
    }
}

/// Encoding distributes over concatenation.
pub proof fn lemma_encode_concat(a: Seq<char>, b: Seq<char>)
    ensures
        encode_utf8(a + b) == encode_utf8(a) + encode_utf8(b),
    decreases a.len(),
{
    if a.len() == 0 {
        assert(a + b =~= b);
        assert(encode_utf8(a) + encode_utf8(b) =~= encode_utf8(b));
    } else {
        lemma_encode_concat(a.drop_first(), b);
        assert((a + b).drop_first() =~= a.drop_first() + b);
        assert(encode_utf8(a + b) =~= encode_utf8(a) + encode_utf8(b));
    }
}

/// In UTF-8 the units of a text are its bytes.
pub proof fn lemma_utf8_units(s: Seq<char>)
    ensures
        units(s, PositionEncoding::Utf8) == byte_len(s),
    decreases s.len(),
{
    if s.len() > 0 {
        lemma_utf8_units(s.drop_last());
        let last = seq![s.last()];
        lemma_encode_concat(s.drop_last(), last);
        assert(s =~= s.drop_last() + last);
        assert(last.drop_first() =~= Seq::<char>::empty());
        assert(encode_utf8(last) =~= encode_scalar(last[0] as u32)) by {
            reveal_with_fuel(encode_utf8, 2);
        }
    }
}

proof fn lemma_units_grow(s: Seq<char>, j: int, k: int, encoding: PositionEncoding)
    requires
        0 <= j < k <= s.len(),
    ensures
        units(s.take(j), encoding) < units(s.take(k), encoding),
    decreases k - j,
{
    assert(s.take(k).drop_last() =~= s.take(k - 1));
    assert(width(s.take(k).last(), encoding) > 0);
    if j < k - 1 {
        lemma_units_grow(s, j, k - 1, encoding);
    }
}

proof fn lemma_column_unique(line: Seq<char>, k: int, column: nat, encoding: PositionEncoding)
    requires
        column_is(line, k, column, encoding),
    ensures
        column_index(line, column, encoding) == Some(k),
{
    let c = choose|c: int| column_is(line, c, column, encoding);
    assert(column_is(line, c, column, encoding));
    if c < k {
        lemma_units_grow(line, c, k, encoding);
    } else if k < c {
        lemma_units_grow(line, k, c, encoding);
    }
}

proof fn lemma_column_absent(line: Seq<char>, k: int, column: nat, encoding: PositionEncoding)
    requires
        0 <= k <= line.len(),
        k == 0 || units(line.take(k - 1), encoding) < column,
        k < line.len() ==> units(line.take(k), encoding) > column,
        k == line.len() ==> units(line.take(k), encoding) != column,
        units(line.take(k), encoding) > column || k == line.len(),
    ensures
        column_index(line, column, encoding) is None,
{
    if exists|c: int| column_is(line, c, column, encoding) {
        let c = choose|c: int| column_is(line, c, column, encoding);
        if c < k {
            if c < k - 1 {
                lemma_units_grow(line, c, k - 1, encoding);
            }
        } else if c > k {
            lemma_units_grow(line, k, c, encoding);
        }
    }
}

/// The number of units that a character takes.
pub fn char_width(c: char, encoding: PositionEncoding) -> (r: usize)
    ensures
        r == width(c, encoding),
        1 <= r <= 4,
{
    let v: u32 = c as u32;
    match encoding {
        PositionEncoding::Utf8 => {
            if v <= 0x7f {
                1
            } else if v <= 0x7ff {
                2
            } else if v <= 0xffff {
                3
            } else {
                4
            }
        },
        PositionEncoding::Utf16 => if v >= 0x10000 { 2 } else { 1 },
    }
}

proof fn lemma_units_bound(s: Seq<char>, k: int, encoding: PositionEncoding)
    requires
        0 <= k <= s.len(),
    ensures
        units(s.take(k), encoding) <= byte_len(s),
        byte_len(s.take(k)) <= byte_len(s),
{
    lemma_encode_concat(s.take(k), s.skip(k));
    assert(s =~= s.take(k) + s.skip(k));
    lemma_units_at_most_bytes(s.take(k), encoding);
}

proof fn lemma_units_at_most_bytes(s: Seq<char>, encoding: PositionEncoding)
    ensures
        units(s, encoding) <= byte_len(s),
    decreases s.len(),
{
    lemma_utf8_units(s);
    if s.len() > 0 {
        lemma_units_at_most_bytes(s.drop_last(), encoding);
        lemma_utf8_units(s.drop_last());
    }
}

/// The byte offset in a line of the place `character`.
pub fn offset_in_line(line: &str, character: u32, encoding: PositionEncoding) -> (r: Option<usize>)
    ensures
        match r {
            Some(offset) => column_offset(line@, character as nat, encoding) == Some(offset as nat),
            None => column_offset(line@, character as nat, encoding) is None,
        },
{
    let c: Vec<char> = chars_of(line);
    let bytes: usize = line.as_bytes().len();
    let wanted: u64 = character as u64;
    let mut seen: usize = 0;
    let mut offset: usize = 0;
    let mut i: usize = 0;
    assert(line@.take(0) =~= Seq::<char>::empty());
    while i < c.len() && (seen as u64) < wanted
        invariant
            c@ == line@,
            bytes == byte_len(line@),
            wanted == character,
            i <= c.len(),
            seen == units(line@.take(i as int), encoding),
            offset == byte_len(line@.take(i as int)),
            i > 0 ==> units(line@.take(i - 1), encoding) < wanted,
        decreases c.len() - i,
    {
        proof {
            lemma_units_bound(line@, i + 1, encoding);
            assert(line@.take(i + 1).drop_last() =~= line@.take(i as int));
            lemma_utf8_units(line@.take(i as int));
            lemma_utf8_units(line@.take(i + 1));
        }
        seen += char_width(c[i], encoding);
        offset += char_width(c[i], PositionEncoding::Utf8);
        i += 1;
    }
    if seen as u64 == wanted {
        proof {
            assert(column_is(line@, i as int, character as nat, encoding));
            lemma_column_unique(line@, i as int, character as nat, encoding);
        }
        Some(offset)
    } else {
        proof {
            lemma_column_absent(line@, i as int, character as nat, encoding);
        }
        None
    }
}

proof fn lemma_next_break_from(text: Seq<char>, from: int, i: int)
    requires
        0 <= from <= i <= text.len(),
        forall|j: int| from <= j < i ==> #[trigger] text[j] != '\n',
    ensures
        next_break(text, from) == next_break(text, i),
    decreases i - from,
{
    if from < i {
        lemma_next_break_from(text, from + 1, i);
    }
}

fn find_break(c: &Vec<char>, from: usize) -> (r: Option<usize>)
    requires
        from <= c@.len(),
    ensures
        match r {
            Some(b) => next_break(c@, from as int) == Some(b as int) && from <= b < c@.len(),
            None => next_break(c@, from as int) is None,
        },
{
    let mut i: usize = from;
    while i < c.len()
        invariant
            from <= i <= c@.len(),
            forall|j: int| from <= j < i ==> #[trigger] c@[j] != '\n',
        decreases c.len() - i,
    {
        if c[i] == '\n' {
            proof { lemma_next_break_from(c@, from as int, i as int); }
            return Some(i);
        }
        i += 1;
    }
    proof { lemma_next_break_from(c@, from as int, i as int); }
    None
}

proof fn lemma_line_start_absent(text: Seq<char>, m: nat, n: nat)
    requires
        m <= n,
        line_start(text, m) is None,
    ensures
        line_start(text, n) is None,
    decreases n - m,
{
    if m < n {
        lemma_line_start_absent(text, m, (n - 1) as nat);
    }
}

/// Where a line begins and where it ends, without its line break.
fn line_bounds(c: &Vec<char>, line: u32) -> (r: Option<(usize, usize)>)
    ensures
        match r {
            Some((start, end)) => line_start(c@, line as nat) == Some(start as int) && start <= end <= c@.len()
                && line_at(c@, start as int) == c@.subrange(start as int, end as int),
            None => line_start(c@, line as nat) is None,
        },
{
    let length: usize = c.len();
    let mut start: usize = 0;
    let mut n: u32 = 0;
    while n < line
        invariant
            length == c@.len(),
            n <= line,
            start <= c@.len(),
            line_start(c@, n as nat) == Some(start as int),
        decreases line - n,
    {
        match find_break(c, start) {
            Some(b) => {
                start = b + 1;
                n += 1;
            },
            None => {
                proof {
                    assert(line_start(c@, (n + 1) as nat) is None);
                    lemma_line_start_absent(c@, (n + 1) as nat, line as nat);
                }
                return None;
            },
        }
    }
    let end: usize = match find_break(c, start) {
        Some(b) => b,
        None => c.len(),
    };
    let end: usize = if end > start && c[end - 1] == '\r' { end - 1 } else { end };
    assert(c@.subrange(start as int, end as int) =~= line_at(c@, start as int));
    Some((start, end))
}

/// The byte offset in `text` of a position.
pub fn position_to_offset(text: &str, position: ProtocolPosition, encoding: PositionEncoding) -> (r: Option<usize>)
    ensures
        match r {
            Some(offset) => position_offset(text@, position.line as nat, position.character as nat, encoding)
                == Some(offset as nat),
            None => position_offset(text@, position.line as nat, position.character as nat, encoding) is None,
        },
{
    let c: Vec<char> = chars_of(text);
    let bytes: usize = text.as_bytes().len();
    let (start, end): (usize, usize) = match line_bounds(&c, position.line) {
        Some(bounds) => bounds,
        None => {
            return None;
        },
    };
    let content: String = string_of(&c, start, end);
    assert(content@ =~= line_at(text@, start as int));
    let before: String = string_of(&c, 0, start);
    assert(before@ =~= text@.take(start as int));
    match offset_in_line(content.as_str(), position.character, encoding) {
        Some(offset) => {
            proof {
                let k = column_index(content@, position.character as nat, encoding)->0;
                assert(column_is(content@, k, position.character as nat, encoding));
                assert(text@.take(start as int) + content@.take(k) =~= text@.take(start + k));
                lemma_encode_concat(text@.take(start as int), content@.take(k));
                lemma_units_bound(text@, start + k, encoding);
            }
            let base: usize = before.as_str().as_bytes().len();
            Some(base + offset)
        },
        None => None,
    }
}

/// The column in units of a column in characters. A column lies within its line
/// or at its end.
pub open spec fn source_character(text: Seq<char>, line: nat, column: nat, encoding: PositionEncoding) -> Option<nat> {
    match line_start(text, line) {
        Some(start) => {
            let content = line_at(text, start);
            if column <= content.len() && units(content.take(column as int), encoding) <= u32::MAX {
                Some(units(content.take(column as int), encoding))
            } else {
                None
            }
        },
        None => None,
    }
}

/// The position in the protocol of a line and a column in characters.
pub open spec fn resolved_position(text: Seq<char>, line: u32, column: u32, encoding: PositionEncoding) -> Option<
    ProtocolPosition,
> {
    match source_character(text, line as nat, column as nat, encoding) {
        Some(character) => Some(ProtocolPosition { line, character: character as u32 }),
        None => None,
    }
}

/// The position in the protocol of a line and a column in characters.
pub fn resolve_source_position(text: &str, line: u32, column: u32, encoding: PositionEncoding) -> (r: Option<
    ProtocolPosition,
>)
    ensures
        r == resolved_position(text@, line, column, encoding),
{
    let c: Vec<char> = chars_of(text);
    let (start, end): (usize, usize) = match line_bounds(&c, line) {
        Some(bounds) => bounds,
        None => {
            return None;
        },
    };
    let ghost content = line_at(text@, start as int);
    let wanted: u64 = column as u64;
    if wanted > (end - start) as u64 {
        return None;
    }
    let mut seen: u64 = 0;
    let mut i: u64 = 0;
    assert(content.take(0) =~= Seq::<char>::empty());
    while i < wanted
        invariant
            c@ == text@,
            i <= wanted <= content.len(),
            wanted == column,
            start <= end <= c@.len(),
            content == text@.subrange(start as int, end as int),
            seen == units(content.take(i as int), encoding),
            seen <= 4 * i,
        decreases wanted - i,
    {
        assert(content.take(i + 1).drop_last() =~= content.take(i as int));
        assert(content.take(i + 1).last() == content[i as int]);
        let at: usize = start + i as usize;
        let w: usize = char_width(c[at], encoding);
        seen += w as u64;
        i += 1;
    }
    if seen > 0xffff_ffff {
        return None;
    }
    Some(ProtocolPosition { line, character: seen as u32 })
}

/// A position that a line and a column in characters resolve to stands in the
/// text behind that many characters of the line.
pub proof fn law_resolved_position_is_found(text: Seq<char>, line: nat, column: nat, encoding: PositionEncoding)
    requires
        source_character(text, line, column, encoding) is Some,
    ensures
        position_offset(text, line, source_character(text, line, column, encoding)->0, encoding) == Some(
            byte_len(text.take(line_start(text, line)->0 + column)),
        ),
{
    let start = line_start(text, line)->0;
    lemma_line_start_range(text, line);
    let content = line_at(text, start);
    lemma_line_at_range(text, start);
    let character = source_character(text, line, column, encoding)->0;
    assert(column_is(content, column as int, character, encoding));
    lemma_column_unique(content, column as int, character, encoding);
    assert(text.take(start) + content.take(column as int) =~= text.take(start + column));
    lemma_encode_concat(text.take(start), content.take(column as int));
}

/// A position that has an offset stands between two characters of the text.
pub proof fn law_position_is_character_boundary(text: Seq<char>, line: nat, column: nat, encoding: PositionEncoding)
    requires
        position_offset(text, line, column, encoding) is Some,
    ensures
        exists|k: int|
            0 <= k <= text.len() && position_offset(text, line, column, encoding) == Some(
                #[trigger] byte_len(text.take(k)),
            ),
{
    let start = line_start(text, line)->0;
    lemma_line_start_range(text, line);
    let content = line_at(text, start);
    lemma_line_at_range(text, start);
    let k = column_index(content, column, encoding)->0;
    assert(column_is(content, k, column, encoding));
    assert(text.take(start) + content.take(k) =~= text.take(start + k));
    lemma_encode_concat(text.take(start), content.take(k));
    assert(position_offset(text, line, column, encoding) == Some(byte_len(text.take(start + k))));
}

proof fn lemma_next_break_range(text: Seq<char>, from: int)
    requires
        0 <= from <= text.len(),
    ensures
        next_break(text, from) matches Some(b) ==> from <= b < text.len(),
    decreases text.len() - from,
{
    if from < text.len() && text[from] != '\n' {
        lemma_next_break_range(text, from + 1);
    }
}

proof fn lemma_line_start_range(text: Seq<char>, n: nat)
    ensures
        line_start(text, n) matches Some(start) ==> 0 <= start <= text.len(),
    decreases n,
{
    if n > 0 {
        lemma_line_start_range(text, (n - 1) as nat);
        if let Some(start) = line_start(text, (n - 1) as nat) {
            lemma_next_break_range(text, start);
        }
    }
}

proof fn lemma_line_at_range(text: Seq<char>, start: int)
    requires
        0 <= start <= text.len(),
    ensures
        start + line_at(text, start).len() <= text.len(),
        line_at(text, start) == text.subrange(start, start + line_at(text, start).len()),
        next_break(text, start) matches Some(b) ==> start + line_at(text, start).len() <= b,
{
    lemma_next_break_range(text, start);
    let n = line_at(text, start).len();
    assert(line_at(text, start) =~= text.subrange(start, start + n));
}

proof fn lemma_line_start_later(text: Seq<char>, m: nat, n: nat)
    requires
        m < n,
        line_start(text, n) is Some,
    ensures
        line_start(text, m) is Some,
        next_break(text, line_start(text, m)->0) is Some,
        next_break(text, line_start(text, m)->0)->0 < line_start(text, n)->0,
    decreases n - m,
{
    if line_start(text, m) is None {
        lemma_line_start_absent(text, m, n);
    }
    if m + 1 < n {
        lemma_line_start_later(text, m + 1, n);
        lemma_line_start_range(text, m + 1);
        lemma_next_break_range(text, line_start(text, m + 1)->0);
    }
}

/// No position lies beyond the end of the text.
pub proof fn lemma_position_bound(text: Seq<char>, line: nat, column: nat, encoding: PositionEncoding)
    ensures
        position_offset(text, line, column, encoding) matches Some(offset) ==> offset <= byte_len(text),
{
    if position_offset(text, line, column, encoding) is Some {
        law_position_is_character_boundary(text, line, column, encoding);
        let k = choose|k: int|
            0 <= k <= text.len() && position_offset(text, line, column, encoding) == Some(
                #[trigger] byte_len(text.take(k)),
            );
        lemma_units_bound(text, k, encoding);
    }
}

/// Later positions have later offsets.
pub proof fn law_offsets_follow_positions(
    text: Seq<char>,
    line_a: nat,
    column_a: nat,
    line_b: nat,
    column_b: nat,
    encoding: PositionEncoding,
)
    requires
        line_a < line_b || line_a == line_b && column_a <= column_b,
        position_offset(text, line_a, column_a, encoding) is Some,
        position_offset(text, line_b, column_b, encoding) is Some,
    ensures
        position_offset(text, line_a, column_a, encoding)->0 <= position_offset(text, line_b, column_b, encoding)->0,
{
    let sa = line_start(text, line_a)->0;
    let sb = line_start(text, line_b)->0;
    lemma_line_start_range(text, line_a);
    lemma_line_start_range(text, line_b);
    lemma_line_at_range(text, sa);
    lemma_line_at_range(text, sb);
    let la = line_at(text, sa);
    let lb = line_at(text, sb);
    let ka = column_index(la, column_a, encoding)->0;
    let kb = column_index(lb, column_b, encoding)->0;
    assert(column_is(la, ka, column_a, encoding));
    assert(column_is(lb, kb, column_b, encoding));
    if line_a < line_b {
        lemma_line_start_later(text, line_a, line_b);
    } else if kb < ka {
        lemma_units_grow(la, kb, ka, encoding);
    }
    assert(text.take(sa) + la.take(ka) =~= text.take(sa + ka));
    assert(text.take(sb) + lb.take(kb) =~= text.take(sb + kb));
    lemma_encode_concat(text.take(sa), la.take(ka));
    lemma_encode_concat(text.take(sb), lb.take(kb));
    let whole = text.take(sb + kb);
    assert(whole.take(sa + ka) =~= text.take(sa + ka));
    lemma_units_bound(whole, sa + ka, encoding);
}

/// How many line breaks a text holds.
pub open spec fn breaks(text: Seq<char>) -> nat
    decreases text.len(),
{
    if text.len() == 0 {
        0
    } else {
        breaks(text.drop_last()) + if text.last() == '\n' {
            1nat
        } else {
            0nat
        }
    }
}

proof fn lemma_break_is_first(text: Seq<char>, from: int)
    requires
        0 <= from <= text.len(),
    ensures
        match next_break(text, from) {
            Some(b) => from <= b < text.len() && text[b] == '\n' && forall|k: int| from <= k < b ==> #[trigger] text[k]
                != '\n',
            None => forall|k: int| from <= k < text.len() ==> #[trigger] text[k] != '\n',
        },
    decreases text.len() - from,
{
    if from < text.len() && text[from] != '\n' {
        lemma_break_is_first(text, from + 1);
    }
}

proof fn lemma_no_more_breaks(text: Seq<char>, a: int, b: int)
    requires
        0 <= a <= b <= text.len(),
        forall|k: int| a <= k < b ==> #[trigger] text[k] != '\n',
    ensures
        breaks(text.take(b)) == breaks(text.take(a)),
    decreases b - a,
{
    if a < b {
        lemma_no_more_breaks(text, a, b - 1);
        assert(text.take(b).drop_last() =~= text.take(b - 1));
        assert(text.take(b).last() == text[b - 1]);
    }
}

/// A line starts behind as many line breaks as its number says, at the start of
/// the text or right behind one of them; its content holds none, and reaches to
/// the next one or to the end, less a carriage return there. There is such a
/// line exactly where the text has that many line breaks.
pub proof fn law_lines_lie_between_breaks(text: Seq<char>, n: nat)
    ensures
        line_start(text, n) matches Some(start) ==> {
            let content = line_at(text, start);
            let end = start + content.len();
            &&& 0 <= start <= end <= text.len()
            &&& breaks(text.take(start)) == n
            &&& start == 0 || text[start - 1] == '\n'
            &&& content == text.subrange(start, end)
            &&& forall|k: int| start <= k < end ==> #[trigger] text[k] != '\n'
            &&& end == text.len() || text[end] == '\n' || text[end] == '\r' && (end + 1 == text.len() || text[end + 1]
                == '\n')
            &&& content.len() > 0 && (end == text.len() || text[end] == '\n') ==> content.last() != '\r'
        },
        line_start(text, n) is Some <==> n <= breaks(text),
    decreases n,
{
    if n > 0 {
        law_lines_lie_between_breaks(text, (n - 1) as nat);
        if let Some(before) = line_start(text, (n - 1) as nat) {
            lemma_break_is_first(text, before);
            match next_break(text, before) {
                Some(b) => {
                    lemma_no_more_breaks(text, before, b);
                    assert(text.take(b + 1).drop_last() =~= text.take(b));
                    assert(text.take(b + 1).last() == '\n');
                    assert(breaks(text.take(b + 1)) == n);
                    lemma_breaks_grow(text, b + 1);
                },
                None => {
                    lemma_no_more_breaks(text, before, text.len() as int);
                    assert(text.take(text.len() as int) =~= text);
                },
            }
        }
    } else {
        assert(text.take(0) =~= Seq::<char>::empty());
    }
    if let Some(start) = line_start(text, n) {
        lemma_line_start_range(text, n);
        lemma_break_is_first(text, start);
        lemma_line_at_range(text, start);
        let end = match next_break(text, start) {
            Some(b) => b,
            None => text.len() as int,
        };
        let whole = text.subrange(start, end);
        if whole.len() > 0 {
            assert(whole.last() == text[end - 1]);
            if whole.len() > 1 {
                assert(whole.drop_last().last() == text[end - 2]);
            }
        }
    }
}

proof fn lemma_breaks_grow(text: Seq<char>, k: int)
    requires
        0 <= k <= text.len(),
    ensures
        breaks(text.take(k)) <= breaks(text),
    decreases text.len() - k,
{
    if k < text.len() {
        lemma_breaks_grow(text, k + 1);
        assert(text.take(k + 1).drop_last() =~= text.take(k));
    } else {
        assert(text.take(k) =~= text);
    }
}

/// A character takes as many units as it takes bytes in the one encoding; in the
/// other it takes one, but for those that take four bytes, which take two.
pub proof fn law_characters_take_their_units(c: char)
    ensures
        width(c, PositionEncoding::Utf8) == byte_len(seq![c]),
        width(c, PositionEncoding::Utf16) == (if byte_len(seq![c]) == 4 {
            2nat
        } else {
            1nat
        }),
        1 <= byte_len(seq![c]) <= 4,
{
    reveal_with_fuel(vstd::utf8::encode_utf8, 2);
    let one = seq![c];
    assert(one.drop_first() =~= Seq::<char>::empty());
    assert(encode_utf8(one) =~= encode_scalar(c as u32) + encode_utf8(Seq::<char>::empty()));
    assert(encode_utf8(one) =~= encode_scalar(c as u32));
}

/// The units of two texts together are those of the one and of the other.
pub proof fn law_units_add_up(a: Seq<char>, b: Seq<char>, encoding: PositionEncoding)
    ensures
        units(a + b, encoding) == units(a, encoding) + units(b, encoding),
        units(seq![], encoding) == 0,
    decreases b.len(),
{
    if b.len() == 0 {
        assert(a + b =~= a);
    } else {
        law_units_add_up(a, b.drop_last(), encoding);
        assert((a + b).drop_last() =~= a + b.drop_last());
        assert((a + b).last() == b.last());
    }
}

} // verus!
