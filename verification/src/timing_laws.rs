//! What durations and numbers in text stand for.

use vstd::prelude::*;

use crate::config_checks::{duration_parts, valid_duration};
use crate::owner::duration_text;
use crate::text::{
    all_digits,
    decimal_text,
    decimal_value,
    digit_value,
    is_digit,
    lemma_decimal_round_trip,
    parsed_unsigned,
};
use crate::timing::{count_before, duration_of, seconds_in};

verus! {

/// A number that is spelled in decimal is read as that number, with a plus sign
/// before it or without, where it is within the limit.
pub proof fn law_spelled_numbers_are_read(n: nat, limit: nat)
    ensures
        parsed_unsigned(decimal_text(n), limit) == (if n <= limit {
            Some(n)
        } else {
            None
        }),
        parsed_unsigned(seq!['+'] + decimal_text(n), limit) == parsed_unsigned(decimal_text(n), limit),
        parsed_unsigned(seq![], limit) is None,
        parsed_unsigned(seq!['-'] + decimal_text(n), limit) is None,
{
    lemma_decimal_round_trip(n);
    let digits = decimal_text(n);
    assert(is_digit(digits[0]));
    assert((seq!['+'] + digits).drop_first() =~= digits);
    let negative = seq!['-'] + digits;
    assert(negative[0] == '-');
    assert(!is_digit(negative[0]));
}

/// A digit behind a number makes ten times the number and the digit.
pub proof fn law_digits_count_by_ten(s: Seq<char>, c: char, limit: nat)
    requires
        s.len() > 0,
        s[0] != '+',
    ensures
        parsed_unsigned(s.push(c), limit) matches Some(n) ==> is_digit(c) && (parsed_unsigned(s, limit) matches Some(m)
            && n == 10 * m + digit_value(c)),
        !is_digit(c) ==> parsed_unsigned(s.push(c), limit) is None,
{
    let t = s.push(c);
    assert(t[0] == s[0]);
    assert(t.drop_last() =~= s);
    assert(t.last() == c);
    if all_digits(t) {
        assert(is_digit(t[s.len() as int]));
        assert forall|i: int| 0 <= i < s.len() implies is_digit(#[trigger] s[i]) by {
            assert(is_digit(t[i]));
        }
        assert(decimal_value(t) == decimal_value(s) * 10 + digit_value(c));
    }
    assert(t[s.len() as int] == c);
}

proof fn lemma_with_unit(number: Seq<char>, unit: Seq<char>)
    ensures
        unit.is_suffix_of(number + unit),
        count_before(number + unit, unit) == parsed_unsigned(number, u64::MAX as nat),
{
    let text = number + unit;
    assert(text.take(text.len() - unit.len()) =~= number);
    assert(text.subrange(text.len() - unit.len(), text.len() as int) =~= unit);
}

/// A duration is its number in milliseconds, in seconds of a thousand
/// milliseconds or in minutes of sixty seconds, by its unit; without one of
/// these units it is none. A number of no digits is none either.
pub proof fn law_durations_count_in_their_unit(number: Seq<char>)
    requires
        number.len() > 0,
        is_digit(number.last()),
    ensures
        duration_of(number + "ms"@) == parsed_unsigned(number, u64::MAX as nat),
        duration_of(number + "s"@) == (match parsed_unsigned(number, u64::MAX as nat) {
            Some(n) => Some(1000 * n),
            None => None,
        }),
        parsed_unsigned(number, u64::MAX as nat) matches Some(n) ==> 60 * n <= u64::MAX ==> duration_of(number + "m"@)
            == Some(n * 60 * 1000),
        duration_of(number) is None,
{
    reveal_strlit("ms");
    reveal_strlit("s");
    reveal_strlit("m");
    let ms = number + "ms"@;
    let s = number + "s"@;
    let m = number + "m"@;
    lemma_with_unit(number, "ms"@);
    lemma_with_unit(number, "s"@);
    lemma_with_unit(number, "m"@);
    assert("ms"@.len() == 2 && "ms"@[0] == 'm' && "ms"@[1] == 's' && "s"@.len() == 1 && "s"@[0] == 's' && "m"@.len()
        == 1 && "m"@[0] == 'm');
    if "ms"@.is_suffix_of(s) {
        assert(s.subrange(s.len() - 2, s.len() as int)[0] == s[s.len() - 2]);
        assert(s[s.len() - 2] == number.last());
    }
    if "ms"@.is_suffix_of(m) {
        assert(m.subrange(m.len() - 2, m.len() as int)[1] == m[m.len() - 1]);
    }
    if "s"@.is_suffix_of(m) {
        assert(m.subrange(m.len() - 1, m.len() as int)[0] == m[m.len() - 1]);
    }
    if let Some(n) = parsed_unsigned(number, u64::MAX as nat) {
        assert(count_before(m, "m"@) == Some(n));
        assert(!"ms"@.is_suffix_of(m) && !"s"@.is_suffix_of(m));
        if 60 * n <= u64::MAX {
            assert(seconds_in(n) == n * 60);
            assert(duration_of(m) == Some(seconds_in(n) * 1000));
        }
    }
    if "ms"@.is_suffix_of(number) {
        assert(number.subrange(number.len() - 2, number.len() as int)[1] == number.last());
    }
    if "s"@.is_suffix_of(number) {
        assert(number.subrange(number.len() - 1, number.len() as int)[0] == number.last());
    }
    if "m"@.is_suffix_of(number) {
        assert(number.subrange(number.len() - 1, number.len() as int)[0] == number.last());
    }
}

/// A duration that a configuration may declare is the one that is waited for,
/// is longer than nothing, and is refused nowhere else.
pub proof fn law_declared_durations_are_waited_for(value: Seq<char>, field: Seq<char>)
    ensures
        valid_duration(value, field) matches Ok(n) ==> n > 0 && duration_of(value) == Some(n),
        valid_duration(value, field) is Err ==> duration_of(value) is None || duration_of(value) == Some(0nat)
            || duration_of(value)->0 > u64::MAX || "m"@.is_suffix_of(value),
{
    if let Some((Some(n), unit)) = duration_parts(value) {
        if unit == 1 {
            assert(n * unit == n) by (nonlinear_arith)
                requires
                    unit == 1,
            ;
        } else if unit == 1000 {
            assert(n * unit == n * 1000) by (nonlinear_arith)
                requires
                    unit == 1000,
            ;
        } else {
            assert(n * unit == n * 60 * 1000) by (nonlinear_arith)
                requires
                    unit == 60000,
            ;
        }
    }
}

/// A duration that is spelled out is read back in whole milliseconds.
pub proof fn law_spelled_durations_are_read(nanos: nat)
    requires
        nanos / 1_000_000 <= u64::MAX,
    ensures
        duration_of(duration_text(nanos)) == Some(nanos / 1_000_000),
{
    let ms = nanos / 1_000_000;
    lemma_decimal_round_trip(ms);
    lemma_decimal_round_trip(ms / 1000);
    law_spelled_numbers_are_read(ms, u64::MAX as nat);
    law_spelled_numbers_are_read(ms / 1000, u64::MAX as nat);
    assert(is_digit(decimal_text(ms)[decimal_text(ms).len() - 1]));
    assert(is_digit(decimal_text(ms / 1000)[decimal_text(ms / 1000).len() - 1]));
    law_durations_count_in_their_unit(decimal_text(ms));
    law_durations_count_in_their_unit(decimal_text(ms / 1000));
}

} // verus!
