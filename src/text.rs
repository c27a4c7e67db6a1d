//! Decimal text: what the ISO 8601 fields read and write, and the calls into
//! std that parse and build strings.
use core::num::ParseIntError;
use vstd::arithmetic::div_mod::{lemma_div_denominator, lemma_mod_breakdown};
use vstd::prelude::*;
use vstd::string::StringSliceAdditionalSpecFns;

verus! {

/// Error of std's integer parsing, carried as the cause of a parse failure.
#[verifier::external_type_specification]
#[verifier::external_body]
pub struct ExParseIntError(ParseIntError);

/// ASCII code of the decimal digit `v` (0 to 9).
pub open spec fn digit_byte(v: int) -> u8 {
    (v + 48) as u8
}

/// Whether `b` is the ASCII code of a decimal digit.
pub open spec fn is_digit(b: u8) -> bool {
    48 <= b <= 57
}

/// Whether every byte of `s` is a decimal digit.
pub open spec fn all_digits(s: Seq<u8>) -> bool {
    forall|i: int| 0 <= i < s.len() ==> is_digit(#[trigger] s[i])
}

/// Value of the decimal digits `s`, most significant first.
pub open spec fn digits_value(s: Seq<u8>) -> int
    decreases s.len(),
{
    if s.len() == 0 {
        0
    } else {
        digits_value(s.drop_last()) * 10 + (s.last() - 48)
    }
}

/// What std reads as an unsigned integer: an optional `+` and then at least
/// one decimal digit; `None` for any other text.
pub open spec fn unsigned_decimal(s: Seq<u8>) -> Option<int> {
    if s.len() > 1 && s[0] == 43 && all_digits(s.drop_first()) {
        Some(digits_value(s.drop_first()))
    } else if s.len() > 0 && all_digits(s) {
        Some(digits_value(s))
    } else {
        None
    }
}

/// Whether std parses `s` to an unsigned integer of at most `max`.
pub open spec fn parses_within(s: Seq<u8>, max: int) -> bool {
    unsigned_decimal(s) is Some && unsigned_decimal(s)->0 <= max
}

/// The last `w` decimal digits of `v`, zero-padded on the left.
pub open spec fn padded_digits(v: nat, w: nat) -> Seq<u8>
    decreases w,
{
    if w == 0 {
        seq![]
    } else {
        padded_digits(v / 10, (w - 1) as nat).push(digit_byte((v % 10) as int))
    }
}

/// The decimal digits of `v`, without leading zeros.
pub open spec fn decimal_digits(v: nat) -> Seq<u8>
    decreases v,
{
    if v < 10 {
        seq![digit_byte(v as int)]
    } else {
        decimal_digits(v / 10).push(digit_byte((v % 10) as int))
    }
}

/// `10` to the power `e`.
pub open spec fn pow10(e: nat) -> nat
    decreases e,
{
    if e == 0 {
        1
    } else {
        10 * pow10((e - 1) as nat)
    }
}

/// `padded_digits(v, w)` has `w` decimal digits.
pub proof fn lemma_padded_digits(v: nat, w: nat)
    ensures
        padded_digits(v, w).len() == w,
        all_digits(padded_digits(v, w)),
    decreases w,
{
    if w > 0 {
        lemma_padded_digits(v / 10, (w - 1) as nat);
    }
}

/// The decimal digits of `v` are digits; four of them for `v` in `1000..=9999`,
/// at least four from 1000 on.
pub proof fn lemma_decimal_digits_len(v: nat)
    ensures
        all_digits(decimal_digits(v)),
        decimal_digits(v).len() >= 1,
        10 <= v < 100 ==> decimal_digits(v).len() == 2,
        100 <= v < 1000 ==> decimal_digits(v).len() == 3,
        100 <= v ==> decimal_digits(v).len() >= 3,
        1000 <= v ==> decimal_digits(v).len() >= 4,
        1000 <= v <= 9999 ==> decimal_digits(v).len() == 4,
    decreases v,
{
    if v >= 10 {
        lemma_decimal_digits_len(v / 10);
    }
}

/// `10^(a + b) == 10^a * 10^b`.
pub proof fn lemma_pow10_add(a: nat, b: nat)
    ensures
        pow10(a + b) == pow10(a) * pow10(b),
    decreases a,
{
    if a > 0 {
        lemma_pow10_add((a - 1) as nat, b);
        assert(pow10(a + b) == 10 * pow10((a - 1 + b) as nat));
        assert(pow10(a) == 10 * pow10((a - 1) as nat));
        assert(10 * (pow10((a - 1) as nat) * pow10(b)) == (10 * pow10((a - 1) as nat)) * pow10(b))
            by (nonlinear_arith);
    } else {
        assert(pow10(a) == 1);
        assert(a + b == b);
    }
}

/// `n` decimal digits hold a value below `10^n`.
pub proof fn lemma_digits_value_bound(s: Seq<u8>)
    requires
        all_digits(s),
    ensures
        0 <= digits_value(s) < pow10(s.len()),
    decreases s.len(),
{
    if s.len() > 0 {
        let t = s.drop_last();
        assert(all_digits(t)) by {
            assert forall|i: int| 0 <= i < t.len() implies is_digit(#[trigger] t[i]) by {
                assert(t[i] == s[i]);
            }
        }
        lemma_digits_value_bound(t);
        assert(is_digit(s[s.len() - 1]));
        assert(digits_value(t) * 10 + 9 < pow10(s.len())) by (nonlinear_arith)
            requires
                digits_value(t) < pow10(t.len()),
                pow10(s.len()) == 10 * pow10(t.len()),
        ;
    }
}

/// `10^e` for `e` up to 9.
pub(crate) fn pow10_u32(e: usize) -> (r: u32)
    requires
        e <= 9,
    ensures
        r == pow10(e as nat),
{
    proof {
        reveal_with_fuel(pow10, 10);
    }
    match e {
        0 => 1,
        1 => 10,
        2 => 100,
        3 => 1_000,
        4 => 10_000,
        5 => 100_000,
        6 => 1_000_000,
        7 => 10_000_000,
        8 => 100_000_000,
        _ => 1_000_000_000,
    }
}

/// Appending a digit multiplies the value by ten and adds the digit.
proof fn lemma_digits_value_push(s: Seq<u8>, v: int)
    requires
        0 <= v < 10,
    ensures
        digits_value(s.push(digit_byte(v))) == digits_value(s) * 10 + v,
{
    assert(s.push(digit_byte(v)).drop_last() =~= s);
}

/// `padded_digits(v, w)` reads back as `v` modulo `10^w`.
pub proof fn lemma_padded_value(v: nat, w: nat)
    ensures
        digits_value(padded_digits(v, w)) == v % pow10(w),
    decreases w,
{
    if w > 0 {
        lemma_padded_value(v / 10, (w - 1) as nat);
        lemma_digits_value_push(padded_digits(v / 10, (w - 1) as nat), (v % 10) as int);
        lemma_pow_positive((w - 1) as nat);
        lemma_mod_breakdown(v as int, 10, pow10((w - 1) as nat) as int);
    } else {
        assert(digits_value(seq![]) == 0);
    }
}

/// `10^e` is positive.
pub proof fn lemma_pow_positive(e: nat)
    ensures
        pow10(e) > 0,
    decreases e,
{
    if e > 0 {
        lemma_pow_positive((e - 1) as nat);
    }
}

/// `decimal_digits(v)` reads back as `v`.
pub proof fn lemma_decimal_value(v: nat)
    ensures
        digits_value(decimal_digits(v)) == v,
    decreases v,
{
    if v >= 10 {
        lemma_decimal_value(v / 10);
        lemma_digits_value_push(decimal_digits(v / 10), (v % 10) as int);
    } else {
        lemma_digits_value_push(seq![], v as int);
        assert(seq![digit_byte(v as int)] =~= Seq::<u8>::empty().push(digit_byte(v as int)));
    }
}

/// Digits alone read as their value.
pub proof fn lemma_digits_parse(s: Seq<u8>)
    requires
        s.len() > 0,
        all_digits(s),
    ensures
        unsigned_decimal(s) == Some(digits_value(s)),
{
    assert(is_digit(s[0]));
}

/// The last `a + b` digits of `v` are the last `a` digits of `v / 10^b`,
/// then the last `b` digits of `v`.
pub proof fn lemma_padded_split(v: nat, a: nat, b: nat)
    ensures
        padded_digits(v, a + b) == padded_digits(v / pow10(b), a) + padded_digits(v, b),
    decreases b,
{
    if b > 0 {
        lemma_padded_split(v / 10, a, (b - 1) as nat);
        lemma_pow_positive((b - 1) as nat);
        lemma_div_denominator(v as int, 10, pow10((b - 1) as nat) as int);
        let b1 = (b - 1) as nat;
        let d = digit_byte((v % 10) as int);
        assert(a + b1 == (a + b - 1) as nat);
        assert(pow10(b) == 10 * pow10(b1));
        assert((v / 10) / pow10(b1) == v / pow10(b));
        let x = padded_digits(v / pow10(b), a);
        assert(padded_digits(v / 10, a + b1) == x + padded_digits(v / 10, b1));
        assert(padded_digits(v, a + b) == padded_digits(v / 10, a + b1).push(d));
        assert(padded_digits(v, b) == padded_digits(v / 10, b1).push(d));
        assert(padded_digits(v, a + b) =~= x + padded_digits(v, b));
    } else {
        assert(pow10(0) == 1);
        assert(v / 1 == v);
        assert(padded_digits(v, 0) =~= Seq::<u8>::empty());
        assert(padded_digits(v, a + b) =~= padded_digits(v / pow10(b), a) + padded_digits(v, b));
    }
}

/// Relies on `<u8 as FromStr>::from_str`: it accepts an optional `+` and then
/// decimal digits, and fails on any other text or on a value above `u8::MAX`.
#[verifier::external_body]
pub(crate) fn parse_u8(s: &str) -> (r: Result<u8, ParseIntError>)
    ensures
        r is Ok <==> parses_within(s.spec_bytes(), u8::MAX as int),
        r matches Ok(v) ==> v == unsigned_decimal(s.spec_bytes())->0,
{
    s.parse::<u8>()
}

/// Relies on `<u32 as FromStr>::from_str`: it accepts an optional `+` and then
/// decimal digits, and fails on any other text or on a value above `u32::MAX`.
#[verifier::external_body]
pub(crate) fn parse_u32(s: &str) -> (r: Result<u32, ParseIntError>)
    ensures
        r is Ok <==> parses_within(s.spec_bytes(), u32::MAX as int),
        r matches Ok(v) ==> v == unsigned_decimal(s.spec_bytes())->0,
{
    s.parse::<u32>()
}

/// Relies on `<u64 as FromStr>::from_str`: it accepts an optional `+` and then
/// decimal digits, and fails on any other text or on a value above `u64::MAX`.
#[verifier::external_body]
pub(crate) fn parse_u64(s: &str) -> (r: Result<u64, ParseIntError>)
    ensures
        r is Ok <==> parses_within(s.spec_bytes(), u64::MAX as int),
        r matches Ok(v) ==> v == unsigned_decimal(s.spec_bytes())->0,
{
    s.parse::<u64>()
}

/// Relies on `String::push`: it appends one character.
#[verifier::external_body]
pub(crate) fn push_char(s: &mut String, c: char)
    ensures
        final(s)@ == old(s)@.push(c),
{
    s.push(c);
}

} // verus!
