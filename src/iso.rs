//! ISO 8601 text of dates and times of day: the bytes written for a value,
//! and the fields read back from text.
use crate::calendar::is_valid_date;
use crate::constants::{NANOS_PER_DAY, NANOS_PER_HOUR, NANOS_PER_MINUTE, NANOS_PER_SECOND};
use crate::text::{
    all_digits, decimal_digits, digits_value, is_digit, lemma_decimal_digits_len, lemma_decimal_value,
    lemma_digits_parse, lemma_digits_value_bound, lemma_padded_digits, lemma_padded_split,
    lemma_padded_value, lemma_pow10_add, lemma_pow_positive, padded_digits, parse_u8, pow10,
    push_char, unsigned_decimal,
};
use core::num::ParseIntError;
use vstd::arithmetic::div_mod::{lemma_fundamental_div_mod, lemma_mod_mod, lemma_small_mod};
use vstd::prelude::*;
use vstd::string::StringSliceAdditionalSpecFns;
use vstd::utf8::{
    encode_utf8, group_utf8_lib, is_ascii_chars, is_ascii_chars_encode_utf8, is_char_boundary,
    is_continuation_byte, valid_utf8,
};

verus! {

/// The characters of ASCII bytes.
pub open spec fn ascii_text(b: Seq<u8>) -> Seq<char> {
    b.map_values(|x: u8| x as char)
}

/// Whether every byte of `b` is ASCII.
pub open spec fn all_ascii(b: Seq<u8>) -> bool {
    forall|i: int| 0 <= i < b.len() ==> #[trigger] b[i] < 128
}

/// `YYYY-MM-DD`: the year in decimal (four digits or more), then the
/// two-digit month and day, separated by hyphens.
pub open spec fn iso_date_text(y: int, m: int, d: int) -> Seq<u8> {
    decimal_digits(y as nat) + seq![45u8] + padded_digits(m as nat, 2) + seq![45u8]
        + padded_digits(d as nat, 2)
}

/// Number of fractional digits written for a requested precision: at most nine.
pub open spec fn clamp_precision(precision: int) -> int {
    if precision > 9 {
        9
    } else {
        precision
    }
}

/// Length of the ISO time-of-day text written with `precision`.
pub open spec fn iso_tod_len_spec(precision: int) -> int {
    if precision == 0 {
        10
    } else {
        11 + clamp_precision(precision)
    }
}

/// The fractional digits of the ISO time-of-day text: a dot and the first
/// digits of the nine-digit nanoseconds, or nothing at precision 0.
pub open spec fn iso_fraction_text(subsec: int, precision: int) -> Seq<u8> {
    if precision == 0 {
        seq![]
    } else {
        seq![46u8] + padded_digits(subsec as nat, 9).take(clamp_precision(precision))
    }
}

/// `Thh:mm:ss[.fff]Z` for `tod` nanoseconds since midnight; the fraction is
/// truncated, never rounded, to the precision.
pub open spec fn iso_tod_text(tod: int, precision: int) -> Seq<u8> {
    let h = tod / (NANOS_PER_HOUR as int);
    let mi = (tod % (NANOS_PER_HOUR as int)) / (NANOS_PER_MINUTE as int);
    let s = (tod % (NANOS_PER_MINUTE as int)) / (NANOS_PER_SECOND as int);
    let sub = tod % (NANOS_PER_SECOND as int);
    seq![84u8] + padded_digits(h as nat, 2) + seq![58u8] + padded_digits(mi as nat, 2) + seq![58u8]
        + padded_digits(s as nat, 2) + iso_fraction_text(sub, precision) + seq![90u8]
}

/// Whether text may be split before byte `k` of `b`: `k` ends the text or
/// does not fall inside a character.
pub open spec fn splits_at(b: Seq<u8>, k: int) -> bool {
    k == b.len() || !is_continuation_byte(b[k])
}

/// Whether the bytes `b[start..end]` are all decimal digits.
pub open spec fn digits_at(b: Seq<u8>, start: int, end: int) -> bool {
    forall|i: int| start <= i < end ==> is_digit(#[trigger] b[i])
}

/// The value of the decimal digits `b[start..end]`.
pub open spec fn field_value(b: Seq<u8>, start: int, end: int) -> int {
    digits_value(b.subrange(start, end))
}

/// Whether a ten-byte ISO date text has its hyphens in place.
pub open spec fn iso_date_separators_ok(b: Seq<u8>) -> bool {
    b[4] == 45 && b[7] == 45
}

/// Position of the first misplaced hyphen of a ten-byte ISO date text.
pub open spec fn iso_date_separator_pos(b: Seq<u8>) -> int {
    if b[4] != 45 {
        4
    } else {
        7
    }
}

/// Whether the year, month and day fields of a ten-byte ISO date text are
/// all decimal digits.
pub open spec fn iso_date_digits_ok(b: Seq<u8>) -> bool {
    digits_at(b, 0, 4) && digits_at(b, 5, 7) && digits_at(b, 8, 10)
}

/// Whether `b` is ten bytes with its hyphens in place but a non-digit in a
/// numeric field.
pub open spec fn iso_date_parse_error(b: Seq<u8>) -> bool {
    b.len() == 10 && iso_date_separators_ok(b) && !iso_date_digits_ok(b)
}

/// `(year, month, day)` of an ISO date text `YYYY-MM-DD`: ten bytes, four,
/// two and two decimal digits, separated by hyphens.
pub open spec fn iso_date_fields(b: Seq<u8>) -> Option<(int, int, int)> {
    if b.len() == 10 && iso_date_separators_ok(b) && iso_date_digits_ok(b) {
        Some((field_value(b, 0, 4), field_value(b, 5, 7), field_value(b, 8, 10)))
    } else {
        None
    }
}

/// Whether an ISO time text of at least ten bytes has its fixed bytes in
/// place: `T`, the two colons, the dot after the seconds where a fraction
/// follows, and the final `Z`.
pub open spec fn iso_tod_separators_ok(b: Seq<u8>) -> bool {
    &&& b[0] == 84
    &&& b[3] == 58
    &&& b[6] == 58
    &&& b.len() > 10 ==> b[9] == 46
    &&& b[b.len() - 1] == 90
}

/// Position of the first misplaced fixed byte of an ISO time text.
pub open spec fn iso_tod_separator_pos(b: Seq<u8>) -> int {
    if b[0] != 84 {
        0
    } else if b[3] != 58 {
        3
    } else if b[6] != 58 {
        6
    } else if b.len() > 10 && b[9] != 46 {
        9
    } else {
        b.len() - 1
    }
}

/// Whether the hour, minute and second fields of an ISO time text are all
/// decimal digits.
pub open spec fn iso_hms_digits_ok(b: Seq<u8>) -> bool {
    digits_at(b, 1, 3) && digits_at(b, 4, 6) && digits_at(b, 7, 9)
}

/// Number of fractional digits of an ISO time text: those between the dot
/// after the seconds and the final `Z`.
pub open spec fn iso_precision(b: Seq<u8>) -> int {
    if b.len() > 10 {
        b.len() - 11
    } else {
        0
    }
}

/// Whether the fraction of an ISO time text is all decimal digits.
pub open spec fn iso_fraction_digits_ok(b: Seq<u8>) -> bool {
    b.len() > 10 ==> digits_at(b, 10, b.len() - 1)
}

/// Whether `b` has its fixed bytes in place but a non-digit in a field that
/// is read: hours, minutes, seconds, or a fraction of at most nine digits.
pub open spec fn iso_tod_parse_error(b: Seq<u8>) -> bool {
    &&& b.len() >= 10
    &&& iso_tod_separators_ok(b)
    &&& !iso_hms_digits_ok(b) || (iso_precision(b) <= 9 && !iso_fraction_digits_ok(b))
}

/// Nanoseconds of the fraction of an ISO time text, scaled to nine digits.
pub open spec fn iso_subsec(b: Seq<u8>) -> int {
    let p = iso_precision(b);
    if p == 0 {
        0
    } else {
        field_value(b, 10, b.len() - 1) * pow10((9 - p) as nat)
    }
}

/// `(hours, minutes, seconds, nanoseconds)` of an ISO time text
/// `Thh:mm:ssZ` or `Thh:mm:ss.fZ`, where the fraction `f` has at most nine
/// decimal digits (none after a bare dot).
pub open spec fn iso_tod_fields(b: Seq<u8>) -> Option<(int, int, int, int)> {
    if b.len() >= 10 && iso_tod_separators_ok(b) && iso_hms_digits_ok(b) && iso_precision(b) <= 9
        && iso_fraction_digits_ok(b) {
        Some((field_value(b, 1, 3), field_value(b, 4, 6), field_value(b, 7, 9), iso_subsec(b)))
    } else {
        None
    }
}

/// Appends the last `w` decimal digits of `v`, zero-padded.
pub(crate) fn push_padded(out: &mut Vec<u8>, v: u64, w: u32)
    ensures
        final(out)@ == old(out)@ + padded_digits(v as nat, w as nat),
    decreases w,
{
    if w > 0 {
        push_padded(out, v / 10, w - 1);
        out.push((v % 10) as u8 + 48);
        assert(final(out)@ =~= old(out)@ + padded_digits(v as nat, w as nat));
    } else {
        assert(final(out)@ =~= old(out)@ + padded_digits(v as nat, w as nat));
    }
}

/// Appends the decimal digits of `v`.
pub(crate) fn push_decimal(out: &mut Vec<u8>, v: u64)
    ensures
        final(out)@ == old(out)@ + decimal_digits(v as nat),
    decreases v,
{
    if v >= 10 {
        push_decimal(out, v / 10);
    }
    out.push((v % 10) as u8 + 48);
    assert(final(out)@ =~= old(out)@ + decimal_digits(v as nat));
}

/// The ISO text of the date `year-month-day`.
pub(crate) fn iso_date_bytes(year: u64, month: u8, day: u8) -> (r: Vec<u8>)
    ensures
        r@ == iso_date_text(year as int, month as int, day as int),
{
    let mut out: Vec<u8> = Vec::new();
    push_decimal(&mut out, year);
    out.push(45u8);
    push_padded(&mut out, month as u64, 2);
    out.push(45u8);
    push_padded(&mut out, day as u64, 2);
    assert(out@ =~= iso_date_text(year as int, month as int, day as int));
    out
}

/// The ISO text of the time of day `tod` nanoseconds after midnight.
pub(crate) fn iso_tod_bytes(tod: u64, precision: usize) -> (r: Vec<u8>)
    ensures
        r@ == iso_tod_text(tod as int, precision as int),
{
    let h = tod / NANOS_PER_HOUR;
    let mi = (tod % NANOS_PER_HOUR) / NANOS_PER_MINUTE;
    let s = (tod % NANOS_PER_MINUTE) / NANOS_PER_SECOND;
    let sub = tod % NANOS_PER_SECOND;
    let mut out: Vec<u8> = Vec::new();
    out.push(84u8);
    push_padded(&mut out, h, 2);
    out.push(58u8);
    push_padded(&mut out, mi, 2);
    out.push(58u8);
    push_padded(&mut out, s, 2);
    let ghost head = out@;
    if precision > 0 {
        let p: usize = if precision > 9 {
            9
        } else {
            precision
        };
        let mut digits: Vec<u8> = Vec::new();
        push_padded(&mut digits, sub, 9);
        assert(digits@ =~= padded_digits(sub as nat, 9));
        proof {
            lemma_padded_digits(sub as nat, 9);
        }
        out.push(46u8);
        let mut i: usize = 0;
        while i < p
            invariant
                i <= p <= 9,
                digits@ == padded_digits(sub as nat, 9),
                digits@.len() == 9,
                out@ == head + seq![46u8] + digits@.take(i as int),
            decreases p - i,
        {
            out.push(digits[i]);
            i = i + 1;
            assert(out@ =~= head + seq![46u8] + digits@.take(i as int));
        }
    }
    out.push(90u8);
    assert(out@ =~= iso_tod_text(tod as int, precision as int));
    out
}

/// Text with a non-digit past its first byte is no unsigned number.
pub proof fn lemma_non_digit_no_number(b: Seq<u8>, k: int)
    requires
        1 <= k < b.len(),
        !is_digit(b[k]),
    ensures
        unsigned_decimal(b) is None,
{
    assert(!all_digits(b));
    assert(b.drop_first()[k - 1] == b[k]);
    assert(!all_digits(b.drop_first()));
}

/// The error std gives for text that holds a non-digit past its first byte.
pub(crate) fn invalid_digit_error(s: &str, k: usize) -> (r: ParseIntError)
    requires
        1 <= k < s.spec_bytes().len(),
        !is_digit(s.spec_bytes()[k as int]),
{
    let parsed = parse_u8(s);
    proof {
        lemma_non_digit_no_number(s.spec_bytes(), k as int);
    }
    parsed.unwrap_err()
}

/// Whether the bytes `b[start..end]` are all decimal digits.
pub(crate) fn digits_in(b: &[u8], start: usize, end: usize) -> (r: bool)
    requires
        start <= end <= b@.len(),
    ensures
        r == digits_at(b@, start as int, end as int),
{
    let mut i = start;
    while i < end
        invariant
            start <= i <= end <= b@.len(),
            digits_at(b@, start as int, i as int),
        decreases end - i,
    {
        if b[i] < 48 || b[i] > 57 {
            return false;
        }
        i = i + 1;
    }
    true
}

/// What std reads from the decimal digits `b[start..end]`: their value.
pub proof fn lemma_digits_field(b: Seq<u8>, start: int, end: int)
    requires
        0 <= start < end <= b.len(),
        digits_at(b, start, end),
    ensures
        unsigned_decimal(b.subrange(start, end)) == Some(field_value(b, start, end)),
        0 <= field_value(b, start, end) < pow10((end - start) as nat),
{
    let f = b.subrange(start, end);
    assert(all_digits(f)) by {
        assert forall|i: int| 0 <= i < f.len() implies is_digit(#[trigger] f[i]) by {
            assert(f[i] == b[start + i]);
        }
    }
    lemma_digits_parse(f);
    lemma_digits_value_bound(f);
}

/// The bytes `start..end` of `s`, where neither end falls inside a character.
pub(crate) fn substr<'a>(s: &'a str, start: usize, end: usize) -> (r: &'a str)
    requires
        start <= end <= s.spec_bytes().len(),
        start == 0 || splits_at(s.spec_bytes(), start as int),
        splits_at(s.spec_bytes(), end as int),
    ensures
        r.spec_bytes() == s.spec_bytes().subrange(start as int, end as int),
{
    proof {
        broadcast use group_utf8_lib;

        assert(valid_utf8(s.spec_bytes()));
        if start == 0 {
            assert(is_char_boundary(s.spec_bytes(), 0));
        }
    }
    let (_, rest) = s.split_at(start);
    proof {
        assert(valid_utf8(rest.spec_bytes()));
        if end - start < rest.spec_bytes().len() {
            assert(rest.spec_bytes()[end - start] == s.spec_bytes()[end as int]);
        }
    }
    let (field, _) = rest.split_at(end - start);
    assert(field.spec_bytes() =~= s.spec_bytes().subrange(start as int, end as int));
    field
}

/// The string of the bytes `b`, each taken as a character.
pub(crate) fn ascii_string(b: &Vec<u8>) -> (r: String)
    ensures
        r@ == ascii_text(b@),
{
    let mut s = String::new();
    let mut i: usize = 0;
    while i < b.len()
        invariant
            i <= b@.len(),
            s@ == ascii_text(b@.take(i as int)),
        decreases b@.len() - i,
    {
        push_char(&mut s, b[i] as char);
        i = i + 1;
        assert(s@ =~= ascii_text(b@.take(i as int)));
    }
    assert(b@.take(b@.len() as int) =~= b@);
    s
}

/// Copies the first `n` bytes of `text` over the front of `buf`.
pub(crate) fn copy_prefix(buf: &mut [u8], text: &Vec<u8>, n: usize)
    requires
        n <= old(buf)@.len(),
        n <= text@.len(),
    ensures
        final(buf)@ == text@.take(n as int) + old(buf)@.skip(n as int),
{
    let mut i: usize = 0;
    while i < n
        invariant
            i <= n,
            n <= text@.len(),
            buf@.len() == old(buf)@.len(),
            n <= old(buf)@.len(),
            buf@ == text@.take(i as int) + old(buf)@.skip(i as int),
        decreases n - i,
    {
        buf[i] = text[i];
        i = i + 1;
        assert(buf@ =~= text@.take(i as int) + old(buf)@.skip(i as int));
    }
}

/// `(date, nanoseconds of the day)` read from an ISO datetime text: a date
/// text of ten bytes and then a time-of-day text, where both are read and
/// valid.
pub open spec fn iso_datetime_fields(b: Seq<u8>) -> Option<((int, int, int), int)> {
    if b.len() >= 20 && iso_date_fields(b.subrange(0, 10)) is Some
        && iso_tod_fields(b.subrange(10, b.len() as int)) is Some {
        let d = iso_date_fields(b.subrange(0, 10))->0;
        let t = iso_tod_fields(b.subrange(10, b.len() as int))->0;
        let tod = t.3 + t.0 * NANOS_PER_HOUR + t.1 * NANOS_PER_MINUTE + t.2 * NANOS_PER_SECOND;
        if is_valid_date(d.0, d.1, d.2) && tod < NANOS_PER_DAY {
            Some((d, tod))
        } else {
            None
        }
    } else {
        None
    }
}

/// Appends the bytes of `more`.
pub(crate) fn extend_bytes(out: &mut Vec<u8>, more: &Vec<u8>)
    ensures
        final(out)@ == old(out)@ + more@,
{
    let mut i: usize = 0;
    while i < more.len()
        invariant
            i <= more@.len(),
            out@ == old(out)@ + more@.take(i as int),
        decreases more@.len() - i,
    {
        out.push(more[i]);
        i = i + 1;
        assert(out@ =~= old(out)@ + more@.take(i as int));
    }
    assert(more@.take(more@.len() as int) =~= more@);
}

/// ASCII bytes taken as characters encode back to the same bytes.
pub proof fn lemma_ascii_text_bytes(b: Seq<u8>)
    requires
        all_ascii(b),
    ensures
        encode_utf8(ascii_text(b)) == b,
{
    let c = ascii_text(b);
    assert(is_ascii_chars(c)) by {
        assert forall|i: int| 0 <= i < c.len() implies '\0' <= #[trigger] c[i] <= '\u{7f}' by {
            assert(b[i] < 128);
        }
    }
    is_ascii_chars_encode_utf8(c);
    assert(encode_utf8(c) =~= b);
}

/// The ISO text of a supported date up to the year 9999 reads back as that date.
pub proof fn lemma_iso_date_round_trip(y: int, m: int, d: int)
    requires
        is_valid_date(y, m, d),
        y <= 9999,
    ensures
        all_ascii(iso_date_text(y, m, d)),
        iso_date_text(y, m, d).len() == 10,
        iso_date_fields(encode_utf8(ascii_text(iso_date_text(y, m, d)))) == Some((y, m, d)),
{
    let b = iso_date_text(y, m, d);
    let ys = decimal_digits(y as nat);
    let ms = padded_digits(m as nat, 2);
    let ds = padded_digits(d as nat, 2);
    lemma_decimal_digits_len(y as nat);
    lemma_padded_digits(m as nat, 2);
    lemma_padded_digits(d as nat, 2);
    lemma_decimal_value(y as nat);
    lemma_padded_value(m as nat, 2);
    lemma_padded_value(d as nat, 2);
    assert(b.subrange(0, 4) =~= ys);
    assert(b.subrange(5, 7) =~= ms);
    assert(b.subrange(8, 10) =~= ds);
    lemma_digits_parse(ys);
    lemma_digits_parse(ms);
    lemma_digits_parse(ds);
    assert(pow10(2) == 100) by {
        reveal_with_fuel(pow10, 3);
    }
    assert(all_ascii(b)) by {
        assert forall|i: int| 0 <= i < b.len() implies #[trigger] b[i] < 128 by {
            if i < 4 {
                assert(b[i] == ys[i] && is_digit(ys[i]));
            } else if 5 <= i < 7 {
                assert(b[i] == ms[i - 5] && is_digit(ms[i - 5]));
            } else if 8 <= i {
                assert(b[i] == ds[i - 8] && is_digit(ds[i - 8]));
            }
        }
    }
    lemma_ascii_text_bytes(b);
}

/// The fields of the ISO text of a time of day: its hours, minutes, seconds,
/// and the nanoseconds the fraction keeps.
proof fn lemma_iso_tod_text_fields(tod: int, precision: int)
    requires
        0 <= tod < NANOS_PER_DAY,
        0 <= precision,
        precision == 0 ==> tod % (NANOS_PER_SECOND as int) == 0,
        precision > 0 ==> (tod % (NANOS_PER_SECOND as int)) % (pow10(
            (9 - clamp_precision(precision)) as nat,
        ) as int) == 0,
    ensures
        all_ascii(iso_tod_text(tod, precision)),
        iso_tod_text(tod, precision).len() >= 10,
        iso_tod_text(tod, precision)[0] == 84,
        iso_tod_fields(iso_tod_text(tod, precision)) matches Some(f) && f.3 + f.0 * NANOS_PER_HOUR + f.1
            * NANOS_PER_MINUTE + f.2 * NANOS_PER_SECOND == tod,
{
    let b = iso_tod_text(tod, precision);
    let h = tod / (NANOS_PER_HOUR as int);
    let mi = (tod % (NANOS_PER_HOUR as int)) / (NANOS_PER_MINUTE as int);
    let s = (tod % (NANOS_PER_MINUTE as int)) / (NANOS_PER_SECOND as int);
    let sub = tod % (NANOS_PER_SECOND as int);
    lemma_fundamental_div_mod(tod, NANOS_PER_HOUR as int);
    lemma_fundamental_div_mod(tod % (NANOS_PER_HOUR as int), NANOS_PER_MINUTE as int);
    lemma_fundamental_div_mod(tod % (NANOS_PER_MINUTE as int), NANOS_PER_SECOND as int);
    lemma_fundamental_div_mod(tod, NANOS_PER_MINUTE as int);
    lemma_mod_mod(tod, NANOS_PER_MINUTE as int, 60);
    lemma_mod_mod(tod, NANOS_PER_SECOND as int, 60);
    assert((tod % (NANOS_PER_MINUTE as int)) % (NANOS_PER_SECOND as int) == sub);
    assert(tod % (NANOS_PER_HOUR as int) % (NANOS_PER_MINUTE as int) == tod % (NANOS_PER_MINUTE as int));
    let r1 = tod % (NANOS_PER_HOUR as int);
    let r2 = tod % (NANOS_PER_MINUTE as int);
    assert(sub + h * NANOS_PER_HOUR + mi * NANOS_PER_MINUTE + s * NANOS_PER_SECOND == tod)
        by (nonlinear_arith)
        requires
            tod == NANOS_PER_HOUR * h + r1,
            r1 == NANOS_PER_MINUTE * mi + r1 % (NANOS_PER_MINUTE as int),
            r1 % (NANOS_PER_MINUTE as int) == r2,
            r2 == NANOS_PER_SECOND * s + sub,
    ;
    let hs = padded_digits(h as nat, 2);
    let ms = padded_digits(mi as nat, 2);
    let ss = padded_digits(s as nat, 2);
    let frac = iso_fraction_text(sub, precision);
    lemma_padded_digits(h as nat, 2);
    lemma_padded_digits(mi as nat, 2);
    lemma_padded_digits(s as nat, 2);
    lemma_padded_value(h as nat, 2);
    lemma_padded_value(mi as nat, 2);
    lemma_padded_value(s as nat, 2);
    assert(pow10(2) == 100) by {
        reveal_with_fuel(pow10, 3);
    }
    assert(b.subrange(1, 3) =~= hs);
    assert(b.subrange(4, 6) =~= ms);
    assert(b.subrange(7, 9) =~= ss);
    lemma_digits_parse(hs);
    lemma_digits_parse(ms);
    lemma_digits_parse(ss);
    let p = clamp_precision(precision);
    let digits = padded_digits(sub as nat, 9);
    lemma_padded_digits(sub as nat, 9);
    if precision > 0 {
        let q = (9 - p) as nat;
        lemma_padded_split(sub as nat, p as nat, q);
        assert(p as nat + q == 9);
        let high = sub / (pow10(q) as int);
        let field = padded_digits(high as nat, p as nat);
        lemma_pow_positive(q);
        lemma_pow10_add(p as nat, q);
        assert(pow10(9) == 1_000_000_000) by {
            reveal_with_fuel(pow10, 10);
        }
        lemma_fundamental_div_mod(sub, pow10(q) as int);
        assert(high < pow10(p as nat)) by (nonlinear_arith)
            requires
                sub == pow10(q) * high + sub % (pow10(q) as int),
                sub % (pow10(q) as int) == 0,
                sub < 1_000_000_000,
                pow10(p as nat) * pow10(q) == 1_000_000_000,
                pow10(q) > 0,
        ;
        lemma_padded_digits(high as nat, p as nat);
        lemma_padded_value(high as nat, p as nat);
        assert(digits.take(p) =~= field);
        assert(b.len() == 11 + p);
        assert(b.subrange(10, b.len() - 1) =~= field);
        lemma_digits_parse(field);
        lemma_small_mod(high as nat, pow10(p as nat));
        assert(digits_value(field) == high);
        assert(high * pow10(q) == sub) by (nonlinear_arith)
            requires
                sub == pow10(q) * high + sub % (pow10(q) as int),
                sub % (pow10(q) as int) == 0,
        ;
        assert(all_ascii(b)) by {
            assert forall|i: int| 0 <= i < b.len() implies #[trigger] b[i] < 128 by {
                if 1 <= i < 3 {
                    assert(b[i] == hs[i - 1] && is_digit(hs[i - 1]));
                } else if 4 <= i < 6 {
                    assert(b[i] == ms[i - 4] && is_digit(ms[i - 4]));
                } else if 7 <= i < 9 {
                    assert(b[i] == ss[i - 7] && is_digit(ss[i - 7]));
                } else if 10 <= i < b.len() - 1 {
                    assert(b[i] == field[i - 10] && is_digit(field[i - 10]));
                }
            }
        }
    } else {
        assert(b.len() == 10);
        assert(all_ascii(b)) by {
            assert forall|i: int| 0 <= i < b.len() implies #[trigger] b[i] < 128 by {
                if 1 <= i < 3 {
                    assert(b[i] == hs[i - 1] && is_digit(hs[i - 1]));
                } else if 4 <= i < 6 {
                    assert(b[i] == ms[i - 4] && is_digit(ms[i - 4]));
                } else if 7 <= i < 9 {
                    assert(b[i] == ss[i - 7] && is_digit(ss[i - 7]));
                }
            }
        }
    }
}

/// The ISO text of a time of day reads back as that time of day, where the
/// precision keeps all of its fractional digits (its nanoseconds are a
/// multiple of `10^(9 - p)` for `p` digits, and zero at precision 0).
pub proof fn lemma_iso_tod_round_trip(tod: int, precision: int)
    requires
        0 <= tod < NANOS_PER_DAY,
        0 <= precision,
        precision == 0 ==> tod % (NANOS_PER_SECOND as int) == 0,
        precision > 0 ==> (tod % (NANOS_PER_SECOND as int)) % (pow10(
            (9 - clamp_precision(precision)) as nat,
        ) as int) == 0,
    ensures
        iso_tod_fields(encode_utf8(ascii_text(iso_tod_text(tod, precision)))) matches Some(f) && f.3
            + f.0 * NANOS_PER_HOUR + f.1 * NANOS_PER_MINUTE + f.2 * NANOS_PER_SECOND == tod,
{
    lemma_iso_tod_text_fields(tod, precision);
    lemma_ascii_text_bytes(iso_tod_text(tod, precision));
}

/// The ISO text of a supported datetime up to the year 9999 reads back as
/// that datetime, where the precision keeps all of its fractional digits.
pub proof fn lemma_iso_datetime_round_trip(y: int, m: int, d: int, tod: int, precision: int)
    requires
        is_valid_date(y, m, d),
        y <= 9999,
        0 <= tod < NANOS_PER_DAY,
        0 <= precision,
        precision == 0 ==> tod % (NANOS_PER_SECOND as int) == 0,
        precision > 0 ==> (tod % (NANOS_PER_SECOND as int)) % (pow10(
            (9 - clamp_precision(precision)) as nat,
        ) as int) == 0,
    ensures
        iso_datetime_fields(
            encode_utf8(ascii_text(iso_date_text(y, m, d) + iso_tod_text(tod, precision))),
        ) == Some(((y, m, d), tod)),
{
    let bd = iso_date_text(y, m, d);
    let bt = iso_tod_text(tod, precision);
    let b = bd + bt;
    lemma_iso_date_round_trip(y, m, d);
    lemma_iso_tod_text_fields(tod, precision);
    lemma_ascii_text_bytes(bd);
    assert(all_ascii(b)) by {
        assert forall|i: int| 0 <= i < b.len() implies #[trigger] b[i] < 128 by {
            if i < 10 {
                assert(b[i] == bd[i]);
            } else {
                assert(b[i] == bt[i - 10]);
            }
        }
    }
    lemma_ascii_text_bytes(b);
    assert(b.subrange(0, 10) =~= bd);
    assert(b.subrange(10, b.len() as int) =~= bt);
    assert(b[10] == 84);
}

} // verus!
