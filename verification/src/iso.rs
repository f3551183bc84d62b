//! The text form of a date: year, month and day in decimal, joined by hyphens.
//!
//! Years from 0 to 9999 are written with four digits. Any other year carries a
//! sign and at least four digits.

use crate::calendar::{valid_ymd, Date, Ymd};
use vstd::prelude::*;

verus! {

pub const HYPHEN: u8 = 45;

pub const PLUS: u8 = 43;

pub const ZERO: u8 = 48;

/// The character of a decimal digit, for `n` from 0 to 9.
pub open spec fn digit(n: int) -> u8 {
    (ZERO + n) as u8
}

/// Two decimal digits, for `n` from 0 to 99.
pub open spec fn two_digits(n: int) -> Seq<u8> {
    seq![digit(n / 10), digit(n % 10)]
}

/// At least four decimal digits, for `m` from 0 to 999999.
pub open spec fn magnitude_text(m: int) -> Seq<u8> {
    if m < 10_000 {
        two_digits(m / 100) + two_digits(m % 100)
    } else if m < 100_000 {
        seq![digit(m / 10_000)] + two_digits(m / 100 % 100) + two_digits(m % 100)
    } else {
        two_digits(m / 10_000) + two_digits(m / 100 % 100) + two_digits(m % 100)
    }
}

/// The text of a year.
pub open spec fn year_text(year: int) -> Seq<u8> {
    if 0 <= year <= 9999 {
        magnitude_text(year)
    } else if year < 0 {
        seq![HYPHEN] + magnitude_text(-year)
    } else {
        seq![PLUS] + magnitude_text(year)
    }
}

/// The text of a date.
pub open spec fn iso_text(d: Ymd) -> Seq<u8> {
    year_text(d.year) + seq![HYPHEN] + two_digits(d.month) + seq![HYPHEN] + two_digits(d.day)
}

/// The number that a string of decimal digits stands for, if it holds nothing else.
pub open spec fn decimal_value(s: Seq<u8>) -> Option<nat>
    decreases s.len(),
{
    if s.len() == 0 {
        Some(0)
    } else {
        match decimal_value(s.drop_last()) {
            Some(v) => if ZERO <= s.last() <= ZERO + 9 {
                Some((v * 10 + (s.last() - ZERO)) as nat)
            } else {
                None
            },
            None => None,
        }
    }
}

/// The three numbers read from where the text of a date holds them: the day
/// in the last two bytes, the month in the two before the last hyphen, the
/// year in front, negative if the text is longer than ten bytes and starts
/// with a hyphen.
pub open spec fn fields_read(text: Seq<u8>) -> Option<Ymd> {
    let n = text.len() as int;
    if n < 10 || n > 13 {
        None
    } else {
        let head: int = if n == 10 { 0 } else { 1 };
        match (
            decimal_value(text.subrange(head, n - 6)),
            decimal_value(text.subrange(n - 5, n - 3)),
            decimal_value(text.subrange(n - 2, n)),
        ) {
            (Some(y), Some(m), Some(d)) => Some(
                Ymd {
                    year: if n > 10 && text[0] == HYPHEN { -(y as int) } else { y as int },
                    month: m as int,
                    day: d as int,
                },
            ),
            _ => None,
        }
    }
}

proof fn lemma_value_two(n: int)
    requires
        0 <= n <= 99,
    ensures
        decimal_value(two_digits(n)) == Some(n as nat),
{
    reveal_with_fuel(decimal_value, 3);
}

proof fn lemma_value_one(n: int)
    requires
        0 <= n <= 9,
    ensures
        decimal_value(seq![digit(n)]) == Some(n as nat),
{
    reveal_with_fuel(decimal_value, 2);
}

proof fn lemma_value_append_two(front: Seq<u8>, n: int)
    requires
        0 <= n <= 99,
    ensures
        decimal_value(front + two_digits(n)) == match decimal_value(front) {
            Some(v) => Some((v * 100 + n) as nat),
            None => None,
        },
{
    let s = front + two_digits(n);
    assert(s.drop_last().drop_last() =~= front);
    reveal_with_fuel(decimal_value, 3);
}

proof fn lemma_value_of_magnitude(m: int)
    requires
        0 <= m <= 999_999,
    ensures
        decimal_value(magnitude_text(m)) == Some(m as nat),
        magnitude_text(m).len() == if m < 10_000 {
            4int
        } else if m < 100_000 {
            5int
        } else {
            6int
        },
{
    if m < 10_000 {
        lemma_value_two(m / 100);
        lemma_value_append_two(two_digits(m / 100), m % 100);
    } else if m < 100_000 {
        lemma_value_one(m / 10_000);
        lemma_value_append_two(seq![digit(m / 10_000)], m / 100 % 100);
        lemma_value_append_two(seq![digit(m / 10_000)] + two_digits(m / 100 % 100), m % 100);
    } else {
        lemma_value_two(m / 10_000);
        lemma_value_append_two(two_digits(m / 10_000), m / 100 % 100);
        lemma_value_append_two(two_digits(m / 10_000) + two_digits(m / 100 % 100), m % 100);
    }
}

/// Reading the fields out of the text of a date gives the date back.
pub proof fn lemma_fields_read_of_text(d: Ymd)
    requires
        valid_ymd(d),
    ensures
        fields_read(iso_text(d)) == Some(d),
        10 <= iso_text(d).len() <= 13,
{
    let text = iso_text(d);
    let m: int = if d.year < 0 { -d.year } else { d.year };
    let digits = magnitude_text(m);
    lemma_value_of_magnitude(m);
    lemma_value_two(d.month);
    lemma_value_two(d.day);
    let n = text.len() as int;
    let head: int = if n == 10 { 0 } else { 1 };
    assert(text.subrange(head, n - 6) =~= digits);
    assert(text.subrange(n - 5, n - 3) =~= two_digits(d.month));
    assert(text.subrange(n - 2, n) =~= two_digits(d.day));
}

/// Two dates with the same text are the same date.
pub proof fn lemma_iso_text_injective(a: Ymd, b: Ymd)
    requires
        valid_ymd(a),
        valid_ymd(b),
        iso_text(a) == iso_text(b),
    ensures
        a == b,
{
    lemma_fields_read_of_text(a);
    lemma_fields_read_of_text(b);
}

fn push_two_digits(out: &mut Vec<u8>, n: u32)
    requires
        n <= 99,
    ensures
        final(out)@ == old(out)@ + two_digits(n as int),
{
    out.push(ZERO + (n / 10) as u8);
    out.push(ZERO + (n % 10) as u8);
}

fn push_magnitude(out: &mut Vec<u8>, m: u32)
    requires
        m <= 999_999,
    ensures
        final(out)@ == old(out)@ + magnitude_text(m as int),
{
    if m >= 100_000 {
        push_two_digits(out, m / 10_000);
    } else if m >= 10_000 {
        out.push(ZERO + (m / 10_000) as u8);
    }
    push_two_digits(out, m / 100 % 100);
    push_two_digits(out, m % 100);
}

/// Writes a date as text.
pub fn format_date(date: &Date) -> (text: Vec<u8>)
    ensures
        text@ == iso_text(date@),
        valid_ymd(date@),
{
    let year: i32 = date.year();
    let mut text: Vec<u8> = Vec::new();
    if year < 0 {
        text.push(HYPHEN);
        push_magnitude(&mut text, (0 - year) as u32);
    } else {
        if year > 9999 {
            text.push(PLUS);
        }
        push_magnitude(&mut text, year as u32);
    }
    text.push(HYPHEN);
    push_two_digits(&mut text, date.month());
    text.push(HYPHEN);
    push_two_digits(&mut text, date.day());
    text
}

/// Ten to the power `n`.
pub open spec fn pow10(n: nat) -> nat
    decreases n,
{
    if n == 0 {
        1
    } else {
        10 * pow10((n - 1) as nat)
    }
}

proof fn lemma_pow10_values()
    ensures
        pow10(0) == 1,
        pow10(1) == 10,
        pow10(2) == 100,
        pow10(3) == 1_000,
        pow10(4) == 10_000,
        pow10(5) == 100_000,
        pow10(6) == 1_000_000,
{
    reveal_with_fuel(pow10, 7);
}

/// A string with a prefix that is no decimal number is no decimal number.
proof fn lemma_value_of_prefix(s: Seq<u8>, len: int)
    requires
        0 <= len <= s.len(),
        decimal_value(s.subrange(0, len)) is None,
    ensures
        decimal_value(s) is None,
    decreases s.len(),
{
    if len < s.len() {
        assert(s.drop_last().subrange(0, len) =~= s.subrange(0, len));
        lemma_value_of_prefix(s.drop_last(), len);
    } else {
        assert(s.subrange(0, len) =~= s);
    }
}

/// Reads the decimal number in `bytes[start..end]`.
fn read_decimal(bytes: &[u8], start: usize, end: usize) -> (value: Option<u32>)
    requires
        start <= end <= bytes@.len(),
        end - start <= 6,
    ensures
        match value {
            Some(v) => decimal_value(bytes@.subrange(start as int, end as int)) == Some(v as nat)
                && v <= 999_999,
            None => decimal_value(bytes@.subrange(start as int, end as int)) is None,
        },
{
    let mut value: u32 = 0;
    let mut at: usize = start;
    while at < end
        invariant
            start <= at <= end <= bytes@.len(),
            end - start <= 6,
            decimal_value(bytes@.subrange(start as int, at as int)) == Some(value as nat),
            value < pow10((at - start) as nat),
        decreases end - at,
    {
        let byte: u8 = bytes[at];
        let ghost seen = bytes@.subrange(start as int, at + 1);
        assert(seen.drop_last() =~= bytes@.subrange(start as int, at as int));
        proof {
            lemma_pow10_values();
        }
        if byte < ZERO || byte > ZERO + 9 {
            proof {
                lemma_value_of_prefix(bytes@.subrange(start as int, end as int), at + 1 - start);
            }
            return None;
        }
        value = value * 10 + (byte - ZERO) as u32;
        at = at + 1;
    }
    proof {
        lemma_pow10_values();
    }
    Some(value)
}

fn same_bytes(a: &[u8], b: &[u8]) -> (same: bool)
    ensures
        same == (a@ == b@),
{
    if a.len() != b.len() {
        return false;
    }
    let mut at: usize = 0;
    while at < a.len()
        invariant
            a@.len() == b@.len(),
            at <= a@.len(),
            a@.subrange(0, at as int) == b@.subrange(0, at as int),
        decreases a@.len() - at,
    {
        if a[at] != b[at] {
            return false;
        }
        at = at + 1;
    }
    assert(a@ =~= a@.subrange(0, at as int));
    assert(b@ =~= b@.subrange(0, at as int));
    true
}

/// Reads a date from its text. Only the text that [`format_date`] writes for
/// a date is read as that date; anything else is no date.
pub fn parse_date(text: &[u8]) -> (date: Option<Date>)
    ensures
        match date {
            Some(d) => valid_ymd(d@) && iso_text(d@) == text@,
            None => forall|d: Ymd| valid_ymd(d) ==> iso_text(d) != text@,
        },
{
    proof {
        assert forall|d: Ymd| valid_ymd(d) && iso_text(d) == text@ implies fields_read(text@)
            == Some(d) by {
            lemma_fields_read_of_text(d);
        }
    }
    let n: usize = text.len();
    if n < 10 || n > 13 {
        return None;
    }
    let head: usize = if n == 10 { 0 } else { 1 };
    let year = read_decimal(text, head, n - 6);
    let month = read_decimal(text, n - 5, n - 3);
    let day = read_decimal(text, n - 2, n);
    match (year, month, day) {
        (Some(y), Some(m), Some(d)) => {
            let year: i32 = if n > 10 && text[0] == HYPHEN { 0 - y as i32 } else { y as i32 };
            match Date::from_ymd(year, m, d) {
                Some(date) => {
                    let written = format_date(&date);
                    if same_bytes(written.as_slice(), text) {
                        Some(date)
                    } else {
                        None
                    }
                },
                None => None,
            }
        },
        _ => None,
    }
}

} // verus!
