//! Whole numbers as decimal text.

use vstd::prelude::*;
use vstd::string::*;

verus! {

/// The character of a decimal digit, for `n` from 0 to 9.
pub open spec fn digit_char(n: int) -> char {
    (48 + n) as char
}

/// Whether `c` is one of the characters `0` to `9`.
pub open spec fn is_digit(c: char) -> bool {
    '0' <= c <= '9'
}

/// The decimal digits of `n`, without leading zeros.
pub open spec fn digits_text(n: nat) -> Seq<char>
    decreases n,
{
    if n < 10 {
        seq![digit_char(n as int)]
    } else {
        digits_text(n / 10).push(digit_char((n % 10) as int))
    }
}

/// The decimal text of a whole number: a minus sign if it is negative, then
/// its digits.
pub open spec fn decimal_text(v: int) -> Seq<char> {
    if v < 0 {
        seq!['-'] + digits_text((-v) as nat)
    } else {
        digits_text(v as nat)
    }
}

/// Whether the text holds decimal digits and nothing else.
pub open spec fn all_digits(s: Seq<char>) -> bool {
    forall|i: int| 0 <= i < s.len() ==> is_digit(#[trigger] s[i])
}

/// The number that a string of decimal digits stands for.
pub open spec fn digits_value(s: Seq<char>) -> nat
    decreases s.len(),
{
    if s.len() == 0 {
        0
    } else {
        (digits_value(s.drop_last()) * 10 + (s.last() as int - 48)) as nat
    }
}

/// The whole number that a text stands for: an optional sign, `+` or `-`,
/// then one decimal digit or more, leading zeros allowed. Any other text
/// stands for none.
pub open spec fn parsed_integer(s: Seq<char>) -> Option<int> {
    let signed = s.len() > 0 && (s[0] == '-' || s[0] == '+');
    let digits = if signed { s.skip(1) } else { s };
    if digits.len() == 0 || !all_digits(digits) {
        None
    } else if s[0] == '-' {
        Some(-(digits_value(digits) as int))
    } else {
        Some(digits_value(digits) as int)
    }
}

/// The digits of a number are digits, and stand for the number.
pub proof fn lemma_digits_text(n: nat)
    ensures
        digits_text(n).len() > 0,
        all_digits(digits_text(n)),
        digits_value(digits_text(n)) == n,
    decreases n,
{
    if n < 10 {
        reveal_with_fuel(digits_value, 2);
    } else {
        lemma_digits_text(n / 10);
        assert(digits_text(n).drop_last() =~= digits_text(n / 10));
    }
}

/// Reading the decimal text of a number gives the number back.
pub proof fn lemma_parsed_decimal_text(v: int)
    ensures
        parsed_integer(decimal_text(v)) == Some(v),
{
    if v < 0 {
        let digits = digits_text((-v) as nat);
        lemma_digits_text((-v) as nat);
        assert(decimal_text(v).skip(1) =~= digits);
    } else {
        lemma_digits_text(v as nat);
    }
}

fn digit_str(n: u64) -> (text: &'static str)
    requires
        n <= 9,
    ensures
        text@ == seq![digit_char(n as int)],
{
    proof {
        reveal_strlit("0");
        reveal_strlit("1");
        reveal_strlit("2");
        reveal_strlit("3");
        reveal_strlit("4");
        reveal_strlit("5");
        reveal_strlit("6");
        reveal_strlit("7");
        reveal_strlit("8");
        reveal_strlit("9");
    }
    let text = if n == 0 {
        "0"
    } else if n == 1 {
        "1"
    } else if n == 2 {
        "2"
    } else if n == 3 {
        "3"
    } else if n == 4 {
        "4"
    } else if n == 5 {
        "5"
    } else if n == 6 {
        "6"
    } else if n == 7 {
        "7"
    } else if n == 8 {
        "8"
    } else {
        "9"
    };
    text
}

fn push_digits(out: &mut String, n: u64)
    ensures
        final(out)@ == old(out)@ + digits_text(n as nat),
    decreases n,
{
    if n >= 10 {
        push_digits(out, n / 10);
    }
    out.append(digit_str(n % 10));
}

/// Appends the decimal text of `v`.
pub fn push_decimal(out: &mut String, v: i64)
    ensures
        final(out)@ == old(out)@ + decimal_text(v as int),
{
    if v < 0 {
        proof {
            reveal_strlit("-");
        }
        out.append("-");
        let magnitude: u64 = (-(v + 1)) as u64 + 1;
        push_digits(out, magnitude);
    } else {
        push_digits(out, v as u64);
    }
}

/// The decimal text of `v`.
pub fn format_decimal(v: i64) -> (text: String)
    ensures
        text@ == decimal_text(v as int),
{
    let mut text = String::new();
    push_decimal(&mut text, v);
    text
}

/// A whole number as an `i64`, if it is small enough to be one.
pub open spec fn as_i64(v: Option<int>) -> Option<i64> {
    match v {
        Some(x) => if i64::MIN <= x <= i64::MAX {
            Some(x as i64)
        } else {
            None
        },
        None => None,
    }
}

/// A text that stands for a number holds ASCII characters only.
proof fn lemma_parsed_is_ascii(s: Seq<char>)
    requires
        parsed_integer(s) is Some,
    ensures
        vstd::utf8::is_ascii_chars(s),
{
    let signed = s.len() > 0 && (s[0] == '-' || s[0] == '+');
    let digits = if signed { s.skip(1) } else { s };
    assert forall|i: int| 0 <= i < s.len() implies '\0' <= #[trigger] s[i] <= '\u{7f}' by {
        if signed && i > 0 {
            assert(is_digit(digits[i - 1]));
        }
    }
}

/// A longer string of digits stands for no smaller number.
proof fn lemma_digits_value_grows(s: Seq<char>)
    requires
        s.len() > 0,
        is_digit(s.last()),
    ensures
        digits_value(s) >= digits_value(s.drop_last()),
        digits_value(s) == digits_value(s.drop_last()) * 10 + (s.last() as int - 48),
{
}

/// Reads a whole number from decimal text: an optional sign, then digits.
/// Text that stands for no number, or for one that is no `i64`, gives `None`.
pub fn parse_decimal(text: &str) -> (value: Option<i64>)
    ensures
        value == as_i64(parsed_integer(text@)),
{
    broadcast use vstd::string::is_ascii_spec_bytes;

    if !text.is_ascii() {
        proof {
            if parsed_integer(text@) is Some {
                lemma_parsed_is_ascii(text@);
            }
        }
        return None;
    }
    let bytes = text.as_bytes();
    let n: usize = bytes.len();
    let negative: bool = n > 0 && bytes[0] == 45;
    let signed: bool = n > 0 && (bytes[0] == 45 || bytes[0] == 43);
    let start: usize = if signed { 1 } else { 0 };
    let ghost digits = if signed { text@.skip(1) } else { text@ };
    if start == n {
        return None;
    }
    let mut acc: u64 = 0;
    let mut big: bool = false;
    let mut at: usize = start;
    while at < n
        invariant
            start <= at <= n == bytes@.len() == text@.len(),
            digits.len() == n - start,
            signed == (text@.len() > 0 && (text@[0] == '-' || text@[0] == '+')),
            digits == (if signed { text@.skip(1) } else { text@ }),
            forall|i: int| 0 <= i < n ==> bytes@[i] == #[trigger] text@[i] as u8,
            forall|i: int| 0 <= i < n ==> '\0' <= #[trigger] text@[i] <= '\u{7f}',
            forall|i: int| 0 <= i < digits.len() ==> digits[i] == text@[i + start],
            all_digits(digits.subrange(0, at - start)),
            big ==> digits_value(digits.subrange(0, at - start)) > 0x8000_0000_0000_0000,
            !big ==> acc == digits_value(digits.subrange(0, at - start)) && acc
                <= 0x8000_0000_0000_0000,
        decreases n - at,
    {
        let byte: u8 = bytes[at];
        let ghost seen = digits.subrange(0, at + 1 - start);
        assert(seen.drop_last() =~= digits.subrange(0, at - start));
        if byte < 48 || byte > 57 {
            assert(!is_digit(digits[at - start]));
            return None;
        }
        proof {
            lemma_digits_value_grows(seen);
        }
        if !big {
            let wide: u128 = acc as u128 * 10 + (byte - 48) as u128;
            if wide > 0x8000_0000_0000_0000 {
                big = true;
            } else {
                acc = wide as u64;
            }
        }
        at = at + 1;
    }
    assert(digits.subrange(0, n - start) =~= digits);
    if big {
        None
    } else if negative {
        if acc == 0x8000_0000_0000_0000 {
            Some(i64::MIN)
        } else {
            Some(0 - acc as i64)
        }
    } else if acc < 0x8000_0000_0000_0000 {
        Some(acc as i64)
    } else {
        None
    }
}

} // verus!
