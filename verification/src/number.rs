//! Decimal notation: writing natural numbers and reading signed ones.

use vstd::prelude::*;

use crate::text::text_of;

verus! {

/// The decimal digit that stands for `d`.
pub open spec fn digit(d: int) -> char {
    (48 + d) as char
}

/// The decimal notation of `n`, without leading zeros.
pub open spec fn decimal(n: nat) -> Seq<char>
    decreases n,
{
    if n < 10 {
        seq![digit(n as int)]
    } else {
        decimal(n / 10).push(digit((n % 10) as int))
    }
}

/// Whether `c` is an ASCII decimal digit.
pub open spec fn is_digit(c: char) -> bool {
    '0' <= c <= '9'
}

/// Whether `text` consists of decimal digits alone.
pub open spec fn all_digits(text: Seq<char>) -> bool {
    forall|i: int| 0 <= i < text.len() ==> is_digit(#[trigger] text[i])
}

/// The number that the digits of `text` stand for.
pub open spec fn digits_value(text: Seq<char>) -> int
    decreases text.len(),
{
    if text.len() == 0 {
        0
    } else {
        10 * digits_value(text.drop_last()) + (text.last() as int - 48)
    }
}

/// Decimal notation reads back as the number it was written for.
pub proof fn decimal_reads_back(n: nat)
    ensures
        decimal(n).len() > 0,
        all_digits(decimal(n)),
        digits_value(decimal(n)) == n,
    decreases n,
{
    reveal_with_fuel(digits_value, 2);
    if n >= 10 {
        decimal_reads_back(n / 10);
        let front = decimal(n / 10);
        assert(decimal(n).drop_last() =~= front);
        assert forall|i: int| 0 <= i < decimal(n).len() implies is_digit(
            #[trigger] decimal(n)[i],
        ) by {
            if i < front.len() {
                assert(decimal(n)[i] == front[i]);
            }
        }
    } else {
        assert(decimal(n).drop_last() =~= Seq::<char>::empty());
    }
}

/// Different numbers have different decimal notations.
pub proof fn decimal_is_injective(a: nat, b: nat)
    ensures
        decimal(a) == decimal(b) ==> a == b,
{
    decimal_reads_back(a);
    decimal_reads_back(b);
}

/// The characters of the decimal notation of `n`.
fn decimal_chars(n: u64) -> (chars: Vec<char>)
    ensures
        chars@ == decimal(n as nat),
    decreases n,
{
    let low: u8 = (n % 10) as u8;
    let c: char = (48 + low) as char;
    if n < 10 {
        let mut chars: Vec<char> = Vec::new();
        chars.push(c);
        assert(chars@ =~= decimal(n as nat));
        chars
    } else {
        let mut chars = decimal_chars(n / 10);
        chars.push(c);
        chars
    }
}

/// The decimal notation of `n`.
pub fn decimal_text(n: u64) -> (text: String)
    ensures
        text@ == decimal(n as nat),
{
    text_of(&decimal_chars(n))
}

/// What is left of `text` behind an optional sign.
pub open spec fn unsigned_part(text: Seq<char>) -> Seq<char> {
    if text.len() > 0 && (text[0] == '-' || text[0] == '+') {
        text.skip(1)
    } else {
        text
    }
}

/// The integer that `text` stands for: an optional sign and one or more decimal
/// digits, with a value that fits in an `i64`.
pub open spec fn parsed_int(text: Seq<char>) -> Option<int> {
    let digits = unsigned_part(text);
    let value = if text.len() > 0 && text[0] == '-' {
        -digits_value(digits)
    } else {
        digits_value(digits)
    };
    if digits.len() > 0 && all_digits(digits) && i64::MIN <= value <= i64::MAX {
        Some(value)
    } else {
        None
    }
}

/// The value of the digits of `text` from `from` on, if there are any, all
/// are digits and the value is at most 2^63.
fn read_digits(text: &Vec<char>, from: usize) -> (value: Option<u64>)
    requires
        from <= text.len(),
    ensures
        match value {
            Some(v) => {
                &&& text@.skip(from as int).len() > 0
                &&& all_digits(text@.skip(from as int))
                &&& v == digits_value(text@.skip(from as int))
                &&& v <= 0x8000_0000_0000_0000
            },
            None => {
                ||| text@.skip(from as int).len() == 0
                ||| !all_digits(text@.skip(from as int))
                ||| digits_value(text@.skip(from as int)) > 0x8000_0000_0000_0000
            },
        },
{
    let ghost digits = text@.skip(from as int);
    if from == text.len() {
        return None;
    }
    let mut i: usize = from;
    let mut value: u128 = 0;
    let mut fits: bool = true;
    assert(digits.take(0) =~= Seq::<char>::empty());
    while i < text.len()
        invariant
            from <= i <= text.len(),
            digits == text@.skip(from as int),
            forall|j: int| from <= j < i ==> is_digit(#[trigger] text@[j]),
            fits ==> value == digits_value(digits.take(i - from)) && value
                <= 0x8000_0000_0000_0000,
            !fits ==> digits_value(digits.take(i - from)) > 0x8000_0000_0000_0000,
        decreases text.len() - i,
    {
        let c = text[i];
        if !('0' <= c && c <= '9') {
            assert(digits[i - from] == c);
            assert(!is_digit(digits[i - from]));
            return None;
        }
        assert(digits.take(i - from + 1).drop_last() =~= digits.take(i - from));
        assert(digits.take(i - from + 1).last() == c);
        if fits {
            value = value * 10 + (c as u8 - 48) as u128;
            if value > 0x8000_0000_0000_0000 {
                fits = false;
            }
        }
        i += 1;
    }
    assert(digits.take(i - from) =~= digits);
    assert(all_digits(digits)) by {
        assert forall|j: int| 0 <= j < digits.len() implies is_digit(#[trigger] digits[j]) by {
            assert(is_digit(text@[from + j]));
        }
    }
    if fits {
        Some(value as u64)
    } else {
        None
    }
}

/// Reads an integer: an optional sign and one or more decimal digits. `None`
/// for any other text, and for a value outside the range of `i64`.
pub fn parse_int(text: &Vec<char>) -> (value: Option<i64>)
    ensures
        match value {
            Some(v) => parsed_int(text@) == Some(v as int),
            None => parsed_int(text@) is None,
        },
{
    if text.len() > 0 && text[0] == '-' {
        match read_digits(text, 1) {
            Some(v) => {
                if v == 0x8000_0000_0000_0000 {
                    Some(i64::MIN)
                } else {
                    Some(-(v as i64))
                }
            },
            None => None,
        }
    } else {
        let from: usize = if text.len() > 0 && text[0] == '+' {
            1
        } else {
            0
        };
        assert(text@.skip(0) =~= text@);
        match read_digits(text, from) {
            Some(v) => {
                if v <= 0x7fff_ffff_ffff_ffff {
                    Some(v as i64)
                } else {
                    None
                }
            },
            None => None,
        }
    }
}

/// A number written in decimal notation is read back unchanged.
pub proof fn written_number_is_read_back(n: nat)
    requires
        n <= i64::MAX,
    ensures
        parsed_int(decimal(n)) == Some(n as int),
{
    decimal_reads_back(n);
    assert(is_digit(decimal(n)[0]));
}

// ---------------------------------------------------------------------------
// Decimal notation, digit by digit
// ---------------------------------------------------------------------------

/// A number below ten is one digit; any other is the digits of its tenth part
/// with its last digit behind them.
pub proof fn decimal_digit_by_digit(n: nat, d: nat)
    requires
        d < 10,
    ensures
        decimal(d) == seq![(0x30 + d) as char],
        n > 0 ==> decimal(10 * n + d) == decimal(n).push((0x30 + d) as char),
{
    assert((10 * n + d) / 10 == n);
    assert((10 * n + d) % 10 == d);
}

/// A number has no leading zero.
pub proof fn decimal_has_no_leading_zero(n: nat)
    requires
        n > 0,
    ensures
        decimal(n).len() > 0,
        decimal(n)[0] != '0',
    decreases n,
{
    if n >= 10 {
        decimal_has_no_leading_zero(n / 10);
    }
}

/// A sign in front of a number gives it that sign; a number beyond the range is
/// none.
pub proof fn signed_numbers_are_read(n: nat)
    ensures
        n <= i64::MAX ==> parsed_int(seq!['+'] + decimal(n)) == Some(n as int),
        n <= i64::MAX + 1 ==> parsed_int(seq!['-'] + decimal(n)) == Some(-n),
        n > i64::MAX ==> parsed_int(decimal(n)) is None && parsed_int(seq!['+'] + decimal(n)) is None,
        n > i64::MAX + 1 ==> parsed_int(seq!['-'] + decimal(n)) is None,
{
    decimal_reads_back(n);
    assert(is_digit(decimal(n)[0]));
    assert((seq!['+'] + decimal(n)).skip(1) =~= decimal(n));
    assert((seq!['-'] + decimal(n)).skip(1) =~= decimal(n));
}

/// Text with anything but digits behind its first character is no number, nor is
/// one that starts with neither a digit nor a sign, nor a sign alone, nor nothing.
pub proof fn other_text_is_no_number(text: Seq<char>, i: int)
    requires
        text.len() == 0 || (text.len() == 1 && (text[0] == '+' || text[0] == '-')) || (0 < i
            < text.len() && !('0' <= text[i] <= '9')) || (i == 0 && 0 < text.len() && !('0'
            <= text[0] <= '9') && text[0] != '+' && text[0] != '-'),
    ensures
        parsed_int(text) is None,
{
    let digits = unsigned_part(text);
    if text.len() > 1 || (text.len() == 1 && text[0] != '+' && text[0] != '-') {
        let k = text.len() - digits.len();
        assert(digits =~= text.skip(k));
        assert(digits[i - k] == text[i]);
        assert(!is_digit(digits[i - k]));
    }
}

} // verus!
