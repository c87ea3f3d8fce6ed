//! Decimal digits: what a run of digit characters is worth, and how a number
//! is written with a fixed count of digits.

use vstd::prelude::*;
use vstd::string::*;

verus! {

/// Whether `c` is one of the ten decimal digits `0` to `9`.
pub open spec fn is_digit(c: char) -> bool {
    '0' <= c && c <= '9'
}

/// The number that the digit `c` stands for.
pub open spec fn digit_value(c: char) -> int {
    c as int - '0' as int
}

/// The digit that stands for `d`, for `d` below ten.
pub open spec fn digit_char(d: nat) -> char {
    ('0' as nat + d) as char
}

/// Whether every character of `s` from index `from` up to, not including,
/// index `to` is a decimal digit.
pub open spec fn digits_between(s: Seq<char>, from: int, to: int) -> bool {
    forall|i: int| from <= i < to ==> is_digit(#[trigger] s[i])
}

/// Whether `s` is made of decimal digits only.
pub open spec fn all_digits(s: Seq<char>) -> bool {
    digits_between(s, 0, s.len() as int)
}

/// The number that the digits of `s` spell, read as a decimal numeral.
pub open spec fn decimal_value(s: Seq<char>) -> int
    decreases s.len(),
{
    if s.len() == 0 {
        0
    } else {
        decimal_value(s.drop_last()) * 10 + digit_value(s.last())
    }
}

/// The sum of the digits of `s`.
pub open spec fn digit_sum(s: Seq<char>) -> int
    decreases s.len(),
{
    if s.len() == 0 {
        0
    } else {
        digit_sum(s.drop_last()) + digit_value(s.last())
    }
}

/// Ten to the power of `n`.
pub open spec fn pow10(n: nat) -> nat
    decreases n,
{
    if n == 0 {
        1
    } else {
        10 * pow10((n - 1) as nat)
    }
}

/// The last `width` decimal digits of `value`, most significant first, with
/// zeros in front where `value` has fewer digits.
pub open spec fn zero_padded(value: nat, width: nat) -> Seq<char>
    decreases width,
{
    if width == 0 {
        Seq::empty()
    } else {
        zero_padded(value / 10, (width - 1) as nat).push(digit_char(value % 10))
    }
}

/// Tells whether `c` is a decimal digit.
pub fn is_decimal_digit(c: char) -> (ok: bool)
    ensures
        ok == is_digit(c),
{
    '0' <= c && c <= '9'
}

/// Reads the characters of `s` from index `from` up to, not including, index
/// `to` as a decimal numeral. There is a value exactly when all of them are
/// digits.
pub(crate) fn parse_digits(s: &str, from: usize, to: usize) -> (value: Option<u32>)
    requires
        from <= to <= s@.len(),
        to - from <= 9,
    ensures
        value is Some <==> digits_between(s@, from as int, to as int),
        value matches Some(v) ==> v == decimal_value(s@.subrange(from as int, to as int)),
{
    let mut acc: u32 = 0;
    let mut i: usize = from;
    while i < to
        invariant
            from <= i <= to <= s@.len(),
            to - from <= 9,
            digits_between(s@, from as int, i as int),
            acc == decimal_value(s@.subrange(from as int, i as int)),
            acc < pow10((i - from) as nat),
        decreases to - i,
    {
        let c = s.get_char(i);
        if !is_decimal_digit(c) {
            return None;
        }
        proof {
            let longer = s@.subrange(from as int, i + 1);
            assert(longer.drop_last() =~= s@.subrange(from as int, i as int));
            assert(longer.last() == c);
            lemma_pow10_increasing((i - from) as nat, 8);
            lemma_pow10_increasing((i + 1 - from) as nat, 9);
            lemma_pow10_values();
        }
        acc = acc * 10 + (c as u32 - '0' as u32);
        i += 1;
    }
    Some(acc)
}

/// Adds up the digits of `s` from index `from` up to, not including, index
/// `to`. There is a sum exactly when all of these characters are digits.
pub(crate) fn sum_digits(s: &str, from: usize, to: usize) -> (sum: Option<u32>)
    requires
        from <= to <= s@.len(),
        9 * (to - from) <= u32::MAX,
    ensures
        sum is Some <==> digits_between(s@, from as int, to as int),
        sum matches Some(v) ==> v == digit_sum(s@.subrange(from as int, to as int)),
{
    let mut acc: u32 = 0;
    let mut i: usize = from;
    while i < to
        invariant
            from <= i <= to <= s@.len(),
            9 * (to - from) <= u32::MAX,
            digits_between(s@, from as int, i as int),
            acc == digit_sum(s@.subrange(from as int, i as int)),
            acc <= 9 * (i - from),
        decreases to - i,
    {
        let c = s.get_char(i);
        if !is_decimal_digit(c) {
            return None;
        }
        proof {
            let longer = s@.subrange(from as int, i + 1);
            assert(longer.drop_last() =~= s@.subrange(from as int, i as int));
            assert(longer.last() == c);
        }
        acc = acc + (c as u32 - '0' as u32);
        i += 1;
    }
    Some(acc)
}

/// The text of one decimal digit.
fn digit_text(d: u32) -> (text: &'static str)
    requires
        d < 10,
    ensures
        text@ == seq![digit_char(d as nat)],
{
    let text = match d {
        0 => "0",
        1 => "1",
        2 => "2",
        3 => "3",
        4 => "4",
        5 => "5",
        6 => "6",
        7 => "7",
        8 => "8",
        _ => "9",
    };
    proof {
        reveal_strlit("0");
        reveal_strlit("1");
        reveal_strlit("2");
        reveal_strlit("3");
        reveal_strlit("4");
        reveal_strlit("5");
        reveal_strlit("6");
        reveal_strlit("7");
        reveal_strlit("8");
        reveal_strlit("9");
        assert(text@ =~= seq![digit_char(d as nat)]);
    }
    text
}

/// Writes the last `width` decimal digits of `value` at the end of `out`,
/// with zeros in front where `value` has fewer digits.
pub(crate) fn push_zero_padded(out: &mut String, value: u32, width: u32)
    ensures
        final(out)@ == old(out)@ + zero_padded(value as nat, width as nat),
    decreases width,
{
    if width > 0 {
        push_zero_padded(out, value / 10, width - 1);
        out.append(digit_text(value % 10));
        proof {
            let front = zero_padded((value / 10) as nat, (width - 1) as nat);
            let digit = digit_char((value % 10) as nat);
            assert((old(out)@ + front) + seq![digit] =~= old(out)@ + front.push(digit));
        }
    } else {
        proof {
            assert(old(out)@ + zero_padded(value as nat, 0) =~= old(out)@);
        }
    }
}

/// A number written with a fixed count of digits has that many characters,
/// all of them digits.
pub proof fn lemma_zero_padded_digits(value: nat, width: nat)
    ensures
        zero_padded(value, width).len() == width,
        all_digits(zero_padded(value, width)),
    decreases width,
{
    if width > 0 {
        lemma_zero_padded_digits(value / 10, (width - 1) as nat);
    }
}

/// Reading back a number that was written with enough digits gives the
/// number: for `value` below ten to the power of `width`, the numeral
/// `zero_padded(value, width)` spells `value`.
pub proof fn lemma_zero_padded_value(value: nat, width: nat)
    requires
        value < pow10(width),
    ensures
        decimal_value(zero_padded(value, width)) == value,
    decreases width,
{
    if width > 0 {
        let front = zero_padded(value / 10, (width - 1) as nat);
        let digit = digit_char(value % 10);
        lemma_zero_padded_value(value / 10, (width - 1) as nat);
        assert(front.push(digit).drop_last() =~= front);
        assert(front.push(digit).last() == digit);
    }
}

/// Zero written with any count of digits is a run of the digit `0`, and its
/// digits add up to zero.
pub proof fn lemma_zero_padded_zero(width: nat)
    ensures
        forall|i: int| 0 <= i < width ==> #[trigger] zero_padded(0, width)[i] == '0',
        digit_sum(zero_padded(0, width)) == 0,
    decreases width,
{
    lemma_zero_padded_digits(0, width);
    if width > 0 {
        let front = zero_padded(0, (width - 1) as nat);
        lemma_zero_padded_zero((width - 1) as nat);
        lemma_zero_padded_digits(0, (width - 1) as nat);
        assert(zero_padded(0, width) == front.push('0'));
        assert(front.push('0').drop_last() =~= front);
    }
}

/// The powers of ten grow with the exponent.
pub proof fn lemma_pow10_increasing(low: nat, high: nat)
    requires
        low <= high,
    ensures
        0 < pow10(low) <= pow10(high),
    decreases high,
{
    if high == 0 {
    } else if low == high {
        lemma_pow10_increasing((high - 1) as nat, (high - 1) as nat);
    } else {
        lemma_pow10_increasing(low, (high - 1) as nat);
    }
}

/// The powers of ten that fit in 32 bits.
pub proof fn lemma_pow10_values()
    ensures
        pow10(0) == 1,
        pow10(1) == 10,
        pow10(2) == 100,
        pow10(3) == 1_000,
        pow10(4) == 10_000,
        pow10(5) == 100_000,
        pow10(6) == 1_000_000,
        pow10(7) == 10_000_000,
        pow10(8) == 100_000_000,
        pow10(9) == 1_000_000_000,
{
    reveal_with_fuel(pow10, 10);
}

} // verus!
