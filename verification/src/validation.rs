//! What a valid product key is, and the functions that decide it.
//!
//! A key is checked in two steps. Its *format* fixes the length, the places
//! of the digits and the separators between the blocks. Each *block* then has
//! a rule of its own on the digits it holds. The rule is chosen by the length
//! of the block alone; the second block of an OEM key is told apart from the
//! second block of a retail key by handing it over together with the hyphen
//! that follows it.

use vstd::prelude::*;
use vstd::string::*;
use crate::digits::{
    all_digits, decimal_value, digit_sum, digit_value, digits_between, is_decimal_digit, is_digit,
    parse_digits, sum_digits,
};
use crate::kinds::{Error, KeyType};

verus! {

/// The shape of a retail key: three digits, a hyphen, seven digits.
pub open spec fn retail_shaped(key: Seq<char>) -> bool {
    &&& key.len() == 11
    &&& digits_between(key, 0, 3)
    &&& key[3] == '-'
    &&& digits_between(key, 4, 11)
}

/// The shape of an OEM key: five digits, the marker `-OEM-`, seven digits, a
/// hyphen, five digits.
pub open spec fn oem_shaped(key: Seq<char>) -> bool {
    &&& key.len() == 23
    &&& digits_between(key, 0, 5)
    &&& key.subrange(5, 10) == seq!['-', 'O', 'E', 'M', '-']
    &&& digits_between(key, 10, 17)
    &&& key[17] == '-'
    &&& digits_between(key, 18, 23)
}

/// Whether `key` has the shape of a retail key or of an OEM key.
pub open spec fn well_formed(key: Seq<char>) -> bool {
    retail_shaped(key) || oem_shaped(key)
}

/// Whether `v` is a multiple of 111 from 333 to 999, that is one of the
/// numerals `333`, `444`, up to `999`.
pub open spec fn repeated_digit(v: int) -> bool {
    v % 111 == 0 && 3 <= v / 111 <= 9
}

/// Whether no character of `s` is the digit `9`.
pub open spec fn free_of_nine(s: Seq<char>) -> bool {
    forall|i: int| 0 <= i < s.len() ==> #[trigger] s[i] != '9'
}

/// Whether `block` obeys the rule that its length selects.
///
/// - Three characters: digits that do not spell a repeated digit from 333 to
///   999.
/// - Five characters: digits of which the first three spell a number up to
///   366 and the last two a number from 4 to 93.
/// - Seven characters: digits other than 9 whose sum is a multiple of seven.
/// - Eight characters: the first seven are digits whose sum is a multiple of
///   seven; the eighth is not looked at.
///
/// A block of any other length, or with another character where a digit is
/// due, is not valid.
pub open spec fn valid_block(block: Seq<char>) -> bool {
    if block.len() == 3 {
        all_digits(block) && !repeated_digit(decimal_value(block))
    } else if block.len() == 5 {
        &&& all_digits(block)
        &&& decimal_value(block.subrange(0, 3)) <= 366
        &&& 4 <= decimal_value(block.subrange(3, 5)) <= 93
    } else if block.len() == 7 {
        all_digits(block) && free_of_nine(block) && digit_sum(block) % 7 == 0
    } else if block.len() == 8 {
        digits_between(block, 0, 7) && digit_sum(block.subrange(0, 7)) % 7 == 0
    } else {
        false
    }
}

/// What validation makes of `key`: the type of a valid key, `InvalidFormat`
/// for a string that is not well formed, and `InvalidKey` for a well-formed
/// string with a block that breaks its rule.
pub open spec fn key_verdict(key: Seq<char>) -> Result<KeyType, Error> {
    if retail_shaped(key) {
        if valid_block(key.subrange(0, 3)) && valid_block(key.subrange(4, 11)) {
            Ok(KeyType::Retail)
        } else {
            Err(Error::InvalidKey)
        }
    } else if oem_shaped(key) {
        if valid_block(key.subrange(0, 5)) && valid_block(key.subrange(10, 18)) {
            Ok(KeyType::Oem)
        } else {
            Err(Error::InvalidKey)
        }
    } else {
        Err(Error::InvalidFormat)
    }
}

/// Of the numerals of three digits, the block rule turns down 333, 444,
/// 555, 666, 777, 888 and 999, and no other.
pub proof fn lemma_three_digit_rejections(block: Seq<char>)
    requires
        block.len() == 3,
        all_digits(block),
    ensures
        0 <= decimal_value(block) <= 999,
        !valid_block(block) <==> {
            let v = decimal_value(block);
            v == 333 || v == 444 || v == 555 || v == 666 || v == 777 || v == 888 || v == 999
        },
{
    let two = block.drop_last();
    let one = two.drop_last();
    assert(is_digit(block[0]) && is_digit(block[1]) && is_digit(block[2]));
    assert(decimal_value(one.drop_last()) == 0);
    assert(one.last() == block[0]);
    assert(decimal_value(one) == digit_value(block[0]));
    assert(two.last() == block[1]);
    assert(decimal_value(two) == digit_value(block[0]) * 10 + digit_value(block[1]));
}

/// Tells whether all characters of `s` from index `from` up to, not
/// including, index `to` are digits.
fn digits_in(s: &str, from: usize, to: usize) -> (ok: bool)
    requires
        from <= to <= s@.len(),
    ensures
        ok == digits_between(s@, from as int, to as int),
{
    let mut i: usize = from;
    while i < to
        invariant
            from <= i <= to <= s@.len(),
            digits_between(s@, from as int, i as int),
        decreases to - i,
    {
        if !is_decimal_digit(s.get_char(i)) {
            return false;
        }
        i += 1;
    }
    true
}

/// Tells whether none of the characters of `s` is the digit `9`.
fn lacks_nine(s: &str) -> (ok: bool)
    ensures
        ok == free_of_nine(s@),
{
    let n = s.unicode_len();
    let mut i: usize = 0;
    while i < n
        invariant
            i <= n == s@.len(),
            forall|j: int| 0 <= j < i ==> #[trigger] s@[j] != '9',
        decreases n - i,
    {
        if s.get_char(i) == '9' {
            return false;
        }
        i += 1;
    }
    true
}

/// Tells whether `product_key` has the shape of a key: the right length for
/// one of the two key types, digits in the places of the blocks and the
/// separators between them. The values of the blocks are not looked at.
pub fn validate_format(product_key: &str) -> (ok: bool)
    ensures
        ok == well_formed(product_key@),
{
    let n = product_key.unicode_len();
    if n == 11 {
        digits_in(product_key, 0, 3) && product_key.get_char(3) == '-' && digits_in(
            product_key,
            4,
            11,
        )
    } else if n == 23 {
        let marked = product_key.get_char(5) == '-' && product_key.get_char(6) == 'O'
            && product_key.get_char(7) == 'E' && product_key.get_char(8) == 'M'
            && product_key.get_char(9) == '-';
        proof {
            let marker = product_key@.subrange(5, 10);
            if marked {
                assert(marker =~= seq!['-', 'O', 'E', 'M', '-']);
            } else {
                assert(marker[0] == product_key@[5]);
                assert(marker[1] == product_key@[6]);
                assert(marker[2] == product_key@[7]);
                assert(marker[3] == product_key@[8]);
                assert(marker[4] == product_key@[9]);
            }
        }
        digits_in(product_key, 0, 5) && marked && digits_in(product_key, 10, 17)
            && product_key.get_char(17) == '-' && digits_in(product_key, 18, 23)
    } else {
        false
    }
}

/// Tells whether `block` obeys the rule of the block kind that its length
/// selects.
pub fn validate_block(block: &str) -> (ok: bool)
    ensures
        ok == valid_block(block@),
{
    let n = block.unicode_len();
    if n == 3 {
        proof {
            assert(block@.subrange(0, 3) =~= block@);
        }
        match parse_digits(block, 0, 3) {
            Some(v) => !(v % 111 == 0 && 3 <= v / 111 && v / 111 <= 9),
            None => false,
        }
    } else if n == 5 {
        match (parse_digits(block, 0, 3), parse_digits(block, 3, 5)) {
            (Some(day), Some(year)) => day <= 366 && 4 <= year && year <= 93,
            _ => false,
        }
    } else if n == 7 {
        proof {
            assert(block@.subrange(0, 7) =~= block@);
        }
        match sum_digits(block, 0, 7) {
            Some(sum) => lacks_nine(block) && sum % 7 == 0,
            None => false,
        }
    } else if n == 8 {
        match sum_digits(block, 0, 7) {
            Some(sum) => sum % 7 == 0,
            None => false,
        }
    } else {
        false
    }
}

/// Validates a product key.
///
/// Returns the type of the key if `product_key` is a valid retail or OEM
/// key. Returns `InvalidFormat` if it has the shape of neither, and
/// `InvalidKey` if it has the shape of one but a block that breaks its rule.
pub fn validate_product_key(product_key: &str) -> (verdict: Result<KeyType, Error>)
    ensures
        verdict == key_verdict(product_key@),
{
    if !validate_format(product_key) {
        return Err(Error::InvalidFormat);
    }
    if product_key.unicode_len() == 11 {
        if validate_block(product_key.substring_char(0, 3)) && validate_block(
            product_key.substring_char(4, 11),
        ) {
            Ok(KeyType::Retail)
        } else {
            Err(Error::InvalidKey)
        }
    } else {
        if validate_block(product_key.substring_char(0, 5)) && validate_block(
            product_key.substring_char(10, 18),
        ) {
            Ok(KeyType::Oem)
        } else {
            Err(Error::InvalidKey)
        }
    }
}

} // verus!
