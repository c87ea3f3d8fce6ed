//! Drawing product keys at random.
//!
//! A block is made by rejection sampling: a random number picks a candidate
//! from the value range of the block kind, the candidate is written with the
//! width of the block, and it is kept if the block rule accepts it. The rule
//! is the one that validation applies, so every key that is handed out
//! validates.

use vstd::prelude::*;
use vstd::string::*;
use crate::digits::{
    all_digits, is_digit, lemma_pow10_values, lemma_zero_padded_digits, lemma_zero_padded_value,
    lemma_zero_padded_zero, push_zero_padded, zero_padded,
};
use crate::entropy::draw;
use crate::kinds::{Choice, Error, KeyType};
use crate::validation::{key_verdict, oem_shaped, retail_shaped, valid_block, validate_block};

verus! {

/// The number of candidates that are tried for one block before sampling is
/// given up. Even for the block kind that is accepted least often, it is
/// beyond belief that a working random source needs this many.
pub const MAX_ATTEMPTS: u32 = 4096;

/// The candidate block that two random numbers select. Only a block of kind
/// `B`, which is made of two numbers, looks at `second`.
pub open spec fn candidate(choice: Choice, first: u32, second: u32) -> Seq<char> {
    match choice {
        Choice::A => zero_padded((first % 999) as nat, 3),
        Choice::B => zero_padded((first % 367) as nat, 3) + zero_padded(
            (4 + second % 90) as nat,
            2,
        ),
        Choice::C => zero_padded((first % 8_888_889) as nat, 7),
        Choice::D => zero_padded((first % 10_000_000) as nat, 7),
        Choice::E => zero_padded((first % 100_000) as nat, 5),
    }
}

/// Whether `block` can stand in a key as a block of kind `choice`: it has
/// the width of the kind and obeys its rule. The rule of a `D` block is the
/// one for a block of eight characters, applied to the block and the hyphen
/// that follows it in the key. An `E` block has no rule beyond its digits.
pub open spec fn acceptable(choice: Choice, block: Seq<char>) -> bool {
    &&& block.len() == choice.width()
    &&& match choice {
        Choice::A | Choice::B | Choice::C => valid_block(block),
        Choice::D => valid_block(block.push('-')),
        Choice::E => all_digits(block),
    }
}

/// A retail key made of the blocks `a` and `c`.
pub open spec fn retail_key(a: Seq<char>, c: Seq<char>) -> Seq<char> {
    a + seq!['-'] + c
}

/// An OEM key made of the blocks `b`, `d` and `e`.
pub open spec fn oem_key(b: Seq<char>, d: Seq<char>, e: Seq<char>) -> Seq<char> {
    b + seq!['-', 'O', 'E', 'M', '-'] + d + seq!['-'] + e
}

/// Every candidate has the width of its kind and is made of digits.
pub proof fn lemma_candidate_digits(choice: Choice, first: u32, second: u32)
    ensures
        candidate(choice, first, second).len() == choice.width(),
        all_digits(candidate(choice, first, second)),
{
    match choice {
        Choice::A => lemma_zero_padded_digits((first % 999) as nat, 3),
        Choice::B => {
            lemma_zero_padded_digits((first % 367) as nat, 3);
            lemma_zero_padded_digits((4 + second % 90) as nat, 2);
        },
        Choice::C => lemma_zero_padded_digits((first % 8_888_889) as nat, 7),
        Choice::D => lemma_zero_padded_digits((first % 10_000_000) as nat, 7),
        Choice::E => lemma_zero_padded_digits((first % 100_000) as nat, 5),
    }
}

/// The candidates of the kinds `B` and `E` need no sampling: each of them is
/// acceptable.
pub proof fn lemma_direct_candidate_acceptable(choice: Choice, first: u32, second: u32)
    requires
        choice == Choice::B || choice == Choice::E,
    ensures
        acceptable(choice, candidate(choice, first, second)),
{
    lemma_candidate_digits(choice, first, second);
    if choice == Choice::B {
        let day = zero_padded((first % 367) as nat, 3);
        let year = zero_padded((4 + second % 90) as nat, 2);
        lemma_pow10_values();
        lemma_zero_padded_digits((first % 367) as nat, 3);
        lemma_zero_padded_digits((4 + second % 90) as nat, 2);
        lemma_zero_padded_value((first % 367) as nat, 3);
        lemma_zero_padded_value((4 + second % 90) as nat, 2);
        assert((day + year).subrange(0, 3) =~= day);
        assert((day + year).subrange(3, 5) =~= year);
    }
}

/// The candidate that the numbers zero select is acceptable, whatever the
/// kind.
pub proof fn lemma_zero_candidate_acceptable(choice: Choice)
    ensures
        acceptable(choice, candidate(choice, 0, 0)),
{
    lemma_candidate_digits(choice, 0, 0);
    lemma_pow10_values();
    match choice {
        Choice::A => {
            lemma_zero_padded_value(0, 3);
        },
        Choice::B => {
            lemma_direct_candidate_acceptable(choice, 0, 0);
        },
        Choice::C => {
            lemma_zero_padded_zero(7);
        },
        Choice::D => {
            let block = zero_padded(0, 7);
            lemma_zero_padded_zero(7);
            assert(block.push('-').subrange(0, 7) =~= block);
        },
        Choice::E => {},
    }
}

/// Writes the candidate block that two random numbers select.
pub fn candidate_block(choice: Choice, first: u32, second: u32) -> (block: String)
    ensures
        block@ == candidate(choice, first, second),
{
    let mut block = String::new();
    match choice {
        Choice::A => push_zero_padded(&mut block, first % 999, 3),
        Choice::B => {
            push_zero_padded(&mut block, first % 367, 3);
            push_zero_padded(&mut block, 4 + second % 90, 2);
        },
        Choice::C => push_zero_padded(&mut block, first % 8_888_889, 7),
        Choice::D => push_zero_padded(&mut block, first % 10_000_000, 7),
        Choice::E => push_zero_padded(&mut block, first % 100_000, 5),
    }
    block
}

/// One step of sampling: writes the candidate block that two random numbers
/// select and keeps it if it is acceptable for its kind.
pub fn try_block(choice: Choice, first: u32, second: u32) -> (kept: Option<String>)
    ensures
        match kept {
            Some(block) => block@ == candidate(choice, first, second) && acceptable(
                choice,
                block@,
            ),
            None => !acceptable(choice, candidate(choice, first, second)),
        },
{
    let block = candidate_block(choice, first, second);
    proof {
        lemma_candidate_digits(choice, first, second);
    }
    let keep = match choice {
        Choice::A | Choice::C => validate_block(block.as_str()),
        Choice::D => {
            let mut followed = block.clone();
            followed.append("-");
            proof {
                reveal_strlit("-");
                assert(followed@ =~= block@.push('-'));
            }
            validate_block(followed.as_str())
        },
        Choice::B | Choice::E => {
            proof {
                lemma_direct_candidate_acceptable(choice, first, second);
            }
            true
        },
    };
    if keep {
        Some(block)
    } else {
        None
    }
}

/// Draws a block of kind `choice` at random.
///
/// Candidates are drawn and tried until one is acceptable. A candidate of
/// kind `B` or `E` always is, so the first one drawn is the block. Where
/// [`MAX_ATTEMPTS`] attempts have given no block, because the candidates
/// were turned down or the random source could not be read, the block is the
/// candidate that the numbers zero select, which is made of the digit `0`
/// but for the year `04` of a `B` block.
pub fn generate_block(choice: Choice) -> (block: String)
    ensures
        acceptable(choice, block@),
{
    let mut attempts: u32 = 0;
    while attempts < MAX_ATTEMPTS
        invariant
            attempts <= MAX_ATTEMPTS,
        decreases MAX_ATTEMPTS - attempts,
    {
        attempts = attempts + 1;
        if let Some(first) = draw() {
            let second = match choice {
                Choice::B => draw(),
                _ => Some(0),
            };
            if let Some(second) = second {
                if let Some(block) = try_block(choice, first, second) {
                    return block;
                }
            }
        }
    }
    proof {
        lemma_zero_candidate_acceptable(choice);
    }
    candidate_block(choice, 0, 0)
}

/// Joins two blocks to a retail key.
pub fn assemble_retail(a: &str, c: &str) -> (key: String)
    ensures
        key@ == retail_key(a@, c@),
{
    let mut key = String::from_str(a);
    key.append("-");
    key.append(c);
    proof {
        reveal_strlit("-");
        assert(key@ =~= retail_key(a@, c@));
    }
    key
}

/// Joins three blocks to an OEM key.
pub fn assemble_oem(b: &str, d: &str, e: &str) -> (key: String)
    ensures
        key@ == oem_key(b@, d@, e@),
{
    let mut key = String::from_str(b);
    key.append("-OEM-");
    key.append(d);
    key.append("-");
    key.append(e);
    proof {
        reveal_strlit("-OEM-");
        reveal_strlit("-");
        assert("-OEM-"@ =~= seq!['-', 'O', 'E', 'M', '-']);
        assert(key@ =~= oem_key(b@, d@, e@));
    }
    key
}

/// Generation and validation agree on retail keys: a key that is joined
/// from an acceptable `A` block and an acceptable `C` block validates as a
/// retail key.
pub proof fn lemma_retail_key_validates(a: Seq<char>, c: Seq<char>)
    requires
        acceptable(Choice::A, a),
        acceptable(Choice::C, c),
    ensures
        retail_shaped(retail_key(a, c)),
        key_verdict(retail_key(a, c)) == Ok::<KeyType, Error>(KeyType::Retail),
{
    let key = retail_key(a, c);
    assert(key.subrange(0, 3) =~= a);
    assert(key.subrange(4, 11) =~= c);
    assert forall|i: int| 0 <= i < 3 implies is_digit(#[trigger] key[i]) by {
        assert(key[i] == a[i]);
    }
    assert forall|i: int| 4 <= i < 11 implies is_digit(#[trigger] key[i]) by {
        assert(key[i] == c[i - 4]);
    }
}

/// Generation and validation agree on OEM keys: a key that is joined from
/// acceptable blocks of the kinds `B`, `D` and `E` validates as an OEM key.
pub proof fn lemma_oem_key_validates(b: Seq<char>, d: Seq<char>, e: Seq<char>)
    requires
        acceptable(Choice::B, b),
        acceptable(Choice::D, d),
        acceptable(Choice::E, e),
    ensures
        oem_shaped(oem_key(b, d, e)),
        key_verdict(oem_key(b, d, e)) == Ok::<KeyType, Error>(KeyType::Oem),
{
    let key = oem_key(b, d, e);
    assert(key.subrange(0, 5) =~= b);
    assert(key.subrange(5, 10) =~= seq!['-', 'O', 'E', 'M', '-']);
    assert(key.subrange(10, 18) =~= d.push('-'));
    assert forall|i: int| 0 <= i < 5 implies is_digit(#[trigger] key[i]) by {
        assert(key[i] == b[i]);
    }
    assert forall|i: int| 10 <= i < 17 implies is_digit(#[trigger] key[i]) by {
        assert(key[i] == d.push('-')[i - 10]);
    }
    assert forall|i: int| 18 <= i < 23 implies is_digit(#[trigger] key[i]) by {
        assert(key[i] == e[i - 18]);
    }
}

/// Every valid retail key is joined from blocks that generation can hand
/// out: its first three characters are an acceptable `A` block and its last
/// seven an acceptable `C` block.
pub proof fn lemma_valid_retail_key_blocks(key: Seq<char>)
    requires
        key_verdict(key) == Ok::<KeyType, Error>(KeyType::Retail),
    ensures
        key == retail_key(key.subrange(0, 3), key.subrange(4, 11)),
        acceptable(Choice::A, key.subrange(0, 3)),
        acceptable(Choice::C, key.subrange(4, 11)),
{
    assert(retail_shaped(key));
    assert(key =~= retail_key(key.subrange(0, 3), key.subrange(4, 11)));
}

/// Every valid OEM key is joined from blocks that generation can hand out:
/// an acceptable `B` block, the marker, an acceptable `D` block, a hyphen
/// and an acceptable `E` block.
pub proof fn lemma_valid_oem_key_blocks(key: Seq<char>)
    requires
        key_verdict(key) == Ok::<KeyType, Error>(KeyType::Oem),
    ensures
        key == oem_key(key.subrange(0, 5), key.subrange(10, 17), key.subrange(18, 23)),
        acceptable(Choice::B, key.subrange(0, 5)),
        acceptable(Choice::D, key.subrange(10, 17)),
        acceptable(Choice::E, key.subrange(18, 23)),
{
    assert(oem_shaped(key));
    let marker = key.subrange(5, 10);
    assert(marker[0] == key[5] && marker[1] == key[6] && marker[2] == key[7] && marker[3]
        == key[8] && marker[4] == key[9]);
    assert(key =~= oem_key(key.subrange(0, 5), key.subrange(10, 17), key.subrange(18, 23)));
    assert(key.subrange(10, 17).push('-') =~= key.subrange(10, 18));
    assert forall|i: int| 0 <= i < 5 implies is_digit(#[trigger] key.subrange(18, 23)[i]) by {
        assert(key.subrange(18, 23)[i] == key[18 + i]);
    }
}

/// Generates a valid product key of type `key_type`.
///
/// The blocks of the key are drawn at random, see [`generate_block`]. Which
/// key comes back is not determined; it is always one that
/// [`validate_product_key`](crate::validation::validate_product_key) takes
/// for a key of type `key_type`. A retail key has eleven characters with a
/// hyphen at index 3, an OEM key has twenty-three with `-OEM-` from index 5
/// and a hyphen at index 17.
pub fn generate_product_key(key_type: KeyType) -> (key: String)
    ensures
        key_verdict(key@) == Ok::<KeyType, Error>(key_type),
        key_type == KeyType::Retail ==> key@.len() == 11 && key@[3] == '-',
        key_type == KeyType::Oem ==> key@.len() == 23 && key@.subrange(5, 10) == seq![
            '-',
            'O',
            'E',
            'M',
            '-',
        ] && key@[17] == '-',
{
    match key_type {
        KeyType::Retail => {
            let a = generate_block(Choice::A);
            let c = generate_block(Choice::C);
            proof {
                lemma_retail_key_validates(a@, c@);
            }
            assemble_retail(a.as_str(), c.as_str())
        },
        KeyType::Oem => {
            let b = generate_block(Choice::B);
            let d = generate_block(Choice::D);
            let e = generate_block(Choice::E);
            proof {
                lemma_oem_key_validates(b@, d@, e@);
            }
            assemble_oem(b.as_str(), d.as_str(), e.as_str())
        },
    }
}

} // verus!
