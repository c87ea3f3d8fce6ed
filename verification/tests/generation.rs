use keyforge95::generation::{
    assemble_oem, assemble_retail, candidate_block, generate_block, try_block, MAX_ATTEMPTS,
};
use keyforge95::kinds::Choice;
use keyforge95::kinds::Choice::{A, B, C, D, E};
use keyforge95::validation::{validate_block, validate_format};
use keyforge95::{generate_product_key, validate_product_key, Oem, Retail};

#[test]
fn test_generate_block() {
    let options: [(Choice, usize); 5] = [(A, 3), (B, 5), (C, 7), (D, 7), (E, 5)];
    for (choice, length) in options {
        assert_eq!(generate_block(choice).len(), length);
    }
}

#[test]
fn generated_retail_key_has_its_shape() {
    for _ in 0..10 {
        let product_key: String = generate_product_key(Retail);
        assert_eq!(product_key.len(), 11);
        assert_eq!(product_key.chars().nth(3).unwrap(), '-');
    }
}

#[test]
fn generated_oem_key_has_its_shape() {
    for _ in 0..10 {
        let product_key: String = generate_product_key(Oem);
        assert_eq!(product_key.len(), 23);
        assert_eq!(&product_key[5..10], "-OEM-");
        assert_eq!(product_key.chars().nth(17).unwrap(), '-');
    }
}

#[test]
fn generated_retail_keys_validate() {
    for _ in 0..300 {
        let product_key = generate_product_key(Retail);
        assert!(validate_format(&product_key));
        assert!(matches!(validate_product_key(&product_key), Ok(Retail)));
    }
}

#[test]
fn generated_oem_keys_validate() {
    for _ in 0..300 {
        let product_key = generate_product_key(Oem);
        assert!(validate_format(&product_key));
        assert!(matches!(validate_product_key(&product_key), Ok(Oem)));
    }
}

#[test]
fn generated_blocks_obey_their_rule() {
    for _ in 0..200 {
        let a = generate_block(Choice::A);
        assert!(validate_block(&a));
        assert!(a.parse::<u32>().unwrap() <= 998);
        let b = generate_block(Choice::B);
        assert!(validate_block(&b));
        let c = generate_block(Choice::C);
        assert!(validate_block(&c));
        assert!(c.parse::<u32>().unwrap() <= 8_888_888);
        let d = generate_block(Choice::D);
        assert!(validate_block(&format!("{}-", d)));
        let e = generate_block(Choice::E);
        assert_eq!(e.len(), 5);
        assert!(e.chars().all(|c| c.is_ascii_digit()));
    }
}

#[test]
fn generated_keys_vary() {
    let first = generate_product_key(Oem);
    let mut differs = false;
    for _ in 0..20 {
        if generate_product_key(Oem) != first {
            differs = true;
        }
    }
    assert!(differs);
}

#[test]
fn candidate_of_each_kind() {
    assert_eq!(candidate_block(Choice::A, 0, 0), "000");
    assert_eq!(candidate_block(Choice::A, 998, 0), "998");
    assert_eq!(candidate_block(Choice::A, 999, 0), "000");
    assert_eq!(candidate_block(Choice::A, 1000, 7), "001");
    assert_eq!(candidate_block(Choice::A, 333, 0), "333");
    assert_eq!(candidate_block(Choice::B, 0, 0), "00004");
    assert_eq!(candidate_block(Choice::B, 366, 89), "36693");
    assert_eq!(candidate_block(Choice::B, 367, 90), "00004");
    assert_eq!(candidate_block(Choice::B, 372, 93), "00507");
    assert_eq!(candidate_block(Choice::C, 0, 0), "0000000");
    assert_eq!(candidate_block(Choice::C, 8_888_888, 0), "8888888");
    assert_eq!(candidate_block(Choice::C, 8_888_889, 0), "0000000");
    assert_eq!(candidate_block(Choice::C, 1_234_567, 5), "1234567");
    assert_eq!(candidate_block(Choice::D, 9_999_999, 0), "9999999");
    assert_eq!(candidate_block(Choice::D, 10_000_000, 0), "0000000");
    assert_eq!(candidate_block(Choice::D, 42, 0), "0000042");
    assert_eq!(candidate_block(Choice::E, 99_999, 0), "99999");
    assert_eq!(candidate_block(Choice::E, 100_042, 0), "00042");
}

#[test]
fn candidate_of_the_largest_draw() {
    assert_eq!(candidate_block(Choice::A, u32::MAX, u32::MAX), "561");
    assert_eq!(candidate_block(Choice::B, u32::MAX, u32::MAX), "05979");
    assert_eq!(candidate_block(Choice::C, u32::MAX, u32::MAX), "1633908");
    assert_eq!(candidate_block(Choice::D, u32::MAX, u32::MAX), "4967295");
    assert_eq!(candidate_block(Choice::E, u32::MAX, u32::MAX), "67295");
}

#[test]
fn accepted_candidates_are_kept() {
    assert_eq!(try_block(Choice::A, 1000, 0), Some(String::from("001")));
    assert_eq!(try_block(Choice::A, 334, 0), Some(String::from("334")));
    assert_eq!(try_block(Choice::A, 222, 0), Some(String::from("222")));
    assert_eq!(try_block(Choice::B, 366, 89), Some(String::from("36693")));
    assert_eq!(try_block(Choice::C, 7, 0), Some(String::from("0000007")));
    assert_eq!(try_block(Choice::C, 16, 0), Some(String::from("0000016")));
    assert_eq!(try_block(Choice::C, 8_888_888, 0), Some(String::from("8888888")));
    assert_eq!(try_block(Choice::D, 9_999_999, 0), Some(String::from("9999999")));
    assert_eq!(try_block(Choice::D, 9_500_000, 0), Some(String::from("9500000")));
    assert_eq!(try_block(Choice::D, u32::MAX, 0), Some(String::from("4967295")));
    assert_eq!(try_block(Choice::E, 12_345, 0), Some(String::from("12345")));
}

#[test]
fn rejected_candidates_are_dropped() {
    assert_eq!(try_block(Choice::A, 333, 0), None);
    assert_eq!(try_block(Choice::A, 888, 0), None);
    assert_eq!(try_block(Choice::A, 999 + 444, 0), None);
    assert_eq!(try_block(Choice::C, 1, 0), None);
    assert_eq!(try_block(Choice::C, 9, 0), None);
    assert_eq!(try_block(Choice::C, 9_500_000 % 8_888_889, 0), None);
    assert_eq!(try_block(Choice::C, u32::MAX, 0), None);
    assert_eq!(try_block(Choice::D, 9, 0), None);
    assert_eq!(try_block(Choice::D, 1_234_569, 0), None);
}

#[test]
fn direct_candidates_are_always_kept() {
    for first in [0u32, 1, 366, 367, 99_999, 100_000, 123_456_789, u32::MAX] {
        for second in [0u32, 1, 89, 90, 4_000_000_000, u32::MAX] {
            let b = try_block(Choice::B, first, second).unwrap();
            assert!(validate_block(&b));
            let e = try_block(Choice::E, first, second).unwrap();
            assert_eq!(e, format!("{:05}", first % 100_000));
        }
    }
}

#[test]
fn zero_candidates_are_acceptable() {
    assert_eq!(try_block(Choice::A, 0, 0), Some(String::from("000")));
    assert_eq!(try_block(Choice::B, 0, 0), Some(String::from("00004")));
    assert_eq!(try_block(Choice::C, 0, 0), Some(String::from("0000000")));
    assert_eq!(try_block(Choice::D, 0, 0), Some(String::from("0000000")));
    assert_eq!(try_block(Choice::E, 0, 0), Some(String::from("00000")));
}

#[test]
fn kept_candidates_agree_with_validation() {
    for first in 0..3000u32 {
        let draw = first.wrapping_mul(2_654_435_761);
        let a = candidate_block(Choice::A, draw, 0);
        assert_eq!(try_block(Choice::A, draw, 0).is_some(), validate_block(&a));
        let c = candidate_block(Choice::C, draw, 0);
        assert_eq!(try_block(Choice::C, draw, 0).is_some(), validate_block(&c));
        let d = candidate_block(Choice::D, draw, 0);
        assert_eq!(try_block(Choice::D, draw, 0).is_some(), validate_block(&format!("{}-", d)));
    }
}

#[test]
fn keys_are_joined_from_their_blocks() {
    assert_eq!(assemble_retail("334", "7777777"), "334-7777777");
    assert_eq!(assemble_oem("33693", "0000000", "00000"), "33693-OEM-0000000-00000");
    assert!(matches!(validate_product_key(&assemble_retail("334", "7777777")), Ok(Retail)));
    assert!(matches!(
        validate_product_key(&assemble_oem("00004", "9500000", "12345")),
        Ok(Oem)
    ));
}

#[test]
fn attempts_are_bounded() {
    assert_eq!(MAX_ATTEMPTS, 4096);
}
