use funder::types::{array_eq, array_lt, Currency, Rate, U256, MAX_FUNDER_DEBT};

#[test]
fn currency_from_valid_name() {
    let currency = Currency::from_bytes(b"FST").unwrap();
    assert_eq!(currency.as_bytes(), b"FST".to_vec());
}

#[test]
fn currency_longest_name() {
    let currency = Currency::from_bytes(b"ABCDEFGHIJ012345").unwrap();
    assert_eq!(currency.as_bytes().len(), 16);
}

#[test]
fn currency_rejects_empty_name() {
    assert!(Currency::from_bytes(b"").is_none());
}

#[test]
fn currency_rejects_long_name() {
    assert!(Currency::from_bytes(b"ABCDEFGHIJ0123456").is_none());
}

#[test]
fn currency_rejects_other_bytes() {
    assert!(Currency::from_bytes(b"A B").is_none());
    assert!(Currency::from_bytes(b"a-b").is_none());
    assert!(Currency::from_bytes(&[0x41, 0x00]).is_none());
    assert!(Currency::from_bytes(&[0xc3, 0xa9]).is_none());
}

#[test]
fn currency_same_and_before() {
    let a = Currency::from_bytes(b"AAA").unwrap();
    let b = Currency::from_bytes(b"AAB").unwrap();
    let a2 = Currency::from_bytes(b"AAA").unwrap();
    let short = Currency::from_bytes(b"AA").unwrap();
    assert!(a.same(&a2));
    assert!(!a.same(&b));
    assert!(a.before(&b));
    assert!(!b.before(&a));
    assert!(!a.before(&a2));
    assert!(short.before(&a));
    assert_eq!(a, a2);
}

#[test]
fn array_order() {
    assert!(array_lt(&[1u8, 2, 3], &[1u8, 2, 4]));
    assert!(array_lt(&[0u8, 9, 9], &[1u8, 0, 0]));
    assert!(!array_lt(&[1u8, 2, 3], &[1u8, 2, 3]));
    assert!(!array_lt(&[2u8, 0, 0], &[1u8, 9, 9]));
    assert!(array_eq(&[7u8; 16], &[7u8; 16]));
    assert!(!array_eq(&[7u8; 16], &[8u8; 16]));
}

#[test]
fn fee_of_flat_rate() {
    let rate = Rate { mul: 0, add: 1 };
    assert_eq!(rate.calc_fee(10), Some(1));
    assert_eq!(rate.calc_fee(0), Some(1));
    assert_eq!(rate.calc_fee(u128::MAX), Some(1));
}

#[test]
fn fee_of_half_rate() {
    let rate = Rate { mul: 0x8000_0000, add: 0 };
    assert_eq!(rate.calc_fee(10), Some(5));
    assert_eq!(rate.calc_fee(11), Some(5));
    assert_eq!(rate.calc_fee(1), Some(0));
}

#[test]
fn fee_of_mixed_rate() {
    let rate = Rate { mul: 0x4000_0000, add: 3 };
    // 100 / 4 + 3
    assert_eq!(rate.calc_fee(100), Some(28));
    let full = Rate { mul: u32::MAX, add: u32::MAX };
    // floor(2^64 * (2^32 - 1) / 2^32) + 2^32 - 1 = 2^64 - 2^32 + 2^32 - 1
    assert_eq!(full.calc_fee(1u128 << 64), Some((1u128 << 64) - 1));
}

#[test]
fn fee_that_does_not_fit() {
    let rate = Rate { mul: u32::MAX, add: u32::MAX };
    // floor((2^128 - 1)(2^32 - 1) / 2^32) = 2^128 - 2^96 - 1; adding 2^32 - 1 fits
    assert_eq!(rate.calc_fee(u128::MAX), Some(u128::MAX - (1u128 << 96) + (1u128 << 32) - 1));
    assert_eq!(Rate::new(), Rate { mul: 0, add: 0 });
}

#[test]
fn wide_counter_adds() {
    let zero = U256::zero();
    assert_eq!(zero, U256 { hi: 0, lo: 0 });
    assert_eq!(U256::from_u128(7), U256 { hi: 0, lo: 7 });
    let near = U256 { hi: 0, lo: u128::MAX };
    assert_eq!(near.checked_add_u128(1), Some(U256 { hi: 1, lo: 0 }));
    assert_eq!(near.saturating_add_u128(5), U256 { hi: 1, lo: 4 });
    let top = U256 { hi: u128::MAX, lo: u128::MAX - 1 };
    assert_eq!(top.checked_add_u128(1), Some(U256 { hi: u128::MAX, lo: u128::MAX }));
    assert_eq!(top.checked_add_u128(2), None);
    assert_eq!(top.saturating_add_u128(2), U256 { hi: u128::MAX, lo: u128::MAX });
}

#[test]
fn largest_debt() {
    assert_eq!(MAX_FUNDER_DEBT, (1u128 << 127) - 1);
}
