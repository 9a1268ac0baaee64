use erc20::{Address, Amount};
use stylus_sdk::alloy_primitives::U256;

fn number(amount: Amount) -> U256 {
    U256::from_limbs(amount.into_limbs())
}

#[test]
fn zero_is_zero() {
    assert!(Amount::zero().is_zero());
    assert_eq!(Amount::zero().into_limbs(), [0, 0, 0, 0]);
    assert!(!Amount::from_u64(1).is_zero());
    assert!(!Amount::from_limbs([0, 0, 0, 1]).is_zero());
}

#[test]
fn from_u64_fills_the_lowest_limb() {
    assert_eq!(Amount::from_u64(1000).into_limbs(), [1000, 0, 0, 0]);
    assert_eq!(number(Amount::from_u64(u64::MAX)), U256::from(u64::MAX));
}

#[test]
fn limbs_round_trip() {
    let limbs = [1, 2, 3, 4];
    assert_eq!(Amount::from_limbs(limbs).into_limbs(), limbs);
    assert_eq!(Amount::from_limbs(limbs), Amount::from_limbs([1, 2, 3, 4]));
    assert_ne!(Amount::from_limbs(limbs), Amount::from_limbs([1, 2, 3, 5]));
}

#[test]
fn checked_add_carries_between_limbs() {
    let a = Amount::from_limbs([u64::MAX, u64::MAX, 0, 0]);
    let sum = a.checked_add(Amount::from_u64(1));
    assert_eq!(sum, Some(Amount::from_limbs([0, 0, 1, 0])));
    assert_eq!(
        Amount::from_u64(700).checked_add(Amount::from_u64(300)),
        Some(Amount::from_u64(1000))
    );
}

#[test]
fn checked_add_refuses_what_does_not_fit() {
    let max = Amount::from_limbs([u64::MAX; 4]);
    assert_eq!(max.checked_add(Amount::from_u64(1)), None);
    assert_eq!(max.checked_add(max), None);
    assert_eq!(max.checked_add(Amount::zero()), Some(max));
    let half = Amount::from_limbs([0, 0, 0, 1 << 63]);
    assert_eq!(half.checked_add(half), None);
}

#[test]
fn checked_add_agrees_with_the_big_integer() {
    let a = Amount::from_limbs([0xdead_beef, 7, u64::MAX, 12]);
    let b = Amount::from_limbs([u64::MAX, u64::MAX, 1, 30]);
    let sum = a.checked_add(b).unwrap();
    assert_eq!(number(sum), number(a) + number(b));
    assert_ne!(sum, a);
    assert_ne!(sum, b);
}

#[test]
fn sub_borrows_between_limbs() {
    let a = Amount::from_limbs([0, 0, 1, 0]);
    assert_eq!(a.sub(Amount::from_u64(1)), Amount::from_limbs([u64::MAX, u64::MAX, 0, 0]));
    assert_eq!(Amount::from_u64(1000).sub(Amount::from_u64(200)), Amount::from_u64(800));
    assert_eq!(a.sub(a), Amount::zero());
    assert_eq!(a.sub(Amount::zero()), a);
}

#[test]
fn lt_orders_by_the_number() {
    let small = Amount::from_limbs([u64::MAX, u64::MAX, u64::MAX, 0]);
    let large = Amount::from_limbs([0, 0, 0, 1]);
    assert!(small.lt(&large));
    assert!(!large.lt(&small));
    assert!(!large.lt(&large));
    assert!(Amount::from_u64(100).lt(&Amount::from_u64(200)));
    assert!(!Amount::from_u64(200).lt(&Amount::from_u64(100)));
    assert!(Amount::from_limbs([5, 1, 0, 0]).lt(&Amount::from_limbs([4, 2, 0, 0])));
}

#[test]
fn null_address_is_all_zero() {
    assert!(Address::null().is_zero());
    assert_eq!(Address::null(), Address { bytes: [0; 20] });
    let mut bytes = [0u8; 20];
    bytes[19] = 1;
    assert!(!Address { bytes }.is_zero());
    bytes = [0u8; 20];
    bytes[0] = 1;
    assert!(!Address { bytes }.is_zero());
}

#[test]
fn addresses_compare_by_their_bytes() {
    let a = Address { bytes: [7; 20] };
    let mut bytes = [7u8; 20];
    assert_eq!(a, Address { bytes });
    bytes[19] = 8;
    assert_ne!(a, Address { bytes });
    bytes = [7u8; 20];
    bytes[0] = 8;
    assert_ne!(a, Address { bytes });
}
