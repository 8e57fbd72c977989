use world_migration::felt::{parse_felt, Felt};
use world_migration::felt_set::FeltSet;
use world_migration::selector_map::SelectorMap;

#[test]
fn parse_felt_reads_hexadecimal_and_decimal() {
    assert_eq!(parse_felt("0x0"), Some(Felt::zero()));
    assert_eq!(parse_felt("1"), Some(Felt::one()));
    assert_eq!(parse_felt("0x2"), Some(Felt::two()));
    assert_eq!(parse_felt("0xabc"), Some(Felt::from_u128(0xabc)));
    assert_eq!(parse_felt("1337"), Some(Felt::from_u128(1337)));
    assert_eq!(
        parse_felt("0xffffffffffffffffffffffffffffffff"),
        Some(Felt::from_u128(u128::MAX))
    );
    assert_eq!(
        parse_felt("0x123000000000000000000000000000000456"),
        Some(Felt { hi: 0x1230, lo: 0x456 })
    );
}

#[test]
fn parse_felt_refuses_what_is_no_literal() {
    assert_eq!(parse_felt(""), None);
    assert_eq!(parse_felt("felt"), None);
    assert_eq!(parse_felt("0xzz"), None);
    assert_eq!(parse_felt("12 "), None);
}

#[test]
fn small_felts() {
    assert_eq!(Felt::zero(), Felt::from_u128(0));
    assert_eq!(Felt::one(), Felt { hi: 0, lo: 1 });
    assert_eq!(Felt::two(), Felt { hi: 0, lo: 2 });
    assert_ne!(Felt { hi: 1, lo: 0 }, Felt { hi: 0, lo: 1 });
}

#[test]
fn felt_set_inserts_once_and_removes() {
    let (a, b, c) = (Felt::from_u128(1), Felt::from_u128(2), Felt::from_u128(3));
    let mut set = FeltSet::new();
    assert!(set.is_empty());
    assert!(set.insert(a));
    assert!(set.insert(b));
    assert!(!set.insert(a));
    assert!(set.insert(c));
    assert_eq!(set.to_vec(), vec![a, b, c]);
    assert_eq!(set.len(), 3);
    assert_eq!(set.get(1), b);
    assert!(set.contains(&b));

    assert!(set.remove(&b));
    assert!(!set.remove(&b));
    assert!(!set.contains(&b));
    assert_eq!(set.to_vec(), vec![a, c]);

    set.set_membership(b, true);
    set.set_membership(a, false);
    set.set_membership(a, false);
    assert_eq!(set.to_vec(), vec![c, b]);
    assert_eq!(set.clone().to_vec(), vec![c, b]);
}

#[test]
fn felt_set_difference() {
    let mut left = FeltSet::new();
    let mut right = FeltSet::new();
    for value in [5u128, 4, 3, 2, 1] {
        left.insert(Felt::from_u128(value));
    }
    for value in [2u128, 4, 6] {
        right.insert(Felt::from_u128(value));
    }
    assert_eq!(
        left.difference(&right).to_vec(),
        vec![Felt::from_u128(5), Felt::from_u128(3), Felt::from_u128(1)]
    );
    assert_eq!(right.difference(&left).to_vec(), vec![Felt::from_u128(6)]);
    assert!(left.difference(&left).is_empty());
}

#[test]
fn selector_map_keeps_the_place_of_a_key() {
    let (a, b, c) = (Felt::from_u128(1), Felt::from_u128(2), Felt::from_u128(3));
    let mut map: SelectorMap<u32> = SelectorMap::new();
    assert!(!map.insert(a, 10));
    assert!(!map.insert(b, 20));
    assert!(map.insert(a, 11));
    assert_eq!(map.len(), 2);
    assert_eq!(map.key_at(0), a);
    assert_eq!(*map.value_at(0), 11);
    assert_eq!(map.get(&b), Some(&20));
    assert_eq!(map.get(&c), None);
    assert_eq!(map.index_of(&b), Some(1));
    assert!(map.contains_key(&a));

    assert_eq!(map.remove(&a), Some(11));
    assert_eq!(map.remove(&a), None);
    assert_eq!(map.len(), 1);
    assert_eq!(map.key_at(0), b);
    assert!(!map.insert(a, 12));
    assert_eq!(map.key_at(1), a);
}

#[test]
fn parse_felt_reads_literals_of_up_to_77_bytes() {
    let padded = format!("{}1", "0".repeat(76));
    assert_eq!(padded.len(), 77);
    assert_eq!(parse_felt(&padded), Some(Felt::one()));
    // The largest hexadecimal literal that is a felt: the field's prime itself reads as zero.
    assert_eq!(
        parse_felt("0x800000000000011000000000000000000000000000000000000000000000000"),
        Some(Felt { hi: 0x8000000000000110000000000000000, lo: 0 })
    );
    assert_eq!(
        parse_felt("0x800000000000011000000000000000000000000000000000000000000000001"),
        Some(Felt::zero())
    );
    assert_eq!(
        parse_felt("0x800000000000011000000000000000000000000000000000000000000000002"),
        None
    );
}

#[test]
fn parse_felt_refuses_longer_texts() {
    let padded = format!("{}1", "0".repeat(77));
    assert_eq!(padded.len(), 78);
    assert_eq!(parse_felt(&padded), None);
    // 2^256, in 78 digits.
    assert_eq!(
        parse_felt("115792089237316195423570985008687907853269984665640564039457584007913129639936"),
        None
    );
    assert_eq!(parse_felt(&"9".repeat(200)), None);
}

#[test]
fn parse_felt_reduces_decimal_literals_modulo_the_prime() {
    // The prime plus one, in decimal.
    assert_eq!(
        parse_felt("3618502788666131213697322783095070105623107215331596699973092056135872020482"),
        Some(Felt::one())
    );
    assert_eq!(parse_felt("-0"), Some(Felt::zero()));
}
