use cainome::cairo_serde::{ByteArray, CairoSerde};
use world_migration::felt::Felt;
use world_migration::naming::{compute_bytearray_hash, compute_selector_from_hashes, compute_selector_from_names};

fn outside(felt: Felt) -> starknet_crypto::Felt {
    let mut bytes = [0u8; 32];
    bytes[..16].copy_from_slice(&felt.hi.to_be_bytes());
    bytes[16..].copy_from_slice(&felt.lo.to_be_bytes());
    starknet_crypto::Felt::from_bytes_be(&bytes)
}

#[test]
fn selector_from_hashes_is_the_poseidon_hash_of_the_pair() {
    let selector = compute_selector_from_hashes(Felt::one(), Felt::two());
    let expected = starknet_crypto::poseidon_hash_many(&[starknet_crypto::Felt::ONE, starknet_crypto::Felt::TWO]);
    assert_eq!(outside(selector), expected);
    assert_ne!(selector, Felt::one());
}

#[test]
fn bytearray_hash_of_a_short_name() {
    // "ns" is one pending word of two bytes: [0, 0x6e73, 2].
    let hash = compute_bytearray_hash("ns").unwrap();
    let expected = starknet_crypto::poseidon_hash_many(&[
        starknet_crypto::Felt::ZERO,
        starknet_crypto::Felt::from(0x6e73u64),
        starknet_crypto::Felt::TWO,
    ]);
    assert_eq!(outside(hash), expected);
}

#[test]
fn selector_from_names_combines_the_two_hashes() {
    let ns = compute_bytearray_hash("ns").unwrap();
    let m = compute_bytearray_hash("m").unwrap();
    assert_eq!(compute_selector_from_names("ns", "m"), Some(compute_selector_from_hashes(ns, m)));
    assert_ne!(compute_selector_from_names("ns", "m"), compute_selector_from_names("m", "ns"));
}

#[test]
fn bytearray_hash_of_a_name_longer_than_one_word() {
    let name = "a_namespace_with_a_rather_long_name_of_more_than_31_bytes";
    let hash = compute_bytearray_hash(name).unwrap();
    let serialized = ByteArray::cairo_serialize(&ByteArray::from_string(name).unwrap());
    assert_eq!(serialized.len(), 4);
    let expected = starknet_crypto::poseidon_hash_many(&serialized);
    assert_eq!(outside(hash), expected);
    assert_ne!(Some(hash), compute_bytearray_hash("a_namespace_with_a_rather_long_"));
}

#[test]
fn bytearray_hash_of_the_empty_name() {
    let hash = compute_bytearray_hash("").unwrap();
    let zero = starknet_crypto::Felt::ZERO;
    assert_eq!(outside(hash), starknet_crypto::poseidon_hash_many(&[zero, zero, zero]));
}
