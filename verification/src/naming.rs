//! Selectors: the identifiers that the world derives from names.
//!
//! A namespace is identified by the Poseidon hash of its name's byte-array
//! encoding; a resource by the Poseidon hash of its namespace's and its own
//! name's hashes.

use crate::byte_array::{byte_array_of, ByteArray};
use crate::felt::Felt;
use vstd::prelude::*;

verus! {

/// The Starknet Poseidon hash of a sequence of field elements, as
/// `starknet_crypto::poseidon_hash_many` computes it.
pub uninterp spec fn poseidon_hash(felts: Seq<Felt>) -> Felt;

/// The Cairo serialization of a text as a byte array, where the text
/// can be packed into one.
pub open spec fn byte_array_felts(text: Seq<char>) -> Option<Seq<Felt>> {
    match byte_array_of(text) {
        Some(byte_array) => Some(byte_array.cairo_serialized()),
        None => None,
    }
}

/// Calls `starknet_crypto::poseidon_hash_many` on the elements in order.
/// The hash is a function of the elements alone; the contract names it.
#[verifier::external_body]
fn poseidon_hash_many(felts: &Vec<Felt>) -> (hash: Felt)
    ensures
        hash == poseidon_hash(felts@),
{
    let msgs: Vec<starknet_crypto::Felt> = felts.iter().map(|felt| {
        let mut bytes = [0u8; 32];
        bytes[..16].copy_from_slice(&felt.hi.to_be_bytes());
        bytes[16..].copy_from_slice(&felt.lo.to_be_bytes());
        starknet_crypto::Felt::from_bytes_be(&bytes)
    }).collect();
    let bytes = starknet_crypto::poseidon_hash_many(&msgs).to_bytes_be();
    Felt {
        hi: u128::from_be_bytes(bytes[..16].try_into().unwrap()),
        lo: u128::from_be_bytes(bytes[16..].try_into().unwrap()),
    }
}

/// The hash that identifies a name: the Poseidon hash of its byte-array
/// encoding, where the name has one.
pub open spec fn bytearray_hash(name: Seq<char>) -> Option<Felt> {
    match byte_array_felts(name) {
        Some(felts) => Some(poseidon_hash(felts)),
        None => None,
    }
}

/// The selector of the resource whose namespace and name have the given hashes.
pub open spec fn selector_from_hashes(namespace_hash: Felt, name_hash: Felt) -> Felt {
    poseidon_hash(seq![namespace_hash, name_hash])
}

/// The selector of the resource `name` in `namespace`, where both names can
/// be encoded.
pub open spec fn selector_from_names(namespace: Seq<char>, name: Seq<char>) -> Option<Felt> {
    match (bytearray_hash(namespace), bytearray_hash(name)) {
        (Some(namespace_hash), Some(name_hash)) => Some(
            selector_from_hashes(namespace_hash, name_hash),
        ),
        _ => None,
    }
}

/// Whether a name has a byte-array encoding.
pub fn is_encodable(name: &str) -> (encodable: bool)
    ensures
        encodable == (byte_array_felts(name@) is Some),
{
    ByteArray::from_string(name).is_some()
}

/// Hashes a name. `None` where the name has no byte-array encoding.
pub fn compute_bytearray_hash(name: &str) -> (hash: Option<Felt>)
    ensures
        hash == bytearray_hash(name@),
{
    match ByteArray::from_string(name) {
        Some(byte_array) => Some(poseidon_hash_many(&byte_array.cairo_serialize())),
        None => None,
    }
}

/// Combines the hashes of a namespace and of a name into the selector of
/// the resource.
pub fn compute_selector_from_hashes(namespace_hash: Felt, name_hash: Felt) -> (selector: Felt)
    ensures
        selector == selector_from_hashes(namespace_hash, name_hash),
{
    let mut felts: Vec<Felt> = Vec::new();
    felts.push(namespace_hash);
    felts.push(name_hash);
    assert(felts@ =~= seq![namespace_hash, name_hash]);
    poseidon_hash_many(&felts)
}

/// Computes the selector of the resource `name` in `namespace`. `None`
/// where one of the names has no byte-array encoding.
pub fn compute_selector_from_names(namespace: &str, name: &str) -> (selector: Option<Felt>)
    ensures
        selector == selector_from_names(namespace@, name@),
{
    match compute_bytearray_hash(namespace) {
        Some(namespace_hash) => match compute_bytearray_hash(name) {
            Some(name_hash) => Some(compute_selector_from_hashes(namespace_hash, name_hash)),
            None => None,
        },
        None => None,
    }
}

} // verus!
