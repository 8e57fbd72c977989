//! Field elements, the fixed-width identifiers of the world: selectors,
//! class hashes and addresses.

use vstd::prelude::*;
use vstd::string::StringSliceAdditionalSpecFns;

verus! {

/// A field element, held as the two 128-bit halves of its 256-bit
/// big-endian representation.
#[derive(Clone, Copy, Debug, PartialEq, Eq, Structural, Hash)]
pub struct Felt {
    pub hi: u128,
    pub lo: u128,
}

/// Identifier of a namespace or of a resource in a namespace.
pub type DojoSelector = Felt;

/// Identifier of the code a resource runs.
pub type ClassHash = Felt;

/// Address of a contract or an account.
pub type ContractAddress = Felt;

impl Felt {
    /// The field element 0.
    pub fn zero() -> (felt: Felt)
        ensures
            felt == (Felt { hi: 0, lo: 0 }),
    {
        Felt { hi: 0, lo: 0 }
    }

    /// The field element 1.
    pub fn one() -> (felt: Felt)
        ensures
            felt == (Felt { hi: 0, lo: 1 }),
    {
        Felt { hi: 0, lo: 1 }
    }

    /// The field element 2.
    pub fn two() -> (felt: Felt)
        ensures
            felt == (Felt { hi: 0, lo: 2 }),
    {
        Felt { hi: 0, lo: 2 }
    }

    /// The field element of a small number.
    pub fn from_u128(value: u128) -> (felt: Felt)
        ensures
            felt == (Felt { hi: 0, lo: value }),
    {
        Felt { hi: 0, lo: value }
    }
}

/// The most bytes that a felt literal may have. A felt has at most 77
/// decimal digits, and at most 64 hexadecimal ones after `0x`.
pub const MAX_LITERAL_LEN: usize = 77;

/// What parsing a felt literal gives: `starknet_types_core`'s `Felt::from_str`
/// on the text, `None` where it returns an error.
pub uninterp spec fn parsed_felt(text: Seq<char>) -> Option<Felt>;

/// The felt that a literal stands for: what parsing gives, for a text of
/// at most [`MAX_LITERAL_LEN`] bytes; none for a longer text.
pub open spec fn felt_literal(text: Seq<char>) -> Option<Felt> {
    if vstd::utf8::encode_utf8(text).len() <= MAX_LITERAL_LEN {
        parsed_felt(text)
    } else {
        None
    }
}

/// Calls `<starknet_types_core::felt::Felt as FromStr>::from_str`, which
/// reads a `0x`-prefixed hexadecimal or a decimal literal. The result is
/// the named function of the text; nothing is claimed about which texts
/// parse. Longer texts are left out: on a decimal text that reaches
/// 2^256 the addition of a digit overflows, which a debug build refuses.
#[verifier::external_body]
fn felt_from_str(text: &str) -> (parsed: Result<Felt, starknet_types_core::felt::FromStrError>)
    requires
        text.spec_bytes().len() <= MAX_LITERAL_LEN,
    ensures
        match parsed {
            Ok(felt) => parsed_felt(text@) == Some(felt),
            Err(_) => parsed_felt(text@) is None,
        },
{
    match text.parse::<starknet_types_core::felt::Felt>() {
        Ok(value) => {
            let bytes = value.to_bytes_be();
            Ok(Felt {
                hi: u128::from_be_bytes(bytes[..16].try_into().unwrap()),
                lo: u128::from_be_bytes(bytes[16..].try_into().unwrap()),
            })
        },
        Err(error) => Err(error),
    }
}

#[verifier::external_type_specification]
#[verifier::external_body]
pub struct ExFromStrError(starknet_types_core::felt::FromStrError);

/// Parses a felt literal, hexadecimal with `0x` or decimal. A text of
/// more than [`MAX_LITERAL_LEN`] bytes is no literal.
pub fn parse_felt(text: &str) -> (parsed: Option<Felt>)
    ensures
        parsed == felt_literal(text@),
{
    if text.as_bytes().len() > MAX_LITERAL_LEN {
        return None;
    }
    match felt_from_str(text) {
        Ok(felt) => Some(felt),
        Err(_) => None,
    }
}

} // verus!
