//! Texts as Cairo byte arrays.
//!
//! A byte array packs the bytes of a text into words of 31 bytes, each
//! held in a field element. The bytes that do not fill a word are the
//! pending word.

use crate::felt::Felt;
use vstd::prelude::*;

verus! {

/// A text as a Cairo byte array.
#[derive(Debug)]
pub struct ByteArray {
    /// The full words, 31 bytes each.
    pub data: Vec<Felt>,
    /// The bytes after the last full word.
    pub pending_word: Felt,
    /// The number of bytes in the pending word.
    pub pending_word_len: usize,
}

/// The mathematical value of [`ByteArray`].
pub struct ByteArrayView {
    pub data: Seq<Felt>,
    pub pending_word: Felt,
    pub pending_word_len: usize,
}

impl View for ByteArray {
    type V = ByteArrayView;

    open spec fn view(&self) -> ByteArrayView {
        ByteArrayView {
            data: self.data@,
            pending_word: self.pending_word,
            pending_word_len: self.pending_word_len,
        }
    }
}

/// The field element of a length.
pub open spec fn felt_of_len(len: usize) -> Felt {
    Felt { hi: 0, lo: len as u128 }
}

impl ByteArrayView {
    /// The Cairo serialization: the number of full words, the full
    /// words, the pending word and its length.
    pub open spec fn cairo_serialized(self) -> Seq<Felt> {
        seq![felt_of_len(self.data.len() as usize)] + self.data + seq![
            self.pending_word,
            felt_of_len(self.pending_word_len),
        ]
    }
}

/// The byte array of a text: what `cainome`'s `ByteArray::from_string`
/// gives, `None` where it returns an error.
pub uninterp spec fn byte_array_of(text: Seq<char>) -> Option<ByteArrayView>;

/// Calls `cainome::cairo_serde::ByteArray::from_string` and copies the
/// fields of what it gives. The byte array is a function of the text
/// alone; the contract names it. Nothing is claimed about which texts
/// are refused.
#[verifier::external_body]
fn byte_array_from_string(text: &str) -> (byte_array: Option<ByteArray>)
    ensures
        match byte_array {
            Some(byte_array) => byte_array_of(text@) == Some(byte_array@),
            None => byte_array_of(text@) is None,
        },
{
    let felt = |word: starknet::core::types::Felt| {
        let bytes = word.to_bytes_be();
        Felt {
            hi: u128::from_be_bytes(bytes[..16].try_into().unwrap()),
            lo: u128::from_be_bytes(bytes[16..].try_into().unwrap()),
        }
    };
    let byte_array = cainome::cairo_serde::ByteArray::from_string(text).ok()?;
    Some(ByteArray {
        data: byte_array.data.iter().map(|word| felt(word.felt())).collect(),
        pending_word: felt(byte_array.pending_word),
        pending_word_len: byte_array.pending_word_len,
    })
}

impl ByteArray {
    /// Packs a text into a byte array. `None` where the text cannot be
    /// packed.
    pub fn from_string(text: &str) -> (byte_array: Option<ByteArray>)
        ensures
            match byte_array {
                Some(byte_array) => byte_array_of(text@) == Some(byte_array@),
                None => byte_array_of(text@) is None,
            },
    {
        byte_array_from_string(text)
    }

    /// The Cairo serialization of the byte array: the number of full
    /// words, the full words, the pending word and its length.
    pub fn cairo_serialize(&self) -> (felts: Vec<Felt>)
        ensures
            felts@ == self@.cairo_serialized(),
    {
        let mut felts: Vec<Felt> = Vec::new();
        felts.push(Felt::from_u128(self.data.len() as u128));
        let mut index: usize = 0;
        while index < self.data.len()
            invariant
                index <= self.data.len(),
                felts@ == seq![felt_of_len(self.data@.len() as usize)] + self.data@.subrange(
                    0,
                    index as int,
                ),
            decreases self.data.len() - index,
        {
            felts.push(self.data[index]);
            assert(self.data@.subrange(0, index + 1) =~= self.data@.subrange(0, index as int).push(
                self.data@[index as int],
            ));
            index += 1;
        }
        assert(self.data@.subrange(0, index as int) =~= self.data@);
        felts.push(self.pending_word);
        felts.push(Felt::from_u128(self.pending_word_len as u128));
        assert(felts@ =~= self@.cairo_serialized());
        felts
    }
}

} // verus!
