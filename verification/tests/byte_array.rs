use world_migration::byte_array::ByteArray;
use world_migration::felt::{parse_felt, Felt};

#[test]
fn short_text_is_one_pending_word() {
    let b = ByteArray::from_string("ABCD").unwrap();
    assert!(b.data.is_empty());
    assert_eq!(b.pending_word, Felt::from_u128(0x41424344));
    assert_eq!(b.pending_word_len, 4);
    assert_eq!(
        b.cairo_serialize(),
        vec![Felt::zero(), Felt::from_u128(0x41424344), Felt::from_u128(4)]
    );
}

#[test]
fn empty_text_is_an_empty_byte_array() {
    let b = ByteArray::from_string("").unwrap();
    assert!(b.data.is_empty());
    assert_eq!(b.pending_word, Felt::zero());
    assert_eq!(b.pending_word_len, 0);
    assert_eq!(b.cairo_serialize(), vec![Felt::zero(), Felt::zero(), Felt::zero()]);
}

#[test]
fn text_of_31_bytes_is_one_full_word() {
    let b = ByteArray::from_string("ABCDEFGHIJKLMNOPQRSTUVWXYZ12345").unwrap();
    let word =
        parse_felt("0x004142434445464748494a4b4c4d4e4f505152535455565758595a3132333435").unwrap();
    assert_eq!(b.data, vec![word]);
    assert_eq!(b.pending_word, Felt::zero());
    assert_eq!(b.pending_word_len, 0);
    assert_eq!(b.cairo_serialize(), vec![Felt::one(), word, Felt::zero(), Felt::zero()]);
}

#[test]
fn longer_text_has_full_words_and_a_pending_word() {
    let b = ByteArray::from_string("ABCDEFGHIJKLMNOPQRSTUVWXYZ12345ABCDEFGHIJKLMNOPQRSTUVWXYZ12345ab")
        .unwrap();
    let word =
        parse_felt("0x004142434445464748494a4b4c4d4e4f505152535455565758595a3132333435").unwrap();
    assert_eq!(b.data, vec![word, word]);
    assert_eq!(b.pending_word, Felt::from_u128(0x6162));
    assert_eq!(b.pending_word_len, 2);
    assert_eq!(
        b.cairo_serialize(),
        vec![Felt::two(), word, word, Felt::from_u128(0x6162), Felt::two()]
    );
}
