use searchdb::blob::{Blob, NegativeBlob, PositiveBlob};
use searchdb::keys::{is_data_index, DATA_INDEX, DATA_SCHEMA};
use searchdb::merge::{decode_blob, encode_blob, merge_indexes, MergeError};

fn pos_bytes(postings: Vec<(u64, u64)>) -> Vec<u8> {
    encode_blob(&Blob::Positive(PositiveBlob { postings })).unwrap()
}

fn neg_bytes(documents: Vec<u64>) -> Vec<u8> {
    encode_blob(&Blob::Negative(NegativeBlob { documents })).unwrap()
}

fn postings_of(bytes: &[u8]) -> Vec<(u64, u64)> {
    match decode_blob(bytes) {
        Some(Blob::Positive(p)) => p.postings,
        other => panic!("not a positive blob: {:?}", other),
    }
}

#[test]
fn reserved_keys_are_distinct() {
    assert_ne!(DATA_INDEX, DATA_SCHEMA);
    assert!(is_data_index(b"data-index"));
    assert!(!is_data_index(b"data-schema"));
    assert!(!is_data_index(b"data-inde"));
    assert!(!is_data_index(b""));
}

#[test]
fn blob_bytes_round_trip() {
    let p = Blob::Positive(PositiveBlob { postings: vec![(1, 2), (3, 4)] });
    let n = Blob::Negative(NegativeBlob { documents: vec![5, 6] });
    let pb = encode_blob(&p).unwrap();
    let nb = encode_blob(&n).unwrap();
    assert!(!pb.is_empty());
    assert_ne!(pb, nb);
    assert_eq!(decode_blob(&pb), Some(p));
    assert_eq!(decode_blob(&nb), Some(n));
}

#[test]
fn garbage_is_not_a_blob() {
    assert_eq!(decode_blob(&[7, 0, 0, 0]), None);
    assert_eq!(decode_blob(&[]), None);
}

#[test]
fn merge_on_foreign_key_is_refused() {
    let ops = vec![pos_bytes(vec![(1, 0)])];
    assert_eq!(merge_indexes(b"data-schema", None, &ops), Err(MergeError::ForeignKey));
}

#[test]
fn merge_with_corrupt_operand_fails() {
    let ops = vec![pos_bytes(vec![(1, 0)]), vec![9, 9]];
    assert_eq!(merge_indexes(DATA_INDEX.as_bytes(), None, &ops), Err(MergeError::CorruptBlob));
}

#[test]
fn merge_with_negative_existing_value_fails() {
    let existing = neg_bytes(vec![1]);
    let ops = vec![pos_bytes(vec![(1, 0)])];
    assert_eq!(
        merge_indexes(DATA_INDEX.as_bytes(), Some(&existing), &ops),
        Err(MergeError::CorruptIndex)
    );
}

#[test]
fn merge_folds_existing_then_operands() {
    let existing = pos_bytes(vec![(1, 0), (2, 1)]);
    let ops = vec![neg_bytes(vec![0]), pos_bytes(vec![(3, 2)])];
    let merged = merge_indexes(DATA_INDEX.as_bytes(), Some(&existing), &ops).unwrap();
    assert_eq!(postings_of(&merged), vec![(2, 1), (3, 2)]);
}

#[test]
fn merge_in_two_compactions_gives_the_same_bytes() {
    let ops = vec![
        pos_bytes(vec![(1, 0), (2, 1)]),
        neg_bytes(vec![1]),
        pos_bytes(vec![(4, 1)]),
        neg_bytes(vec![0]),
    ];
    let key = DATA_INDEX.as_bytes();
    let once = merge_indexes(key, None, &ops).unwrap();
    for k in 0..=ops.len() {
        let first = merge_indexes(key, None, &ops[..k].to_vec()).unwrap();
        let again = merge_indexes(key, Some(&first), &ops[k..].to_vec()).unwrap();
        assert_eq!(again, once);
    }
    assert_eq!(postings_of(&once), vec![(4, 1)]);
}

#[test]
fn removing_a_document_drops_it_from_the_index() {
    let key = DATA_INDEX.as_bytes();
    let first = merge_indexes(key, None, &vec![pos_bytes(vec![(10, 0), (11, 0), (10, 1)])]).unwrap();
    assert_eq!(postings_of(&first), vec![(10, 0), (11, 0), (10, 1)]);
    let second = merge_indexes(key, Some(&first), &vec![neg_bytes(vec![0])]).unwrap();
    assert_eq!(postings_of(&second), vec![(10, 1)]);
    assert_eq!(postings_of(&first), vec![(10, 0), (11, 0), (10, 1)]);
}
