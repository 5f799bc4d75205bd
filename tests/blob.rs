use searchdb::blob::{merge_blobs, Blob, NegativeBlob, OpBuilder, PositiveBlob};

fn pos(postings: Vec<(u64, u64)>) -> Blob {
    Blob::Positive(PositiveBlob { postings })
}

fn neg(documents: Vec<u64>) -> Blob {
    Blob::Negative(NegativeBlob { documents })
}

#[test]
fn merge_of_nothing_is_empty() {
    let r = merge_blobs(None, vec![]);
    assert_eq!(r.postings, Vec::<(u64, u64)>::new());
}

#[test]
fn positive_blobs_accumulate_in_order() {
    let r = merge_blobs(None, vec![pos(vec![(1, 0), (2, 0)]), pos(vec![(3, 1)])]);
    assert_eq!(r.postings, vec![(1, 0), (2, 0), (3, 1)]);
}

#[test]
fn repeated_postings_are_kept_once() {
    let r = merge_blobs(
        Some(PositiveBlob { postings: vec![(1, 0)] }),
        vec![pos(vec![(1, 0), (2, 0), (2, 0)])],
    );
    assert_eq!(r.postings, vec![(1, 0), (2, 0)]);
}

#[test]
fn negative_blob_removes_documents() {
    let r = merge_blobs(
        Some(PositiveBlob { postings: vec![(1, 0), (2, 1), (3, 0), (4, 2)] }),
        vec![neg(vec![0, 7])],
    );
    assert_eq!(r.postings, vec![(2, 1), (4, 2)]);
}

#[test]
fn negative_cancels_positive_of_the_same_pass() {
    let r = merge_blobs(None, vec![pos(vec![(1, 0), (2, 1)]), neg(vec![0])]);
    assert_eq!(r.postings, vec![(2, 1)]);
}

#[test]
fn order_of_operands_matters() {
    let r = merge_blobs(None, vec![neg(vec![0]), pos(vec![(1, 0), (2, 1)])]);
    assert_eq!(r.postings, vec![(1, 0), (2, 1)]);
}

#[test]
fn negative_on_empty_index_is_empty() {
    let r = merge_blobs(None, vec![neg(vec![3])]);
    assert_eq!(r.postings, Vec::<(u64, u64)>::new());
}

#[test]
fn two_passes_equal_one_pass_at_every_split() {
    let blobs = vec![
        pos(vec![(1, 0), (2, 1)]),
        pos(vec![(3, 2), (1, 0)]),
        neg(vec![1]),
        pos(vec![(2, 1), (5, 3)]),
        neg(vec![0, 3]),
        pos(vec![(6, 0)]),
    ];
    let whole = merge_blobs(None, blobs.clone());
    assert_eq!(whole.postings, vec![(3, 2), (2, 1), (6, 0)]);
    for k in 0..=blobs.len() {
        let first = merge_blobs(None, blobs[..k].to_vec());
        let mut second = vec![Blob::Positive(first)];
        second.extend(blobs[k..].iter().cloned());
        let again = merge_blobs(None, second);
        assert_eq!(again.postings, whole.postings);
    }
}

#[test]
fn builder_merges_pushed_blobs() {
    let mut op = OpBuilder::with_capacity(2);
    op.push(pos(vec![(9, 4), (8, 5)]));
    op.push(neg(vec![5]));
    assert_eq!(op.merge().postings, vec![(9, 4)]);
}
