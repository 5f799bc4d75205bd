//! The merge combinator that the store runs on the canonical index key, and
//! the byte form of blobs.
//!
//! A blob is stored as the bincode encoding of
//! `Result<Vec<(u64, u64)>, Vec<u64>>`: `Ok` carries the postings of a
//! positive blob, `Err` the documents of a negative one.

use vstd::prelude::*;

use crate::blob::{lemma_merge_convergence, merge_deltas, Blob, Delta, NegativeBlob, OpBuilder, PositiveBlob};
use crate::keys::{data_index_key, is_data_index};

verus! {

/// What `bincode::deserialize` makes of stored bytes read as a blob.
pub uninterp spec fn decoded_blob(bytes: Seq<u8>) -> Option<Delta>;

/// What `bincode::serialize` makes of a blob.
pub uninterp spec fn encoded_blob(d: Delta) -> Option<Seq<u8>>;

/// Relies on bincode::deserialize, whose result depends on the bytes alone.
#[verifier::external_body]
fn bincode_decode(bytes: &[u8]) -> (r: Option<Blob>)
    ensures
        r matches Some(b) ==> decoded_blob(bytes@) == Some(b@),
        r is None ==> decoded_blob(bytes@) is None,
{
    match bincode::deserialize::<Result<Vec<(u64, u64)>, Vec<u64>>>(bytes) {
        Ok(Ok(postings)) => Some(Blob::Positive(PositiveBlob { postings })),
        Ok(Err(documents)) => Some(Blob::Negative(NegativeBlob { documents })),
        Err(_) => None,
    }
}

/// Relies on bincode::serialize, whose result depends on the value alone.
#[verifier::external_body]
fn bincode_encode(blob: &Blob) -> (r: Option<Vec<u8>>)
    ensures
        r matches Some(b) ==> encoded_blob(blob@) == Some(b@),
        r is None ==> encoded_blob(blob@) is None,
{
    let value: Result<&Vec<(u64, u64)>, &Vec<u64>> = match blob {
        Blob::Positive(p) => Ok(&p.postings),
        Blob::Negative(n) => Err(&n.documents),
    };
    bincode::serialize(&value).ok()
}

/// Reads a blob from its stored bytes; `None` when they do not hold one.
pub fn decode_blob(bytes: &[u8]) -> (r: Option<Blob>)
    ensures
        r matches Some(b) ==> decoded_blob(bytes@) == Some(b@),
        r is None ==> decoded_blob(bytes@) is None,
{
    bincode_decode(bytes)
}

/// The stored bytes of a blob; `None` when it cannot be encoded.
pub fn encode_blob(blob: &Blob) -> (r: Option<Vec<u8>>)
    ensures
        r matches Some(b) ==> encoded_blob(blob@) == Some(b@),
        r is None ==> encoded_blob(blob@) is None,
{
    bincode_encode(blob)
}

/// Why the merge combinator could not produce a canonical index. Each one
/// is an invariant violation of the store, never a condition to recover from.
#[derive(PartialEq, Eq, Structural, Debug, Clone, Copy)]
pub enum MergeError {
    /// The combinator was run on a key other than the canonical index key.
    ForeignKey,
    /// The existing canonical value is not a positive blob.
    CorruptIndex,
    /// An operand is not a blob.
    CorruptBlob,
    /// The merged blob could not be encoded.
    Unencodable,
}

/// The operands decoded in order, or `None` if one of them is not a blob.
pub open spec fn decoded_operands(ops: Seq<Seq<u8>>) -> Option<Seq<Delta>>
    decreases ops.len(),
{
    if ops.len() == 0 {
        Some(Seq::empty())
    } else {
        match (decoded_operands(ops.drop_last()), decoded_blob(ops.last())) {
            (Some(ds), Some(d)) => Some(ds.push(d)),
            _ => None,
        }
    }
}

/// The deltas the existing canonical value contributes, or `None` if it is
/// present and not a positive blob.
pub open spec fn existing_deltas(existing: Option<Seq<u8>>) -> Option<Seq<Delta>> {
    match existing {
        None => Some(Seq::empty()),
        Some(bytes) => match decoded_blob(bytes) {
            Some(Delta::Add(ps)) => Some(seq![Delta::Add(ps)]),
            _ => None,
        },
    }
}

/// The result owed by the merge combinator.
pub open spec fn merge_outcome(
    key: Seq<u8>,
    existing: Option<Seq<u8>>,
    ops: Seq<Seq<u8>>,
) -> Result<Seq<u8>, MergeError> {
    if key != data_index_key() {
        Err(MergeError::ForeignKey)
    } else {
        match existing_deltas(existing) {
            None => Err(MergeError::CorruptIndex),
            Some(head) => match decoded_operands(ops) {
                None => Err(MergeError::CorruptBlob),
                Some(ds) => match encoded_blob(Delta::Add(merge_deltas(head + ds))) {
                    None => Err(MergeError::Unencodable),
                    Some(bytes) => Ok(bytes),
                },
            },
        }
    }
}

proof fn lemma_corrupt_prefix(ops: Seq<Seq<u8>>, k: int)
    requires
        0 <= k <= ops.len(),
        decoded_operands(ops.take(k)) is None,
    ensures
        decoded_operands(ops.take(ops.len() as int)) is None,
    decreases ops.len() - k,
{
    if k < ops.len() {
        assert(ops.take(k + 1).drop_last() =~= ops.take(k));
        lemma_corrupt_prefix(ops, k + 1);
    }
}

proof fn lemma_decoded_operands_append(a: Seq<Seq<u8>>, b: Seq<Seq<u8>>)
    ensures
        decoded_operands(a + b) == match (decoded_operands(a), decoded_operands(b)) {
            (Some(x), Some(y)) => Some(x + y),
            _ => None,
        },
    decreases b.len(),
{
    if b.len() == 0 {
        assert(a + b =~= a);
        if let Some(x) = decoded_operands(a) {
            assert(x + Seq::<Delta>::empty() =~= x);
        }
    } else {
        lemma_decoded_operands_append(a, b.drop_last());
        assert((a + b).drop_last() =~= a + b.drop_last());
        assert((a + b).last() == b.last());
        if let (Some(x), Some(y)) = (decoded_operands(a), decoded_operands(b.drop_last())) {
            if let Some(d) = decoded_blob(b.last()) {
                assert((x + y).push(d) =~= x + y.push(d));
            }
        }
    }
}

/// Convergence of compaction on stored bytes: when the value written by a
/// first pass over the first `k` operands reads back as the index it encodes,
/// a second pass over that value and the remaining operands writes what a
/// single pass over all operands writes.
pub proof fn lemma_compaction_convergence(ops: Seq<Seq<u8>>, k: int, first: Seq<u8>)
    requires
        0 <= k <= ops.len(),
        merge_outcome(data_index_key(), None, ops.take(k)) == Ok::<Seq<u8>, MergeError>(first),
        decoded_operands(ops.take(k)) matches Some(ds) && decoded_blob(first) == Some(
            Delta::Add(merge_deltas(ds)),
        ),
    ensures
        merge_outcome(data_index_key(), Some(first), ops.skip(k)) == merge_outcome(
            data_index_key(),
            None,
            ops,
        ),
{
    let ds = decoded_operands(ops.take(k))->Some_0;
    assert(ops.take(k) + ops.skip(k) =~= ops);
    lemma_decoded_operands_append(ops.take(k), ops.skip(k));
    if let Some(es) = decoded_operands(ops.skip(k)) {
        lemma_merge_convergence(ds + es, ds.len() as int);
        assert((ds + es).take(ds.len() as int) =~= ds);
        assert((ds + es).skip(ds.len() as int) =~= es);
        assert(Seq::<Delta>::empty() + (ds + es) =~= ds + es);
        assert(Seq::<Delta>::empty() + ds =~= ds);
    }
}

/// The view of a borrowed optional byte string.
pub open spec fn bytes_view(b: Option<&[u8]>) -> Option<Seq<u8>> {
    match b {
        Some(s) => Some(s@),
        None => None,
    }
}

/// The views of a sequence of byte vectors.
pub open spec fn operands_view(ops: Seq<Vec<u8>>) -> Seq<Seq<u8>> {
    ops.map_values(|v: Vec<u8>| v@)
}

/// Folds the existing canonical value (if any) and the pending operands, in
/// the order the store presents them, into the new canonical value.
pub fn merge_indexes(key: &[u8], existing_value: Option<&[u8]>, operands: &Vec<Vec<u8>>) -> (r:
    Result<Vec<u8>, MergeError>)
    ensures
        match r {
            Ok(bytes) => merge_outcome(key@, bytes_view(existing_value), operands_view(operands@))
                == Ok::<Seq<u8>, MergeError>(bytes@),
            Err(e) => merge_outcome(key@, bytes_view(existing_value), operands_view(operands@))
                == Err::<Seq<u8>, MergeError>(e),
        },
{
    if !is_data_index(key) {
        return Err(MergeError::ForeignKey);
    }
    let ghost ops = operands_view(operands@);
    let mut op = OpBuilder::with_capacity(operands.len());
    let ghost head: Seq<Delta> = Seq::empty();
    if let Some(existing) = existing_value {
        match decode_blob(existing) {
            Some(Blob::Positive(p)) => {
                proof {
                    head = seq![Delta::Add(p.postings@)];
                }
                op.push(Blob::Positive(p));
                assert(op@ =~= head);
            },
            _ => {
                return Err(MergeError::CorruptIndex);
            },
        }
    }
    assert(existing_deltas(bytes_view(existing_value)) == Some(head));
    let mut i: usize = 0;
    while i < operands.len()
        invariant
            i <= operands@.len(),
            ops == operands_view(operands@),
            key@ == data_index_key(),
            existing_deltas(bytes_view(existing_value)) == Some(head),
            decoded_operands(ops.take(i as int)) matches Some(ds) && op@ == head + ds,
        decreases operands@.len() - i,
    {
        assert(ops.take(i + 1).drop_last() =~= ops.take(i as int));
        match decode_blob(operands[i].as_slice()) {
            Some(blob) => {
                let ghost ds = decoded_operands(ops.take(i as int))->Some_0;
                op.push(blob);
                assert(op@ =~= head + ds.push(blob@));
            },
            None => {
                proof {
                    assert(decoded_operands(ops.take(i + 1)) is None);
                    lemma_corrupt_prefix(ops, i + 1);
                    assert(ops.take(ops.len() as int) =~= ops);
                }
                return Err(MergeError::CorruptBlob);
            },
        }
        i = i + 1;
    }
    assert(ops.take(i as int) =~= ops);
    let merged = op.merge();
    encode_blob(&Blob::Positive(merged)).ok_or(MergeError::Unencodable)
}

} // verus!
