//! The reserved keys of the store.

use vstd::prelude::*;
use vstd::string::StringSliceAdditionalSpecFns;

verus! {

/// Key of the canonical index entry, whose value is the merged index blob.
pub const DATA_INDEX: &'static str = "data-index";

/// Key of the schema entry, written once when the database is created.
pub const DATA_SCHEMA: &'static str = "data-schema";

/// The canonical index key, as bytes.
pub open spec fn data_index_key() -> Seq<u8> {
    DATA_INDEX.spec_bytes()
}

/// The schema key, as bytes.
pub open spec fn data_schema_key() -> Seq<u8> {
    DATA_SCHEMA.spec_bytes()
}

/// Whether `key` is the canonical index key.
pub fn is_data_index(key: &[u8]) -> (r: bool)
    ensures
        r == (key@ == data_index_key()),
{
    let target = DATA_INDEX.as_bytes();
    if key.len() != target.len() {
        return false;
    }
    let mut i: usize = 0;
    while i < key.len()
        invariant
            key@.len() == target@.len(),
            target@ == data_index_key(),
            i <= key@.len(),
            forall|j: int| 0 <= j < i ==> key@[j] == target@[j],
        decreases key@.len() - i,
    {
        if key[i] != target[i] {
            return false;
        }
        i = i + 1;
    }
    assert(key@ =~= target@);
    true
}

} // verus!
