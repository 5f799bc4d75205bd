//! Index fragments ("blobs") and the algebra that folds an ordered sequence of
//! them into one canonical index.
//!
//! An index is a sequence of postings without duplicates, in order of first
//! insertion. A positive blob adds the postings it holds that are not present
//! yet; a negative blob removes every posting of the documents it names.

use vstd::prelude::*;

verus! {

/// One entry of the inverted index: a word identifier and a document identifier.
pub type Posting = (u64, u64);

/// An additive contribution: postings to insert into the index.
#[derive(Debug, Clone, PartialEq, Eq)]
pub struct PositiveBlob {
    pub postings: Vec<Posting>,
}

/// A subtractive contribution: documents whose postings leave the index.
#[derive(Debug, Clone, PartialEq, Eq)]
pub struct NegativeBlob {
    pub documents: Vec<u64>,
}

/// A serialized index fragment, tagged as additive or subtractive.
#[derive(Debug, Clone, PartialEq, Eq)]
pub enum Blob {
    Positive(PositiveBlob),
    Negative(NegativeBlob),
}

/// The mathematical content of a blob.
pub enum Delta {
    Add(Seq<Posting>),
    Remove(Seq<u64>),
}

impl View for Blob {
    type V = Delta;

    open spec fn view(&self) -> Delta {
        match self {
            Blob::Positive(p) => Delta::Add(p.postings@),
            Blob::Negative(n) => Delta::Remove(n.documents@),
        }
    }
}

/// Inserts one posting unless the index already holds it.
pub open spec fn add_posting(acc: Seq<Posting>, p: Posting) -> Seq<Posting> {
    if acc.contains(p) {
        acc
    } else {
        acc.push(p)
    }
}

/// Inserts the postings of `ps`, first to last.
pub open spec fn add_postings(acc: Seq<Posting>, ps: Seq<Posting>) -> Seq<Posting>
    decreases ps.len(),
{
    if ps.len() == 0 {
        acc
    } else {
        add_postings(add_posting(acc, ps[0]), ps.drop_first())
    }
}

/// Keeps, in order, the postings whose document is not in `docs`.
pub open spec fn remove_documents(acc: Seq<Posting>, docs: Seq<u64>) -> Seq<Posting>
    decreases acc.len(),
{
    if acc.len() == 0 {
        acc
    } else {
        let rest = remove_documents(acc.drop_last(), docs);
        if docs.contains(acc.last().1) {
            rest
        } else {
            rest.push(acc.last())
        }
    }
}

/// The index after one delta is applied to `acc`.
pub open spec fn apply_delta(acc: Seq<Posting>, d: Delta) -> Seq<Posting> {
    match d {
        Delta::Add(ps) => add_postings(acc, ps),
        Delta::Remove(docs) => remove_documents(acc, docs),
    }
}

/// The index that results from applying `ds` in order to an empty index.
pub open spec fn merge_deltas(ds: Seq<Delta>) -> Seq<Posting>
    decreases ds.len(),
{
    if ds.len() == 0 {
        Seq::empty()
    } else {
        apply_delta(merge_deltas(ds.drop_last()), ds.last())
    }
}

/// The contents of a sequence of blobs.
pub open spec fn deltas_of(bs: Seq<Blob>) -> Seq<Delta> {
    bs.map_values(|b: Blob| b@)
}


fn holds_posting(acc: &Vec<Posting>, p: Posting) -> (r: bool)
    ensures
        r == acc@.contains(p),
{
    let mut i: usize = 0;
    while i < acc.len()
        invariant
            i <= acc@.len(),
            forall|j: int| 0 <= j < i ==> acc@[j] != p,
        decreases acc@.len() - i,
    {
        if acc[i].0 == p.0 && acc[i].1 == p.1 {
            assert(acc@[i as int] == p);
            return true;
        }
        i = i + 1;
    }
    false
}

fn holds_document(docs: &Vec<u64>, d: u64) -> (r: bool)
    ensures
        r == docs@.contains(d),
{
    let mut i: usize = 0;
    while i < docs.len()
        invariant
            i <= docs@.len(),
            forall|j: int| 0 <= j < i ==> docs@[j] != d,
        decreases docs@.len() - i,
    {
        if docs[i] == d {
            assert(docs@[i as int] == d);
            return true;
        }
        i = i + 1;
    }
    false
}

/// Adds the postings of `ps` to `acc`, skipping those already present.
pub fn insert_postings(acc: &mut Vec<Posting>, ps: &Vec<Posting>)
    ensures
        final(acc)@ == add_postings(old(acc)@, ps@),
{
    let mut i: usize = 0;
    assert(ps@.skip(0) =~= ps@);
    while i < ps.len()
        invariant
            i <= ps@.len(),
            add_postings(acc@, ps@.skip(i as int)) == add_postings(old(acc)@, ps@),
        decreases ps@.len() - i,
    {
        let p = ps[i];
        assert(ps@.skip(i as int).drop_first() =~= ps@.skip(i + 1));
        assert(ps@.skip(i as int)[0] == p);
        if !holds_posting(acc, p) {
            acc.push(p);
        }
        i = i + 1;
    }
    assert(ps@.skip(i as int) =~= Seq::<Posting>::empty());
}

/// The postings of `acc` whose document is not in `docs`, in order.
pub fn drop_documents(acc: &Vec<Posting>, docs: &Vec<u64>) -> (r: Vec<Posting>)
    ensures
        r@ == remove_documents(acc@, docs@),
{
    let mut out: Vec<Posting> = Vec::new();
    let mut i: usize = 0;
    while i < acc.len()
        invariant
            i <= acc@.len(),
            out@ == remove_documents(acc@.take(i as int), docs@),
        decreases acc@.len() - i,
    {
        let p = acc[i];
        assert(acc@.take(i + 1).drop_last() =~= acc@.take(i as int));
        assert(acc@.take(i + 1).last() == p);
        if !holds_document(docs, p.1) {
            out.push(p);
        }
        i = i + 1;
    }
    assert(acc@.take(i as int) =~= acc@);
    out
}

/// Collects blobs in the order the store presents them, then folds them into one index.
pub struct OpBuilder {
    blobs: Vec<Blob>,
}

impl View for OpBuilder {
    type V = Seq<Delta>;

    closed spec fn view(&self) -> Seq<Delta> {
        deltas_of(self.blobs@)
    }
}

impl OpBuilder {
    /// An empty builder with room for `capacity` blobs.
    pub fn with_capacity(capacity: usize) -> (r: OpBuilder)
        ensures
            r@ == Seq::<Delta>::empty(),
    {
        let r = OpBuilder { blobs: Vec::with_capacity(capacity) };
        assert(r@ =~= Seq::<Delta>::empty());
        r
    }

    /// Appends a blob after those pushed before.
    pub fn push(&mut self, blob: Blob)
        ensures
            final(self)@ == old(self)@.push(blob@),
    {
        self.blobs.push(blob);
        assert(self@ =~= old(self)@.push(blob@));
    }

    /// The canonical index: every pushed blob applied in order to an empty index.
    pub fn merge(self) -> (r: PositiveBlob)
        ensures
            r.postings@ == merge_deltas(self@),
    {
        let ghost ds = self@;
        let mut acc: Vec<Posting> = Vec::new();
        let mut i: usize = 0;
        while i < self.blobs.len()
            invariant
                i <= self.blobs@.len(),
                ds == deltas_of(self.blobs@),
                acc@ == merge_deltas(ds.take(i as int)),
            decreases self.blobs@.len() - i,
        {
            assert(ds.take(i + 1).drop_last() =~= ds.take(i as int));
            assert(ds.take(i + 1).last() == self.blobs@[i as int]@);
            match &self.blobs[i] {
                Blob::Positive(p) => {
                    insert_postings(&mut acc, &p.postings);
                },
                Blob::Negative(n) => {
                    acc = drop_documents(&acc, &n.documents);
                },
            }
            i = i + 1;
        }
        assert(ds.take(i as int) =~= ds);
        PositiveBlob { postings: acc }
    }
}


/// The delta an existing canonical index contributes to a merge.
pub open spec fn head_of(existing: Option<PositiveBlob>) -> Seq<Delta> {
    match existing {
        Some(p) => seq![Delta::Add(p.postings@)],
        None => Seq::empty(),
    }
}

/// Folds the existing canonical index (if any), then `operands` in order,
/// into a new canonical index.
pub fn merge_blobs(existing: Option<PositiveBlob>, operands: Vec<Blob>) -> (r: PositiveBlob)
    ensures
        r.postings@ == merge_deltas(head_of(existing) + deltas_of(operands@)),
{
    let ghost head = head_of(existing);
    let mut op = OpBuilder::with_capacity(operands.len());
    if let Some(p) = existing {
        op.push(Blob::Positive(p));
    }
    assert(op@ =~= head);
    let mut rest = operands;
    let ghost all = deltas_of(rest@);
    let mut taken: usize = 0;
    let n: usize = rest.len();
    assert(all.skip(0) =~= all);
    while rest.len() > 0
        invariant
            taken + rest@.len() == all.len(),
            all.len() == n,
            op@ == head + all.take(taken as int),
            deltas_of(rest@) =~= all.skip(taken as int),
        decreases rest@.len(),
    {
        let ghost before = rest@;
        let b = rest.remove(0);
        proof {
            assert(b@ == deltas_of(before)[0]);
            assert(deltas_of(rest@) =~= deltas_of(before).drop_first());
            assert(all.take(taken + 1) =~= all.take(taken as int).push(b@));
            assert(all.skip(taken + 1) =~= all.skip(taken as int).drop_first());
        }
        op.push(b);
        assert(op@ =~= head + all.take(taken + 1));
        taken = taken + 1;
    }
    assert(all.take(taken as int) =~= all);
    op.merge()
}

proof fn lemma_add_postings_distinct(acc: Seq<Posting>, ps: Seq<Posting>)
    requires
        acc.no_duplicates(),
    ensures
        add_postings(acc, ps).no_duplicates(),
    decreases ps.len(),
{
    if ps.len() > 0 {
        let next = add_posting(acc, ps[0]);
        if !acc.contains(ps[0]) {
            assert forall|i: int, j: int| 0 <= i < j < next.len() implies next[i] != next[j] by {
                if j == acc.len() {
                    assert(acc[i] == next[i]);
                }
            }
        }
        lemma_add_postings_distinct(next, ps.drop_first());
    }
}

proof fn lemma_remove_documents_within(acc: Seq<Posting>, docs: Seq<u64>, p: Posting)
    ensures
        remove_documents(acc, docs).contains(p) ==> acc.contains(p),
    decreases acc.len(),
{
    if acc.len() > 0 {
        lemma_remove_documents_within(acc.drop_last(), docs, p);
        if remove_documents(acc, docs).contains(p) && p != acc.last() {
            let i = choose|i: int| 0 <= i < acc.len() - 1 && acc.drop_last()[i] == p;
            assert(acc[i] == p);
        }
        if p == acc.last() {
            assert(acc[acc.len() - 1] == p);
        }
    }
}

proof fn lemma_remove_documents_distinct(acc: Seq<Posting>, docs: Seq<u64>)
    requires
        acc.no_duplicates(),
    ensures
        remove_documents(acc, docs).no_duplicates(),
    decreases acc.len(),
{
    if acc.len() > 0 {
        let init = acc.drop_last();
        assert(init.no_duplicates()) by {
            assert forall|i: int, j: int| 0 <= i < j < init.len() implies init[i] != init[j] by {
                assert(init[i] == acc[i] && init[j] == acc[j]);
            }
        }
        lemma_remove_documents_distinct(init, docs);
        let rest = remove_documents(init, docs);
        if !docs.contains(acc.last().1) {
            lemma_remove_documents_within(init, docs, acc.last());
            assert(!init.contains(acc.last())) by {
                if init.contains(acc.last()) {
                    let i = choose|i: int| 0 <= i < init.len() && init[i] == acc.last();
                    assert(acc[i] == acc[acc.len() - 1]);
                }
            }
            let next = rest.push(acc.last());
            assert forall|i: int, j: int| 0 <= i < j < next.len() implies next[i] != next[j] by {
                if j == rest.len() {
                    assert(rest[i] == next[i]);
                }
            }
        }
    }
}

proof fn lemma_merge_distinct(ds: Seq<Delta>)
    ensures
        merge_deltas(ds).no_duplicates(),
    decreases ds.len(),
{
    if ds.len() > 0 {
        lemma_merge_distinct(ds.drop_last());
        match ds.last() {
            Delta::Add(ps) => lemma_add_postings_distinct(merge_deltas(ds.drop_last()), ps),
            Delta::Remove(docs) => lemma_remove_documents_distinct(
                merge_deltas(ds.drop_last()),
                docs,
            ),
        }
    }
}

proof fn lemma_add_fresh_postings(acc: Seq<Posting>, ps: Seq<Posting>)
    requires
        (acc + ps).no_duplicates(),
    ensures
        add_postings(acc, ps) == acc + ps,
    decreases ps.len(),
{
    if ps.len() == 0 {
        assert(acc + ps =~= acc);
    } else {
        assert(!acc.contains(ps[0])) by {
            if acc.contains(ps[0]) {
                let i = choose|i: int| 0 <= i < acc.len() && acc[i] == ps[0];
                assert((acc + ps)[i] == (acc + ps)[acc.len() as int]);
            }
        }
        assert(acc.push(ps[0]) + ps.drop_first() =~= acc + ps);
        lemma_add_fresh_postings(acc.push(ps[0]), ps.drop_first());
    }
}

/// Merging a canonical index as a positive blob into an empty index gives it back.
proof fn lemma_merged_as_positive(ds: Seq<Delta>)
    ensures
        add_postings(Seq::empty(), merge_deltas(ds)) == merge_deltas(ds),
{
    lemma_merge_distinct(ds);
    let m = merge_deltas(ds);
    assert(Seq::<Posting>::empty() + m =~= m);
    lemma_add_fresh_postings(Seq::empty(), m);
}

proof fn lemma_merge_in_two_passes(first: Seq<Delta>, second: Seq<Delta>)
    ensures
        merge_deltas(seq![Delta::Add(merge_deltas(first))] + second) == merge_deltas(first + second),
    decreases second.len(),
{
    let head = seq![Delta::Add(merge_deltas(first))];
    if second.len() == 0 {
        assert(head + second =~= head);
        assert(first + second =~= first);
        assert(head.drop_last() =~= Seq::<Delta>::empty());
        assert(merge_deltas(Seq::<Delta>::empty()) == Seq::<Posting>::empty());
        lemma_merged_as_positive(first);
        assert(merge_deltas(head) == apply_delta(Seq::empty(), Delta::Add(merge_deltas(first))));
    } else {
        lemma_merge_in_two_passes(first, second.drop_last());
        assert((head + second).drop_last() =~= head + second.drop_last());
        assert((first + second).drop_last() =~= first + second.drop_last());
        assert((head + second).last() == second.last());
        assert((first + second).last() == second.last());
    }
}

/// Merge convergence: folding `ds` in one pass gives the same canonical index
/// as folding its first `k` deltas, then folding that result, as a positive
/// blob, followed by the remaining deltas.
pub proof fn lemma_merge_convergence(ds: Seq<Delta>, k: int)
    requires
        0 <= k <= ds.len(),
    ensures
        merge_deltas(seq![Delta::Add(merge_deltas(ds.take(k)))] + ds.skip(k)) == merge_deltas(ds),
{
    lemma_merge_in_two_passes(ds.take(k), ds.skip(k));
    assert(ds.take(k) + ds.skip(k) =~= ds);
}

} // verus!
