//! Decisions of the ingestion protocol.
//!
//! A database serialises its ingestions: while one is in progress no other
//! starts. Each goes through file ingestion, compaction of the canonical
//! index key, a snapshot of the store and the construction of a view, and
//! only then is the new view published. Readers only ever see published
//! views, each bound to the snapshot it was built from, identified here by
//! the store sequence number of that snapshot.
//!
//! The caller performs each action and reports its outcome as the next event.

use vstd::prelude::*;

verus! {

/// Where an ingestion stands.
#[derive(PartialEq, Eq, Structural, Debug, Clone, Copy)]
pub enum Phase {
    Idle,
    Ingesting,
    Compacting,
    Snapshotting,
    Publishing,
}

/// What the caller reports.
#[derive(PartialEq, Eq, Structural, Debug, Clone, Copy)]
pub enum Event {
    /// An update file is handed over; `move_file` lets the store take it.
    Requested { move_file: bool },
    /// The store has taken in the update file.
    FileIngested,
    /// The canonical index key has been compacted.
    Compacted,
    /// A snapshot of the store was taken at this sequence number.
    SnapshotTaken { sequence: u64 },
    /// The view over the pending snapshot is built.
    ViewBuilt,
    /// The last action failed.
    Failed,
}

/// What the caller must do next.
#[derive(PartialEq, Eq, Structural, Debug, Clone, Copy)]
pub enum Action {
    /// Ingest the update file, moving it if `move_file`, else copying it.
    IngestFile { move_file: bool },
    /// Compact the range made of the canonical index key alone.
    CompactIndex,
    /// Take a snapshot of the store.
    TakeSnapshot,
    /// Build a view over the pending snapshot.
    BuildView,
    /// Publish the view over the snapshot at `sequence` as the current view.
    Publish { sequence: u64 },
    /// The ingestion failed: report it; the published view is unchanged.
    Abort,
    /// The event does not belong to the current phase: nothing to do.
    Ignore,
}

/// The writer-side state of a database.
#[derive(PartialEq, Eq, Structural, Debug, Clone, Copy)]
pub struct Ingestion {
    /// The phase of the ingestion in progress, `Idle` when there is none.
    pub phase: Phase,
    /// Sequence number of the snapshot behind the published view.
    pub published: u64,
    /// Sequence number of the snapshot taken by the ingestion in progress.
    pub pending: u64,
}

/// The transition table of the protocol.
pub open spec fn next(s: Ingestion, e: Event) -> (Ingestion, Action) {
    match (s.phase, e) {
        (Phase::Idle, Event::Requested { move_file }) => (
            Ingestion { phase: Phase::Ingesting, ..s },
            Action::IngestFile { move_file },
        ),
        (Phase::Ingesting, Event::FileIngested) => (
            Ingestion { phase: Phase::Compacting, ..s },
            Action::CompactIndex,
        ),
        (Phase::Compacting, Event::Compacted) => (
            Ingestion { phase: Phase::Snapshotting, ..s },
            Action::TakeSnapshot,
        ),
        (Phase::Snapshotting, Event::SnapshotTaken { sequence }) => (
            Ingestion { phase: Phase::Publishing, pending: sequence, ..s },
            Action::BuildView,
        ),
        (Phase::Publishing, Event::ViewBuilt) => (
            Ingestion { phase: Phase::Idle, published: s.pending, ..s },
            Action::Publish { sequence: s.pending },
        ),
        (Phase::Idle, _) => (s, Action::Ignore),
        (_, Event::Failed) => (Ingestion { phase: Phase::Idle, ..s }, Action::Abort),
        _ => (s, Action::Ignore),
    }
}

impl Ingestion {
    /// A database whose published view is over the snapshot at `sequence`.
    pub fn new(sequence: u64) -> (r: Ingestion)
        ensures
            r.phase == Phase::Idle,
            r.published == sequence,
    {
        Ingestion { phase: Phase::Idle, published: sequence, pending: sequence }
    }

    /// Whether an ingestion is in progress (writers must wait).
    pub fn is_busy(&self) -> (r: bool)
        ensures
            r == (self.phase != Phase::Idle),
    {
        !matches!(self.phase, Phase::Idle)
    }

    /// Takes one event and says what to do next.
    pub fn step(&mut self, e: Event) -> (a: Action)
        ensures
            (*final(self), a) == next(*old(self), e),
    {
        let s = *self;
        let (n, a) = match (s.phase, e) {
            (Phase::Idle, Event::Requested { move_file }) => (
                Ingestion { phase: Phase::Ingesting, ..s },
                Action::IngestFile { move_file },
            ),
            (Phase::Ingesting, Event::FileIngested) => (
                Ingestion { phase: Phase::Compacting, ..s },
                Action::CompactIndex,
            ),
            (Phase::Compacting, Event::Compacted) => (
                Ingestion { phase: Phase::Snapshotting, ..s },
                Action::TakeSnapshot,
            ),
            (Phase::Snapshotting, Event::SnapshotTaken { sequence }) => (
                Ingestion { phase: Phase::Publishing, pending: sequence, ..s },
                Action::BuildView,
            ),
            (Phase::Publishing, Event::ViewBuilt) => (
                Ingestion { phase: Phase::Idle, published: s.pending, ..s },
                Action::Publish { sequence: s.pending },
            ),
            (Phase::Idle, _) => (s, Action::Ignore),
            (_, Event::Failed) => (Ingestion { phase: Phase::Idle, ..s }, Action::Abort),
            _ => (s, Action::Ignore),
        };
        *self = n;
        a
    }
}

/// The state after a sequence of events.
pub open spec fn run(s: Ingestion, es: Seq<Event>) -> Ingestion
    decreases es.len(),
{
    if es.len() == 0 {
        s
    } else {
        next(run(s, es.drop_last()), es.last()).0
    }
}

/// The events of one successful ingestion whose snapshot is at `sequence`.
pub open spec fn successful_ingestion(move_file: bool, sequence: u64) -> Seq<Event> {
    seq![
        Event::Requested { move_file },
        Event::FileIngested,
        Event::Compacted,
        Event::SnapshotTaken { sequence },
        Event::ViewBuilt,
    ]
}


proof fn lemma_run_append(s: Ingestion, a: Seq<Event>, b: Seq<Event>)
    ensures
        run(s, a + b) == run(run(s, a), b),
    decreases b.len(),
{
    if b.len() == 0 {
        assert(a + b =~= a);
    } else {
        lemma_run_append(s, a, b.drop_last());
        assert((a + b).drop_last() =~= a + b.drop_last());
        assert((a + b).last() == b.last());
    }
}

/// Only the event that completes an ingestion changes the published view.
pub proof fn lemma_published_changes_on_completion(s: Ingestion, e: Event)
    ensures
        next(s, e).0.published != s.published ==> s.phase == Phase::Publishing && e
            == Event::ViewBuilt && next(s, e).0.published == s.pending,
{
}

/// No partial effect: events that never report a built view leave the
/// published view as it was.
pub proof fn lemma_no_partial_publication(s: Ingestion, es: Seq<Event>)
    requires
        forall|i: int| 0 <= i < es.len() ==> es[i] != Event::ViewBuilt,
    ensures
        run(s, es).published == s.published,
    decreases es.len(),
{
    if es.len() > 0 {
        lemma_no_partial_publication(s, es.drop_last());
        lemma_published_changes_on_completion(run(s, es.drop_last()), es.last());
    }
}

/// Atomic visibility: after an ingestion I1 completes from an idle database,
/// the published view is over I1's snapshot; it stays so through every step
/// of a following ingestion I2 short of completion, and after I2 fails at
/// any step; once I2 completes, the published view is over I2's snapshot.
pub proof fn lemma_atomic_visibility(
    s: Ingestion,
    move1: bool,
    seq1: u64,
    move2: bool,
    seq2: u64,
    k: int,
)
    requires
        s.phase == Phase::Idle,
        0 <= k < 5,
    ensures
        run(s, successful_ingestion(move1, seq1)).phase == Phase::Idle,
        run(s, successful_ingestion(move1, seq1)).published == seq1,
        run(s, successful_ingestion(move1, seq1) + successful_ingestion(move2, seq2).take(k)).published
            == seq1,
        run(
            s,
            successful_ingestion(move1, seq1) + successful_ingestion(move2, seq2).take(k).push(
                Event::Failed,
            ),
        ).published == seq1,
        run(s, successful_ingestion(move1, seq1) + successful_ingestion(move2, seq2)).published
            == seq2,
        run(s, successful_ingestion(move1, seq1) + successful_ingestion(move2, seq2)).phase
            == Phase::Idle,
{
    let i1 = successful_ingestion(move1, seq1);
    let i2 = successful_ingestion(move2, seq2);
    assert(i1.drop_last().drop_last().drop_last().drop_last().drop_last() =~= Seq::<Event>::empty());
    reveal_with_fuel(run, 6);
    let t = run(s, i1);
    assert(t.phase == Phase::Idle && t.published == seq1);
    assert(i2.drop_last().drop_last().drop_last().drop_last().drop_last() =~= Seq::<Event>::empty());
    lemma_run_append(s, i1, i2);
    lemma_run_append(s, i1, i2.take(k));
    lemma_run_append(s, i1, i2.take(k).push(Event::Failed));
    assert forall|i: int| 0 <= i < i2.take(k).len() implies i2.take(k)[i] != Event::ViewBuilt by {}
    lemma_no_partial_publication(t, i2.take(k));
    let u = run(t, i2.take(k));
    assert(i2.take(k).push(Event::Failed).drop_last() =~= i2.take(k));
    assert(next(u, Event::Failed).0.published == u.published);
}

} // verus!
