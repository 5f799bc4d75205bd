use searchdb::database::{check_create, check_open, DbError};
use searchdb::ingest::{Action, Event, Ingestion, Phase};

#[test]
fn create_refuses_an_existing_path() {
    assert_eq!(check_create(true), Err(DbError::PathExists));
    assert_eq!(check_create(false), Ok(()));
}

#[test]
fn open_requires_the_schema_entry() {
    assert_eq!(check_open(None), Err(DbError::MissingSchema));
    assert_eq!(check_open(Some(vec![1, 2, 3])), Ok(vec![1, 2, 3]));
}

#[test]
fn error_messages() {
    assert!(DbError::PathExists.message().contains("already exists"));
    assert!(DbError::MissingSchema.message().contains("schema"));
}

#[test]
fn successful_ingestion_publishes_its_snapshot() {
    let mut s = Ingestion::new(3);
    assert!(!s.is_busy());
    assert_eq!(s.step(Event::Requested { move_file: true }), Action::IngestFile { move_file: true });
    assert!(s.is_busy());
    assert_eq!(s.step(Event::FileIngested), Action::CompactIndex);
    assert_eq!(s.step(Event::Compacted), Action::TakeSnapshot);
    assert_eq!(s.step(Event::SnapshotTaken { sequence: 9 }), Action::BuildView);
    assert_eq!(s.published, 3);
    assert_eq!(s.step(Event::ViewBuilt), Action::Publish { sequence: 9 });
    assert_eq!(s.published, 9);
    assert_eq!(s.phase, Phase::Idle);
}

#[test]
fn failed_ingestion_keeps_the_published_view() {
    let mut s = Ingestion::new(4);
    s.step(Event::Requested { move_file: false });
    s.step(Event::FileIngested);
    s.step(Event::Compacted);
    s.step(Event::SnapshotTaken { sequence: 8 });
    assert_eq!(s.step(Event::Failed), Action::Abort);
    assert_eq!(s.published, 4);
    assert!(!s.is_busy());
}

#[test]
fn out_of_order_events_are_ignored() {
    let mut s = Ingestion::new(1);
    assert_eq!(s.step(Event::ViewBuilt), Action::Ignore);
    assert_eq!(s.step(Event::Failed), Action::Ignore);
    s.step(Event::Requested { move_file: true });
    assert_eq!(s.step(Event::Requested { move_file: true }), Action::Ignore);
    assert_eq!(s.step(Event::Compacted), Action::Ignore);
    assert_eq!(s.phase, Phase::Ingesting);
    assert_eq!(s.published, 1);
}
