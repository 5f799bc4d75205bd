//! Ingestion and consistency core of an embedded document store: the index
//! delta algebra, the merge combinator run by the key-value store, and the
//! decisions of the ingestion protocol that publishes read snapshots.

pub mod blob;
pub mod keys;
pub mod merge;
pub mod ingest;
pub mod database;
