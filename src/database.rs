//! Decisions taken when a database is created or opened.

use vstd::prelude::*;

verus! {

/// Why a database could not be created or opened.
#[derive(PartialEq, Eq, Structural, Debug, Clone, Copy)]
pub enum DbError {
    /// Something already exists at the path given to `create`.
    PathExists,
    /// The store holds no schema entry: it is not a database of this kind.
    MissingSchema,
}

impl DbError {
    /// A message for the error.
    pub fn message(&self) -> (r: String)
        ensures
            *self == DbError::PathExists ==> r@ == "file already exists at path, cannot create database"@,
            *self == DbError::MissingSchema ==> r@ == "database does not contain a schema"@,
    {
        match self {
            DbError::PathExists => "file already exists at path, cannot create database".to_string(),
            DbError::MissingSchema => "database does not contain a schema".to_string(),
        }
    }
}

/// Creation guard: a database is created only where nothing exists yet, so
/// that existing data is never reused or overwritten.
pub fn check_create(path_exists: bool) -> (r: Result<(), DbError>)
    ensures
        path_exists ==> r == Err::<(), DbError>(DbError::PathExists),
        !path_exists ==> r is Ok,
{
    if path_exists {
        Err(DbError::PathExists)
    } else {
        Ok(())
    }
}

/// Open guard: a store is opened as a database only if it holds the schema
/// entry, which is handed back.
pub fn check_open(schema_entry: Option<Vec<u8>>) -> (r: Result<Vec<u8>, DbError>)
    ensures
        schema_entry is None ==> r == Err::<Vec<u8>, DbError>(DbError::MissingSchema),
        schema_entry matches Some(b) ==> r matches Ok(v) && v@ == b@,
{
    match schema_entry {
        Some(bytes) => Ok(bytes),
        None => Err(DbError::MissingSchema),
    }
}

} // verus!
