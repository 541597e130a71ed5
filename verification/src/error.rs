//! Error types surfaced by the store and the scanner.

use vstd::prelude::*;

verus! {

#[verifier::external_type_specification]
#[verifier::external_body]
pub struct ExRusqliteError(rusqlite::Error);

#[verifier::external_type_specification]
#[verifier::external_body]
pub struct ExMigrationError(rusqlite_migration::Error);

/// What can go wrong while recording an event or scanning for a streak.
#[derive(Debug)]
pub enum DataAccessError {
    /// The storage engine failed; the engine's own error is carried along.
    SqliteError(rusqlite::Error),
    /// A stored timestamp lies outside the era the engine covers, so the
    /// scan was aborted rather than fabricating a streak boundary.
    ParseDateError,
    /// The lock guarding the store is poisoned; the operation was aborted.
    LockError,
    /// The system clock reads outside the era the engine covers (years 1
    /// through 9999, with room for the one-second scan pad), so no event
    /// could be stamped and no scan boundary formed.
    ClockError,
    /// `close` was asked to release the store while other handles to it
    /// still exist.
    TooManyReferencesToDrop,
}

/// What can go wrong while opening a store.
#[derive(Debug)]
pub enum DbError {
    SqliteError(rusqlite::Error),
    MigrationError(rusqlite_migration::Error),
    DataAccessError(DataAccessError),
}

} // verus!
