//! The durable event store: one SQLite table of events behind trusted items.
//!
//! Events are rows of an `events` table holding the instant as an INTEGER of
//! epoch milliseconds — a sortable numeric encoding, so the engine's ORDER BY
//! is the chronological order — plus an optional free-text label that carries
//! no scanning semantics.

use vstd::prelude::*;

verus! {

#[verifier::external_type_specification]
#[verifier::external_body]
pub struct ExConnection(rusqlite::Connection);

#[verifier::external_type_specification]
#[verifier::external_body]
#[verifier::reject_recursive_types(T)]
pub struct ExMutex<T: ?Sized>(std::sync::Mutex<T>);

pub assume_specification<T>[ std::sync::Mutex::<T>::new ](t: T) -> std::sync::Mutex<T>;

/// Relies on rusqlite's `Connection::open_in_memory`: a fresh, empty
/// in-memory database.
#[verifier::external_body]
pub(crate) fn open_in_memory_conn() -> (r: Result<rusqlite::Connection, rusqlite::Error>) {
    rusqlite::Connection::open_in_memory()
}

/// Relies on rusqlite_migration's `Migrations::new` and `to_latest`: brings
/// the connection's schema to the latest version — an `events` table with an
/// autoincrement id, an INTEGER timestamp of epoch milliseconds, an optional
/// name, and an index on the timestamp so the backward-paginated query stays
/// efficient as history grows.
#[verifier::external_body]
pub fn migrate(conn: &mut rusqlite::Connection) -> (r: Result<(), rusqlite_migration::Error>) {
    let migrations = rusqlite_migration::Migrations::new(vec![
        rusqlite_migration::M::up(
            "CREATE TABLE events (
                id INTEGER PRIMARY KEY AUTOINCREMENT NOT NULL,
                timestamp INTEGER NOT NULL
            );",
        ).down("DROP TABLE events;"),
        rusqlite_migration::M::up("CREATE INDEX idx_events_timestamp ON events (timestamp);")
            .down("DROP INDEX idx_events_timestamp"),
        rusqlite_migration::M::up("ALTER TABLE events ADD COLUMN name TEXT")
            .down("ALTER TABLE events DROP COLUMN name"),
    ]);
    migrations.to_latest(conn)
}

} // verus!
