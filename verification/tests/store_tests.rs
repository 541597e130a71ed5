use streak_tracker::access::{in_memory, AccessLayer};
use streak_tracker::error::DataAccessError;
use streak_tracker::store::migrate;
use streak_tracker::streak::StreakData;
use streak_tracker::tz::Timezone;

fn create_access() -> AccessLayer {
    in_memory().expect("open in-memory store")
}

#[test]
fn test_record_event_ok() {
    let db = create_access();
    let test_resp = db.record_event();
    assert!(test_resp.is_ok());
}

#[test]
fn test_multiple_closes_error() {
    let db = create_access();
    let cloned = db.clone();

    match cloned.close() {
        Ok(_) => panic!("expected error"),
        Err(err) => {
            assert!(matches!(err, DataAccessError::TooManyReferencesToDrop));
        }
    }

    assert!(db.close().is_ok());
}

#[test]
fn test_close() {
    let db = create_access();
    assert!(db.close().is_ok());
}

#[test]
fn test_in_memory() {
    assert!(in_memory().is_ok());
}

#[test]
fn test_migrate() {
    let mut conn = rusqlite::Connection::open_in_memory().expect("create in-memory");
    assert!(migrate(&mut conn).is_ok());
}

#[test]
fn test_clones_share_store() {
    let db = create_access();
    let cloned = db.clone();
    cloned.record_event().expect("record event via clone");
    let tz = Timezone::utc();
    let streak = db.current_streak(&tz).expect("fetch current streak");
    match streak {
        StreakData::Streak(streak) => assert_eq!(streak.count(), 1),
        _ => panic!("expected streak"),
    }
}

#[test]
fn test_out_of_era_timestamp_aborts_scan() {
    // A row written behind the engine's back with a timestamp before year 1
    // must abort the scan, not fabricate a streak boundary.
    let mut conn = rusqlite::Connection::open_in_memory().expect("create in-memory");
    migrate(&mut conn).expect("migrate");
    conn.execute(
        "INSERT INTO events (timestamp) VALUES (?1)",
        (streak_tracker::tz::MIN_INSTANT_MILLIS - 1,),
    )
    .expect("insert raw row");
    let db = AccessLayer::new(conn);
    let tz = Timezone::utc();
    match db.current_streak(&tz) {
        Err(DataAccessError::ParseDateError) => {}
        other => panic!("expected a parse failure, got {:?}", other.is_ok()),
    }
}

#[test]
fn test_unmigrated_store_reports_engine_error() {
    let conn = rusqlite::Connection::open_in_memory().expect("create in-memory");
    let db = AccessLayer::new(conn);
    match db.record_event() {
        Err(DataAccessError::SqliteError(_)) => {}
        other => panic!("expected an engine error, got ok={}", other.is_ok()),
    }
}
