//! The shared access layer: recording events and scanning for streaks.
//!
//! One physical store handle is shared by reference across threads behind a
//! mutual-exclusion lock. The lock is held for the duration of one store
//! operation — one insert, or one page fetch — never across a whole scan, so
//! long scans do not starve writers; a scan racing with writes may see pages
//! from different store states, an accepted consistency relaxation.

use vstd::prelude::*;

use crate::error::{DataAccessError, DbError};
use crate::scan::{apply_page, gap_ok, page_scan, sorted_desc};
use crate::streak::{scan_result_wf, times_wf, StreakData};
use crate::tz::{clock_millis, valid_instant, Timezone};
use crate::tz::{MAX_INSTANT_MILLIS, MIN_INSTANT_MILLIS};

verus! {

/// How many events one backward page fetch returns at most. Bounded, so a
/// scan over years of history never loads the whole log; well above 1, so a
/// scan does not pay one query per event.
pub const FETCH_SIZE: usize = 100;

/// A shareable handle to one event store. Clones share the same underlying
/// store; `close` releases it and succeeds only on the last handle.
#[derive(Clone)]
pub struct AccessLayer {
    conn: std::sync::Arc<std::sync::Mutex<rusqlite::Connection>>,
}

/// Relies on std's `Mutex::lock` and rusqlite's `Connection::execute`: inserts
/// one event row with the given instant and optional label. Fails with
/// `LockError` on a poisoned lock and `SqliteError` on an engine error.
#[verifier::external_body]
fn exec_insert(al: &AccessLayer, time: i64, name: Option<&str>) -> (r: Result<
    (),
    DataAccessError,
>) {
    let guard = match al.conn.lock() {
        Ok(g) => g,
        Err(_) => return Err(DataAccessError::LockError),
    };
    match guard.execute("INSERT INTO events (timestamp, name) VALUES (?1, ?2)", (time, name)) {
        Ok(_) => Ok(()),
        Err(e) => Err(DataAccessError::SqliteError(e)),
    }
}

/// Relies on std's `Mutex::lock`, rusqlite's `prepare`/`query_map`, and
/// SQLite's `WHERE timestamp < ?1 ORDER BY timestamp DESC LIMIT ?2` over the
/// INTEGER timestamp column: the rows of one page come back newest first, all
/// strictly older than the bound, and at most `n` of them. An empty page
/// means no event older than the bound exists.
#[verifier::external_body]
fn fetch_page(al: &AccessLayer, bound: i64, n: usize) -> (r: Result<Vec<i64>, DataAccessError>)
    ensures
        r matches Ok(page) ==> {
            &&& sorted_desc(page@)
            &&& forall|i: int| 0 <= i < page@.len() ==> #[trigger] page@[i] < bound
            &&& page@.len() <= n
        },
{
    let guard = match al.conn.lock() {
        Ok(g) => g,
        Err(_) => return Err(DataAccessError::LockError),
    };
    let rows = guard
        .prepare("SELECT timestamp FROM events WHERE timestamp < ?1 ORDER BY timestamp DESC LIMIT ?2")
        .and_then(|mut stmt| {
            stmt.query_map((bound, n as i64), |row| row.get::<_, i64>(0))?.collect()
        });
    match rows {
        Ok(v) => Ok(v),
        Err(e) => Err(DataAccessError::SqliteError(e)),
    }
}

/// The current instant, tested in verified code to lie within the covered
/// era with room for the one-second scan pad; a clock outside it is surfaced
/// as `ClockError` rather than trusted away.
fn now_instant() -> (r: Result<i64, DataAccessError>)
    ensures
        r matches Ok(t) ==> valid_instant(t as int) && t + 1000 <= MAX_INSTANT_MILLIS,
        r is Err ==> r == Err::<i64, DataAccessError>(DataAccessError::ClockError),
{
    match clock_millis() {
        Some(t) => {
            if t <= MAX_INSTANT_MILLIS - 1000 {
                Ok(t)
            } else {
                Err(DataAccessError::ClockError)
            }
        },
        None => Err(DataAccessError::ClockError),
    }
}

impl AccessLayer {
    /// Wrap one connection as the single shared store handle.
    pub fn new(conn: rusqlite::Connection) -> (r: AccessLayer) {
        AccessLayer { conn: std::sync::Arc::new(std::sync::Mutex::new(conn)) }
    }

    /// Record one check-in event at the current instant.
    pub fn record_event(&self) -> (r: Result<(), DataAccessError>) {
        let now = match now_instant() {
            Ok(t) => t,
            Err(e) => return Err(e),
        };
        self.record_event_at(now)
    }

    /// Record one check-in event at the current instant, with a label. The
    /// label carries no scanning semantics.
    pub fn record_event_named(&self, name: &str) -> (r: Result<(), DataAccessError>) {
        let now = match now_instant() {
            Ok(t) => t,
            Err(e) => return Err(e),
        };
        exec_insert(self, now, Some(name))
    }

    /// Record one check-in event at the given instant.
    pub fn record_event_at(&self, time: i64) -> (r: Result<(), DataAccessError>)
        requires
            valid_instant(time as int),
    {
        exec_insert(self, time, None)
    }

    /// The streak of consecutive check-in days ending at the current civil
    /// day (or the one before it), in `tz`. Scans backward from one second
    /// past now, so an event recorded in the same instant as the query still
    /// counts under the strictly-older page bound.
    ///
    /// The clock itself is unobservable in the contract, so the bound is
    /// stated existentially: some instant within the era bounds every
    /// returned instant and falls at most one calendar day after the
    /// streak's end.
    pub fn current_streak(&self, tz: &Timezone) -> (r: Result<StreakData, DataAccessError>)
        ensures
            r matches Ok(sd) ==> scan_result_wf(tz@, sd),
            r matches Ok(sd) ==> (sd matches StreakData::Streak(s) ==> exists|b: i64|
                {
                    &&& valid_instant(b as int)
                    &&& #[trigger] gap_ok(tz@, s.end_spec(), b)
                    &&& forall|i: int| 0 <= i < s.times().len() ==> #[trigger] s.times()[i] < b
                }),
    {
        let now = match now_instant() {
            Ok(t) => t,
            Err(e) => return Err(e),
        };
        let upper_bound = now + 1000;
        self.streak_from_time(tz, upper_bound, false)
    }

    /// The streak immediately before the reference streak: scans backward
    /// from the reference's start (or from now, when there is no reference),
    /// accepting the first event found unconditionally — the reference has
    /// already consumed the day its start falls on, so the previous streak
    /// necessarily ends on some earlier, not-yet-compared day.
    ///
    /// Every instant of a returned streak is strictly older than the
    /// reference's start, so the reference and the result share no event.
    pub fn previous_streak(&self, tz: &Timezone, streak_data: &StreakData) -> (r: Result<
        StreakData,
        DataAccessError,
    >)
        requires
            streak_data matches StreakData::Streak(s) ==> s.valid(),
        ensures
            r matches Ok(sd) ==> scan_result_wf(tz@, sd),
            streak_data matches StreakData::Streak(s) ==> (r matches Ok(sd) ==> (sd
                matches StreakData::Streak(p) ==> forall|i: int| 0 <= i < p.times().len()
                ==> #[trigger] p.times()[i] < s.start_spec())),
    {
        let upper_bound = match streak_data {
            StreakData::NoData => {
                match now_instant() {
                    Ok(t) => t,
                    Err(e) => return Err(e),
                }
            },
            StreakData::Streak(streak) => streak.start(),
        };
        self.streak_from_time(tz, upper_bound, true)
    }

    /// One backward scan from `end`: fetch pages of events strictly older
    /// than the running boundary, classify them by calendar-day gap, and stop
    /// at the first gap larger than one day or at the end of history.
    ///
    /// A returned streak is well formed for `tz`, all its instants are older
    /// than `end`, and — unless `allow_gap` accepted the first event
    /// unconditionally — its most recent instant is at most one calendar day
    /// before `end`'s day.
    ///
    /// Each page is classified exactly as `scan::page_scan` says (the
    /// contract of `scan::apply_page`); over a store no writer races with,
    /// the whole scan follows `scan::scan_view`, whose laws are proved in
    /// that module. Because the lock is released between pages, a racing
    /// writer can change what later pages hold, so this contract speaks only
    /// of what every outcome satisfies.
    pub fn streak_from_time(&self, tz: &Timezone, end: i64, allow_gap: bool) -> (r: Result<
        StreakData,
        DataAccessError,
    >)
        requires
            valid_instant(end as int),
        ensures
            r matches Ok(sd) ==> {
                &&& scan_result_wf(tz@, sd)
                &&& (sd matches StreakData::Streak(s) ==> {
                    &&& forall|i: int| 0 <= i < s.times().len() ==> #[trigger] s.times()[i] < end
                    &&& (!allow_gap ==> gap_ok(tz@, s.end_spec(), end))
                })
            },
    {
        let mut dates: Vec<i64> = Vec::new();
        let mut streak_end: i64 = end;

        loop
            invariant
                valid_instant(end as int),
                times_wf(tz@, dates@),
                forall|i: int| 0 <= i < dates@.len() ==> #[trigger] dates@[i] < end,
                streak_end == if dates@.len() == 0 {
                    end
                } else {
                    dates@.last()
                },
                valid_instant(streak_end as int),
                (!allow_gap && dates@.len() > 0) ==> gap_ok(tz@, dates@[0], end),
            ensures
                times_wf(tz@, dates@),
                forall|i: int| 0 <= i < dates@.len() ==> #[trigger] dates@[i] < end,
                (!allow_gap && dates@.len() > 0) ==> gap_ok(tz@, dates@[0], end),
            decreases streak_end - MIN_INSTANT_MILLIS,
        {
            let page = match fetch_page(self, streak_end, FETCH_SIZE) {
                Ok(p) => p,
                Err(e) => return Err(e),
            };
            if page.len() == 0 {
                // end of history: no gap found
                break;
            }
            let ghost pre = dates@;
            let alive = match apply_page(tz, &mut dates, streak_end, &page, allow_gap) {
                Ok(a) => a,
                Err(e) => return Err(e),
            };
            proof {
                crate::scan::lemma_page_scan_wf(tz@, pre, streak_end, page@, allow_gap);
                let (d2, a2) = page_scan(tz@, pre, streak_end, page@, allow_gap)->Some_0;
                assert(dates@ == d2);
                assert forall|i: int| 0 <= i < dates@.len() implies #[trigger] dates@[i] < end by {
                    if i < pre.len() {
                        assert(dates@[i] == d2.take(pre.len() as int)[i]);
                    } else {
                        assert(pre.len() > 0 ==> dates@[i] <= pre.last());
                    }
                }
                if pre.len() > 0 && dates@.len() > 0 {
                    assert(dates@[0] == d2.take(pre.len() as int)[0]);
                }
                if alive {
                    assert(dates@ =~= pre + page@);
                    assert(dates@.last() == page@.last());
                    assert(page@.last() < streak_end);
                }
            }
            if dates.len() > 0 {
                streak_end = dates[dates.len() - 1];
            }
            if !alive {
                // a gap larger than one day broke the streak
                break;
            }
        }
        Ok(StreakData::from_times(dates))
    }

    /// Relies on std's `Arc::into_inner` and `Mutex::into_inner` and on
    /// rusqlite's `Connection::close`: releases the underlying store.
    /// Succeeds only when this is the last handle; while other handles to the
    /// same store exist it fails with `TooManyReferencesToDrop` and releases
    /// nothing.
    #[verifier::external_body]
    pub fn close(self) -> (r: Result<(), DataAccessError>) {
        let mutex = match std::sync::Arc::into_inner(self.conn) {
            Some(m) => m,
            None => return Err(DataAccessError::TooManyReferencesToDrop),
        };
        let conn = match mutex.into_inner() {
            Ok(c) => c,
            Err(_) => return Err(DataAccessError::LockError),
        };
        match conn.close() {
            Ok(()) => Ok(()),
            Err((_, e)) => Err(DataAccessError::SqliteError(e)),
        }
    }
}

/// Open a fresh in-memory event store, ready to record events.
pub fn in_memory() -> (r: Result<AccessLayer, DbError>) {
    let conn = match crate::store::open_in_memory_conn() {
        Ok(c) => c,
        Err(e) => return Err(DbError::SqliteError(e)),
    };
    let mut conn = conn;
    match crate::store::migrate(&mut conn) {
        Ok(()) => Ok(AccessLayer::new(conn)),
        Err(e) => Err(DbError::MigrationError(e)),
    }
}

} // verus!
