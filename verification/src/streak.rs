//! The streak value types: `StreakData` and `Streak`.
//!
//! A `Streak` is a non-empty sequence of event instants, newest first. It is
//! produced by one scan and is relative to the timezone the scan used: the
//! defining invariant — adjacent events at most one calendar day apart — is
//! stated by `Streak::wf` and established by the scanner, never rechecked
//! here.

use vstd::prelude::*;

use crate::tz::{days_between, spec_days_between, valid_instant, Timezone};

verus! {

/// The result of one streak scan: either no event qualified, or a streak.
pub enum StreakData {
    NoData,
    Streak(Streak),
}

/// A well-formed run of streak instants for timezone `tz`: every instant lies
/// within the covered era, the run is newest first (non-increasing), and
/// adjacent instants fall on calendar days at most one apart.
pub open spec fn times_wf(tz: Seq<char>, times: Seq<i64>) -> bool {
    &&& forall|i: int| 0 <= i < times.len() ==> valid_instant(#[trigger] times[i] as int)
    &&& forall|i: int| 0 < i < times.len() ==> #[trigger] times[i] <= times[i - 1]
    &&& forall|i: int| 0 < i < times.len()
        ==> spec_days_between(tz, #[trigger] times[i] as int, times[i - 1] as int) <= 1
}

/// A scan result is well formed for `tz` when a returned streak satisfies the
/// defining invariant for that timezone.
pub open spec fn scan_result_wf(tz: Seq<char>, sd: StreakData) -> bool {
    match sd {
        StreakData::NoData => true,
        StreakData::Streak(s) => s.wf(tz),
    }
}

/// A non-empty run of event instants, newest first: the first element is the
/// streak's end (most recent event), the last is its start.
pub struct Streak {
    times: Vec<i64>,
}

impl Streak {
    /// The instants of the streak, newest first.
    pub closed spec fn times(&self) -> Seq<i64> {
        self.times@
    }

    /// The streak holds at least one event and every instant is within the
    /// era the engine covers.
    pub open spec fn valid(&self) -> bool {
        &&& self.times().len() > 0
        &&& forall|i: int| 0 <= i < self.times().len() ==> valid_instant(#[trigger] self.times()[i] as int)
    }

    /// The defining invariant relative to the timezone `tz` the streak was
    /// computed with: instants are non-increasing (newest first) and adjacent
    /// instants fall on calendar days at most one apart.
    pub open spec fn wf(&self, tz: Seq<char>) -> bool {
        &&& self.times().len() > 0
        &&& times_wf(tz, self.times())
    }

    pub(crate) fn new(times: Vec<i64>) -> (r: Streak)
        requires
            times@.len() > 0,
        ensures
            r.times() == times@,
    {
        Streak { times }
    }

    /// Whether the streak satisfies `valid()`: non-empty, with every instant
    /// inside the covered era. The engine only hands out valid streaks; this
    /// check lets unverified callers test that before calling the methods
    /// that require it.
    pub fn is_valid(&self) -> (r: bool)
        ensures
            r == self.valid(),
    {
        if self.times.len() == 0 {
            return false;
        }
        let mut idx: usize = 0;
        while idx < self.times.len()
            invariant
                self.times().len() > 0,
                0 <= idx <= self.times().len(),
                forall|i: int| 0 <= i < idx ==> valid_instant(#[trigger] self.times()[i] as int),
            decreases self.times().len() - idx,
        {
            let t = self.times[idx];
            if t < crate::tz::MIN_INSTANT_MILLIS || t > crate::tz::MAX_INSTANT_MILLIS {
                return false;
            }
            idx = idx + 1;
        }
        true
    }

    /// Total number of events in the streak. Several events on the same
    /// calendar day all count, so this can exceed `days()`.
    pub fn count(&self) -> (r: usize)
        ensures
            r == self.times().len(),
    {
        self.times.len()
    }

    /// Inclusive number of calendar days the streak spans in `tz`: the day
    /// distance between its start and its end, plus one.
    pub fn days(&self, tz: &Timezone) -> (r: i64)
        requires
            self.valid(),
        ensures
            r == spec_days_between(tz@, self.start_spec() as int, self.end_spec() as int) + 1,
            1 <= r <= 3652061,
    {
        days_between(tz, self.start(), self.end()) + 1
    }

    /// The oldest instant of the streak: when it started.
    pub open spec fn start_spec(&self) -> i64 {
        self.times().last()
    }

    /// The newest instant of the streak: when it (so far) ended.
    pub open spec fn end_spec(&self) -> i64 {
        self.times().first()
    }

    /// When the streak started.
    pub fn start(&self) -> (r: i64)
        requires
            self.valid(),
        ensures
            r == self.start_spec(),
            valid_instant(r as int),
    {
        self.times[self.times.len() - 1]
    }

    /// The instant of the last event of the streak.
    pub fn end(&self) -> (r: i64)
        requires
            self.valid(),
        ensures
            r == self.end_spec(),
            valid_instant(r as int),
    {
        self.times[0]
    }

    /// Whether the streak's last event falls on the same civil day as `now`
    /// in `tz`.
    pub fn active_today(&self, tz: &Timezone, now: i64) -> (r: bool)
        requires
            self.valid(),
            valid_instant(now as int),
        ensures
            r == (spec_days_between(tz@, self.end_spec() as int, now as int) == 0),
    {
        days_between(tz, self.end(), now) == 0
    }
}

impl StreakData {
    /// An empty scan yields `NoData`; a non-empty one yields the streak of
    /// exactly those instants, newest first.
    pub fn from_times(times: Vec<i64>) -> (r: StreakData)
        ensures
            times@.len() == 0 ==> r is NoData,
            times@.len() > 0 ==> (r matches StreakData::Streak(s) && s.times() == times@),
    {
        if times.len() == 0 {
            StreakData::NoData
        } else {
            StreakData::Streak(Streak::new(times))
        }
    }
}

} // verus!
