//! A plain summary of a scan result for reporting layers.
//!
//! Reporting code consumes `StreakData` read-only; this type carries the few
//! derived figures it needs as plain values: the day span, whether a streak
//! exists at all, its last instant, and whether that instant falls on the
//! same civil day as now.

use vstd::prelude::*;

use crate::streak::StreakData;
use crate::tz::{spec_days_between, valid_instant, Timezone};

verus! {

/// What a reporting layer needs to know about one scan result.
pub struct StreakSummary {
    /// Inclusive calendar-day span of the streak; `None` without a streak.
    pub days: Option<u32>,
    /// Whether any streak exists.
    pub active: bool,
    /// The instant of the streak's most recent event; `None` without one.
    pub end_millis: Option<i64>,
    /// Whether the streak's most recent event falls on the same civil day as
    /// the reference instant.
    pub active_today: bool,
}

impl StreakSummary {
    /// Summarize one scan result against `tz`, with `now` as the reference
    /// instant for `active_today`.
    pub fn from_timezone(streak: &StreakData, tz: &Timezone, now: i64) -> (r: StreakSummary)
        requires
            streak matches StreakData::Streak(s) ==> s.valid(),
            valid_instant(now as int),
        ensures
            match streak {
                StreakData::NoData => r == (StreakSummary {
                    days: None,
                    active: false,
                    end_millis: None,
                    active_today: false,
                }),
                StreakData::Streak(s) => {
                    &&& r.days matches Some(d) && d == spec_days_between(
                        tz@,
                        s.start_spec() as int,
                        s.end_spec() as int,
                    ) + 1
                    &&& r.active
                    &&& r.end_millis == Some(s.end_spec())
                    &&& r.active_today == (spec_days_between(tz@, s.end_spec() as int, now as int)
                        == 0)
                },
            },
    {
        match streak {
            StreakData::NoData => StreakSummary {
                days: None,
                active: false,
                end_millis: None,
                active_today: false,
            },
            StreakData::Streak(s) => {
                let d = s.days(tz);
                StreakSummary {
                    days: Some(d as u32),
                    active: true,
                    end_millis: Some(s.end()),
                    active_today: s.active_today(tz, now),
                }
            },
        }
    }
}

} // verus!
