//! Orchestration of a tracker display over the shared store.
//!
//! `TrackerDisplay` is the capability a rendering layer implements; the
//! engine only hands it scan results read-only. `HabitInterface` wires one
//! display to one store handle and one timezone.

use vstd::prelude::*;

use crate::access::AccessLayer;
use crate::error::DataAccessError;
use crate::streak::StreakData;
use crate::tz::Timezone;

verus! {

/// A rendering surface for streak results. Implementations live outside the
/// engine (an e-ink panel, a terminal); they consume the results read-only.
pub trait TrackerDisplay {
    /// For e-paper displays, clear the screen and turn it off.
    fn clear_and_shutdown(&mut self);

    /// Display the current and previous streak.
    fn display_streak(
        &mut self,
        tz: &Timezone,
        current: &StreakData,
        previous: &StreakData,
    );
}

/// One display wired to one store handle and one timezone.
pub struct HabitInterface<T: TrackerDisplay> {
    display: T,
    db: AccessLayer,
    timezone: Timezone,
}

impl<T: TrackerDisplay> HabitInterface<T> {
    pub fn new(display: T, db: AccessLayer, timezone: Timezone) -> (r: HabitInterface<T>) {
        HabitInterface { display, db, timezone }
    }

    /// Compute the current and the previous streak and hand both to the
    /// display.
    pub fn refresh_stats(&mut self) -> (r: Result<(), DataAccessError>) {
        let current = match self.db.current_streak(&self.timezone) {
            Ok(c) => c,
            Err(e) => return Err(e),
        };
        let previous = match self.db.previous_streak(&self.timezone, &current) {
            Ok(p) => p,
            Err(e) => return Err(e),
        };
        self.display.display_streak(&self.timezone, &current, &previous);
        Ok(())
    }

    /// Blank the display for a scheduled quiet period.
    pub fn sleep(&mut self) {
        self.display.clear_and_shutdown();
    }

    /// Blank the display on the way out.
    pub fn shutdown(&mut self) -> (r: Result<(), DataAccessError>)
        ensures
            r is Ok,
    {
        self.display.clear_and_shutdown();
        Ok(())
    }

    /// A check-in: record one event now and refresh the display.
    pub fn button_pressed(&mut self) -> (r: Result<(), DataAccessError>) {
        match self.db.record_event() {
            Ok(()) => self.refresh_stats(),
            Err(e) => Err(e),
        }
    }
}

} // verus!
