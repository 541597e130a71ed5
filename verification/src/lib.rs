//! A verified engine for tracking daily check-in streaks.
//!
//! Events are instants in time (UTC, millisecond precision) kept in an
//! append-only store. The engine answers two questions against a
//! caller-supplied timezone: how many consecutive calendar days of check-ins
//! end today (or yesterday), and what was the streak immediately before that
//! one. The scan pages backward through the store in bounded-size pages and
//! classifies events by the calendar-day gap between neighbours.

pub mod access;
pub mod error;
pub mod interface;
pub mod scan;
pub mod store;
pub mod streak;
pub mod summary;
pub mod tz;
