//! Instants, timezones and the calendar-day comparator.
//!
//! An instant is a number of milliseconds since the UTC epoch. The model of
//! a timezone is the function `civil_day_of`, which names the civil day
//! number (days since the start of the proleptic Gregorian calendar) that an
//! instant falls on in a named zone; the conversion itself is chrono's.

use vstd::prelude::*;

use chrono::Datelike;

verus! {

/// Earliest instant the engine accepts: 0001-01-01T00:00:00Z in milliseconds.
/// The store encodes instants so that their order is the chronological order,
/// which holds for years 1 through 9999.
pub const MIN_INSTANT_MILLIS: i64 = -62135596800000;

/// Latest instant the engine accepts: 9999-12-31T23:59:59.999Z in milliseconds.
pub const MAX_INSTANT_MILLIS: i64 = 253402300799999;

/// An instant the engine can store and convert to a civil date.
pub open spec fn valid_instant(t: int) -> bool {
    MIN_INSTANT_MILLIS <= t <= MAX_INSTANT_MILLIS
}

/// The civil day number (days since the start of the proleptic Gregorian
/// calendar) of instant `t` in the zone named `tz`. The value is fixed by the
/// zone's rules and the instant alone; it is given meaning by the trusted
/// items below.
pub uninterp spec fn civil_day_of(tz: Seq<char>, t: int) -> int;

/// Absolute difference of the civil day numbers of two instants in one zone:
/// 0 means the same civil day, 1 means adjacent civil days.
pub open spec fn spec_days_between(tz: Seq<char>, a: int, b: int) -> int {
    let d = civil_day_of(tz, a) - civil_day_of(tz, b);
    if d >= 0 {
        d
    } else {
        -d
    }
}

/// Law: the day distance from any instant to itself, in any timezone, is zero.
pub proof fn lemma_days_between_self(tz: Seq<char>, a: int)
    ensures
        spec_days_between(tz, a, a) == 0,
{
}

/// A timezone, identified by its IANA name. The `zone` field carries the
/// zone's rules for the conversion that only chrono can compute; the trusted
/// constructors keep it consistent with `name`.
#[derive(Clone)]
pub struct Timezone {
    zone: chrono_tz::Tz,
    name: String,
}

#[verifier::external_type_specification]
#[verifier::external_body]
pub struct ExTz(chrono_tz::Tz);

pub assume_specification[ <chrono_tz::Tz as std::clone::Clone>::clone ](zone: &chrono_tz::Tz) -> chrono_tz::Tz;

impl View for Timezone {
    type V = Seq<char>;

    closed spec fn view(&self) -> Seq<char> {
        self.name@
    }
}

impl Timezone {
    /// Relies on chrono-tz's `Tz::from_str`: it accepts exactly the IANA zone
    /// identifiers compiled into chrono-tz, and the returned zone carries the
    /// rules registered under that name.
    #[verifier::external_body]
    pub fn from_name(name: &str) -> (r: Option<Timezone>)
        ensures
            r matches Some(z) ==> z@ == name@,
    {
        match name.parse::<chrono_tz::Tz>() {
            Ok(zone) => Some(Timezone { zone, name: name.to_string() }),
            Err(_) => None,
        }
    }

    /// Relies on chrono-tz's `Tz::UTC` being the zone registered under the
    /// name "UTC".
    #[verifier::external_body]
    pub fn utc() -> (r: Timezone)
        ensures
            r@ == "UTC"@,
    {
        Timezone { zone: chrono_tz::Tz::UTC, name: "UTC".to_string() }
    }

    /// The IANA name this timezone was made from.
    pub fn name(&self) -> (r: &str)
        ensures
            r@ == self@,
    {
        self.name.as_str()
    }

    /// Relies on chrono's `DateTime::from_timestamp_millis`, `with_timezone`
    /// and `NaiveDate::num_days_from_ce`: the civil day an instant falls on in
    /// a zone depends on the zone's rules and the instant alone, and for
    /// instants within years 1 through 9999 the day number lies between 0 and
    /// 3652060 (the zone's offset can move an instant at the era's edge at
    /// most one day past it).
    #[verifier::external_body]
    pub(crate) fn civil_day(&self, t: i64) -> (r: i64)
        requires
            valid_instant(t as int),
        ensures
            r == civil_day_of(self@, t as int),
            0 <= r <= 3652060,
    {
        let utc = chrono::DateTime::<chrono::Utc>::from_timestamp_millis(t)
            .expect("instant within the supported era");
        i64::from(utc.with_timezone(&self.zone).date_naive().num_days_from_ce())
    }
}

/// The number of whole calendar days between two instants in `tz`: both are
/// projected to civil dates in that zone and the absolute difference of the
/// day numbers is returned. 0 means the same civil day, 1 means adjacent
/// civil days.
pub fn days_between(tz: &Timezone, first: i64, second: i64) -> (r: i64)
    requires
        valid_instant(first as int),
        valid_instant(second as int),
    ensures
        r == spec_days_between(tz@, first as int, second as int),
        0 <= r <= 3652060,
{
    let a = tz.civil_day(first);
    let b = tz.civil_day(second);
    if a >= b {
        a - b
    } else {
        b - a
    }
}

/// Relies on std's `SystemTime::now` and `duration_since(UNIX_EPOCH)`: the
/// clock reading as whole milliseconds since the epoch, or `None` when the
/// clock reads before the epoch or past what an `i64` holds. The value
/// depends on the machine's clock, so nothing more is promised of it; the
/// callers test in verified code that it lies within the covered era.
#[verifier::external_body]
pub(crate) fn clock_millis() -> (r: Option<i64>)
    ensures
        r matches Some(t) ==> t >= 0,
{
    match std::time::SystemTime::now().duration_since(std::time::UNIX_EPOCH) {
        Ok(since_epoch) => i64::try_from(since_epoch.as_millis()).ok(),
        Err(_) => None,
    }
}

} // verus!
