//! The one question the engine asks the clock: which calendar day is it,
//! in the machine's local time zone. Every store operation that cares
//! about the day takes it as a plain value, so the answer flows in from
//! here (or from a test) and the logic is checked for every day alike.

use chrono::Datelike;

use vstd::prelude::*;

use crate::store::Date;

verus! {

/// Relies on chrono::Local::now and the Datelike accessors year, month and
/// day: the current local calendar date, whose month and day lie in the
/// documented calendar ranges. The result depends on the clock, so nothing
/// ties two calls to one another.
#[verifier::external_body]
pub fn current_day() -> (d: Date)
    ensures
        1 <= d.month <= 12,
        1 <= d.day <= 31,
{
    let now = chrono::Local::now();
    Date { year: now.year(), month: now.month() as u8, day: now.day() as u8 }
}

} // verus!
