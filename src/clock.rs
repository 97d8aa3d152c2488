//! The wall clock and identifiers for new sessions.
use vstd::prelude::*;

verus! {

/// The last millisecond that the clock can report: the end of the last day
/// of year 262142, the latest instant the date library represents.
pub const CLOCK_MAX_MS: i64 = 8_210_266_876_799_999;

/// Milliseconds in a day.
pub const DAY_MS: i64 = 86_400_000;

/// An instant that the clock can report.
pub open spec fn is_clock_reading(t: int) -> bool {
    0 <= t <= CLOCK_MAX_MS
}

/// The UTC calendar day of an instant, counted from 1970-01-01.
pub open spec fn day_of(t: int) -> int {
    t / (DAY_MS as int)
}

/// Relies on chrono's `Utc::now` and `DateTime::timestamp_millis`: the
/// current time, in milliseconds since the Unix epoch. `Utc::now` panics on
/// a clock before the epoch and on one beyond its representable range.
#[verifier::external_body]
pub(crate) fn now_millis() -> (r: i64)
    ensures
        is_clock_reading(r as int),
{
    chrono::Utc::now().timestamp_millis()
}

/// Relies on uuid's `Uuid::new_v4` and `Uuid::as_u128`: a random version 4
/// identifier; `new_v4` sets the version nibble (bits 76 to 79) to 4 and the
/// variant bits (62 and 63) to `10`.
#[verifier::external_body]
pub(crate) fn new_session_id() -> (r: u128)
    ensures
        r & 0xF000_C000_0000_0000_0000 == 0x4000_8000_0000_0000_0000,
{
    uuid::Uuid::new_v4().as_u128()
}

/// The UTC calendar day of the instant `t`.
pub fn day_of_timestamp(t: i64) -> (r: i64)
    ensures
        r == day_of(t as int),
{
    if t >= 0 {
        t / DAY_MS
    } else {
        let u: i64 = -(t + 1);
        let q: i64 = u / DAY_MS;
        assert(q == u as int / DAY_MS as int);
        assert(day_of(t as int) == -q - 1) by (nonlinear_arith)
            requires
                u == -(t + 1),
                t < 0,
                q == u / 86_400_000,
                day_of(t as int) == t / 86_400_000,
        ;
        -q - 1
    }
}

} // verus!
