//! Time. Instants are milliseconds since the Unix epoch, held as `i64`.
use vstd::prelude::*;

verus! {

/// Milliseconds in one hour.
pub const MILLIS_PER_HOUR: i64 = 3_600_000;

/// Relies on `chrono::Utc::now` and `DateTime::timestamp_millis`: the current
/// instant. Nothing is known of its value.
#[verifier::external_body]
pub(crate) fn now_millis() -> (r: i64) {
    chrono::Utc::now().timestamp_millis()
}

/// The instant `hours` hours after `start`, when it fits in an `i64`.
pub open spec fn after_hours(start: i64, hours: i64) -> Option<i64> {
    let t = start + hours * MILLIS_PER_HOUR;
    if i64::MIN <= t <= i64::MAX {
        Some(t as i64)
    } else {
        None
    }
}

/// Computes `after_hours` without overflow.
pub fn add_hours(start: i64, hours: i64) -> (r: Option<i64>)
    ensures
        r == after_hours(start, hours),
{
    assert(-0x1_0000_0000_0000_0000_0000_0000 <= hours * MILLIS_PER_HOUR
        <= 0x1_0000_0000_0000_0000_0000_0000) by (nonlinear_arith)
        requires
            i64::MIN <= hours <= i64::MAX,
            MILLIS_PER_HOUR == 3_600_000,
    ;
    let t: i128 = start as i128 + hours as i128 * MILLIS_PER_HOUR as i128;
    if t < i64::MIN as i128 || t > i64::MAX as i128 {
        None
    } else {
        Some(t as i64)
    }
}

/// An instant split into whole seconds and the nanoseconds within that second
/// (`0 <= nanos < 1_000_000_000`), as wire timestamps carry it.
pub fn split_timestamp(millis: i64) -> (r: (i64, i32))
    ensures
        0 <= r.1 < 1_000_000_000,
        r.1 % 1_000_000 == 0,
        r.0 * 1000 + r.1 / 1_000_000 == millis,
{
    let mut seconds: i64 = millis / 1000;
    let mut rest: i64 = millis % 1000;
    if rest < 0 {
        seconds = seconds - 1;
        rest = rest + 1000;
    }
    let nanos: i32 = (rest * 1_000_000) as i32;
    (seconds, nanos)
}

} // verus!
