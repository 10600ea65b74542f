//! The time of day.

use vstd::prelude::*;

verus! {

/// The earliest instant of the calendar, in milliseconds since the Unix epoch.
pub const EARLIEST_MS: i64 = -8_334_601_228_800_000;

/// The latest instant of the calendar, in milliseconds since the Unix epoch.
pub const LATEST_MS: i64 = 8_210_266_876_799_999;

/// Most seconds between two instants of the calendar.
pub const LONGEST_SECS: i64 = 16_544_868_105_599;

/// Milliseconds since the Unix epoch, by `chrono::Utc::now` and
/// `DateTime::timestamp_millis`. It is an instant between
/// `DateTime::<Utc>::MIN_UTC` and `DateTime::<Utc>::MAX_UTC`, the first and
/// last instants of the years -262143 and 262142; which one is left to the
/// machine's clock.
#[verifier::external_body]
pub(crate) fn now_ms() -> (r: i64)
    ensures
        EARLIEST_MS <= r <= LATEST_MS,
{
    chrono::Utc::now().timestamp_millis()
}

/// Whole seconds of an instant, rounded down.
pub open spec fn whole_seconds(ms: i64) -> int {
    ms as int / 1000
}

/// Whole seconds of an instant, rounded down.
pub fn seconds_of(ms: i64) -> (r: i64)
    ensures
        r == whole_seconds(ms),
{
    let q: i64 = if ms >= 0 {
        ((ms as u64) / 1000) as i64
    } else {
        // `ms` is `-(n + 1)`: rounding down takes away one more than `n / 1000`.
        let n: u64 = (-(ms + 1)) as u64;
        -((n / 1000) as i64) - 1
    };
    q
}

// ---------------------------------------------------------------------------
// Laws
// ---------------------------------------------------------------------------

/// An instant lies in the second that is named for it.
pub proof fn instant_lies_in_its_second(ms: i64, r: i64)
    requires
        call_ensures(seconds_of, (ms,), r),
    ensures
        1000 * r <= ms < 1000 * (r + 1),
{
}

} // verus!
