//! Wall-clock readings.

use vstd::prelude::*;

verus! {

/// What a reading of the clock can be: none, or a count of nanoseconds that a
/// `std::time::Duration` can hold, whose seconds fit in 64 bits.
pub open spec fn is_reading(nanos: Option<u128>) -> bool {
    nanos matches Some(n) ==> n < 0x1_0000_0000_0000_0000 * 1_000_000_000
}

/// Reads `std::time::SystemTime::now` and gives the nanoseconds since the Unix
/// epoch, or `None` when the clock stands before it. It claims that the count is
/// one of a `Duration`; which one depends on the time.
#[verifier::external_body]
fn nanos_since_epoch() -> (r: Option<u128>)
    ensures
        is_reading(r),
{
    std::time::SystemTime::now().duration_since(std::time::UNIX_EPOCH).ok().map(|d| d.as_nanos())
}

/// The nanoseconds of a reading, zero for a clock before the epoch.
pub open spec fn unix_nanos(reading: Option<u128>) -> u128 {
    match reading {
        Some(n) => n,
        None => 0,
    }
}

/// The nanoseconds of a reading, zero for a clock before the epoch.
pub fn unix_nanos_of(reading: Option<u128>) -> (r: u128)
    ensures
        r == unix_nanos(reading),
{
    match reading {
        Some(n) => n,
        None => 0,
    }
}

/// Current time in nanoseconds since the Unix epoch, zero for a clock before it.
pub fn unix_now_nanos() -> (r: u128)
    ensures
        exists|reading: Option<u128>| is_reading(reading) && r == #[trigger] unix_nanos(reading),
{
    unix_nanos_of(nanos_since_epoch())
}

/// Whole milliseconds of a reading since the epoch, cut to 64 bits; zero when
/// there is none.
pub open spec fn unix_ms(nanos: Option<u128>) -> i64 {
    match nanos {
        Some(n) => (n / 1_000_000) as i64,
        None => 0,
    }
}

/// Whole milliseconds of a reading since the epoch.
pub fn unix_ms_of(nanos: Option<u128>) -> (r: i64)
    ensures
        r == unix_ms(nanos),
{
    match nanos {
        Some(n) => (n / 1_000_000) as i64,
        None => 0,
    }
}

/// Current time in unix milliseconds.
pub fn unix_now_ms() -> (r: i64)
    ensures
        exists|nanos: Option<u128>| r == #[trigger] unix_ms(nanos),
{
    unix_ms_of(nanos_since_epoch())
}

// -- Laws -------------------------------------------------------------------

/// The milliseconds of a reading are those that have passed in full, as long as 63
/// bits can count them; a clock before the epoch stands at zero.
pub proof fn milliseconds_have_passed(nanos: u128)
    requires
        nanos / 1_000_000 <= i64::MAX,
    ensures
        unix_ms(Some(nanos)) * 1_000_000 <= nanos < (unix_ms(Some(nanos)) + 1) * 1_000_000,
        unix_ms(None) == 0,
        unix_nanos(Some(nanos)) == nanos,
        unix_nanos(None) == 0,
{
}

}
