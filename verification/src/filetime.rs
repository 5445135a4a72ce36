//! Windows timestamps: counts of 100 ns ticks since the start of 1601.

use vstd::prelude::*;

verus! {

/// 2024-01-01T00:00:00Z. The browser gives no portable timestamps for directories, and Windows
/// Explorer expects a valid timestamp instead of zero, so every directory and every file that
/// Windows writes carries this one.
pub const VIRTUAL_DRIVE_FILETIME: i64 = 133_485_408_000_000_000;

/// The ticks from the start of 1601 to the Unix epoch.
pub const WINDOWS_EPOCH_OFFSET_100NS: i64 = 116_444_736_000_000_000;

/// The nearest value that an `i64` can hold.
pub open spec fn saturated(n: int) -> i64 {
    if n > i64::MAX {
        i64::MAX
    } else if n < i64::MIN {
        i64::MIN
    } else {
        n as i64
    }
}

/// The timestamp of a count of Unix milliseconds, saturating after each step.
pub open spec fn filetime(millis: i64) -> i64 {
    saturated(saturated(millis * 10_000) + WINDOWS_EPOCH_OFFSET_100NS)
}

fn saturate(n: i128) -> (r: i64)
    ensures
        r == saturated(n as int),
{
    if n > i64::MAX as i128 {
        i64::MAX
    } else if n < i64::MIN as i128 {
        i64::MIN
    } else {
        n as i64
    }
}

/// Converts Unix milliseconds to a Windows timestamp; what does not fit is clamped.
pub fn filetime_from_unix_millis(millis: i64) -> (r: i64)
    ensures
        r == filetime(millis),
{
    let ticks = saturate(millis as i128 * 10_000);
    saturate(ticks as i128 + WINDOWS_EPOCH_OFFSET_100NS as i128)
}

/// A later moment never gets an earlier timestamp.
pub proof fn law_filetime_is_monotone(a: i64, b: i64)
    requires
        a <= b,
    ensures
        filetime(a) <= filetime(b),
{
}

/// Within the range that a timestamp can express, two different milliseconds differ by 10,000
/// ticks each.
pub proof fn law_filetime_is_exact(millis: i64)
    requires
        i64::MIN <= millis * 10_000 <= i64::MAX - WINDOWS_EPOCH_OFFSET_100NS,
    ensures
        filetime(millis) == millis * 10_000 + WINDOWS_EPOCH_OFFSET_100NS,
{
}

} // verus!
