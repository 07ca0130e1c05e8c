//! Durations in whole milliseconds, as timers take them.

use std::time::Duration;
use vstd::prelude::*;

verus! {

/// The whole seconds of a duration: what `Duration::as_secs` returns.
pub uninterp spec fn duration_secs(d: Duration) -> u64;

/// The part of a duration below one second, in nanoseconds: what
/// `Duration::subsec_nanos` returns.
pub uninterp spec fn duration_subsec_nanos(d: Duration) -> u32;

/// `Duration::as_secs`: the number of whole seconds of the duration.
#[verifier::external_body]
fn as_secs(d: &Duration) -> (secs: u64)
    ensures
        secs == duration_secs(*d),
{
    d.as_secs()
}

/// `Duration::subsec_nanos`: the fractional part of the duration in
/// nanoseconds, which is less than one second.
#[verifier::external_body]
fn subsec_nanos(d: &Duration) -> (nanos: u32)
    ensures
        nanos == duration_subsec_nanos(*d),
        nanos < 1_000_000_000,
{
    d.subsec_nanos()
}

/// Seconds and nanoseconds in whole milliseconds, rounded down.
pub open spec fn millis(secs: u64, nanos: u32) -> int {
    secs * 1_000 + nanos / 1_000_000
}

/// Seconds and nanoseconds in whole milliseconds, rounded down.
pub fn millis_of(secs: u64, nanos: u32) -> (ms: u64)
    requires
        millis(secs, nanos) <= u64::MAX,
    ensures
        ms == millis(secs, nanos),
{
    secs * 1_000 + (nanos / 1_000_000) as u64
}

/// Seconds and nanoseconds in whole milliseconds, or `None` where the number
/// does not fit.
pub fn checked_millis_of(secs: u64, nanos: u32) -> (ms: Option<u64>)
    ensures
        ms == if millis(secs, nanos) <= u64::MAX {
            Some(millis(secs, nanos) as u64)
        } else {
            None
        },
{
    let sub: u64 = (nanos / 1_000_000) as u64;
    if secs <= (u64::MAX - sub) / 1_000 {
        Some(millis_of(secs, nanos))
    } else {
        None
    }
}

/// A length of time that can be told in milliseconds.
pub trait ToMillis {
    /// The length in whole milliseconds, rounded down.
    spec fn spec_millis(&self) -> int;

    /// The length in whole milliseconds, rounded down.
    fn to_millis(&self) -> (ms: u64)
        requires
            self.spec_millis() <= u64::MAX,
        ensures
            ms == self.spec_millis(),
    ;
}

impl ToMillis for Duration {
    open spec fn spec_millis(&self) -> int {
        millis(duration_secs(*self), duration_subsec_nanos(*self))
    }

    fn to_millis(&self) -> (ms: u64) {
        millis_of(as_secs(self), subsec_nanos(self))
    }
}

/// The duration in whole milliseconds, or `None` where the number does not
/// fit in 64 bits.
pub fn duration_to_millis(d: &Duration) -> (ms: Option<u64>)
    ensures
        ms == if d.spec_millis() <= u64::MAX {
            Some(d.spec_millis() as u64)
        } else {
            None
        },
{
    checked_millis_of(as_secs(d), subsec_nanos(d))
}

} // verus!
