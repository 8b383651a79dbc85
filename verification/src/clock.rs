//! The wall clock, read once per call, as whole seconds and nanoseconds
//! since the Unix epoch.

use vstd::prelude::*;
use std::time::{SystemTime, UNIX_EPOCH};

verus! {

/// `SystemTime::now().duration_since(UNIX_EPOCH)`: the time elapsed since
/// the epoch as whole seconds and the nanoseconds past them, or `None` when
/// the clock reads a time before the epoch. The value depends on when it is
/// called, so the contract claims only that the nanoseconds part is below
/// one second, as `Duration::subsec_nanos` documents.
#[verifier::external_body]
fn since_epoch() -> (r: Option<(u64, u32)>)
    ensures
        r matches Some(t) ==> t.1 < 1_000_000_000,
{
    match SystemTime::now().duration_since(UNIX_EPOCH) {
        Ok(d) => Some((d.as_secs(), d.subsec_nanos())),
        Err(_) => None,
    }
}

/// A reading of the clock: whole seconds and nanoseconds past them (zero
/// when the clock is before the epoch).
#[derive(Debug, Clone, Copy, PartialEq, Eq, Structural)]
pub struct Instant {
    pub secs: u64,
    pub nanos: u32,
}

/// Reads the clock; a clock before the epoch reads as zero.
pub fn now() -> (r: Instant)
    ensures
        r.nanos < 1_000_000_000,
{
    match since_epoch() {
        Some((secs, nanos)) => Instant { secs, nanos },
        None => Instant { secs: 0, nanos: 0 },
    }
}

/// Whole seconds of an instant, as a signed number (truncated as `as`
/// does).
pub open spec fn secs_of(t: Instant) -> i64 {
    t.secs as i64
}

/// Nanoseconds since the epoch of an instant, truncated to a signed 64-bit
/// number as `as` does.
pub open spec fn total_nanos(t: Instant) -> i64 {
    (t.secs as int * 1_000_000_000 + t.nanos as int) as i64
}

/// Milliseconds since the epoch of an instant, truncated to a signed 64-bit
/// number as `as` does.
pub open spec fn total_millis(t: Instant) -> i64 {
    (t.secs as int * 1000 + t.nanos as int / 1_000_000) as i64
}

/// The current time in whole seconds since the epoch (zero before it).
pub fn now_secs() -> (r: i64)
    ensures
        exists|t: Instant| t.nanos < 1_000_000_000 && r == secs_of(t),
{
    let t = now();
    secs_i64(t)
}

/// Whole seconds of `t` as a signed number.
pub fn secs_i64(t: Instant) -> (r: i64)
    ensures
        r == secs_of(t),
{
    t.secs as i64
}

/// Nanoseconds since the epoch of `t`, truncated to `i64`.
pub fn nanos_i64(t: Instant) -> (r: i64)
    requires
        t.nanos < 1_000_000_000,
    ensures
        r == total_nanos(t),
{
    let total: u128 = (t.secs as u128) * 1_000_000_000u128 + (t.nanos as u128);
    total as i64
}

/// Milliseconds since the epoch of `t`, truncated to `i64`.
pub fn millis_i64(t: Instant) -> (r: i64)
    requires
        t.nanos < 1_000_000_000,
    ensures
        r == total_millis(t),
{
    let total: u128 = (t.secs as u128) * 1000u128 + (t.nanos as u128) / 1_000_000u128;
    total as i64
}

} // verus!
