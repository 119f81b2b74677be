//! The wall clock, read as whole nanoseconds since the Unix epoch.
//!
//! Nothing is assumed of the values the clock returns: the system clock may
//! jump backwards, so every caller states what holds of each possible
//! reading, and the store surfaces a regression as a consistency error.

use vstd::prelude::*;

verus! {

/// std::time::SystemTime, carried through as an opaque instant.
#[verifier::external_type_specification]
#[verifier::external_body]
pub struct ExSystemTime(std::time::SystemTime);

/// Relies on std::time::SystemTime::now: the current wall-clock time, as an
/// opaque instant; nothing is assumed of it.
#[verifier::external_body]
fn system_now() -> std::time::SystemTime {
    std::time::SystemTime::now()
}

/// Relies on std::time::SystemTime::duration_since: the span from the Unix
/// epoch to `t`, or `None` when `t` lies before the epoch; nothing is assumed
/// of the value.
#[verifier::external_body]
fn since_epoch(t: &std::time::SystemTime) -> Option<core::time::Duration> {
    match t.duration_since(std::time::UNIX_EPOCH) {
        Ok(d) => Some(d),
        Err(_) => None,
    }
}

/// Relies on core::time::Duration::as_nanos: the whole nanoseconds of `d`,
/// truncated to 64 bits; nothing is assumed of the value.
#[verifier::external_body]
fn duration_nanos(d: &core::time::Duration) -> u64 {
    d.as_nanos() as u64
}

/// The current wall-clock reading in nanoseconds since the Unix epoch; zero
/// when the clock reads earlier than the epoch.
pub(crate) fn now_nanos() -> u64 {
    let t = system_now();
    match since_epoch(&t) {
        Some(d) => duration_nanos(&d),
        None => 0,
    }
}

} // verus!
