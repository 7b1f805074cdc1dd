use vstd::prelude::*;

use nix::sys::time::TimeValLike;

use crate::protocol::TimestampMicros;

verus! {

#[verifier::external_type_specification]
#[verifier::external_body]
pub struct ExTimeSpec(nix::sys::time::TimeSpec);

#[verifier::external_type_specification]
#[verifier::external_body]
pub struct ExErrno(nix::errno::Errno);

/// The system clocks that bark reads.
#[derive(Debug, Clone, Copy, PartialEq, Eq)]
pub enum ClockKind {
    /// Wall clock time since the Unix epoch (`CLOCK_REALTIME`).
    Realtime,
    /// Time since boot, counting suspend (`CLOCK_BOOTTIME`).
    Boottime,
}

/// Reads a system clock with `nix::time::clock_gettime`. What it returns
/// depends on the moment of the call, so nothing is stated of it.
#[verifier::external_body]
pub(crate) fn clock_gettime(kind: ClockKind) -> Result<nix::sys::time::TimeSpec, nix::errno::Errno> {
    let id = match kind {
        ClockKind::Realtime => nix::time::ClockId::CLOCK_REALTIME,
        ClockKind::Boottime => nix::time::ClockId::CLOCK_BOOTTIME,
    };
    nix::time::clock_gettime(id)
}

/// `TimeValLike::num_microseconds` of nix: the time span of `ts` in whole
/// microseconds. A `TimeSpec` is opaque here and only ever comes from a
/// clock reading, so nothing is stated of the result.
#[verifier::external_body]
pub(crate) fn timespec_num_microseconds(ts: &nix::sys::time::TimeSpec) -> i64 {
    ts.num_microseconds()
}

/// `rand::random::<u64>()`: a random number from the thread's generator.
/// Any `u64` may come back.
#[verifier::external_body]
pub(crate) fn random_u64() -> u64 {
    rand::random::<u64>()
}

/// The clock `kind` in microseconds, or `None` when it cannot be read.
pub fn clock_micros(kind: ClockKind) -> Option<i64> {
    match clock_gettime(kind) {
        Ok(ts) => Some(timespec_num_microseconds(&ts)),
        Err(_) => None,
    }
}

/// The real time clock in microseconds since the Unix epoch, or `None`
/// when the clock cannot be read or lies before the epoch.
pub fn now() -> (r: Option<TimestampMicros>)
    ensures
        r matches Some(t) ==> t.0 <= i64::MAX,
{
    match clock_micros(ClockKind::Realtime) {
        Some(micros) => {
            if micros >= 0 {
                Some(TimestampMicros(micros as u64))
            } else {
                None
            }
        },
        None => None,
    }
}

} // verus!
