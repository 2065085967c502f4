//! Decisions around the capture device: which device is the loopback device,
//! which capture results are only timeouts, and what time a frame was
//! captured at.

use vstd::prelude::*;

verus! {

/// The interface flags of a capture device that decide whether it can be
/// used.
#[derive(Clone, Copy, Debug, PartialEq, Eq)]
pub struct DeviceFlags {
    pub up: bool,
    pub running: bool,
    pub loopback: bool,
}

impl DeviceFlags {
    /// The device is a loopback device that is up and running.
    pub open spec fn usable(self) -> bool {
        self.up && self.running && self.loopback
    }

    /// Whether the device is a loopback device that is up and running.
    pub fn is_loopback(&self) -> (r: bool)
        ensures
            r == self.usable(),
    {
        self.up && self.running && self.loopback
    }
}

/// The index of the first device that is a usable loopback device, if there
/// is one.
pub fn get_loopback_device(devices: &[DeviceFlags]) -> (r: Option<usize>)
    ensures
        match r {
            Some(i) => {
                &&& i < devices@.len()
                &&& devices@[i as int].usable()
                &&& forall|j: int| 0 <= j < i ==> !devices@[j].usable()
            },
            None => forall|j: int| 0 <= j < devices@.len() ==> !devices@[j].usable(),
        },
{
    let mut i: usize = 0;
    while i < devices.len()
        invariant
            i <= devices@.len(),
            forall|j: int| 0 <= j < i ==> !devices@[j].usable(),
        decreases devices.len() - i,
    {
        if devices[i].is_loopback() {
            return Some(i);
        }
        i += 1;
    }
    None
}

/// Why the capture gave no frame.
pub enum CaptureFailure<E> {
    /// No frame arrived within the capture timeout.
    TimeoutExpired,
    /// The capture failed.
    Other(E),
}

/// Turns the timeout of a capture into "no frame this time"; every other
/// failure stays a failure.
pub fn ignore_timeouts<T, E>(result: Result<T, CaptureFailure<E>>) -> (r: Result<Option<T>, E>)
    ensures
        r == match result {
            Ok(packet) => Ok::<Option<T>, E>(Some(packet)),
            Err(CaptureFailure::TimeoutExpired) => Ok(None),
            Err(CaptureFailure::Other(error)) => Err(error),
        },
{
    match result {
        Ok(packet) => Ok(Some(packet)),
        Err(CaptureFailure::TimeoutExpired) => Ok(None),
        Err(CaptureFailure::Other(error)) => Err(error),
    }
}

/// Nanoseconds in a second.
pub const NANOS_PER_SEC: u64 = 1_000_000_000;

/// Nanoseconds in a microsecond.
pub const NANOS_PER_MICRO: u64 = 1_000;

/// The time `tv_sec` seconds and `tv_usec` microseconds after the Unix epoch,
/// in nanoseconds: none for a time before the epoch, or one that does not
/// fit in 64 bits.
pub open spec fn epoch_nanos(tv_sec: i64, tv_usec: i64) -> Option<u64> {
    if tv_sec >= 0 && tv_usec >= 0 && tv_sec * NANOS_PER_SEC + tv_usec * NANOS_PER_MICRO
        <= u64::MAX {
        Some((tv_sec * NANOS_PER_SEC + tv_usec * NANOS_PER_MICRO) as u64)
    } else {
        None
    }
}

/// The capture time of a frame in nanoseconds since the Unix epoch, from the
/// seconds and microseconds that the capture reports.
pub fn to_epoch_nanos(tv_sec: i64, tv_usec: i64) -> (r: Option<u64>)
    ensures
        r == epoch_nanos(tv_sec, tv_usec),
{
    if tv_sec < 0 || tv_usec < 0 {
        return None;
    }
    let secs = match (tv_sec as u64).checked_mul(NANOS_PER_SEC) {
        Some(nanos) => nanos,
        None => return None,
    };
    let micros = match (tv_usec as u64).checked_mul(NANOS_PER_MICRO) {
        Some(nanos) => nanos,
        None => return None,
    };
    secs.checked_add(micros)
}

} // verus!
