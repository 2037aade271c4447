//! Reading of the status that the wait for a traced process returns.

use crate::stepper::StepEvent;
use vstd::prelude::*;

verus! {

/// Whether a wait status reports a process that is stopped: its low byte
/// is `0x7f`.
pub open spec fn is_stop(status: i32) -> bool {
    (status & 0xff) == 0x7f
}

/// The signal that stopped the process of a wait status: its second byte.
pub open spec fn signal_of(status: i32) -> i32 {
    (status >> 8) & 0xff
}

/// The stop that a wait status reports: the stopping signal, or none if
/// the status reports anything but a stop.
pub open spec fn stop_of(status: i32) -> Option<i32> {
    if is_stop(status) {
        Some(signal_of(status))
    } else {
        None
    }
}

/// `libc::WIFSTOPPED`: whether the low byte of the status is `0x7f`.
#[verifier::external_body]
fn status_is_stop(status: i32) -> (stopped: bool)
    ensures
        stopped == is_stop(status),
{
    libc::WIFSTOPPED(status)
}

/// `libc::WSTOPSIG`: the second byte of the status.
#[verifier::external_body]
fn status_signal(status: i32) -> (signal: i32)
    ensures
        signal == signal_of(status),
{
    libc::WSTOPSIG(status)
}

/// The stop that a wait status reports.
pub fn stop_of_status(status: i32) -> (stop: Option<i32>)
    ensures
        stop == stop_of(status),
{
    if status_is_stop(status) {
        Some(status_signal(status))
    } else {
        None
    }
}

/// Reads the status of the wait for a single step, with the instruction
/// pointer of the stop: a stop by the trace trap is a completed step, a
/// stop by another signal a trap of the instruction, and a status that
/// reports no stop means that the process is gone.
pub fn event_of_status(status: i32, ip: u64) -> (event: StepEvent)
    ensures
        event == StepEvent::of_stop(stop_of(status), ip),
{
    StepEvent::from_stop(stop_of_status(status), ip)
}

} // verus!
