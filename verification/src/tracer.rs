//! The trace controller's record of the traced process and the lifecycle it
//! moves through.

use vstd::prelude::*;

verus! {

/// Lifecycle state of the traced process.
#[derive(Clone, Copy, Debug, PartialEq, Eq, Structural)]
pub enum Lifecycle {
    /// No process has been created yet.
    Unattached,
    /// The process was forked and attached and has not stopped yet.
    Attached,
    /// The process is stopped under the controller.
    Stopped,
    /// The process runs on behalf of one requested action.
    Running,
    /// The process is gone. No state follows this one.
    Terminated,
}

impl Lifecycle {
    /// The moves of the lifecycle: attach once, stop, run and stop again
    /// any number of times, terminate from anywhere but the end.
    pub open spec fn may_become(self, next: Lifecycle) -> bool {
        match self {
            Lifecycle::Unattached => next is Attached || next is Terminated,
            Lifecycle::Attached => next is Stopped || next is Terminated,
            Lifecycle::Stopped => next is Running || next is Terminated,
            Lifecycle::Running => next is Stopped || next is Terminated,
            Lifecycle::Terminated => false,
        }
    }

    /// Whether a process exists in this state.
    pub open spec fn alive(self) -> bool {
        self is Attached || self is Stopped || self is Running
    }

    /// Whether a process exists in this state.
    pub fn is_alive(self) -> (alive: bool)
        ensures
            alive == self.alive(),
    {
        match self {
            Lifecycle::Attached | Lifecycle::Stopped | Lifecycle::Running => true,
            _ => false,
        }
    }
}

/// The forked and traced subordinate process as the controller knows it.
#[derive(Clone, Copy, Debug, PartialEq, Eq, Structural)]
pub struct TracedProcess {
    /// Process identifier; 0 while unattached.
    pub pid: i32,
    /// Current lifecycle state.
    pub state: Lifecycle,
    /// Instruction pointer at the last stop that reported one.
    pub last_ip: u64,
}

impl TracedProcess {
    /// The record before any process exists.
    pub open spec fn initial() -> TracedProcess {
        TracedProcess { pid: 0, state: Lifecycle::Unattached, last_ip: 0 }
    }

    /// The record with another lifecycle state.
    pub open spec fn in_state(self, state: Lifecycle) -> TracedProcess {
        TracedProcess { state, ..self }
    }

    /// The record after a stop at `ip`.
    pub open spec fn stopped_at(self, ip: u64) -> TracedProcess {
        TracedProcess { state: Lifecycle::Stopped, last_ip: ip, ..self }
    }

    /// The record before any process exists.
    pub fn new() -> (process: TracedProcess)
        ensures
            process == TracedProcess::initial(),
    {
        TracedProcess { pid: 0, state: Lifecycle::Unattached, last_ip: 0 }
    }

    /// Records the process that was forked and attached.
    pub fn attach(&mut self, pid: i32)
        requires
            old(self).state is Unattached,
        ensures
            *final(self) == (TracedProcess { pid, state: Lifecycle::Attached, ..*old(self) }),
            old(self).state.may_become(final(self).state),
    {
        self.pid = pid;
        self.state = Lifecycle::Attached;
    }

    /// Records that the process runs for one requested action.
    pub fn resume(&mut self)
        requires
            old(self).state is Stopped,
        ensures
            *final(self) == old(self).in_state(Lifecycle::Running),
            old(self).state.may_become(final(self).state),
    {
        self.state = Lifecycle::Running;
    }

    /// Records that the process stopped, its instruction pointer unknown.
    pub fn stop(&mut self)
        requires
            old(self).state is Attached || old(self).state is Running,
        ensures
            *final(self) == old(self).in_state(Lifecycle::Stopped),
            old(self).state.may_become(final(self).state),
    {
        self.state = Lifecycle::Stopped;
    }

    /// Records that the process stopped at `ip`.
    pub fn stop_at(&mut self, ip: u64)
        requires
            old(self).state is Attached || old(self).state is Running,
        ensures
            *final(self) == old(self).stopped_at(ip),
            old(self).state.may_become(final(self).state),
    {
        self.state = Lifecycle::Stopped;
        self.last_ip = ip;
    }

    /// Records the instruction pointer of a process that runs on.
    pub fn observe(&mut self, ip: u64)
        ensures
            *final(self) == (TracedProcess { last_ip: ip, ..*old(self) }),
    {
        self.last_ip = ip;
    }

    /// Records that the process is gone. Terminating twice changes nothing.
    pub fn terminate(&mut self)
        ensures
            *final(self) == old(self).in_state(Lifecycle::Terminated),
            old(self).state is Terminated || old(self).state.may_become(final(self).state),
    {
        self.state = Lifecycle::Terminated;
    }
}

} // verus!
