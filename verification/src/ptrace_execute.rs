//! The engine: one traced process, its live sections and the operation in
//! flight.
//!
//! The engine decides and keeps the books; a driver acts. Each operation
//! answers with the [`Action`] the driver is to perform on the traced
//! process, and where the action has a result the driver reports it with
//! [`PtraceExecute::spawned`], [`PtraceExecute::mapped`] or
//! [`PtraceExecute::stepped`]. Between an action and its report the engine
//! accepts nothing but that report and disposal.

use crate::execute::ExecuteError;
use crate::section::{
    admissible, consistent, is_covered, is_live, MemorySection, SectionTable,
};
use crate::stepper::{Execution, Progress, StepBudget, StepEvent};
use crate::tracer::{Lifecycle, TracedProcess};
use vstd::prelude::*;

verus! {

/// Why the engine turned an operation or a report down.
#[derive(Clone, Copy, Debug, PartialEq, Eq, Structural)]
pub enum EngineError {
    /// The traced process is terminated; the engine has to be rebuilt.
    Terminated,
    /// An action is in flight and its report is awaited.
    Busy,
    /// A section of zero bytes was asked for.
    ZeroLength,
    /// The process could not be created, or the region could not be mapped
    /// or collides with a live section. The engine is terminated.
    AllocationFailed,
    /// The access does not lie within one live section.
    OutOfBounds,
    /// The buffer is shorter than the number of bytes to read.
    BufferTooSmall,
    /// No live section has this base and length.
    UnknownSection,
    /// The report answers no action that is in flight.
    Unexpected,
}

/// What the driver is to do on the traced process.
#[derive(Clone, Copy, Debug, PartialEq, Eq, Structural)]
pub enum Action {
    /// Fork the process and attach to it; report with `spawned`.
    Spawn,
    /// Map a readable, writable and executable region; report with `mapped`.
    MapSection { length: u32, isolated: bool },
    /// Unmap the region, with what keeps it apart if it is isolated.
    UnmapSection { base: u64, length: u32, isolated: bool },
    /// Copy `count` bytes from the caller's source to `address`.
    Write { address: u64, count: u64 },
    /// Copy `count` bytes from `address` to the caller's buffer.
    Read { address: u64, count: u64 },
    /// Set the instruction pointer to `address` and single-step once;
    /// report with `stepped`.
    Enter { address: u64 },
    /// Single-step once; report with `stepped`.
    Step,
    /// Kill the process with this identifier.
    Kill { pid: i32 },
}

/// The operation whose report the engine awaits.
#[derive(Clone, Copy, Debug, PartialEq, Eq, Structural)]
pub enum Pending {
    /// Nothing is in flight.
    Idle,
    /// A section is being created.
    Allocating { length: u32, isolated: bool },
    /// A stepped execution is under way.
    Executing(Execution),
}

/// Answer to the report of one single step.
#[derive(Clone, Copy, Debug, PartialEq, Eq)]
pub enum Reply {
    /// Perform `Action::Step` and report again.
    Step,
    /// The execution is over with this outcome.
    Finished(Result<u64, ExecuteError>),
}

/// Mathematical state of an engine.
pub struct EngineState {
    pub process: TracedProcess,
    pub sections: Seq<MemorySection>,
    pub pending: Pending,
}

/// Index of the section of `sections` with this base and length.
pub open spec fn index_of(sections: Seq<MemorySection>, base: u64, length: u32) -> int {
    choose|i: int|
        0 <= i < sections.len() && (#[trigger] sections[i]).base == base && sections[i].length
            == length
}

impl EngineState {
    /// The invariant of an engine: its sections are consistent, exist only
    /// while the process is stopped or running, and the lifecycle state
    /// fits what is in flight.
    pub open spec fn wf(self) -> bool {
        &&& consistent(self.sections)
        &&& (self.process.state is Stopped || self.process.state is Running
            || self.sections.len() == 0)
        &&& match self.pending {
            Pending::Idle => self.process.state is Unattached || self.process.state is Stopped
                || self.process.state is Terminated,
            Pending::Allocating { length, .. } => length > 0 && (self.process.state is Unattached
                || self.process.state is Attached || self.process.state is Running),
            Pending::Executing(run) => run.wf() && self.process.state is Running,
        }
    }

    /// State of a fresh engine.
    pub open spec fn initial() -> EngineState {
        EngineState {
            process: TracedProcess::initial(),
            sections: Seq::empty(),
            pending: Pending::Idle,
        }
    }

    /// This state with the process terminated: no section, nothing in flight.
    pub open spec fn terminated(self) -> EngineState {
        EngineState {
            process: self.process.in_state(Lifecycle::Terminated),
            sections: Seq::empty(),
            pending: Pending::Idle,
        }
    }

    /// Request for a section.
    pub open spec fn request_section(self, length: u32, isolated: bool) -> (
        EngineState,
        Result<Action, EngineError>,
    ) {
        if self.process.state is Terminated {
            (self, Err(EngineError::Terminated))
        } else if !(self.pending is Idle) {
            (self, Err(EngineError::Busy))
        } else if length == 0 {
            (self, Err(EngineError::ZeroLength))
        } else if self.process.state is Unattached {
            (
                EngineState { pending: Pending::Allocating { length, isolated }, ..self },
                Ok(Action::Spawn),
            )
        } else {
            (
                EngineState {
                    process: self.process.in_state(Lifecycle::Running),
                    pending: Pending::Allocating { length, isolated },
                    ..self
                },
                Ok(Action::MapSection { length, isolated }),
            )
        }
    }

    /// Whether the report of `Action::Spawn` is awaited.
    pub open spec fn awaits_spawn(self) -> bool {
        self.pending is Allocating && self.process.state is Unattached
    }

    /// Whether the report of `Action::MapSection` is awaited.
    pub open spec fn awaits_map(self) -> bool {
        self.pending is Allocating && (self.process.state is Attached
            || self.process.state is Running)
    }

    /// Report of `Action::Spawn`: the identifier of the new process, or a
    /// value that is not positive if there is none.
    pub open spec fn spawned(self, pid: i32) -> (EngineState, Result<Action, EngineError>) {
        if !self.awaits_spawn() {
            (self, Err(EngineError::Unexpected))
        } else if pid <= 0 {
            (self.terminated(), Err(EngineError::AllocationFailed))
        } else {
            (
                EngineState {
                    process: TracedProcess { pid, state: Lifecycle::Attached, ..self.process },
                    ..self
                },
                Ok(
                    Action::MapSection {
                        length: self.pending->Allocating_length,
                        isolated: self.pending->Allocating_isolated,
                    },
                ),
            )
        }
    }

    /// The section that the allocation in flight creates at `base`.
    pub open spec fn candidate(self, base: u64) -> MemorySection {
        MemorySection {
            base,
            length: self.pending->Allocating_length,
            isolated: self.pending->Allocating_isolated,
        }
    }

    /// Report of `Action::MapSection`: the address at which the region was mapped.
    /// An address that makes no section the table admits is a failure.
    pub open spec fn mapped(self, base: u64) -> (EngineState, Result<u64, EngineError>) {
        if !self.awaits_map() {
            (self, Err(EngineError::Unexpected))
        } else if !admissible(self.sections, self.candidate(base)) {
            (self.terminated(), Err(EngineError::AllocationFailed))
        } else {
            (
                EngineState {
                    process: self.process.in_state(Lifecycle::Stopped),
                    sections: self.sections.push(self.candidate(base)),
                    pending: Pending::Idle,
                },
                Ok(base),
            )
        }
    }

    /// Verdict on an access of `length` bytes at `address`.
    pub open spec fn access(self, address: u64, length: u64) -> Result<(), EngineError> {
        if self.process.state is Terminated {
            Err(EngineError::Terminated)
        } else if !(self.pending is Idle) {
            Err(EngineError::Busy)
        } else if !is_covered(self.sections, address, length) {
            Err(EngineError::OutOfBounds)
        } else {
            Ok(())
        }
    }

    /// Verdict on a write of `length` bytes to `address`.
    pub open spec fn write(self, address: u64, length: u64) -> Result<Action, EngineError> {
        match self.access(address, length) {
            Ok(_) => Ok(Action::Write { address, count: length }),
            Err(e) => Err(e),
        }
    }

    /// Verdict on a read of `length` bytes at `address` into a buffer of
    /// `room` bytes.
    pub open spec fn read(self, address: u64, room: nat, length: u32) -> Result<
        Action,
        EngineError,
    > {
        if self.process.state is Terminated {
            Err(EngineError::Terminated)
        } else if !(self.pending is Idle) {
            Err(EngineError::Busy)
        } else if length > room {
            Err(EngineError::BufferTooSmall)
        } else if !is_covered(self.sections, address, length as u64) {
            Err(EngineError::OutOfBounds)
        } else {
            Ok(Action::Read { address, count: length as u64 })
        }
    }

    /// Whether the section with this base and length can be disposed of.
    pub open spec fn can_release(self, base: u64, length: u32) -> bool {
        self.pending is Idle && is_live(self.sections, base, length)
    }

    /// This state without the section with this base and length.
    pub open spec fn released(self, base: u64, length: u32) -> EngineState {
        EngineState {
            sections: self.sections.remove(index_of(self.sections, base, length)),
            ..self
        }
    }

    /// The unmapping that is due for the section with this base and length.
    pub open spec fn unmapping(self, base: u64, length: u32) -> Action {
        Action::UnmapSection {
            base,
            length,
            isolated: self.sections[index_of(self.sections, base, length)].isolated,
        }
    }

    /// Disposal of one section, checked.
    pub open spec fn release(self, base: u64, length: u32) -> (
        EngineState,
        Result<Action, EngineError>,
    ) {
        if self.process.state is Terminated {
            (self, Err(EngineError::Terminated))
        } else if !(self.pending is Idle) {
            (self, Err(EngineError::Busy))
        } else if !is_live(self.sections, base, length) {
            (self, Err(EngineError::UnknownSection))
        } else {
            (self.released(base, length), Ok(self.unmapping(base, length)))
        }
    }

    /// Start of a stepped execution at `address`.
    pub open spec fn begin(self, address: u64, budget: StepBudget) -> (
        EngineState,
        Result<Action, EngineError>,
    ) {
        match self.access(address, 1) {
            Err(e) => (self, Err(e)),
            Ok(_) => (
                EngineState {
                    process: self.process.in_state(Lifecycle::Running),
                    pending: Pending::Executing(Execution { budget, completed: 0 }),
                    ..self
                },
                Ok(Action::Enter { address }),
            ),
        }
    }

    /// Report of one single step.
    pub open spec fn stepped(self, event: StepEvent) -> (EngineState, Result<Reply, EngineError>) {
        match self.pending {
            Pending::Executing(run) => match run.next(event) {
                Progress::Continue(then) => (
                    EngineState {
                        process: TracedProcess { last_ip: event->Completed_ip, ..self.process },
                        pending: Pending::Executing(then),
                        ..self
                    },
                    Ok(Reply::Step),
                ),
                Progress::Finished(outcome) => (
                    match event {
                        StepEvent::Completed { ip } => EngineState {
                            process: self.process.stopped_at(ip),
                            pending: Pending::Idle,
                            ..self
                        },
                        StepEvent::Trapped { ip } => EngineState {
                            process: self.process.stopped_at(ip),
                            pending: Pending::Idle,
                            ..self
                        },
                        StepEvent::Exited => self.terminated(),
                    },
                    Ok(Reply::Finished(outcome)),
                ),
            },
            _ => (self, Err(EngineError::Unexpected)),
        }
    }

    /// Disposal of the execution: the process is terminated whatever was
    /// in flight, and is to be killed if there is one.
    pub open spec fn disposed(self) -> (EngineState, Option<Action>) {
        if self.process.state is Terminated {
            (self, None)
        } else if self.process.state is Unattached {
            (self.terminated(), None)
        } else {
            (self.terminated(), Some(Action::Kill { pid: self.process.pid }))
        }
    }
}

/// An isolated instruction-execution engine over one traced process.
///
/// An engine owns at most one traced process, and no process or section is
/// shared between engines. Every operation that changes the engine borrows
/// it exclusively, so operations on one engine are strictly sequential.
pub struct PtraceExecute {
    process: TracedProcess,
    sections: SectionTable,
    pending: Pending,
}

impl View for PtraceExecute {
    type V = EngineState;

    closed spec fn view(&self) -> EngineState {
        EngineState { process: self.process, sections: self.sections@, pending: self.pending }
    }
}

impl PtraceExecute {
    /// The invariant that every operation keeps.
    pub open spec fn wf(&self) -> bool {
        self@.wf()
    }

    /// An engine without a traced process.
    pub fn new() -> (engine: PtraceExecute)
        ensures
            engine@ == EngineState::initial(),
            engine.wf(),
    {
        PtraceExecute {
            process: TracedProcess::new(),
            sections: SectionTable::new(),
            pending: Pending::Idle,
        }
    }

    /// The record of the traced process.
    pub fn process(&self) -> (process: TracedProcess)
        ensures
            process == self@.process,
    {
        self.process
    }

    /// The operation in flight.
    pub fn pending(&self) -> (pending: Pending)
        ensures
            pending == self@.pending,
    {
        self.pending
    }

    /// Number of live sections.
    pub fn section_count(&self) -> (count: usize)
        ensures
            count == self@.sections.len(),
    {
        self.sections.len()
    }

    /// The live section with the given index, in order of creation.
    pub fn section(&self, index: usize) -> (section: Option<MemorySection>)
        ensures
            section == (if index < self@.sections.len() {
                Some(self@.sections[index as int])
            } else {
                None
            }),
    {
        if index < self.sections.len() {
            Some(self.sections.get(index))
        } else {
            None
        }
    }

    fn terminate(&mut self)
        ensures
            final(self)@ == old(self)@.terminated(),
    {
        self.process.terminate();
        self.sections.clear();
        self.pending = Pending::Idle;
    }

    fn request_section(&mut self, length: u32, isolated: bool) -> (answer: Result<
        Action,
        EngineError,
    >)
        requires
            old(self).wf(),
        ensures
            (final(self)@, answer) == old(self)@.request_section(length, isolated),
            final(self).wf(),
    {
        if self.process.state == Lifecycle::Terminated {
            return Err(EngineError::Terminated);
        }
        match self.pending {
            Pending::Idle => {},
            _ => {
                return Err(EngineError::Busy);
            },
        }
        if length == 0 {
            return Err(EngineError::ZeroLength);
        }
        self.pending = Pending::Allocating { length, isolated };
        if self.process.state == Lifecycle::Unattached {
            Ok(Action::Spawn)
        } else {
            self.process.resume();
            Ok(Action::MapSection { length, isolated })
        }
    }

    /// Asks for a section of `len` bytes. On `Ok` the driver performs the
    /// action, `Spawn` on first use and `MapSection` afterwards, and reports.
    pub fn create_section_rwx(&mut self, len: u32) -> (answer: Result<Action, EngineError>)
        requires
            old(self).wf(),
        ensures
            (final(self)@, answer) == old(self)@.request_section(len, false),
            final(self).wf(),
    {
        self.request_section(len, false)
    }

    /// Asks for a section of `len` bytes that is kept apart from every
    /// other section, before it and behind it.
    pub fn create_isolated_section_rwx(&mut self, len: u32) -> (answer: Result<
        Action,
        EngineError,
    >)
        requires
            old(self).wf(),
        ensures
            (final(self)@, answer) == old(self)@.request_section(len, true),
            final(self).wf(),
    {
        self.request_section(len, true)
    }

    /// Takes the report of `Action::Spawn` and answers with the mapping
    /// that is due. A `pid` that is not positive reports that no process
    /// could be created, which terminates the engine.
    pub fn spawned(&mut self, pid: i32) -> (answer: Result<Action, EngineError>)
        requires
            old(self).wf(),
        ensures
            (final(self)@, answer) == old(self)@.spawned(pid),
            final(self).wf(),
    {
        match self.pending {
            Pending::Allocating { length, isolated } => {
                if self.process.state == Lifecycle::Unattached {
                    if pid <= 0 {
                        self.terminate();
                        return Err(EngineError::AllocationFailed);
                    }
                    self.process.attach(pid);
                    return Ok(Action::MapSection { length, isolated });
                }
            },
            _ => {},
        }
        Err(EngineError::Unexpected)
    }

    /// Takes the report of `Action::MapSection`: the address of the new region.
    /// On `Ok` the section is live and its address is returned. An address
    /// at which no section can be (null, wrapping around the address
    /// space, colliding with a live section or lying back to back with one
    /// where either is isolated) terminates the engine; the driver then
    /// kills the process.
    pub fn mapped(&mut self, base: u64) -> (answer: Result<u64, EngineError>)
        requires
            old(self).wf(),
        ensures
            (final(self)@, answer) == old(self)@.mapped(base),
            final(self).wf(),
    {
        match self.pending {
            Pending::Allocating { length, isolated } => {
                if self.process.state == Lifecycle::Attached || self.process.state
                    == Lifecycle::Running {
                    let candidate = MemorySection { base, length, isolated };
                    if !self.sections.admits(&candidate) {
                        self.terminate();
                        return Err(EngineError::AllocationFailed);
                    }
                    self.sections.insert(candidate);
                    self.process.stop();
                    self.pending = Pending::Idle;
                    return Ok(base);
                }
            },
            _ => {},
        }
        Err(EngineError::Unexpected)
    }

    fn check_access(&self, address: u64, length: u64) -> (verdict: Result<(), EngineError>)
        requires
            self.wf(),
        ensures
            verdict == self@.access(address, length),
    {
        if self.process.state == Lifecycle::Terminated {
            return Err(EngineError::Terminated);
        }
        match self.pending {
            Pending::Idle => {},
            _ => {
                return Err(EngineError::Busy);
            },
        }
        match self.sections.locate(address, length) {
            Some(_) => Ok(()),
            None => Err(EngineError::OutOfBounds),
        }
    }

    /// Whether an access of `length` bytes at `address` is in order: the
    /// process is stopped with nothing in flight and one live section
    /// covers the access.
    pub fn covers(&self, address: u64, length: u64) -> (ok: bool)
        requires
            self.wf(),
        ensures
            ok == (self@.access(address, length) is Ok),
    {
        self.check_access(address, length).is_ok()
    }

    /// Plans the copy of `src` to `dst` in the traced process without
    /// looking at the bounds: that one live section covers the access is
    /// the caller's obligation.
    pub fn write_memory(&self, dst: u64, src: &[u8]) -> (action: Action)
        requires
            self.wf(),
            self@.write(dst, src@.len() as u64) is Ok,
        ensures
            action == (Action::Write { address: dst, count: src@.len() as u64 }),
    {
        Action::Write { address: dst, count: src.len() as u64 }
    }

    /// Plans the copy of `src` to `dst` in the traced process if one live
    /// section covers the access, and says why not otherwise.
    pub fn write_memory_checked(&self, dst: u64, src: &[u8]) -> (answer: Result<
        Action,
        EngineError,
    >)
        requires
            self.wf(),
        ensures
            answer == self@.write(dst, src@.len() as u64),
    {
        match self.check_access(dst, src.len() as u64) {
            Ok(_) => Ok(self.write_memory(dst, src)),
            Err(e) => Err(e),
        }
    }

    /// Plans the copy of `len` bytes at `src` in the traced process to
    /// `buf` without looking at the bounds: that one live section covers
    /// the access and that `buf` has room is the caller's obligation.
    pub fn read_child_memory(&self, src: u64, buf: &[u8], len: u32) -> (action: Action)
        requires
            self.wf(),
            self@.read(src, buf@.len(), len) is Ok,
        ensures
            action == (Action::Read { address: src, count: len as u64 }),
    {
        Action::Read { address: src, count: len as u64 }
    }

    /// Plans the copy of `len` bytes at `src` in the traced process to
    /// `buf` if `buf` has room and one live section covers the access, and
    /// says why not otherwise.
    pub fn read_child_memory_checked(&self, src: u64, buf: &[u8], len: u32) -> (answer: Result<
        Action,
        EngineError,
    >)
        requires
            self.wf(),
        ensures
            answer == self@.read(src, buf@.len(), len),
    {
        if self.process.state == Lifecycle::Terminated {
            return Err(EngineError::Terminated);
        }
        match self.pending {
            Pending::Idle => {},
            _ => {
                return Err(EngineError::Busy);
            },
        }
        if len as usize > buf.len() {
            return Err(EngineError::BufferTooSmall);
        }
        match self.check_access(src, len as u64) {
            Ok(_) => Ok(self.read_child_memory(src, buf, len)),
            Err(e) => Err(e),
        }
    }

    /// Whether a section with this base and length is live and nothing is
    /// in flight, so that it can be disposed of.
    pub fn holds_section(&self, base: u64, len: u32) -> (ok: bool)
        ensures
            ok == self@.can_release(base, len),
    {
        match self.pending {
            Pending::Idle => self.sections.position(base, len).is_some(),
            _ => false,
        }
    }

    /// Takes the section of `len` bytes at `dst` off the books. That the
    /// section is live is the caller's obligation.
    pub fn dispose_section(&mut self, dst: u64, len: u32) -> (action: Action)
        requires
            old(self).wf(),
            old(self)@.can_release(dst, len),
        ensures
            final(self)@ == old(self)@.released(dst, len),
            action == old(self)@.unmapping(dst, len),
            final(self).wf(),
    {
        let found = self.sections.position(dst, len);
        let index: usize = found.unwrap();
        proof {
            lemma_index_unique(self@.sections, dst, len, index as int);
        }
        let section = self.sections.remove(index);
        Action::UnmapSection { base: dst, length: len, isolated: section.isolated }
    }

    /// Takes the section of `len` bytes at `dst` off the books if it is
    /// live, and says why not otherwise.
    pub fn dispose_section_checked(&mut self, dst: u64, len: u32) -> (answer: Result<
        Action,
        EngineError,
    >)
        requires
            old(self).wf(),
        ensures
            (final(self)@, answer) == old(self)@.release(dst, len),
            final(self).wf(),
    {
        if self.process.state == Lifecycle::Terminated {
            return Err(EngineError::Terminated);
        }
        match self.pending {
            Pending::Idle => {},
            _ => {
                return Err(EngineError::Busy);
            },
        }
        if !self.holds_section(dst, len) {
            return Err(EngineError::UnknownSection);
        }
        Ok(self.dispose_section(dst, len))
    }

    /// Starts a stepped execution at `addr`: `steps_before` steps, the
    /// target instruction, `steps_after` steps. On `Ok` the driver enters
    /// at `addr`, single-steps once and reports with `stepped`.
    pub fn execute_with_steps(&mut self, addr: u64, steps_before: u32, steps_after: u32) -> (answer:
        Result<Action, EngineError>)
        requires
            old(self).wf(),
        ensures
            (final(self)@, answer) == old(self)@.begin(
                addr,
                StepBudget { steps_before, steps_after },
            ),
            final(self).wf(),
    {
        match self.check_access(addr, 1) {
            Err(e) => Err(e),
            Ok(_) => {
                self.process.resume();
                self.pending = Pending::Executing(
                    Execution::begin(StepBudget::new(steps_before, steps_after)),
                );
                Ok(Action::Enter { address: addr })
            },
        }
    }

    /// Takes the report of one single step of the execution under way and
    /// answers with the next step or the outcome.
    pub fn stepped(&mut self, event: StepEvent) -> (answer: Result<Reply, EngineError>)
        requires
            old(self).wf(),
        ensures
            (final(self)@, answer) == old(self)@.stepped(event),
            final(self).wf(),
    {
        match self.pending {
            Pending::Executing(run) => {
                match run.advance(event) {
                    Progress::Continue(then) => {
                        match event {
                            StepEvent::Completed { ip } => {
                                self.process.observe(ip);
                            },
                            _ => {},
                        }
                        self.pending = Pending::Executing(then);
                        Ok(Reply::Step)
                    },
                    Progress::Finished(outcome) => {
                        match event {
                            StepEvent::Completed { ip } => {
                                self.process.stop_at(ip);
                                self.pending = Pending::Idle;
                            },
                            StepEvent::Trapped { ip } => {
                                self.process.stop_at(ip);
                                self.pending = Pending::Idle;
                            },
                            StepEvent::Exited => {
                                self.terminate();
                            },
                        }
                        Ok(Reply::Finished(outcome))
                    },
                }
            },
            _ => Err(EngineError::Unexpected),
        }
    }

    /// Terminates the traced process and invalidates every section. The
    /// answer is the kill that the driver owes, if a process exists.
    /// Disposing of a terminated engine changes nothing.
    pub fn dispose_execution(&mut self) -> (action: Option<Action>)
        requires
            old(self).wf(),
        ensures
            (final(self)@, action) == old(self)@.disposed(),
            final(self).wf(),
    {
        if self.process.state == Lifecycle::Terminated {
            return None;
        }
        let alive: bool = self.process.state.is_alive();
        let pid: i32 = self.process.pid;
        self.terminate();
        if alive {
            Some(Action::Kill { pid })
        } else {
            None
        }
    }
}

/// In a consistent table a base and a length name at most one section.
pub proof fn lemma_index_unique(sections: Seq<MemorySection>, base: u64, length: u32, i: int)
    requires
        consistent(sections),
        0 <= i < sections.len(),
        sections[i].base == base,
        sections[i].length == length,
    ensures
        index_of(sections, base, length) == i,
{
    let j = index_of(sections, base, length);
    assert(0 <= j < sections.len() && sections[j].base == base && sections[j].length == length);
    if i != j {
        assert(sections[i].compatible(sections[j]));
        assert(sections[i].wf());
    }
}

} // verus!
