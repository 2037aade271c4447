//! What holds of every engine, stated over its mathematical state.

use crate::execute::ExecuteError;
use crate::ptrace_execute::{index_of, Action, EngineError, EngineState, Pending, Reply};
use crate::section::{lemma_push_consistent, lemma_remove_consistent};
use crate::stepper::{lemma_failure_phase, lemma_success, Progress, StepBudget, StepEvent};
use crate::tracer::Lifecycle;
use vstd::prelude::*;

verus! {

/// An operation or a report that changes the state of an engine.
pub enum Operation {
    /// `create_section_rwx` or `create_isolated_section_rwx`.
    CreateSection { length: u32, isolated: bool },
    /// `spawned`.
    Spawned { pid: i32 },
    /// `mapped`.
    Mapped { base: u64 },
    /// `dispose_section_checked`.
    DisposeSection { base: u64, length: u32 },
    /// `execute_with_steps`.
    Execute { address: u64, budget: StepBudget },
    /// `stepped`.
    Stepped { event: StepEvent },
    /// `dispose_execution`.
    DisposeExecution,
}

/// State after one operation.
pub open spec fn apply(state: EngineState, operation: Operation) -> EngineState {
    match operation {
        Operation::CreateSection { length, isolated } => state.request_section(
            length,
            isolated,
        ).0,
        Operation::Spawned { pid } => state.spawned(pid).0,
        Operation::Mapped { base } => state.mapped(base).0,
        Operation::DisposeSection { base, length } => state.release(base, length).0,
        Operation::Execute { address, budget } => state.begin(address, budget).0,
        Operation::Stepped { event } => state.stepped(event).0,
        Operation::DisposeExecution => state.disposed().0,
    }
}

/// State of a fresh engine after a sequence of operations.
pub open spec fn after(operations: Seq<Operation>) -> EngineState
    decreases operations.len(),
{
    if operations.len() == 0 {
        EngineState::initial()
    } else {
        apply(after(operations.drop_last()), operations.last())
    }
}

/// Every operation keeps the invariant.
pub proof fn lemma_apply_keeps_invariant(state: EngineState, operation: Operation)
    requires
        state.wf(),
    ensures
        apply(state, operation).wf(),
{
    match operation {
        Operation::Mapped { base } => {
            if state.mapped(base).1 is Ok {
                lemma_push_consistent(state.sections, state.candidate(base));
            }
        },
        Operation::DisposeSection { base, length } => {
            if state.release(base, length).1 is Ok {
                lemma_remove_consistent(state.sections, index_of(state.sections, base, length));
            }
        },
        _ => {},
    }
}

/// The invariant holds in every state that an engine can reach.
pub proof fn lemma_reachable_invariant(operations: Seq<Operation>)
    ensures
        after(operations).wf(),
    decreases operations.len(),
{
    if operations.len() > 0 {
        lemma_reachable_invariant(operations.drop_last());
        lemma_apply_keeps_invariant(after(operations.drop_last()), operations.last());
    }
}

/// Whenever nothing is in flight, a process that exists is stopped.
pub proof fn lemma_stopped_between_operations(operations: Seq<Operation>)
    ensures
        ({
            let state = after(operations);
            state.pending is Idle && state.process.state.alive() ==> state.process.state is Stopped
        }),
{
    lemma_reachable_invariant(operations);
}

/// Every operation leaves the lifecycle where it is or makes one of its
/// moves.
pub proof fn lemma_lifecycle_moves(state: EngineState, operation: Operation)
    requires
        state.wf(),
    ensures
        ({
            let before = state.process.state;
            let then = apply(state, operation).process.state;
            then == before || before.may_become(then)
        }),
{
}

/// A terminated engine stays as it is under every operation.
pub proof fn lemma_terminated_is_final(state: EngineState, operation: Operation)
    requires
        state.wf(),
        state.process.state is Terminated,
    ensures
        apply(state, operation) == state,
{
}

/// No operation changes a section: what is live afterwards was live
/// before, with the same base, length and isolation, or has just been
/// created.
pub proof fn lemma_sections_are_fixed(state: EngineState, operation: Operation, i: int)
    requires
        state.wf(),
        0 <= i < apply(state, operation).sections.len(),
    ensures
        ({
            let section = apply(state, operation).sections[i];
            ||| state.sections.contains(section)
            ||| operation matches Operation::Mapped { base } && section == state.candidate(base)
        }),
{
    let then = apply(state, operation);
    match operation {
        Operation::Mapped { base } => {
            if state.mapped(base).1 is Ok && i < state.sections.len() {
                assert(then.sections[i] == state.sections[i]);
            }
        },
        Operation::DisposeSection { base, length } => {
            if state.release(base, length).1 is Ok {
                let gone = index_of(state.sections, base, length);
                let from = if i < gone { i } else { i + 1 };
                assert(then.sections[i] == state.sections[from]);
            } else {
                assert(then.sections[i] == state.sections[i]);
            }
        },
        Operation::CreateSection { .. } | Operation::Spawned { .. } | Operation::Execute { .. } => {
            assert(then.sections[i] == state.sections[i]);
        },
        Operation::Stepped { .. } | Operation::DisposeExecution => {
            if then.sections.len() > 0 {
                assert(then.sections[i] == state.sections[i]);
            }
        },
    }
}

/// A section that has been created has the length that was asked for, which
/// is positive, an address that differs from the address of every section
/// live before it, and no byte in common with any of them. If it is
/// isolated, it does not even lie back to back with one of them.
pub proof fn lemma_created_section_is_fresh(state: EngineState, base: u64, i: int)
    requires
        state.wf(),
        state.mapped(base).1 is Ok,
        0 <= i < state.sections.len(),
    ensures
        state.mapped(base).1 == Ok::<u64, EngineError>(base),
        state.mapped(base).0.sections == state.sections.push(state.candidate(base)),
        state.candidate(base).length > 0,
        state.sections[i].base != base,
        !state.sections[i].overlaps(state.candidate(base)),
        forall|address: int|
            !(state.sections[i].holds(address) && state.candidate(base).holds(address)),
        state.candidate(base).isolated ==> !state.sections[i].touches(state.candidate(base)),
{
    assert(state.sections[i].compatible(state.candidate(base)));
    assert(state.sections[i].wf());
}

/// Two live sections never share a byte of the address space, and an
/// isolated section has no section right before it or right behind it.
pub proof fn lemma_sections_share_no_byte(state: EngineState, i: int, j: int)
    requires
        state.wf(),
        0 <= i < state.sections.len(),
        0 <= j < state.sections.len(),
        i != j,
    ensures
        state.sections[i].base != state.sections[j].base,
        forall|address: int|
            !(state.sections[i].holds(address) && state.sections[j].holds(address)),
        state.sections[i].isolated || state.sections[j].isolated ==> !state.sections[i].touches(
            state.sections[j],
        ),
{
    assert(state.sections[i].compatible(state.sections[j]));
    assert(state.sections[i].wf());
    assert(state.sections[j].wf());
}

/// After disposal of the execution the engine is terminated, no section is
/// live, and whatever is asked of it with whatever address is turned down:
/// every request with `Terminated`, every report with `Unexpected`. The
/// unchecked operations cannot be called, since their conditions fail.
/// Disposing once more changes nothing.
pub proof fn lemma_disposed_rejects(
    state: EngineState,
    address: u64,
    count: u64,
    room: nat,
    length: u32,
    isolated: bool,
    budget: StepBudget,
    pid: i32,
    event: StepEvent,
)
    requires
        state.wf(),
    ensures
        ({
            let gone = state.disposed().0;
            &&& gone.wf()
            &&& gone.process.state is Terminated
            &&& gone.sections.len() == 0
            &&& gone.pending is Idle
            &&& gone.request_section(length, isolated) == (
                gone,
                Err::<Action, EngineError>(EngineError::Terminated),
            )
            &&& gone.write(address, count) == Err::<Action, EngineError>(EngineError::Terminated)
            &&& gone.read(address, room, length) == Err::<Action, EngineError>(
                EngineError::Terminated,
            )
            &&& gone.release(address, length) == (
                gone,
                Err::<Action, EngineError>(EngineError::Terminated),
            )
            &&& !gone.can_release(address, length)
            &&& gone.begin(address, budget) == (
                gone,
                Err::<Action, EngineError>(EngineError::Terminated),
            )
            &&& gone.spawned(pid) == (gone, Err::<Action, EngineError>(EngineError::Unexpected))
            &&& gone.mapped(address) == (gone, Err::<u64, EngineError>(EngineError::Unexpected))
            &&& gone.stepped(event) == (gone, Err::<Reply, EngineError>(EngineError::Unexpected))
            &&& gone.disposed() == (gone, None::<Action>)
        }),
{
}

/// Disposal terminates the process from every state, and asks for the kill
/// exactly if a process exists.
pub proof fn lemma_disposal_terminates(state: EngineState)
    requires
        state.wf(),
    ensures
        state.disposed().0.process.state is Terminated,
        state.disposed().1 == (if state.process.state.alive() {
            Some(Action::Kill { pid: state.process.pid })
        } else {
            None
        }),
{
}

/// A read is accepted wherever a write of as many bytes is, given room for
/// them, and then names the range that the write named: the same address
/// and the same count.
pub proof fn lemma_read_names_written_range(
    state: EngineState,
    address: u64,
    length: u32,
    room: nat,
)
    requires
        state.wf(),
        length <= room,
    ensures
        state.write(address, length as u64) is Ok <==> state.read(address, room, length) is Ok,
        state.write(address, length as u64) is Ok ==> state.write(address, length as u64) == Ok::<
            Action,
            EngineError,
        >(Action::Write { address, count: length as u64 }) && state.read(address, room, length)
            == Ok::<Action, EngineError>(Action::Read { address, count: length as u64 }),
{
}

/// Outcome of a stepped execution that is under way when the reports in
/// `events` arrive in order: `None` while it has not ended.
pub open spec fn drive(state: EngineState, events: Seq<StepEvent>) -> (
    EngineState,
    Option<Result<u64, ExecuteError>>,
)
    decreases events.len(),
{
    if events.len() == 0 {
        (state, None)
    } else {
        match state.stepped(events[0]) {
            (then, Ok(Reply::Step)) => drive(then, events.drop_first()),
            (then, Ok(Reply::Finished(outcome))) => (then, Some(outcome)),
            (then, Err(_)) => (then, None),
        }
    }
}

/// The engine reports what the executor decides: driven by a sequence of
/// step reports, an execution under way ends as the executor's run over
/// that sequence ends, or is still under way where the run is.
pub proof fn lemma_drive_follows_run(state: EngineState, events: Seq<StepEvent>)
    requires
        state.wf(),
        state.pending is Executing,
    ensures
        ({
            let run = state.pending->Executing_0;
            match run.run(events) {
                Progress::Finished(outcome) => drive(state, events).1 == Some(outcome) && drive(
                    state,
                    events,
                ).0.pending is Idle,
                Progress::Continue(then) => drive(state, events).1 is None && drive(
                    state,
                    events,
                ).0.pending == Pending::Executing(then),
            }
        }),
    decreases events.len(),
{
    if events.len() > 0 {
        let run = state.pending->Executing_0;
        match run.next(events[0]) {
            Progress::Continue(then) => {
                let next = state.stepped(events[0]).0;
                lemma_apply_keeps_invariant(state, Operation::Stepped { event: events[0] });
                lemma_drive_follows_run(next, events.drop_first());
            },
            Progress::Finished(_) => {},
        }
    }
}

/// A step that fails always ends the execution, with the failure of the
/// phase that the step belongs to, and the engine stays in service: the
/// process is stopped, or terminated if it is gone, and nothing is in
/// flight.
pub proof fn lemma_failed_step_is_an_outcome(state: EngineState, event: StepEvent)
    requires
        state.wf(),
        state.pending is Executing,
        !(event is Completed),
    ensures
        ({
            let run = state.pending->Executing_0;
            let end = state.stepped(event);
            &&& end.1 == Ok::<Reply, EngineError>(
                Reply::Finished(Err(run.budget.phase_at(run.completed as int))),
            )
            &&& end.0.wf()
            &&& end.0.pending is Idle
            &&& end.0.process.state == (if event is Exited {
                Lifecycle::Terminated
            } else {
                Lifecycle::Stopped
            })
        }),
{
}

/// Phase attribution. An execution that was started with `budget`, whose
/// steps before index `k` complete and whose step with index `k` does not,
/// ends with the failure `Before` if `k < steps_before`, `Instruction` if
/// `k == steps_before` and `After` if `k > steps_before`, whatever the
/// step counts are otherwise.
pub proof fn lemma_failure_is_attributed(
    state: EngineState,
    address: u64,
    budget: StepBudget,
    events: Seq<StepEvent>,
    k: int,
)
    requires
        state.wf(),
        state.begin(address, budget).1 is Ok,
        0 <= k < events.len(),
        k < budget.total(),
        forall|i: int| 0 <= i < k ==> events[i] is Completed,
        !(events[k] is Completed),
    ensures
        drive(state.begin(address, budget).0, events).1 == Some(
            Err::<u64, ExecuteError>(budget.phase_at(k)),
        ),
        k < budget.steps_before ==> budget.phase_at(k) == ExecuteError::Before,
        k == budget.steps_before ==> budget.phase_at(k) == ExecuteError::Instruction,
        k > budget.steps_before ==> budget.phase_at(k) == ExecuteError::After,
{
    let started = state.begin(address, budget).0;
    lemma_apply_keeps_invariant(state, Operation::Execute { address, budget });
    lemma_failure_phase(budget, events, k);
    lemma_drive_follows_run(started, events);
}

/// Full completion. An execution whose `1 + steps_before + steps_after`
/// steps all complete succeeds with the instruction pointer of the last
/// stop, and leaves the process stopped there with nothing in flight.
pub proof fn lemma_completion_returns_final_pointer(
    state: EngineState,
    address: u64,
    budget: StepBudget,
    events: Seq<StepEvent>,
)
    requires
        state.wf(),
        state.begin(address, budget).1 is Ok,
        events.len() == budget.total(),
        forall|i: int| 0 <= i < events.len() ==> events[i] is Completed,
    ensures
        ({
            let end = drive(state.begin(address, budget).0, events);
            let ip = events[events.len() - 1]->Completed_ip;
            &&& end.1 == Some(Ok::<u64, ExecuteError>(ip))
            &&& end.0.pending is Idle
            &&& end.0.process.state is Stopped
            &&& end.0.process.last_ip == ip
            &&& end.0.sections == state.sections
        }),
{
    let started = state.begin(address, budget).0;
    lemma_apply_keeps_invariant(state, Operation::Execute { address, budget });
    lemma_success(budget, events);
    lemma_drive_follows_run(started, events);
    lemma_drive_ends_stopped(started, events);
}

/// An execution without steps before or after the target is one step: if
/// it completes, the outcome is the instruction pointer right behind the
/// one instruction that ran.
pub proof fn lemma_lone_instruction(state: EngineState, address: u64, ip: u64)
    requires
        state.wf(),
        state.begin(address, StepBudget { steps_before: 0, steps_after: 0 }).1 is Ok,
    ensures
        ({
            let started = state.begin(address, StepBudget { steps_before: 0, steps_after: 0 }).0;
            let end = started.stepped(StepEvent::Completed { ip });
            &&& end.1 == Ok::<Reply, EngineError>(Reply::Finished(Ok(ip)))
            &&& end.0.process.state is Stopped
            &&& end.0.process.last_ip == ip
        }),
{
}

proof fn lemma_drive_ends_stopped(state: EngineState, events: Seq<StepEvent>)
    requires
        state.wf(),
        state.pending matches Pending::Executing(run) && run.completed + events.len()
            == run.budget.total(),
        forall|i: int| 0 <= i < events.len() ==> events[i] is Completed,
    ensures
        ({
            let end = drive(state, events).0;
            &&& end.process.state is Stopped
            &&& end.process.last_ip == events[events.len() - 1]->Completed_ip
            &&& end.sections == state.sections
        }),
    decreases events.len(),
{
    let run = state.pending->Executing_0;
    assert(events.len() > 0);
    match run.next(events[0]) {
        Progress::Continue(then) => {
            let next = state.stepped(events[0]).0;
            lemma_apply_keeps_invariant(state, Operation::Stepped { event: events[0] });
            let rest = events.drop_first();
            assert forall|i: int| 0 <= i < rest.len() implies rest[i] is Completed by {
                assert(rest[i] == events[i + 1]);
            }
            assert(rest[rest.len() - 1] == events[events.len() - 1]);
            lemma_drive_ends_stopped(next, rest);
        },
        Progress::Finished(_) => {
            assert(events.len() == 1);
        },
    }
}

} // verus!
