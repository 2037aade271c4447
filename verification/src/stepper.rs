//! The stepped executor: a bounded sequence of single steps around one
//! target instruction, and the phase to which a failure is attributed.
//!
//! The executor performs no step itself. It is handed the result of each
//! step and answers with what comes next, so that a driver owns the loop
//! and this module owns the counting.

use crate::execute::ExecuteError;
use vstd::prelude::*;

verus! {

/// Number of instructions to step before and after the target instruction.
#[derive(Clone, Copy, Debug, PartialEq, Eq, Structural)]
pub struct StepBudget {
    pub steps_before: u32,
    pub steps_after: u32,
}

/// What the driver observed of one requested single step.
#[derive(Clone, Copy, Debug, PartialEq, Eq, Structural)]
pub enum StepEvent {
    /// Exactly one instruction ran and the process stopped again at `ip`.
    Completed { ip: u64 },
    /// The instruction trapped; the process is stopped at `ip`, still alive.
    Trapped { ip: u64 },
    /// The process exited or was killed by a signal.
    Exited,
}

/// Signal with which a traced process stops after a single step that ran
/// its instruction: the trace trap.
pub const STEP_TRAP: i32 = 5;

/// A stepped execution in flight: its budget and the steps completed so far.
#[derive(Clone, Copy, Debug, PartialEq, Eq, Structural)]
pub struct Execution {
    pub budget: StepBudget,
    pub completed: u64,
}

/// Answer of the executor to one step event.
#[derive(Clone, Copy, Debug, PartialEq, Eq)]
pub enum Progress {
    /// Another single step is due; the execution continues in this state.
    Continue(Execution),
    /// The execution is over with this outcome.
    Finished(Result<u64, ExecuteError>),
}

impl StepBudget {
    /// Steps of a full execution: those before, the target, those after.
    pub open spec fn total(self) -> int {
        self.steps_before + 1 + self.steps_after
    }

    /// Phase of the step with the given index, counted from 0: the target
    /// instruction is the step right after the `steps_before` first ones.
    pub open spec fn phase_at(self, index: int) -> ExecuteError {
        if index < self.steps_before {
            ExecuteError::Before
        } else if index == self.steps_before {
            ExecuteError::Instruction
        } else {
            ExecuteError::After
        }
    }

    pub fn new(steps_before: u32, steps_after: u32) -> (budget: StepBudget)
        ensures
            budget == (StepBudget { steps_before, steps_after }),
    {
        StepBudget { steps_before, steps_after }
    }

    /// Steps of a full execution.
    pub fn total_steps(self) -> (total: u64)
        ensures
            total == self.total(),
    {
        let before: u64 = self.steps_before as u64;
        let after: u64 = self.steps_after as u64;
        before + 1 + after
    }

    /// Phase of the step with the given index.
    pub fn phase_of_step(self, index: u64) -> (phase: ExecuteError)
        ensures
            phase == self.phase_at(index as int),
    {
        let before: u64 = self.steps_before as u64;
        if index < before {
            ExecuteError::Before
        } else if index == before {
            ExecuteError::Instruction
        } else {
            ExecuteError::After
        }
    }
}

impl StepEvent {
    /// Reading of what the wait for a single step returned: the signal that
    /// stopped the process, or none if the process is gone, and the
    /// instruction pointer of the stop. The trace trap reports a completed
    /// step, every other signal a trap of the instruction.
    pub open spec fn of_stop(signal: Option<i32>, ip: u64) -> StepEvent {
        match signal {
            None => StepEvent::Exited,
            Some(s) => if s == STEP_TRAP {
                StepEvent::Completed { ip }
            } else {
                StepEvent::Trapped { ip }
            },
        }
    }

    /// Reads what the wait for a single step returned.
    pub fn from_stop(signal: Option<i32>, ip: u64) -> (event: StepEvent)
        ensures
            event == StepEvent::of_stop(signal, ip),
    {
        match signal {
            None => StepEvent::Exited,
            Some(s) => if s == STEP_TRAP {
                StepEvent::Completed { ip }
            } else {
                StepEvent::Trapped { ip }
            },
        }
    }

    /// Whether the step ran its instruction to completion.
    pub fn is_completed(self) -> (completed: bool)
        ensures
            completed == (self is Completed),
    {
        match self {
            StepEvent::Completed { .. } => true,
            _ => false,
        }
    }
}

impl Execution {
    /// An execution in flight has at least one step left.
    pub open spec fn wf(self) -> bool {
        self.completed < self.budget.total()
    }

    /// State and answer after one step event: a failed step ends the
    /// execution in the phase of that step, the last completed step ends
    /// it with the pointer it stopped at, any other completed step asks
    /// for the next.
    pub open spec fn next(self, event: StepEvent) -> Progress {
        match event {
            StepEvent::Completed { ip } => {
                if self.completed + 1 == self.budget.total() {
                    Progress::Finished(Ok(ip))
                } else {
                    Progress::Continue(
                        Execution { budget: self.budget, completed: (self.completed + 1) as u64 },
                    )
                }
            },
            _ => Progress::Finished(Err(self.budget.phase_at(self.completed as int))),
        }
    }

    /// Answer to a whole sequence of step events, read in order. Events
    /// past the end of the execution are not read.
    pub open spec fn run(self, events: Seq<StepEvent>) -> Progress
        decreases events.len(),
    {
        if events.len() == 0 {
            Progress::Continue(self)
        } else {
            match self.next(events[0]) {
                Progress::Continue(then) => then.run(events.drop_first()),
                Progress::Finished(outcome) => Progress::Finished(outcome),
            }
        }
    }

    /// A fresh execution: no step completed yet.
    pub fn begin(budget: StepBudget) -> (execution: Execution)
        ensures
            execution == (Execution { budget, completed: 0 }),
            execution.wf(),
    {
        Execution { budget, completed: 0 }
    }

    /// Steps still due, the one awaited included.
    pub fn remaining(self) -> (left: u64)
        requires
            self.wf(),
        ensures
            left == self.budget.total() - self.completed,
            left >= 1,
    {
        self.budget.total_steps() - self.completed
    }

    /// Phase of the step that is awaited.
    pub fn phase(self) -> (phase: ExecuteError)
        ensures
            phase == self.budget.phase_at(self.completed as int),
    {
        self.budget.phase_of_step(self.completed)
    }

    /// Takes the result of the awaited step and answers with what follows.
    pub fn advance(self, event: StepEvent) -> (progress: Progress)
        requires
            self.wf(),
        ensures
            progress == self.next(event),
            progress matches Progress::Continue(then) ==> then.wf(),
    {
        match event {
            StepEvent::Completed { ip } => {
                let done: u64 = self.completed + 1;
                if done == self.budget.total_steps() {
                    Progress::Finished(Ok(ip))
                } else {
                    Progress::Continue(Execution { budget: self.budget, completed: done })
                }
            },
            _ => Progress::Finished(Err(self.phase())),
        }
    }
}

/// While every step completes and steps are left, the execution continues,
/// having counted each of them.
pub proof fn lemma_run_continues(start: Execution, events: Seq<StepEvent>)
    requires
        start.wf(),
        start.completed + events.len() < start.budget.total(),
        forall|i: int| 0 <= i < events.len() ==> events[i] is Completed,
    ensures
        start.run(events) == Progress::Continue(
            Execution {
                budget: start.budget,
                completed: (start.completed + events.len()) as u64,
            },
        ),
    decreases events.len(),
{
    if events.len() > 0 {
        let then = Execution { budget: start.budget, completed: (start.completed + 1) as u64 };
        assert(start.next(events[0]) == Progress::Continue(then));
        let rest = events.drop_first();
        assert forall|i: int| 0 <= i < rest.len() implies rest[i] is Completed by {
            assert(rest[i] == events[i + 1]);
        }
        lemma_run_continues(then, rest);
    }
}

/// Phase attribution. If the steps before index `k` complete and the step
/// with index `k` does not, the execution fails in the phase of step `k`:
/// `Before` while `k` is among the first `steps_before` steps,
/// `Instruction` when it is the target, `After` beyond it. What follows the
/// failed step has no influence.
pub proof fn lemma_failure_phase(budget: StepBudget, events: Seq<StepEvent>, k: int)
    requires
        0 <= k < events.len(),
        k < budget.total(),
        forall|i: int| 0 <= i < k ==> events[i] is Completed,
        !(events[k] is Completed),
    ensures
        (Execution { budget, completed: 0 }).run(events) == Progress::Finished(
            Err(budget.phase_at(k)),
        ),
        k < budget.steps_before ==> budget.phase_at(k) == ExecuteError::Before,
        k == budget.steps_before ==> budget.phase_at(k) == ExecuteError::Instruction,
        k > budget.steps_before ==> budget.phase_at(k) == ExecuteError::After,
{
    lemma_failure_phase_from(Execution { budget, completed: 0 }, events, k);
}

proof fn lemma_failure_phase_from(start: Execution, events: Seq<StepEvent>, k: int)
    requires
        start.wf(),
        0 <= k < events.len(),
        start.completed + k < start.budget.total(),
        forall|i: int| 0 <= i < k ==> events[i] is Completed,
        !(events[k] is Completed),
    ensures
        start.run(events) == Progress::Finished(
            Err(start.budget.phase_at(start.completed + k)),
        ),
    decreases k,
{
    if k > 0 {
        let then = Execution { budget: start.budget, completed: (start.completed + 1) as u64 };
        assert(events[0] is Completed);
        assert(start.next(events[0]) == Progress::Continue(then));
        let rest = events.drop_first();
        assert forall|i: int| 0 <= i < k - 1 implies rest[i] is Completed by {
            assert(rest[i] == events[i + 1]);
        }
        assert(rest[k - 1] == events[k]);
        lemma_failure_phase_from(then, rest, k - 1);
    }
}

/// Full completion. If each of the `1 + steps_before + steps_after` steps
/// completes, the execution succeeds with the pointer at which the last of
/// them stopped.
pub proof fn lemma_success(budget: StepBudget, events: Seq<StepEvent>)
    requires
        events.len() >= budget.total(),
        forall|i: int| 0 <= i < budget.total() ==> events[i] is Completed,
    ensures
        (Execution { budget, completed: 0 }).run(events) == Progress::Finished(
            Ok(events[budget.total() - 1]->Completed_ip),
        ),
{
    lemma_success_from(Execution { budget, completed: 0 }, events);
}

proof fn lemma_success_from(start: Execution, events: Seq<StepEvent>)
    requires
        start.wf(),
        events.len() >= start.budget.total() - start.completed,
        forall|i: int| 0 <= i < start.budget.total() - start.completed ==> events[i] is Completed,
    ensures
        start.run(events) == Progress::Finished(
            Ok(events[start.budget.total() - start.completed - 1]->Completed_ip),
        ),
    decreases start.budget.total() - start.completed,
{
    assert(events[0] is Completed);
    if start.completed + 1 < start.budget.total() {
        let then = Execution { budget: start.budget, completed: (start.completed + 1) as u64 };
        assert(start.next(events[0]) == Progress::Continue(then));
        let rest = events.drop_first();
        let left = start.budget.total() - start.completed - 1;
        assert forall|i: int| 0 <= i < left implies rest[i] is Completed by {
            assert(rest[i] == events[i + 1]);
        }
        assert(rest[left - 1] == events[left]);
        lemma_success_from(then, rest);
    }
}

/// With no steps before or after, the execution is the target instruction
/// alone: one completed step ends it with the pointer right behind that
/// instruction, one failed step ends it in the `Instruction` phase.
pub proof fn lemma_single_step(event: StepEvent)
    ensures
        ({
            let only = Execution {
                budget: StepBudget { steps_before: 0, steps_after: 0 },
                completed: 0,
            };
            &&& only.wf()
            &&& event matches StepEvent::Completed { ip } ==> only.next(event)
                == Progress::Finished(Ok(ip))
            &&& !(event is Completed) ==> only.next(event) == Progress::Finished(
                Err(ExecuteError::Instruction),
            )
        }),
{
}

} // verus!
