use ptrace_execute::execute::ExecuteError;
use ptrace_execute::ptrace_execute::{Action, EngineError, Pending, PtraceExecute, Reply};
use ptrace_execute::section::MemorySection;
use ptrace_execute::stepper::{Execution, StepBudget, StepEvent};
use ptrace_execute::tracer::Lifecycle;

const NOP: u8 = 0x90;
const RET: u8 = 0xc3;
const ILLEGAL: u8 = 0x06;
const EXIT: u8 = 0xf4;
const PAGE: u64 = 4096;

/// A stand-in for a traced process: regions of bytes and a pointer, with
/// one-byte instructions.
struct Target {
    regions: Vec<(u64, Vec<u8>)>,
    next_base: u64,
    ip: u64,
}

impl Target {
    fn new() -> Target {
        Target { regions: Vec::new(), next_base: 0x10000, ip: 0 }
    }

    fn map(&mut self, length: u32, isolated: bool) -> u64 {
        let rounded = (length as u64 + PAGE - 1) / PAGE * PAGE;
        if isolated {
            self.next_base += PAGE;
        }
        let base = self.next_base;
        self.regions.push((base, vec![0; length as usize]));
        self.next_base += rounded;
        if isolated {
            self.next_base += PAGE;
        }
        base
    }

    fn byte(&mut self, address: u64) -> Option<&mut u8> {
        for (base, bytes) in self.regions.iter_mut() {
            if *base <= address && address - *base < bytes.len() as u64 {
                return bytes.get_mut((address - *base) as usize);
            }
        }
        None
    }

    fn write(&mut self, address: u64, bytes: &[u8]) {
        for (i, b) in bytes.iter().enumerate() {
            *self.byte(address + i as u64).unwrap() = *b;
        }
    }

    fn read(&mut self, address: u64, buf: &mut [u8], count: u64) {
        for i in 0..count {
            buf[i as usize] = *self.byte(address + i).unwrap();
        }
    }

    fn step(&mut self) -> StepEvent {
        let ip = self.ip;
        match self.byte(ip).map(|b| *b) {
            Some(NOP) | Some(RET) => {
                self.ip += 1;
                StepEvent::from_stop(Some(5), self.ip)
            }
            Some(EXIT) => StepEvent::from_stop(None, 0),
            Some(_) => StepEvent::from_stop(Some(4), ip),
            None => StepEvent::from_stop(Some(11), ip),
        }
    }
}

fn create(engine: &mut PtraceExecute, target: &mut Target, len: u32, isolated: bool) -> u64 {
    let asked = if isolated {
        engine.create_isolated_section_rwx(len)
    } else {
        engine.create_section_rwx(len)
    };
    let mut action = asked.unwrap();
    if action == Action::Spawn {
        action = engine.spawned(4242).unwrap();
    }
    assert_eq!(action, Action::MapSection { length: len, isolated });
    let base = target.map(len, isolated);
    assert_eq!(engine.mapped(base), Ok(base));
    base
}

fn write(engine: &PtraceExecute, target: &mut Target, dst: u64, src: &[u8]) {
    let action = engine.write_memory_checked(dst, src).unwrap();
    assert_eq!(action, Action::Write { address: dst, count: src.len() as u64 });
    target.write(dst, src);
}

fn read(engine: &PtraceExecute, target: &mut Target, src: u64, buf: &mut [u8], len: u32) {
    let action = engine.read_child_memory_checked(src, buf, len).unwrap();
    assert_eq!(action, Action::Read { address: src, count: len as u64 });
    target.read(src, buf, len as u64);
}

fn execute(
    engine: &mut PtraceExecute,
    target: &mut Target,
    addr: u64,
    steps_before: u32,
    steps_after: u32,
) -> Result<u64, ExecuteError> {
    let action = engine.execute_with_steps(addr, steps_before, steps_after).unwrap();
    assert_eq!(action, Action::Enter { address: addr });
    target.ip = addr;
    loop {
        let event = target.step();
        match engine.stepped(event).unwrap() {
            Reply::Step => {}
            Reply::Finished(outcome) => return outcome,
        }
    }
}

#[test]
fn fresh_engine_has_no_process_and_no_section() {
    let engine = PtraceExecute::new();
    assert_eq!(engine.process().state, Lifecycle::Unattached);
    assert_eq!(engine.process().pid, 0);
    assert_eq!(engine.pending(), Pending::Idle);
    assert_eq!(engine.section_count(), 0);
    assert_eq!(engine.section(0), None);
}

#[test]
fn first_section_spawns_the_process() {
    let mut engine = PtraceExecute::new();
    assert_eq!(engine.create_section_rwx(4096), Ok(Action::Spawn));
    assert_eq!(engine.pending(), Pending::Allocating { length: 4096, isolated: false });
    assert_eq!(engine.process().state, Lifecycle::Unattached);
    assert_eq!(engine.spawned(77), Ok(Action::MapSection { length: 4096, isolated: false }));
    assert_eq!(engine.process().state, Lifecycle::Attached);
    assert_eq!(engine.process().pid, 77);
    assert_eq!(engine.mapped(0x7000), Ok(0x7000));
    assert_eq!(engine.process().state, Lifecycle::Stopped);
    assert_eq!(engine.pending(), Pending::Idle);
    assert_eq!(
        engine.section(0),
        Some(MemorySection { base: 0x7000, length: 4096, isolated: false })
    );
}

#[test]
fn later_sections_run_the_process_for_the_mapping() {
    let mut engine = PtraceExecute::new();
    let mut target = Target::new();
    create(&mut engine, &mut target, 4096, false);
    assert_eq!(
        engine.create_isolated_section_rwx(100),
        Ok(Action::MapSection { length: 100, isolated: true })
    );
    assert_eq!(engine.process().state, Lifecycle::Running);
    assert_eq!(engine.pending(), Pending::Allocating { length: 100, isolated: true });
    assert_eq!(engine.mapped(0x90000), Ok(0x90000));
    assert_eq!(engine.process().state, Lifecycle::Stopped);
    assert_eq!(engine.section_count(), 2);
    assert_eq!(
        engine.section(1),
        Some(MemorySection { base: 0x90000, length: 100, isolated: true })
    );
}

#[test]
fn zero_length_section_is_rejected_without_effect() {
    let mut engine = PtraceExecute::new();
    assert_eq!(engine.create_section_rwx(0), Err(EngineError::ZeroLength));
    assert_eq!(engine.create_isolated_section_rwx(0), Err(EngineError::ZeroLength));
    assert_eq!(engine.pending(), Pending::Idle);
    assert_eq!(engine.process().state, Lifecycle::Unattached);
    let mut target = Target::new();
    create(&mut engine, &mut target, 16, false);
    assert_eq!(engine.create_section_rwx(0), Err(EngineError::ZeroLength));
    assert_eq!(engine.process().state, Lifecycle::Stopped);
    assert_eq!(engine.section_count(), 1);
}

#[test]
fn created_sections_are_distinct_and_do_not_overlap() {
    let mut engine = PtraceExecute::new();
    let mut target = Target::new();
    let mut bases = Vec::new();
    for len in [1u32, 4096, 4097, 10, 65536] {
        bases.push((create(&mut engine, &mut target, len, false), len as u64));
    }
    for i in 0..bases.len() {
        for j in 0..bases.len() {
            if i != j {
                let (a, la) = bases[i];
                let (b, lb) = bases[j];
                assert_ne!(a, b);
                assert!(a + la <= b || b + lb <= a);
            }
        }
    }
}

#[test]
fn mapping_that_collides_is_an_allocation_failure() {
    let mut engine = PtraceExecute::new();
    let mut target = Target::new();
    let base = create(&mut engine, &mut target, 4096, false);
    engine.create_section_rwx(4096).unwrap();
    assert_eq!(engine.mapped(base + 100), Err(EngineError::AllocationFailed));
    assert_eq!(engine.process().state, Lifecycle::Terminated);
    assert_eq!(engine.process().pid, 4242);
    assert_eq!(engine.section_count(), 0);
    assert_eq!(engine.pending(), Pending::Idle);
}

#[test]
fn mapping_at_null_or_past_the_end_is_an_allocation_failure() {
    let mut engine = PtraceExecute::new();
    engine.create_section_rwx(4096).unwrap();
    engine.spawned(5).unwrap();
    assert_eq!(engine.mapped(0), Err(EngineError::AllocationFailed));
    assert_eq!(engine.process().state, Lifecycle::Terminated);

    let mut engine = PtraceExecute::new();
    engine.create_section_rwx(4096).unwrap();
    engine.spawned(5).unwrap();
    assert_eq!(engine.mapped(u64::MAX), Err(EngineError::AllocationFailed));
    assert_eq!(engine.process().state, Lifecycle::Terminated);
}

#[test]
fn mapping_back_to_back_with_an_isolated_section_is_a_failure() {
    let mut engine = PtraceExecute::new();
    let mut target = Target::new();
    let base = create(&mut engine, &mut target, 4096, true);
    engine.create_section_rwx(4096).unwrap();
    assert_eq!(engine.mapped(base + 4096), Err(EngineError::AllocationFailed));

    let mut engine = PtraceExecute::new();
    let mut target = Target::new();
    let base = create(&mut engine, &mut target, 4096, false);
    engine.create_section_rwx(4096).unwrap();
    assert_eq!(engine.mapped(base + 4096), Ok(base + 4096));
    engine.create_isolated_section_rwx(4096).unwrap();
    assert_eq!(engine.mapped(base + 2 * 4096), Err(EngineError::AllocationFailed));
}

#[test]
fn failed_spawn_terminates_the_engine() {
    let mut engine = PtraceExecute::new();
    engine.create_section_rwx(4096).unwrap();
    assert_eq!(engine.spawned(-1), Err(EngineError::AllocationFailed));
    assert_eq!(engine.process().state, Lifecycle::Terminated);
    assert_eq!(engine.create_section_rwx(4096), Err(EngineError::Terminated));

    let mut engine = PtraceExecute::new();
    engine.create_section_rwx(4096).unwrap();
    assert_eq!(engine.spawned(0), Err(EngineError::AllocationFailed));
}

#[test]
fn reports_that_answer_nothing_are_unexpected() {
    let mut engine = PtraceExecute::new();
    assert_eq!(engine.spawned(5), Err(EngineError::Unexpected));
    assert_eq!(engine.mapped(0x1000), Err(EngineError::Unexpected));
    assert_eq!(engine.stepped(StepEvent::Exited), Err(EngineError::Unexpected));
    assert_eq!(engine.process().state, Lifecycle::Unattached);
    engine.create_section_rwx(8).unwrap();
    assert_eq!(engine.mapped(0x1000), Err(EngineError::Unexpected));
    assert_eq!(engine.stepped(StepEvent::Completed { ip: 1 }), Err(EngineError::Unexpected));
    engine.spawned(5).unwrap();
    assert_eq!(engine.spawned(6), Err(EngineError::Unexpected));
    assert_eq!(engine.process().pid, 5);
    engine.mapped(0x1000).unwrap();
    assert_eq!(engine.mapped(0x5000), Err(EngineError::Unexpected));
    assert_eq!(engine.section_count(), 1);
}

#[test]
fn engine_is_busy_while_a_report_is_awaited() {
    let mut engine = PtraceExecute::new();
    let mut target = Target::new();
    let base = create(&mut engine, &mut target, 4096, false);
    engine.create_section_rwx(16).unwrap();
    assert_eq!(engine.create_section_rwx(16), Err(EngineError::Busy));
    assert_eq!(engine.write_memory_checked(base, &[1, 2]), Err(EngineError::Busy));
    assert_eq!(engine.read_child_memory_checked(base, &[0; 4], 2), Err(EngineError::Busy));
    assert_eq!(engine.dispose_section_checked(base, 4096), Err(EngineError::Busy));
    assert_eq!(engine.execute_with_steps(base, 0, 0), Err(EngineError::Busy));
    assert!(!engine.covers(base, 1));
    assert!(!engine.holds_section(base, 4096));
    engine.mapped(0x80000).unwrap();
    engine.execute_with_steps(base, 1, 1).unwrap();
    assert_eq!(engine.create_section_rwx(16), Err(EngineError::Busy));
    assert_eq!(engine.execute_with_steps(base, 0, 0), Err(EngineError::Busy));
    assert_eq!(engine.write_memory_checked(base, &[1]), Err(EngineError::Busy));
}

#[test]
fn bytes_written_are_read_back() {
    let mut engine = PtraceExecute::new();
    let mut target = Target::new();
    let base = create(&mut engine, &mut target, 4096, false);
    let pattern: Vec<u8> = (0..=255u8).collect();
    write(&engine, &mut target, base + 100, &pattern);
    let mut buf = vec![0u8; 256];
    read(&engine, &mut target, base + 100, &mut buf, 256);
    assert_eq!(buf, pattern);
    let mut part = vec![0xeeu8; 8];
    read(&engine, &mut target, base + 102, &mut part, 4);
    assert_eq!(part, vec![2, 3, 4, 5, 0xee, 0xee, 0xee, 0xee]);
}

#[test]
fn unchecked_bridge_names_the_same_transfer() {
    let mut engine = PtraceExecute::new();
    let mut target = Target::new();
    let base = create(&mut engine, &mut target, 64, false);
    let src = [9u8; 64];
    assert!(engine.covers(base, 64));
    assert_eq!(engine.write_memory(base, &src), Action::Write { address: base, count: 64 });
    let buf = [0u8; 64];
    assert_eq!(
        engine.read_child_memory(base + 60, &buf, 4),
        Action::Read { address: base + 60, count: 4 }
    );
}

#[test]
fn access_outside_a_section_is_out_of_bounds() {
    let mut engine = PtraceExecute::new();
    assert_eq!(engine.write_memory_checked(0x1000, &[1]), Err(EngineError::OutOfBounds));
    let mut target = Target::new();
    let base = create(&mut engine, &mut target, 16, false);
    assert_eq!(engine.write_memory_checked(base, &[0; 17]), Err(EngineError::OutOfBounds));
    assert_eq!(engine.write_memory_checked(base + 16, &[]), Err(EngineError::OutOfBounds));
    assert_eq!(engine.write_memory_checked(base - 1, &[0]), Err(EngineError::OutOfBounds));
    assert_eq!(
        engine.write_memory_checked(base + 15, &[0]),
        Ok(Action::Write { address: base + 15, count: 1 })
    );
    assert_eq!(
        engine.read_child_memory_checked(base + 8, &[0; 32], 9),
        Err(EngineError::OutOfBounds)
    );
    assert_eq!(engine.execute_with_steps(base + 16, 0, 0), Err(EngineError::OutOfBounds));
    assert_eq!(engine.execute_with_steps(0, 0, 0), Err(EngineError::OutOfBounds));
    assert_eq!(engine.pending(), Pending::Idle);
    assert!(engine.covers(base, 16));
    assert!(!engine.covers(base, 17));
}

#[test]
fn access_may_not_span_two_sections() {
    let mut engine = PtraceExecute::new();
    let mut target = Target::new();
    let first = create(&mut engine, &mut target, 4096, false);
    let second = create(&mut engine, &mut target, 4096, false);
    assert_eq!(second, first + 4096);
    assert_eq!(engine.write_memory_checked(first + 4090, &[0; 10]), Err(EngineError::OutOfBounds));
}

#[test]
fn read_needs_room_in_the_buffer() {
    let mut engine = PtraceExecute::new();
    let mut target = Target::new();
    let base = create(&mut engine, &mut target, 64, false);
    assert_eq!(
        engine.read_child_memory_checked(base, &[0; 3], 4),
        Err(EngineError::BufferTooSmall)
    );
    assert_eq!(
        engine.read_child_memory_checked(base + 1000, &[0; 3], 4),
        Err(EngineError::BufferTooSmall)
    );
    assert_eq!(
        engine.read_child_memory_checked(base, &[0; 4], 4),
        Ok(Action::Read { address: base, count: 4 })
    );
}

#[test]
fn isolated_sections_share_no_byte() {
    let mut engine = PtraceExecute::new();
    let mut target = Target::new();
    let (l1, l2) = (4096u32, 300u32);
    let a = create(&mut engine, &mut target, l1, true);
    let b = create(&mut engine, &mut target, l2, true);
    assert!(a + l1 as u64 + 1 <= b || b + l2 as u64 + 1 <= a);
    write(&engine, &mut target, a, &vec![0xa5u8; l1 as usize]);
    let mut other = vec![0u8; l2 as usize];
    read(&engine, &mut target, b, &mut other, l2);
    assert!(other.iter().all(|byte| *byte != 0xa5));
    write(&engine, &mut target, b, &vec![0x5au8; l2 as usize]);
    let mut first = vec![0u8; l1 as usize];
    read(&engine, &mut target, a, &mut first, l1);
    assert!(first.iter().all(|byte| *byte == 0xa5));
}

#[test]
fn return_instruction_alone_advances_by_its_size() {
    let mut engine = PtraceExecute::new();
    let mut target = Target::new();
    let base = create(&mut engine, &mut target, 4096, false);
    write(&engine, &mut target, base, &[RET]);
    assert_eq!(execute(&mut engine, &mut target, base, 0, 0), Ok(base + 1));
    assert_eq!(engine.process().state, Lifecycle::Stopped);
    assert_eq!(engine.process().last_ip, base + 1);
    assert_eq!(engine.pending(), Pending::Idle);
}

#[test]
fn execution_steps_one_plus_before_plus_after_instructions() {
    let mut engine = PtraceExecute::new();
    let mut target = Target::new();
    let base = create(&mut engine, &mut target, 4096, false);
    write(&engine, &mut target, base, &[NOP; 32]);
    assert_eq!(execute(&mut engine, &mut target, base, 2, 2), Ok(base + 5));
    assert_eq!(execute(&mut engine, &mut target, base + 5, 0, 7), Ok(base + 13));
    assert_eq!(execute(&mut engine, &mut target, base, 9, 0), Ok(base + 10));
}

#[test]
fn execution_in_flight_counts_its_steps() {
    let mut engine = PtraceExecute::new();
    let mut target = Target::new();
    let base = create(&mut engine, &mut target, 4096, false);
    assert_eq!(engine.execute_with_steps(base, 1, 1), Ok(Action::Enter { address: base }));
    assert_eq!(engine.process().state, Lifecycle::Running);
    let budget = StepBudget { steps_before: 1, steps_after: 1 };
    assert_eq!(engine.pending(), Pending::Executing(Execution { budget, completed: 0 }));
    assert_eq!(engine.stepped(StepEvent::Completed { ip: base + 1 }), Ok(Reply::Step));
    assert_eq!(engine.pending(), Pending::Executing(Execution { budget, completed: 1 }));
    assert_eq!(engine.process().state, Lifecycle::Running);
    assert_eq!(engine.process().last_ip, base + 1);
    assert_eq!(engine.stepped(StepEvent::Completed { ip: base + 2 }), Ok(Reply::Step));
    assert_eq!(
        engine.stepped(StepEvent::Completed { ip: base + 3 }),
        Ok(Reply::Finished(Ok(base + 3)))
    );
    assert_eq!(engine.pending(), Pending::Idle);
    assert_eq!(engine.stepped(StepEvent::Completed { ip: base + 4 }), Err(EngineError::Unexpected));
}

#[test]
fn illegal_target_instruction_is_an_instruction_failure() {
    let mut engine = PtraceExecute::new();
    let mut target = Target::new();
    let base = create(&mut engine, &mut target, 4096, false);
    write(&engine, &mut target, base, &[ILLEGAL]);
    assert_eq!(execute(&mut engine, &mut target, base, 0, 0), Err(ExecuteError::Instruction));
    assert_eq!(execute(&mut engine, &mut target, base, 0, 2), Err(ExecuteError::Instruction));
    assert_eq!(engine.process().state, Lifecycle::Stopped);
    assert_eq!(engine.process().last_ip, base);
}

#[test]
fn illegal_target_instruction_with_two_steps_around_it() {
    let mut engine = PtraceExecute::new();
    let mut target = Target::new();
    let base = create(&mut engine, &mut target, 4096, false);
    write(&engine, &mut target, base, &[NOP, NOP, ILLEGAL, NOP, NOP]);
    assert_eq!(execute(&mut engine, &mut target, base, 2, 2), Err(ExecuteError::Instruction));
    assert_eq!(execute(&mut engine, &mut target, base, 2, 0), Err(ExecuteError::Instruction));
    assert_eq!(execute(&mut engine, &mut target, base + 1, 1, 9), Err(ExecuteError::Instruction));
}

#[test]
fn illegal_instruction_before_the_target_is_a_before_failure() {
    let mut engine = PtraceExecute::new();
    let mut target = Target::new();
    let base = create(&mut engine, &mut target, 4096, false);
    write(&engine, &mut target, base, &[NOP, ILLEGAL, NOP, NOP, NOP]);
    assert_eq!(execute(&mut engine, &mut target, base, 2, 2), Err(ExecuteError::Before));
    assert_eq!(execute(&mut engine, &mut target, base + 1, 2, 2), Err(ExecuteError::Before));
    assert_eq!(execute(&mut engine, &mut target, base + 1, 1, 0), Err(ExecuteError::Before));
}

#[test]
fn illegal_instruction_after_the_target_is_an_after_failure() {
    let mut engine = PtraceExecute::new();
    let mut target = Target::new();
    let base = create(&mut engine, &mut target, 4096, false);
    write(&engine, &mut target, base, &[NOP, NOP, NOP, ILLEGAL, NOP]);
    assert_eq!(execute(&mut engine, &mut target, base, 2, 2), Err(ExecuteError::After));
    assert_eq!(execute(&mut engine, &mut target, base + 2, 0, 1), Err(ExecuteError::After));
    assert_eq!(execute(&mut engine, &mut target, base, 1, 1), Ok(base + 3));
}

#[test]
fn failed_execution_can_be_inspected_and_retried() {
    let mut engine = PtraceExecute::new();
    let mut target = Target::new();
    let base = create(&mut engine, &mut target, 4096, false);
    write(&engine, &mut target, base, &[ILLEGAL]);
    assert_eq!(execute(&mut engine, &mut target, base, 0, 0), Err(ExecuteError::Instruction));
    let mut seen = [0u8; 1];
    read(&engine, &mut target, base, &mut seen, 1);
    assert_eq!(seen, [ILLEGAL]);
    write(&engine, &mut target, base, &[RET]);
    assert_eq!(execute(&mut engine, &mut target, base, 0, 0), Ok(base + 1));
}

#[test]
fn exit_of_the_process_terminates_the_engine() {
    let mut engine = PtraceExecute::new();
    let mut target = Target::new();
    let base = create(&mut engine, &mut target, 4096, false);
    write(&engine, &mut target, base, &[NOP, EXIT]);
    assert_eq!(execute(&mut engine, &mut target, base, 0, 1), Err(ExecuteError::After));
    assert_eq!(engine.process().state, Lifecycle::Terminated);
    assert_eq!(engine.section_count(), 0);
    assert_eq!(engine.write_memory_checked(base, &[NOP]), Err(EngineError::Terminated));
    assert_eq!(engine.dispose_execution(), None);
}

#[test]
fn disposed_section_is_gone_and_its_range_is_free() {
    let mut engine = PtraceExecute::new();
    let mut target = Target::new();
    let a = create(&mut engine, &mut target, 4096, false);
    let b = create(&mut engine, &mut target, 128, true);
    assert!(engine.holds_section(a, 4096));
    assert!(!engine.holds_section(a, 4095));
    assert!(!engine.holds_section(a + 1, 4095));
    assert_eq!(
        engine.dispose_section(a, 4096),
        Action::UnmapSection { base: a, length: 4096, isolated: false }
    );
    assert_eq!(engine.section_count(), 1);
    assert_eq!(engine.section(0), Some(MemorySection { base: b, length: 128, isolated: true }));
    assert_eq!(engine.write_memory_checked(a, &[1]), Err(EngineError::OutOfBounds));
    assert_eq!(engine.execute_with_steps(a, 0, 0), Err(EngineError::OutOfBounds));
    assert_eq!(engine.dispose_section_checked(a, 4096), Err(EngineError::UnknownSection));
    assert_eq!(
        engine.dispose_section_checked(b, 128),
        Ok(Action::UnmapSection { base: b, length: 128, isolated: true })
    );
    assert_eq!(engine.section_count(), 0);
    assert_eq!(engine.process().state, Lifecycle::Stopped);
    engine.create_section_rwx(4096).unwrap();
    assert_eq!(engine.mapped(a), Ok(a));
}

#[test]
fn dispose_section_wants_base_and_length_of_a_live_section() {
    let mut engine = PtraceExecute::new();
    assert_eq!(engine.dispose_section_checked(0x1000, 16), Err(EngineError::UnknownSection));
    let mut target = Target::new();
    let a = create(&mut engine, &mut target, 4096, false);
    assert_eq!(engine.dispose_section_checked(a, 100), Err(EngineError::UnknownSection));
    assert_eq!(engine.dispose_section_checked(a + 8, 4096), Err(EngineError::UnknownSection));
    assert_eq!(engine.section_count(), 1);
}

#[test]
fn calls_after_disposal_of_the_execution_are_rejected() {
    let mut engine = PtraceExecute::new();
    let mut target = Target::new();
    let base = create(&mut engine, &mut target, 4096, false);
    write(&engine, &mut target, base, &[RET]);
    assert_eq!(engine.dispose_execution(), Some(Action::Kill { pid: 4242 }));
    assert_eq!(engine.process().state, Lifecycle::Terminated);
    assert_eq!(engine.section_count(), 0);
    assert_eq!(engine.write_memory_checked(base, &[RET]), Err(EngineError::Terminated));
    assert_eq!(engine.read_child_memory_checked(base, &[0; 1], 1), Err(EngineError::Terminated));
    assert_eq!(engine.execute_with_steps(base, 0, 0), Err(EngineError::Terminated));
    assert_eq!(engine.dispose_section_checked(base, 4096), Err(EngineError::Terminated));
    assert_eq!(engine.create_section_rwx(4096), Err(EngineError::Terminated));
    assert_eq!(engine.create_isolated_section_rwx(4096), Err(EngineError::Terminated));
    assert_eq!(engine.create_section_rwx(0), Err(EngineError::Terminated));
    assert_eq!(engine.spawned(9), Err(EngineError::Unexpected));
    assert_eq!(engine.mapped(base), Err(EngineError::Unexpected));
    assert_eq!(engine.stepped(StepEvent::Completed { ip: base }), Err(EngineError::Unexpected));
    assert!(!engine.covers(base, 1));
    assert!(!engine.holds_section(base, 4096));
}

#[test]
fn disposing_twice_is_a_no_op() {
    let mut engine = PtraceExecute::new();
    let mut target = Target::new();
    create(&mut engine, &mut target, 4096, false);
    assert_eq!(engine.dispose_execution(), Some(Action::Kill { pid: 4242 }));
    let process = engine.process();
    assert_eq!(engine.dispose_execution(), None);
    assert_eq!(engine.process(), process);
    assert_eq!(engine.dispose_execution(), None);
}

#[test]
fn disposing_without_a_process_kills_nothing() {
    let mut engine = PtraceExecute::new();
    assert_eq!(engine.dispose_execution(), None);
    assert_eq!(engine.process().state, Lifecycle::Terminated);
    assert_eq!(engine.create_section_rwx(1), Err(EngineError::Terminated));

    let mut engine = PtraceExecute::new();
    engine.create_section_rwx(1).unwrap();
    assert_eq!(engine.dispose_execution(), None);
    assert_eq!(engine.pending(), Pending::Idle);
    assert_eq!(engine.spawned(3), Err(EngineError::Unexpected));
}

#[test]
fn disposal_stops_an_execution_in_flight() {
    let mut engine = PtraceExecute::new();
    let mut target = Target::new();
    let base = create(&mut engine, &mut target, 4096, false);
    engine.execute_with_steps(base, 1000, 1000).unwrap();
    engine.stepped(StepEvent::Completed { ip: base }).unwrap();
    assert_eq!(engine.dispose_execution(), Some(Action::Kill { pid: 4242 }));
    assert_eq!(engine.pending(), Pending::Idle);
    assert_eq!(engine.stepped(StepEvent::Completed { ip: base }), Err(EngineError::Unexpected));

    let mut engine = PtraceExecute::new();
    engine.create_section_rwx(8).unwrap();
    engine.spawned(31).unwrap();
    assert_eq!(engine.dispose_execution(), Some(Action::Kill { pid: 31 }));
    assert_eq!(engine.mapped(0x1000), Err(EngineError::Unexpected));
}
