//! Outcome of a stepped execution and its encoding as a status code.

use vstd::prelude::*;

verus! {

/// Phase of a stepped execution in which the traced process failed.
#[derive(Clone, Copy, Debug, PartialEq, Eq, Structural)]
pub enum ExecuteError {
    /// A step before the target instruction did not complete.
    Before,
    /// The target instruction completed but a later step did not.
    After,
    /// The target instruction itself did not complete.
    Instruction,
}

/// Status code that reports a completed execution.
pub const STATUS_SUCCESS: i32 = 0;

/// Status code that reports a failure of the target instruction.
pub const STATUS_INSTRUCTION: i32 = -1;

/// Status code that reports a failure during the steps before the target.
pub const STATUS_BEFORE: i32 = -2;

/// Status code that reports a failure during the steps after the target.
pub const STATUS_AFTER: i32 = -3;

/// The status code under which an outcome crosses the native boundary.
pub open spec fn status_of(outcome: Result<u64, ExecuteError>) -> int {
    match outcome {
        Ok(_) => 0,
        Err(ExecuteError::Instruction) => -1,
        Err(ExecuteError::Before) => -2,
        Err(ExecuteError::After) => -3,
    }
}

/// Whether `code` is one of the four defined status codes.
pub open spec fn is_status(code: int) -> bool {
    -3 <= code <= 0
}

/// The outcome that a defined status code and the sampled instruction
/// pointer stand for. The pointer is meaningful on success only.
pub open spec fn outcome_of(code: int, ip: u64) -> Result<u64, ExecuteError> {
    if code == 0 {
        Ok(ip)
    } else if code == -1 {
        Err(ExecuteError::Instruction)
    } else if code == -2 {
        Err(ExecuteError::Before)
    } else {
        Err(ExecuteError::After)
    }
}

impl ExecuteError {
    /// The status code of this failure phase.
    pub fn status_code(self) -> (code: i32)
        ensures
            code == status_of(Err(self)),
    {
        match self {
            ExecuteError::Instruction => STATUS_INSTRUCTION,
            ExecuteError::Before => STATUS_BEFORE,
            ExecuteError::After => STATUS_AFTER,
        }
    }
}

/// Encodes an outcome as the pair of status code and final instruction
/// pointer. A failure carries the pointer 0.
pub fn encode_outcome(outcome: Result<u64, ExecuteError>) -> (pair: (i32, u64))
    ensures
        pair.0 == status_of(outcome),
        pair.1 == (match outcome {
            Ok(ip) => ip,
            Err(_) => 0,
        }),
{
    match outcome {
        Ok(ip) => (STATUS_SUCCESS, ip),
        Err(e) => (e.status_code(), 0),
    }
}

/// Decodes a defined status code. Any other code is a violation of the
/// engine's contract and is excluded here; `try_decode_status` reports it.
pub fn decode_status(code: i32, ip: u64) -> (outcome: Result<u64, ExecuteError>)
    requires
        is_status(code as int),
    ensures
        outcome == outcome_of(code as int, ip),
{
    if code == STATUS_SUCCESS {
        Ok(ip)
    } else if code == STATUS_INSTRUCTION {
        Err(ExecuteError::Instruction)
    } else if code == STATUS_BEFORE {
        Err(ExecuteError::Before)
    } else {
        Err(ExecuteError::After)
    }
}

/// Decodes any status code: `None` exactly for the codes that are not
/// defined, so that none of them is ever read as an outcome.
pub fn try_decode_status(code: i32, ip: u64) -> (decoded: Option<Result<u64, ExecuteError>>)
    ensures
        decoded == (if is_status(code as int) {
            Some(outcome_of(code as int, ip))
        } else {
            None
        }),
{
    if STATUS_AFTER <= code && code <= STATUS_SUCCESS {
        Some(decode_status(code, ip))
    } else {
        None
    }
}

/// Decoding inverts encoding: a successful outcome comes back with its
/// pointer, a failure with its phase.
pub proof fn lemma_decode_inverts_encode(outcome: Result<u64, ExecuteError>)
    ensures
        is_status(status_of(outcome)),
        outcome matches Ok(ip) ==> outcome_of(status_of(outcome), ip) == outcome,
        outcome matches Err(_) ==> forall|ip: u64| outcome_of(status_of(outcome), ip) == outcome,
{
}

/// The seven operations of an execution engine as a consumer drives them.
///
/// An implementation owns at most one traced process. Addresses are opaque
/// 64-bit handles into that process's address space, valid for the lifetime
/// of the engine instance that returned them. Calls are strictly sequential.
pub trait Execute {
    /// Maps a readable, writable and executable region of `len` bytes in
    /// the traced process, creating the process on first use.
    fn create_section_rwx(&mut self, len: u32) -> u64;

    /// As `create_section_rwx`, with the region mapped apart from every
    /// other section.
    fn create_isolated_section_rwx(&mut self, len: u32) -> u64;

    /// Copies `src` into the traced process at `dst`.
    fn write_memory(&mut self, dst: u64, src: &[u8]);

    /// Copies `len` bytes of the traced process at `src` into `buf`.
    fn read_child_memory(&mut self, src: u64, buf: &mut [u8], len: u32);

    /// Releases the section of `len` bytes at `dst`.
    fn dispose_section(&mut self, dst: u64, len: u32);

    /// Runs `steps_before` instructions, the target instruction and
    /// `steps_after` instructions from `addr`, and returns the final
    /// instruction pointer or the phase that failed.
    fn execute_with_steps(&mut self, addr: u64, steps_before: u32, steps_after: u32) -> Result<
        u64,
        ExecuteError,
    >;

    /// Terminates the traced process and invalidates every section.
    fn dispose_execution(&mut self);
}

} // verus!
