//! Decision core of an isolated instruction-execution engine.
//!
//! The engine drives a traced subordinate process one machine instruction at a
//! time. Everything that touches the operating system (forking, tracing,
//! mapping, copying bytes) is left to a driver; this crate holds the rules the
//! driver follows: which regions of the target are live, when an access is in
//! bounds, how a bounded step sequence unfolds and how its outcome is
//! classified.

pub mod execute;
pub mod guarantees;
pub mod ptrace_execute;
pub mod section;
pub mod stepper;
pub mod tracer;
pub mod wait;
