//! An interpreter for the Synacor challenge virtual machine.
//!
//! The machine owns 32768 words of memory, eight registers, an unbounded
//! value stack and an instruction pointer, and executes a fetch, decode,
//! dispatch cycle over 22 operations.  Words below 32768 are literals;
//! words 32768 through 32775 name the eight registers; anything above is
//! an invalid operand.  Arithmetic is modular over the 15-bit value space.
//!
//! The semantics are stated once, as the specification interpreter
//! [`sem::spec_step`]; the executable engine in [`vm`] is proved to agree
//! with it step for step.  Character input and output are modelled as
//! queues inside the machine state, so a host can run the engine against
//! real streams by draining the output queue and feeding the input queue.

pub mod errors;
pub mod laws;
pub mod ops;
pub mod sem;
pub mod vm;

pub use errors::VMError;
pub use ops::Op;
pub use sem::StepOutcome;
pub use vm::VM;
