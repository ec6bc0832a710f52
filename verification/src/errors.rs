//! The faults that abort a run of the virtual machine.

use vstd::prelude::*;

verus! {

/// A non-recoverable fault.  Every fault aborts the run loop; none is
/// recoverable inside the engine.
#[derive(Debug, Clone, Copy, PartialEq, Eq, Structural)]
pub enum VMError {
    /// The fetched opcode word is outside the operation table.
    UnknownOperation(u16),
    /// `pop` or `ret` found the value stack empty.
    EmptyStack,
    /// An operand word above 32775 reached a value position, a destination
    /// operand was not a register reference, or a word that is not a
    /// literal was about to be placed in a register.
    InvalidOperand(u16),
    /// A fetch ran past the end of the address space, or a return address
    /// would lie outside it.
    BadAddress(u16),
    /// `mod` with a zero divisor.
    DivideByZero,
    /// The host could not supply input: end of input during `in`.
    IoFault,
    /// The program image could not be read by the host.
    LoadFault,
}

} // verus!
