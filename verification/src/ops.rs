//! The operation set and the decoder.

use vstd::prelude::*;

verus! {

/// One of the 22 operations of the machine.
#[derive(Debug, Clone, Copy, PartialEq, Eq, Structural)]
pub enum Op {
    Halt,
    SetReg,
    Push,
    Pop,
    Eq,
    Gt,
    Jmp,
    Jt,
    Jf,
    Add,
    Mult,
    Mod,
    And,
    Or,
    Not,
    Rmem,
    Wmem,
    Call,
    Ret,
    Out,
    In,
    Noop,
}

/// The decoding table: opcode words 0 through 21 name operations, in the
/// order of the variants above; every other word is a decode fault.
pub open spec fn spec_decode(code: u16) -> Option<Op> {
    if code == 0 {
        Some(Op::Halt)
    } else if code == 1 {
        Some(Op::SetReg)
    } else if code == 2 {
        Some(Op::Push)
    } else if code == 3 {
        Some(Op::Pop)
    } else if code == 4 {
        Some(Op::Eq)
    } else if code == 5 {
        Some(Op::Gt)
    } else if code == 6 {
        Some(Op::Jmp)
    } else if code == 7 {
        Some(Op::Jt)
    } else if code == 8 {
        Some(Op::Jf)
    } else if code == 9 {
        Some(Op::Add)
    } else if code == 10 {
        Some(Op::Mult)
    } else if code == 11 {
        Some(Op::Mod)
    } else if code == 12 {
        Some(Op::And)
    } else if code == 13 {
        Some(Op::Or)
    } else if code == 14 {
        Some(Op::Not)
    } else if code == 15 {
        Some(Op::Rmem)
    } else if code == 16 {
        Some(Op::Wmem)
    } else if code == 17 {
        Some(Op::Call)
    } else if code == 18 {
        Some(Op::Ret)
    } else if code == 19 {
        Some(Op::Out)
    } else if code == 20 {
        Some(Op::In)
    } else if code == 21 {
        Some(Op::Noop)
    } else {
        None
    }
}

impl Op {
    /// Maps an opcode word to its operation; `None` for a word outside
    /// the table.
    pub fn from_code(op_code: u16) -> (r: Option<Op>)
        ensures
            r == spec_decode(op_code),
    {
        match op_code {
            0 => Some(Op::Halt),
            1 => Some(Op::SetReg),
            2 => Some(Op::Push),
            3 => Some(Op::Pop),
            4 => Some(Op::Eq),
            5 => Some(Op::Gt),
            6 => Some(Op::Jmp),
            7 => Some(Op::Jt),
            8 => Some(Op::Jf),
            9 => Some(Op::Add),
            10 => Some(Op::Mult),
            11 => Some(Op::Mod),
            12 => Some(Op::And),
            13 => Some(Op::Or),
            14 => Some(Op::Not),
            15 => Some(Op::Rmem),
            16 => Some(Op::Wmem),
            17 => Some(Op::Call),
            18 => Some(Op::Ret),
            19 => Some(Op::Out),
            20 => Some(Op::In),
            21 => Some(Op::Noop),
            _ => None,
        }
    }
}

} // verus!
