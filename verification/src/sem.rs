//! The mathematical semantics of the machine.
//!
//! [`VmView`] is the abstract state; [`spec_step`] maps a state to the
//! state after one instruction together with the outcome of that
//! instruction.  The executable engine is proved equal to this
//! interpreter, so every law of the machine can be stated and proved
//! here, over plain mathematical values.

use crate::errors::VMError;
use crate::ops::{spec_decode, Op};
use vstd::prelude::*;

verus! {

/// Number of memory cells, and the first word that is not a literal.
pub const ADDRESS_SPACE: usize = 32768;

/// Number of registers.
pub const NUM_REGISTERS: usize = 8;

/// The largest word that may stand in an operand position.
pub const MAX_OPERAND: u16 = 32775;

/// What one instruction reports back to the run loop.
#[derive(Debug, Clone, Copy, PartialEq, Eq, Structural)]
pub enum StepOutcome {
    /// The instruction completed; execution goes on.
    Continue,
    /// The machine is halted, either by this `halt` or earlier.
    Halted,
    /// An `in` instruction found the input queue empty.  The state is
    /// unchanged; the instruction is retried once input has been fed.
    NeedInput,
}

/// The abstract state of the machine.
pub ghost struct VmView {
    /// The instruction pointer; a memory index, or `ADDRESS_SPACE` when
    /// execution has run past the last cell.
    pub ip: int,
    /// The eight registers; each holds a literal.
    pub regs: Seq<u16>,
    /// The 32768 memory cells.  A loaded image may place any word here,
    /// but the machine itself only ever writes literals.
    pub mem: Seq<u16>,
    /// The value stack; holds literals only.
    pub stack: Seq<u16>,
    /// Characters queued for `in`, oldest first.
    pub input: Seq<u8>,
    /// Character codes emitted by `out`, oldest first.
    pub output: Seq<u16>,
    /// Whether a `halt` has been executed.
    pub halted: bool,
}

/// A state paired with the outcome of the step that produced it.
pub type StepResult = (VmView, Result<StepOutcome, VMError>);

/// Words below 32768 stand for themselves and may be stored in
/// registers, memory cells and the stack.
pub open spec fn is_literal(w: u16) -> bool {
    w < 32768
}

/// Words 32768 through 32775 name registers 0 through 7.
pub open spec fn is_reg_ref(w: u16) -> bool {
    32768 <= w && w <= 32775
}

/// The register named by a register reference.
pub open spec fn reg_index(w: u16) -> int {
    w - 32768
}

/// A word that may stand in a value position: a literal or a register
/// reference.
pub open spec fn is_operand(w: u16) -> bool {
    w <= 32775
}

/// The operand resolver: a literal is its own value; a register
/// reference yields the register's contents.
pub open spec fn resolve(s: VmView, w: u16) -> u16 {
    if is_literal(w) {
        w
    } else {
        s.regs[reg_index(w)]
    }
}

/// Sum modulo the 15-bit value space.
pub open spec fn val_add(b: u16, c: u16) -> u16 {
    ((b + c) % 32768) as u16
}

/// Product modulo the 15-bit value space.
pub open spec fn val_mult(b: u16, c: u16) -> u16 {
    ((b * c) % 32768) as u16
}

/// Remainder; meaningful only for a nonzero divisor.
pub open spec fn val_mod(b: u16, c: u16) -> u16 {
    (b % c) as u16
}

/// Equality test, as the machine stores it: 1 for true, 0 for false.
pub open spec fn val_eq(b: u16, c: u16) -> u16 {
    if b == c {
        1u16
    } else {
        0u16
    }
}

/// Greater-than test: 1 for true, 0 for false.
pub open spec fn val_gt(b: u16, c: u16) -> u16 {
    if b > c {
        1u16
    } else {
        0u16
    }
}

/// Bitwise and.
pub open spec fn val_and(b: u16, c: u16) -> u16 {
    b & c
}

/// Bitwise or.
pub open spec fn val_or(b: u16, c: u16) -> u16 {
    b | c
}

/// Bitwise inversion of the low 15 bits: the one's complement over the
/// 15-bit value space.
pub open spec fn val_not(b: u16) -> u16 {
    !b & 0x7fff
}

/// A state is well formed when its shape is right and every value the
/// machine itself stores is a literal.
impl VmView {
    pub open spec fn wf(self) -> bool {
        &&& self.regs.len() == NUM_REGISTERS
        &&& self.mem.len() == ADDRESS_SPACE
        &&& 0 <= self.ip <= ADDRESS_SPACE
        &&& forall|i: int| 0 <= i < self.regs.len() ==> is_literal(#[trigger] self.regs[i])
        &&& forall|i: int| 0 <= i < self.stack.len() ==> is_literal(#[trigger] self.stack[i])
        &&& forall|i: int| 0 <= i < self.output.len() ==> is_literal(#[trigger] self.output[i])
    }
}

/// Whether two states agree everywhere but perhaps the instruction
/// pointer.  A faulting instruction relates its entry state to its exit
/// state this way: it may have fetched operands, but has written
/// nothing.
pub open spec fn same_except_ip(a: VmView, b: VmView) -> bool {
    &&& a.regs == b.regs
    &&& a.mem == b.mem
    &&& a.stack == b.stack
    &&& a.input == b.input
    &&& a.output == b.output
    &&& a.halted == b.halted
}

/// The state with the instruction pointer moved past one word.
pub open spec fn advance1(s: VmView) -> VmView {
    VmView { ip: s.ip + 1, ..s }
}

/// Reading a value operand at the instruction pointer: fetch the word,
/// resolve it, advance.  Faults leave the state as it stands.
pub open spec fn rd(h: VmView) -> (VmView, Result<u16, VMError>) {
    if h.ip >= ADDRESS_SPACE {
        (h, Err(VMError::BadAddress(32768)))
    } else if !is_operand(h.mem[h.ip]) {
        (h, Err(VMError::InvalidOperand(h.mem[h.ip])))
    } else {
        (advance1(h), Ok(resolve(h, h.mem[h.ip])))
    }
}

/// Reading a destination operand at the instruction pointer: the word
/// must be a register reference; the result is the register index.
pub open spec fn rd_dest(h: VmView) -> (VmView, Result<u16, VMError>) {
    if h.ip >= ADDRESS_SPACE {
        (h, Err(VMError::BadAddress(32768)))
    } else if !is_reg_ref(h.mem[h.ip]) {
        (h, Err(VMError::InvalidOperand(h.mem[h.ip])))
    } else {
        (advance1(h), Ok((h.mem[h.ip] - 32768) as u16))
    }
}

/// `halt`: transition to the halted state.
pub open spec fn spec_halt(h: VmView) -> StepResult {
    (VmView { halted: true, ..h }, Ok(StepOutcome::Halted))
}

/// `set a b`: the named register receives the value of `b`.
pub open spec fn spec_set(h: VmView) -> StepResult {
    match rd_dest(h) {
        (h1, Ok(a)) => match rd(h1) {
            (h2, Ok(b)) => (
                VmView { regs: h2.regs.update(a as int, b), ..h2 },
                Ok(StepOutcome::Continue),
            ),
            (h2, Err(e)) => (h2, Err(e)),
        },
        (h1, Err(e)) => (h1, Err(e)),
    }
}

/// The value computed by one of the seven three-operand operations.
/// For `mod` it is meaningful only when `c` is nonzero.
pub open spec fn val_binop(op: Op, b: u16, c: u16) -> u16 {
    match op {
        Op::Eq => val_eq(b, c),
        Op::Gt => val_gt(b, c),
        Op::Add => val_add(b, c),
        Op::Mult => val_mult(b, c),
        Op::Mod => val_mod(b, c),
        Op::And => val_and(b, c),
        Op::Or => val_or(b, c),
        _ => 0u16,
    }
}

/// The common shape of `eq`, `gt`, `add`, `mult`, `mod`, `and` and
/// `or`: a destination register receives a function of two resolved
/// values.  For `mod`, a zero divisor is a fault.
pub open spec fn spec_binop(h: VmView, op: Op) -> StepResult {
    match rd_dest(h) {
        (h1, Ok(a)) => match rd(h1) {
            (h2, Ok(b)) => match rd(h2) {
                (h3, Ok(c)) => if op == Op::Mod && c == 0 {
                    (h3, Err(VMError::DivideByZero))
                } else {
                    (
                        VmView { regs: h3.regs.update(a as int, val_binop(op, b, c)), ..h3 },
                        Ok(StepOutcome::Continue),
                    )
                },
                (h3, Err(e)) => (h3, Err(e)),
            },
            (h2, Err(e)) => (h2, Err(e)),
        },
        (h1, Err(e)) => (h1, Err(e)),
    }
}

/// `not a b`: the destination receives the 15-bit complement of `b`.
pub open spec fn spec_not(h: VmView) -> StepResult {
    match rd_dest(h) {
        (h1, Ok(a)) => match rd(h1) {
            (h2, Ok(b)) => (
                VmView { regs: h2.regs.update(a as int, val_not(b)), ..h2 },
                Ok(StepOutcome::Continue),
            ),
            (h2, Err(e)) => (h2, Err(e)),
        },
        (h1, Err(e)) => (h1, Err(e)),
    }
}

/// `push a`: the value of `a` goes onto the stack.
pub open spec fn spec_push(h: VmView) -> StepResult {
    match rd(h) {
        (h1, Ok(a)) => (VmView { stack: h1.stack.push(a), ..h1 }, Ok(StepOutcome::Continue)),
        (h1, Err(e)) => (h1, Err(e)),
    }
}

/// `pop a`: the named register receives the top of the stack; an empty
/// stack is a fault.
pub open spec fn spec_pop(h: VmView) -> StepResult {
    match rd_dest(h) {
        (h1, Ok(a)) => if h1.stack.len() == 0 {
            (h1, Err(VMError::EmptyStack))
        } else {
            (
                VmView {
                    regs: h1.regs.update(a as int, h1.stack.last()),
                    stack: h1.stack.drop_last(),
                    ..h1
                },
                Ok(StepOutcome::Continue),
            )
        },
        (h1, Err(e)) => (h1, Err(e)),
    }
}

/// `jmp a`: the instruction pointer moves to the value of `a`.
pub open spec fn spec_jmp(h: VmView) -> StepResult {
    match rd(h) {
        (h1, Ok(a)) => (VmView { ip: a as int, ..h1 }, Ok(StepOutcome::Continue)),
        (h1, Err(e)) => (h1, Err(e)),
    }
}

/// `jt a b`: jump to the value of `b` when the value of `a` is nonzero.
pub open spec fn spec_jt(h: VmView) -> StepResult {
    match rd(h) {
        (h1, Ok(a)) => match rd(h1) {
            (h2, Ok(b)) => if a != 0 {
                (VmView { ip: b as int, ..h2 }, Ok(StepOutcome::Continue))
            } else {
                (h2, Ok(StepOutcome::Continue))
            },
            (h2, Err(e)) => (h2, Err(e)),
        },
        (h1, Err(e)) => (h1, Err(e)),
    }
}

/// `jf a b`: jump to the value of `b` when the value of `a` is zero.
pub open spec fn spec_jf(h: VmView) -> StepResult {
    match rd(h) {
        (h1, Ok(a)) => match rd(h1) {
            (h2, Ok(b)) => if a == 0 {
                (VmView { ip: b as int, ..h2 }, Ok(StepOutcome::Continue))
            } else {
                (h2, Ok(StepOutcome::Continue))
            },
            (h2, Err(e)) => (h2, Err(e)),
        },
        (h1, Err(e)) => (h1, Err(e)),
    }
}

/// `rmem a b`: the named register receives the memory cell addressed by
/// the value of `b`.  A cell holding a word that is not a literal cannot
/// be placed in a register; that is a fault.
pub open spec fn spec_rmem(h: VmView) -> StepResult {
    match rd_dest(h) {
        (h1, Ok(a)) => match rd(h1) {
            (h2, Ok(b)) => if !is_literal(h2.mem[b as int]) {
                (h2, Err(VMError::InvalidOperand(h2.mem[b as int])))
            } else {
                (
                    VmView { regs: h2.regs.update(a as int, h2.mem[b as int]), ..h2 },
                    Ok(StepOutcome::Continue),
                )
            },
            (h2, Err(e)) => (h2, Err(e)),
        },
        (h1, Err(e)) => (h1, Err(e)),
    }
}

/// `wmem a b`: the memory cell addressed by the value of `a` receives
/// the value of `b`.
pub open spec fn spec_wmem(h: VmView) -> StepResult {
    match rd(h) {
        (h1, Ok(a)) => match rd(h1) {
            (h2, Ok(b)) => (
                VmView { mem: h2.mem.update(a as int, b), ..h2 },
                Ok(StepOutcome::Continue),
            ),
            (h2, Err(e)) => (h2, Err(e)),
        },
        (h1, Err(e)) => (h1, Err(e)),
    }
}

/// `call a`: the address of the next instruction goes onto the stack and
/// execution continues at the value of `a`.  A return address past the
/// end of memory cannot be stored; that is a fault.
pub open spec fn spec_call(h: VmView) -> StepResult {
    match rd(h) {
        (h1, Ok(a)) => if h1.ip >= ADDRESS_SPACE {
            (h1, Err(VMError::BadAddress(32768)))
        } else {
            (
                VmView { ip: a as int, stack: h1.stack.push(h1.ip as u16), ..h1 },
                Ok(StepOutcome::Continue),
            )
        },
        (h1, Err(e)) => (h1, Err(e)),
    }
}

/// `ret`: execution resumes at the address on top of the stack; an empty
/// stack is a fault.
pub open spec fn spec_ret(h: VmView) -> StepResult {
    if h.stack.len() == 0 {
        (h, Err(VMError::EmptyStack))
    } else {
        (
            VmView { ip: h.stack.last() as int, stack: h.stack.drop_last(), ..h },
            Ok(StepOutcome::Continue),
        )
    }
}

/// `out a`: the value of `a` joins the output queue.
pub open spec fn spec_out(h: VmView) -> StepResult {
    match rd(h) {
        (h1, Ok(a)) => (VmView { output: h1.output.push(a), ..h1 }, Ok(StepOutcome::Continue)),
        (h1, Err(e)) => (h1, Err(e)),
    }
}

/// `in a`: the named register receives the oldest queued character.  An
/// empty queue suspends the instruction without consuming anything, so
/// that it is retried intact once the host has fed a line.
pub open spec fn spec_in(h: VmView) -> StepResult {
    if h.input.len() == 0 {
        (h, Ok(StepOutcome::NeedInput))
    } else {
        match rd_dest(h) {
            (h1, Ok(a)) => (
                VmView {
                    regs: h1.regs.update(a as int, h1.input.first() as u16),
                    input: h1.input.drop_first(),
                    ..h1
                },
                Ok(StepOutcome::Continue),
            ),
            (h1, Err(e)) => (h1, Err(e)),
        }
    }
}

/// `noop`: nothing.
pub open spec fn spec_noop(h: VmView) -> StepResult {
    (h, Ok(StepOutcome::Continue))
}

/// Executes one decoded operation from the state `h`, whose instruction
/// pointer stands just past the opcode word.
pub open spec fn spec_exec(h: VmView, op: Op) -> StepResult {
    match op {
        Op::Halt => spec_halt(h),
        Op::SetReg => spec_set(h),
        Op::Push => spec_push(h),
        Op::Pop => spec_pop(h),
        Op::Eq => spec_binop(h, Op::Eq),
        Op::Gt => spec_binop(h, Op::Gt),
        Op::Jmp => spec_jmp(h),
        Op::Jt => spec_jt(h),
        Op::Jf => spec_jf(h),
        Op::Add => spec_binop(h, Op::Add),
        Op::Mult => spec_binop(h, Op::Mult),
        Op::Mod => spec_binop(h, Op::Mod),
        Op::And => spec_binop(h, Op::And),
        Op::Or => spec_binop(h, Op::Or),
        Op::Not => spec_not(h),
        Op::Rmem => spec_rmem(h),
        Op::Wmem => spec_wmem(h),
        Op::Call => spec_call(h),
        Op::Ret => spec_ret(h),
        Op::Out => spec_out(h),
        Op::In => spec_in(h),
        Op::Noop => spec_noop(h),
    }
}

/// One full step of the machine: fetch the opcode, decode, execute.  A
/// fault, and a suspension for input, leave the resulting state exactly
/// as it was before the step.
pub open spec fn spec_step(s: VmView) -> StepResult {
    if s.halted {
        (s, Ok(StepOutcome::Halted))
    } else if s.ip >= ADDRESS_SPACE {
        (s, Err(VMError::BadAddress(32768)))
    } else {
        match spec_decode(s.mem[s.ip]) {
            None => (s, Err(VMError::UnknownOperation(s.mem[s.ip]))),
            Some(op) => {
                let (h, r) = spec_exec(advance1(s), op);
                match r {
                    Ok(StepOutcome::NeedInput) => (s, Ok(StepOutcome::NeedInput)),
                    Ok(o) => (h, Ok(o)),
                    Err(e) => (s, Err(e)),
                }
            },
        }
    }
}

/// The word encoded by two bytes, low byte first.
pub open spec fn word_of_bytes(lo: u8, hi: u8) -> u16 {
    (lo + hi * 256) as u16
}

/// The memory image that a little-endian byte stream loads: consecutive
/// byte pairs fill consecutive cells; a trailing odd byte is dropped;
/// words past the end of the address space are dropped; the rest of
/// memory stays zero.
pub open spec fn loaded_mem(bytes: Seq<u8>) -> Seq<u16> {
    Seq::new(
        ADDRESS_SPACE as nat,
        |i: int| if 2 * i + 1 < bytes.len() {
            word_of_bytes(bytes[2 * i], bytes[2 * i + 1])
        } else {
            0u16
        },
    )
}

/// The memory image that a word sequence loads: words fill consecutive
/// cells from address zero; words past the end of the address space are
/// dropped; the rest of memory stays zero.
pub open spec fn loaded_mem_words(words: Seq<u16>) -> Seq<u16> {
    Seq::new(
        ADDRESS_SPACE as nat,
        |i: int| if i < words.len() {
            words[i]
        } else {
            0u16
        },
    )
}

/// A machine about to run the given memory image: the instruction
/// pointer at zero, registers zero, stack and queues empty.
pub open spec fn initial_vm(mem: Seq<u16>) -> VmView {
    VmView {
        ip: 0,
        regs: Seq::new(NUM_REGISTERS as nat, |i: int| 0u16),
        mem: mem,
        stack: Seq::empty(),
        input: Seq::empty(),
        output: Seq::empty(),
        halted: false,
    }
}

/// The state after `n` steps of the specification interpreter.  States
/// that have halted or faulted are fixed points of [`spec_step`], so
/// this is the whole of a terminated run for every large enough `n`.
pub open spec fn iter_step(s: VmView, n: nat) -> VmView
    decreases n,
{
    if n == 0 {
        s
    } else {
        spec_step(iter_step(s, (n - 1) as nat)).0
    }
}

} // verus!
