//! The executable engine, proved to agree with the specification
//! interpreter step for step.

use crate::errors::VMError;
use crate::laws::{lemma_exec_op_props, lemma_prefix_trans, lemma_rd, lemma_rd_dest,
    lemma_step_invariants};
use crate::ops::Op;
use crate::sem::{advance1, initial_vm, iter_step, loaded_mem, loaded_mem_words, rd, rd_dest,
    spec_binop, spec_call, spec_halt, spec_in, spec_jf, spec_jmp, spec_jt, spec_noop, spec_not,
    spec_out, spec_pop, spec_push, spec_ret, spec_rmem, spec_set, spec_step, spec_wmem,
    StepOutcome, VmView, ADDRESS_SPACE, MAX_OPERAND, NUM_REGISTERS};
use vstd::prelude::*;

verus! {

/// The machine: 32768 words of memory, eight registers, an unbounded
/// value stack, an instruction pointer, a queue of characters waiting
/// for `in` and a queue of character codes emitted by `out`.
pub struct VM {
    pointer: usize,
    registers: Vec<u16>,
    memory: Vec<u16>,
    stack: Vec<u16>,
    buffered_input: Vec<u8>,
    output_buffer: Vec<u16>,
    halted: bool,
}

impl View for VM {
    type V = VmView;

    closed spec fn view(&self) -> VmView {
        VmView {
            ip: self.pointer as int,
            regs: self.registers@,
            mem: self.memory@,
            stack: self.stack@,
            input: self.buffered_input@,
            output: self.output_buffer@,
            halted: self.halted,
        }
    }
}

/// A vector of `n` zero words.
fn zero_words(n: usize) -> (v: Vec<u16>)
    ensures
        v@.len() == n,
        forall|i: int| 0 <= i < n ==> v@[i] == 0u16,
{
    let mut v: Vec<u16> = Vec::new();
    let mut i: usize = 0;
    while i < n
        invariant
            i <= n,
            v@.len() == i,
            forall|j: int| 0 <= j < i ==> v@[j] == 0u16,
        decreases n - i,
    {
        v.push(0);
        i = i + 1;
    }
    v
}

impl VM {
    /// A machine with zeroed memory and registers, the instruction
    /// pointer at zero, empty stack and queues, ready to run.
    pub fn new() -> (vm: VM)
        ensures
            vm@.wf(),
            vm@ == initial_vm(loaded_mem(Seq::<u8>::empty())),
    {
        let vm = VM {
            pointer: 0,
            registers: zero_words(NUM_REGISTERS),
            memory: zero_words(ADDRESS_SPACE),
            stack: Vec::new(),
            buffered_input: Vec::new(),
            output_buffer: Vec::new(),
            halted: false,
        };
        proof {
            let target = initial_vm(loaded_mem(Seq::<u8>::empty()));
            assert(vm@.mem =~= target.mem);
            assert(vm@.regs =~= target.regs);
            assert(vm@.stack =~= target.stack);
            assert(vm@.input =~= target.input);
            assert(vm@.output =~= target.output);
        }
        vm
    }

    /// Loads a little-endian byte image: consecutive byte pairs fill
    /// consecutive cells from address zero; a trailing odd byte is
    /// dropped; words past the end of the address space are dropped;
    /// the rest of memory stays zero.
    pub fn load(image: &Vec<u8>) -> (vm: VM)
        ensures
            vm@.wf(),
            vm@ == initial_vm(loaded_mem(image@)),
    {
        let mut vm = VM::new();
        let mut i: usize = 0;
        while i < ADDRESS_SPACE && 2 * i + 1 < image.len()
            invariant
                i <= ADDRESS_SPACE,
                vm@.wf(),
                vm@ == initial_vm(vm@.mem),
                vm@.mem.len() == ADDRESS_SPACE,
                forall|j: int| 0 <= j < i ==> vm@.mem[j] == loaded_mem(image@)[j],
                forall|j: int| i <= j < ADDRESS_SPACE ==> vm@.mem[j] == 0u16,
            decreases ADDRESS_SPACE - i,
        {
            let lo: u8 = image[2 * i];
            let hi: u8 = image[2 * i + 1];
            let w: u16 = (lo as u16) + (hi as u16) * 256;
            vm.memory.set(i, w);
            i = i + 1;
        }
        proof {
            assert(vm@.mem =~= loaded_mem(image@));
        }
        vm
    }

    /// Loads a word image: words fill consecutive cells from address
    /// zero; words past the end of the address space are dropped; the
    /// rest of memory stays zero.
    pub fn load_words(words: &Vec<u16>) -> (vm: VM)
        ensures
            vm@.wf(),
            vm@ == initial_vm(loaded_mem_words(words@)),
    {
        let mut vm = VM::new();
        let mut i: usize = 0;
        while i < ADDRESS_SPACE && i < words.len()
            invariant
                i <= ADDRESS_SPACE,
                vm@.wf(),
                vm@ == initial_vm(vm@.mem),
                vm@.mem.len() == ADDRESS_SPACE,
                forall|j: int| 0 <= j < i ==> vm@.mem[j] == loaded_mem_words(words@)[j],
                forall|j: int| i <= j < ADDRESS_SPACE ==> vm@.mem[j] == 0u16,
            decreases ADDRESS_SPACE - i,
        {
            let w: u16 = words[i];
            vm.memory.set(i, w);
            i = i + 1;
        }
        proof {
            assert(vm@.mem =~= loaded_mem_words(words@));
        }
        vm
    }

    /// Appends characters to the input queue, for the next `in`
    /// instructions to consume in order.
    pub fn feed_input(&mut self, bytes: &Vec<u8>)
        requires
            old(self)@.wf(),
        ensures
            final(self)@.wf(),
            final(self)@ == (VmView { input: old(self)@.input + bytes@, ..old(self)@ }),
    {
        proof {
            assert(old(self)@.input + bytes@.subrange(0, 0) =~= old(self)@.input);
        }
        let mut j: usize = 0;
        while j < bytes.len()
            invariant
                j <= bytes.len(),
                self@ == (VmView {
                    input: old(self)@.input + bytes@.subrange(0, j as int),
                    ..old(self)@
                }),
            decreases bytes.len() - j,
        {
            let b: u8 = bytes[j];
            self.buffered_input.push(b);
            j = j + 1;
            proof {
                assert(old(self)@.input + bytes@.subrange(0, j as int) =~= (old(self)@.input
                    + bytes@.subrange(0, j as int - 1)).push(bytes@[j as int - 1]));
            }
        }
        proof {
            assert(bytes@.subrange(0, bytes@.len() as int) =~= bytes@);
        }
    }

    /// The contents of one register.
    pub fn register(&self, i: usize) -> (r: u16)
        requires
            self@.wf(),
            i < NUM_REGISTERS,
        ensures
            r == self@.regs[i as int],
    {
        self.registers[i]
    }

    /// The contents of one memory cell.
    pub fn memory_at(&self, addr: usize) -> (r: u16)
        requires
            self@.wf(),
            addr < ADDRESS_SPACE,
        ensures
            r == self@.mem[addr as int],
    {
        self.memory[addr]
    }

    /// The depth of the value stack.
    pub fn stack_len(&self) -> (n: usize)
        ensures
            n == self@.stack.len(),
    {
        self.stack.len()
    }

    /// Whether a `halt` has been executed.
    pub fn is_halted(&self) -> (b: bool)
        ensures
            b == self@.halted,
    {
        self.halted
    }

    /// The character codes emitted so far, oldest first.
    pub fn emitted(&self) -> (o: &Vec<u16>)
        ensures
            o@ == self@.output,
    {
        &self.output_buffer
    }

    /// Empties the output queue; a host calls this after printing what
    /// [`Self::emitted`] returned.
    pub fn clear_output(&mut self)
        requires
            old(self)@.wf(),
        ensures
            final(self)@.wf(),
            final(self)@ == (VmView { output: Seq::empty(), ..old(self)@ }),
    {
        self.output_buffer = Vec::new();
    }

    /// Reads a value operand at the instruction pointer and resolves
    /// it: a literal is its own value, a register reference yields the
    /// register's contents, anything else is a fault.
    fn read(&mut self) -> (r: Result<u16, VMError>)
        requires
            old(self)@.wf(),
        ensures
            final(self)@.wf(),
            (final(self)@, r) == rd(old(self)@),
            (match r {
                Ok(v) => v < 32768,
                Err(_) => final(self)@ == old(self)@,
            }),
    {
        proof {
            lemma_rd(old(self)@);
        }
        if self.pointer >= ADDRESS_SPACE {
            return Err(VMError::BadAddress(32768));
        }
        let w: u16 = self.memory[self.pointer];
        if w < 32768 {
            self.pointer = self.pointer + 1;
            Ok(w)
        } else if w <= MAX_OPERAND {
            let v: u16 = self.registers[(w - 32768) as usize];
            self.pointer = self.pointer + 1;
            Ok(v)
        } else {
            Err(VMError::InvalidOperand(w))
        }
    }

    /// Reads a destination operand at the instruction pointer: the
    /// word must name a register; the result is the register index.
    fn fetch_dest(&mut self) -> (r: Result<u16, VMError>)
        requires
            old(self)@.wf(),
        ensures
            final(self)@.wf(),
            (final(self)@, r) == rd_dest(old(self)@),
            (match r {
                Ok(a) => a < 8,
                Err(_) => final(self)@ == old(self)@,
            }),
    {
        proof {
            lemma_rd_dest(old(self)@);
        }
        if self.pointer >= ADDRESS_SPACE {
            return Err(VMError::BadAddress(32768));
        }
        let w: u16 = self.memory[self.pointer];
        if 32768 <= w && w <= MAX_OPERAND {
            self.pointer = self.pointer + 1;
            Ok(w - 32768)
        } else {
            Err(VMError::InvalidOperand(w))
        }
    }

    /// `halt`: transition to the halted state.
    fn halt(&mut self) -> (r: Result<StepOutcome, VMError>)
        requires
            old(self)@.wf(),
        ensures
            (final(self)@, r) == spec_halt(old(self)@),
    {
        self.halted = true;
        Ok(StepOutcome::Halted)
    }

    /// `set a b`: register `a` receives the value of `b`.
    fn set(&mut self) -> (r: Result<StepOutcome, VMError>)
        requires
            old(self)@.wf(),
        ensures
            (final(self)@, r) == spec_set(old(self)@),
    {
        let a: u16 = match self.fetch_dest() {
            Ok(a) => a,
            Err(e) => {
                return Err(e);
            },
        };
        let b: u16 = match self.read() {
            Ok(v) => v,
            Err(e) => {
                return Err(e);
            },
        };
        self.registers.set(a as usize, b);
        Ok(StepOutcome::Continue)
    }

    /// `eq a b c`: register `a` receives 1 when the values of `b` and
    /// `c` are equal, else 0.
    fn eq(&mut self) -> (r: Result<StepOutcome, VMError>)
        requires
            old(self)@.wf(),
        ensures
            (final(self)@, r) == spec_binop(old(self)@, Op::Eq),
    {
        let a: u16 = match self.fetch_dest() {
            Ok(a) => a,
            Err(e) => {
                return Err(e);
            },
        };
        let b: u16 = match self.read() {
            Ok(v) => v,
            Err(e) => {
                return Err(e);
            },
        };
        let c: u16 = match self.read() {
            Ok(v) => v,
            Err(e) => {
                return Err(e);
            },
        };
        let v: u16 = if b == c {
            1
        } else {
            0
        };
        self.registers.set(a as usize, v);
        Ok(StepOutcome::Continue)
    }

    /// `gt a b c`: register `a` receives 1 when the value of `b`
    /// exceeds the value of `c`, else 0.
    fn gt(&mut self) -> (r: Result<StepOutcome, VMError>)
        requires
            old(self)@.wf(),
        ensures
            (final(self)@, r) == spec_binop(old(self)@, Op::Gt),
    {
        let a: u16 = match self.fetch_dest() {
            Ok(a) => a,
            Err(e) => {
                return Err(e);
            },
        };
        let b: u16 = match self.read() {
            Ok(v) => v,
            Err(e) => {
                return Err(e);
            },
        };
        let c: u16 = match self.read() {
            Ok(v) => v,
            Err(e) => {
                return Err(e);
            },
        };
        let v: u16 = if b > c {
            1
        } else {
            0
        };
        self.registers.set(a as usize, v);
        Ok(StepOutcome::Continue)
    }

    /// `add a b c`: register `a` receives the sum of the values of `b`
    /// and `c`, modulo 32768.
    fn add(&mut self) -> (r: Result<StepOutcome, VMError>)
        requires
            old(self)@.wf(),
        ensures
            (final(self)@, r) == spec_binop(old(self)@, Op::Add),
    {
        let a: u16 = match self.fetch_dest() {
            Ok(a) => a,
            Err(e) => {
                return Err(e);
            },
        };
        let b: u16 = match self.read() {
            Ok(v) => v,
            Err(e) => {
                return Err(e);
            },
        };
        let c: u16 = match self.read() {
            Ok(v) => v,
            Err(e) => {
                return Err(e);
            },
        };
        let v: u16 = (b + c) % 32768;
        self.registers.set(a as usize, v);
        Ok(StepOutcome::Continue)
    }

    /// `mult a b c`: register `a` receives the product of the values
    /// of `b` and `c`, modulo 32768.
    fn mult(&mut self) -> (r: Result<StepOutcome, VMError>)
        requires
            old(self)@.wf(),
        ensures
            (final(self)@, r) == spec_binop(old(self)@, Op::Mult),
    {
        let a: u16 = match self.fetch_dest() {
            Ok(a) => a,
            Err(e) => {
                return Err(e);
            },
        };
        let b: u16 = match self.read() {
            Ok(v) => v,
            Err(e) => {
                return Err(e);
            },
        };
        let c: u16 = match self.read() {
            Ok(v) => v,
            Err(e) => {
                return Err(e);
            },
        };
        assert((b as int) * (c as int) <= 32767 * 32767) by (nonlinear_arith)
            requires
                b < 32768,
                c < 32768,
        ;
        let v: u16 = (((b as u32) * (c as u32)) % 32768) as u16;
        self.registers.set(a as usize, v);
        Ok(StepOutcome::Continue)
    }

    /// `mod a b c`: register `a` receives the remainder of the value
    /// of `b` by the value of `c`; a zero divisor is a fault.
    fn modu(&mut self) -> (r: Result<StepOutcome, VMError>)
        requires
            old(self)@.wf(),
        ensures
            (final(self)@, r) == spec_binop(old(self)@, Op::Mod),
    {
        let a: u16 = match self.fetch_dest() {
            Ok(a) => a,
            Err(e) => {
                return Err(e);
            },
        };
        let b: u16 = match self.read() {
            Ok(v) => v,
            Err(e) => {
                return Err(e);
            },
        };
        let c: u16 = match self.read() {
            Ok(v) => v,
            Err(e) => {
                return Err(e);
            },
        };
        if c == 0 {
            return Err(VMError::DivideByZero);
        }
        let v: u16 = b % c;
        self.registers.set(a as usize, v);
        Ok(StepOutcome::Continue)
    }

    /// `and a b c`: register `a` receives the bitwise and of the
    /// values of `b` and `c`.
    fn and(&mut self) -> (r: Result<StepOutcome, VMError>)
        requires
            old(self)@.wf(),
        ensures
            (final(self)@, r) == spec_binop(old(self)@, Op::And),
    {
        let a: u16 = match self.fetch_dest() {
            Ok(a) => a,
            Err(e) => {
                return Err(e);
            },
        };
        let b: u16 = match self.read() {
            Ok(v) => v,
            Err(e) => {
                return Err(e);
            },
        };
        let c: u16 = match self.read() {
            Ok(v) => v,
            Err(e) => {
                return Err(e);
            },
        };
        let v: u16 = b & c;
        self.registers.set(a as usize, v);
        Ok(StepOutcome::Continue)
    }

    /// `or a b c`: register `a` receives the bitwise or of the values
    /// of `b` and `c`.
    fn or(&mut self) -> (r: Result<StepOutcome, VMError>)
        requires
            old(self)@.wf(),
        ensures
            (final(self)@, r) == spec_binop(old(self)@, Op::Or),
    {
        let a: u16 = match self.fetch_dest() {
            Ok(a) => a,
            Err(e) => {
                return Err(e);
            },
        };
        let b: u16 = match self.read() {
            Ok(v) => v,
            Err(e) => {
                return Err(e);
            },
        };
        let c: u16 = match self.read() {
            Ok(v) => v,
            Err(e) => {
                return Err(e);
            },
        };
        let v: u16 = b | c;
        self.registers.set(a as usize, v);
        Ok(StepOutcome::Continue)
    }

    /// `not a b`: register `a` receives the 15-bit complement of the
    /// value of `b`.
    fn not(&mut self) -> (r: Result<StepOutcome, VMError>)
        requires
            old(self)@.wf(),
        ensures
            (final(self)@, r) == spec_not(old(self)@),
    {
        let a: u16 = match self.fetch_dest() {
            Ok(a) => a,
            Err(e) => {
                return Err(e);
            },
        };
        let b: u16 = match self.read() {
            Ok(v) => v,
            Err(e) => {
                return Err(e);
            },
        };
        let v: u16 = !b & 0x7fff;
        self.registers.set(a as usize, v);
        Ok(StepOutcome::Continue)
    }

    /// `push a`: the value of `a` goes onto the stack.
    fn push(&mut self) -> (r: Result<StepOutcome, VMError>)
        requires
            old(self)@.wf(),
        ensures
            (final(self)@, r) == spec_push(old(self)@),
    {
        let a: u16 = match self.read() {
            Ok(v) => v,
            Err(e) => {
                return Err(e);
            },
        };
        self.stack.push(a);
        Ok(StepOutcome::Continue)
    }

    /// `pop a`: register `a` receives the top of the stack; an empty
    /// stack is a fault.
    fn pop(&mut self) -> (r: Result<StepOutcome, VMError>)
        requires
            old(self)@.wf(),
        ensures
            (final(self)@, r) == spec_pop(old(self)@),
    {
        let a: u16 = match self.fetch_dest() {
            Ok(a) => a,
            Err(e) => {
                return Err(e);
            },
        };
        match self.stack.pop() {
            Some(v) => {
                self.registers.set(a as usize, v);
                Ok(StepOutcome::Continue)
            },
            None => Err(VMError::EmptyStack),
        }
    }

    /// `jmp a`: the instruction pointer moves to the value of `a`.
    fn jmp(&mut self) -> (r: Result<StepOutcome, VMError>)
        requires
            old(self)@.wf(),
        ensures
            (final(self)@, r) == spec_jmp(old(self)@),
    {
        let a: u16 = match self.read() {
            Ok(v) => v,
            Err(e) => {
                return Err(e);
            },
        };
        self.pointer = a as usize;
        Ok(StepOutcome::Continue)
    }

    /// `jt a b`: jump to the value of `b` when the value of `a` is
    /// nonzero.
    fn jt(&mut self) -> (r: Result<StepOutcome, VMError>)
        requires
            old(self)@.wf(),
        ensures
            (final(self)@, r) == spec_jt(old(self)@),
    {
        let a: u16 = match self.read() {
            Ok(v) => v,
            Err(e) => {
                return Err(e);
            },
        };
        let b: u16 = match self.read() {
            Ok(v) => v,
            Err(e) => {
                return Err(e);
            },
        };
        if a != 0 {
            self.pointer = b as usize;
        }
        Ok(StepOutcome::Continue)
    }

    /// `jf a b`: jump to the value of `b` when the value of `a` is
    /// zero.
    fn jf(&mut self) -> (r: Result<StepOutcome, VMError>)
        requires
            old(self)@.wf(),
        ensures
            (final(self)@, r) == spec_jf(old(self)@),
    {
        let a: u16 = match self.read() {
            Ok(v) => v,
            Err(e) => {
                return Err(e);
            },
        };
        let b: u16 = match self.read() {
            Ok(v) => v,
            Err(e) => {
                return Err(e);
            },
        };
        if a == 0 {
            self.pointer = b as usize;
        }
        Ok(StepOutcome::Continue)
    }

    /// `rmem a b`: register `a` receives the memory cell addressed by
    /// the value of `b`; a cell that does not hold a literal cannot be
    /// placed in a register and is a fault.
    fn rmem(&mut self) -> (r: Result<StepOutcome, VMError>)
        requires
            old(self)@.wf(),
        ensures
            (final(self)@, r) == spec_rmem(old(self)@),
    {
        let a: u16 = match self.fetch_dest() {
            Ok(a) => a,
            Err(e) => {
                return Err(e);
            },
        };
        let b: u16 = match self.read() {
            Ok(v) => v,
            Err(e) => {
                return Err(e);
            },
        };
        let cell: u16 = self.memory[b as usize];
        if cell >= 32768 {
            return Err(VMError::InvalidOperand(cell));
        }
        self.registers.set(a as usize, cell);
        Ok(StepOutcome::Continue)
    }

    /// `wmem a b`: the memory cell addressed by the value of `a`
    /// receives the value of `b`.
    fn wmem(&mut self) -> (r: Result<StepOutcome, VMError>)
        requires
            old(self)@.wf(),
        ensures
            (final(self)@, r) == spec_wmem(old(self)@),
    {
        let a: u16 = match self.read() {
            Ok(v) => v,
            Err(e) => {
                return Err(e);
            },
        };
        let b: u16 = match self.read() {
            Ok(v) => v,
            Err(e) => {
                return Err(e);
            },
        };
        self.memory.set(a as usize, b);
        Ok(StepOutcome::Continue)
    }

    /// `call a`: the address of the next instruction goes onto the
    /// stack and execution continues at the value of `a`.
    fn call(&mut self) -> (r: Result<StepOutcome, VMError>)
        requires
            old(self)@.wf(),
        ensures
            (final(self)@, r) == spec_call(old(self)@),
    {
        let a: u16 = match self.read() {
            Ok(v) => v,
            Err(e) => {
                return Err(e);
            },
        };
        if self.pointer >= ADDRESS_SPACE {
            return Err(VMError::BadAddress(32768));
        }
        self.stack.push(self.pointer as u16);
        self.pointer = a as usize;
        Ok(StepOutcome::Continue)
    }

    /// `ret`: execution resumes at the address on top of the stack; an
    /// empty stack is a fault.
    fn ret(&mut self) -> (r: Result<StepOutcome, VMError>)
        requires
            old(self)@.wf(),
        ensures
            (final(self)@, r) == spec_ret(old(self)@),
    {
        match self.stack.pop() {
            Some(target) => {
                self.pointer = target as usize;
                Ok(StepOutcome::Continue)
            },
            None => Err(VMError::EmptyStack),
        }
    }

    /// `out a`: the value of `a` joins the output queue.
    fn output(&mut self) -> (r: Result<StepOutcome, VMError>)
        requires
            old(self)@.wf(),
        ensures
            (final(self)@, r) == spec_out(old(self)@),
    {
        let a: u16 = match self.read() {
            Ok(v) => v,
            Err(e) => {
                return Err(e);
            },
        };
        self.output_buffer.push(a);
        Ok(StepOutcome::Continue)
    }

    /// `in a`: register `a` receives the oldest queued character; an
    /// empty queue suspends the instruction without consuming
    /// anything.
    fn input(&mut self) -> (r: Result<StepOutcome, VMError>)
        requires
            old(self)@.wf(),
        ensures
            (final(self)@, r) == spec_in(old(self)@),
    {
        if self.buffered_input.len() == 0 {
            return Ok(StepOutcome::NeedInput);
        }
        let a: u16 = match self.fetch_dest() {
            Ok(a) => a,
            Err(e) => {
                return Err(e);
            },
        };
        let ch: u8 = self.buffered_input.remove(0);
        self.registers.set(a as usize, ch as u16);
        proof {
            assert(old(self)@.input.remove(0) =~= old(self)@.input.drop_first());
        }
        Ok(StepOutcome::Continue)
    }

    /// `noop`: nothing.
    fn noop(&mut self) -> (r: Result<StepOutcome, VMError>)
        requires
            old(self)@.wf(),
        ensures
            (final(self)@, r) == spec_noop(old(self)@),
    {
        Ok(StepOutcome::Continue)
    }

    /// One full step: fetch the opcode, decode, dispatch.  The result
    /// and the new state are exactly those of the specification
    /// interpreter; in particular a fault, and a suspension for input,
    /// leave the state untouched.
    pub fn exec(&mut self) -> (r: Result<StepOutcome, VMError>)
        requires
            old(self)@.wf(),
        ensures
            final(self)@.wf(),
            (final(self)@, r) == spec_step(old(self)@),
    {
        let ghost s = old(self)@;
        if self.halted {
            return Ok(StepOutcome::Halted);
        }
        let p0: usize = self.pointer;
        if p0 >= ADDRESS_SPACE {
            return Err(VMError::BadAddress(32768));
        }
        let code: u16 = self.memory[p0];
        self.pointer = p0 + 1;
        assert(self@ == advance1(s));
        let op = match Op::from_code(code) {
            Some(op) => op,
            None => {
                self.pointer = p0;
                assert(self@ == s);
                return Err(VMError::UnknownOperation(code));
            },
        };
        let res = match op {
            Op::Halt => self.halt(),
            Op::SetReg => self.set(),
            Op::Push => self.push(),
            Op::Pop => self.pop(),
            Op::Eq => self.eq(),
            Op::Gt => self.gt(),
            Op::Jmp => self.jmp(),
            Op::Jt => self.jt(),
            Op::Jf => self.jf(),
            Op::Add => self.add(),
            Op::Mult => self.mult(),
            Op::Mod => self.modu(),
            Op::And => self.and(),
            Op::Or => self.or(),
            Op::Not => self.not(),
            Op::Rmem => self.rmem(),
            Op::Wmem => self.wmem(),
            Op::Call => self.call(),
            Op::Ret => self.ret(),
            Op::Out => self.output(),
            Op::In => self.input(),
            Op::Noop => self.noop(),
        };
        proof {
            lemma_exec_op_props(advance1(s), op);
        }
        match res {
            Ok(StepOutcome::NeedInput) => {
                self.pointer = p0;
                assert(self@ == s);
                Ok(StepOutcome::NeedInput)
            },
            Ok(o) => Ok(o),
            Err(e) => {
                self.pointer = p0;
                assert(self@ == s);
                Err(e)
            },
        }
    }

    /// Runs up to `fuel` instructions.  `Ok(Halted)` reports a clean
    /// halt and `Err` a fault; `Ok(NeedInput)` asks the host to feed
    /// input and call again; `Ok(Continue)` means the budget ran out
    /// first.  The final state is exactly an iterate of the
    /// specification interpreter from the starting state.
    pub fn run(&mut self, fuel: u64) -> (r: Result<StepOutcome, VMError>)
        requires
            old(self)@.wf(),
        ensures
            final(self)@.wf(),
            exists|n: nat| final(self)@ == iter_step(old(self)@, n),
            old(self)@.output.is_prefix_of(final(self)@.output),
            (match r {
                Ok(StepOutcome::Continue) => final(self)@ == iter_step(old(self)@, fuel as nat),
                Ok(StepOutcome::Halted) => final(self)@.halted,
                Ok(StepOutcome::NeedInput) => spec_step(final(self)@).1 == Ok::<
                    StepOutcome,
                    VMError,
                >(StepOutcome::NeedInput) && final(self)@.input.len() == 0,
                Err(e) => spec_step(final(self)@).1 == Err::<StepOutcome, VMError>(e),
            }),
    {
        proof {
            assert(old(self)@.output.is_prefix_of(old(self)@.output));
        }
        let mut i: u64 = 0;
        while i < fuel
            invariant
                old(self)@.wf(),
                self@.wf(),
                i <= fuel,
                self@ == iter_step(old(self)@, i as nat),
                old(self)@.output.is_prefix_of(self@.output),
            decreases fuel - i,
        {
            let ghost prev = self@;
            let r = self.exec();
            proof {
                lemma_step_invariants(prev);
                assert(iter_step(old(self)@, (i + 1) as nat) == spec_step(
                    iter_step(old(self)@, i as nat),
                ).0);
                lemma_prefix_trans(old(self)@.output, prev.output, self@.output);
            }
            i = i + 1;
            match r {
                Ok(StepOutcome::Continue) => {},
                Ok(StepOutcome::Halted) => {
                    return Ok(StepOutcome::Halted);
                },
                Ok(StepOutcome::NeedInput) => {
                    return Ok(StepOutcome::NeedInput);
                },
                Err(e) => {
                    return Err(e);
                },
            }
        }
        Ok(StepOutcome::Continue)
    }
}

} // verus!
