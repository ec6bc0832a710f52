//! Laws of the machine, stated and proved over the specification
//! interpreter.

use crate::errors::VMError;
use crate::ops::{spec_decode, Op};
use crate::sem::{
    advance1, is_literal, is_operand, is_reg_ref, iter_step, rd, rd_dest, reg_index, resolve,
    same_except_ip, spec_binop, spec_exec, spec_step, val_binop, val_not, StepOutcome, VmView,
    ADDRESS_SPACE,
};
use vstd::prelude::*;

verus! {

/// Reading a value operand from a well-formed state yields a literal
/// and advances one word; a fault leaves the state as it stands.
pub proof fn lemma_rd(h: VmView)
    requires
        h.wf(),
    ensures
        ({
            let (h1, r) = rd(h);
            match r {
                Ok(v) => v < 32768 && h1 == advance1(h) && h1.wf(),
                Err(_) => h1 == h,
            }
        }),
{
}

/// Reading a destination operand from a well-formed state yields a
/// register index and advances one word; a fault leaves the state as it
/// stands.
pub proof fn lemma_rd_dest(h: VmView)
    requires
        h.wf(),
    ensures
        ({
            let (h1, r) = rd_dest(h);
            match r {
                Ok(a) => a < 8 && h1 == advance1(h) && h1.wf(),
                Err(_) => h1 == h,
            }
        }),
{
}

/// Each of the seven three-operand operations stores a literal: the
/// comparisons store only 0 or 1, the modular operations reduce below
/// 32768, and the bitwise operations cannot set the high bit when their
/// inputs do not carry it.
pub proof fn lemma_val_binop_literal(op: Op, b: u16, c: u16)
    requires
        b < 32768,
        c < 32768,
        op == Op::Mod ==> c != 0,
    ensures
        val_binop(op, b, c) < 32768,
{
    match op {
        Op::And => {
            assert((b & c) < 32768) by (bit_vector)
                requires
                    b < 32768,
                    c < 32768,
            ;
        },
        Op::Or => {
            assert((b | c) < 32768) by (bit_vector)
                requires
                    b < 32768,
                    c < 32768,
            ;
        },
        _ => {},
    }
}

/// The 15-bit complement is always a literal.
pub proof fn lemma_val_not_literal(b: u16)
    ensures
        val_not(b) < 32768,
{
    assert((!b & 0x7fff) < 32768) by (bit_vector);
}

/// A prefix of a prefix is a prefix.
pub proof fn lemma_prefix_trans(a: Seq<u16>, b: Seq<u16>, c: Seq<u16>)
    requires
        a.is_prefix_of(b),
        b.is_prefix_of(c),
    ensures
        a.is_prefix_of(c),
{
    assert(a =~= c.subrange(0, a.len() as int));
}

/// What one decoded operation guarantees from any well-formed state
/// whose instruction pointer stands just past the opcode word: the
/// result is well formed; a fault or a suspension for input writes
/// nothing; a `Halted` outcome really halts; output only grows.
pub proof fn lemma_exec_op_props(h: VmView, op: Op)
    requires
        h.wf(),
    ensures
        ({
            let (t, r) = spec_exec(h, op);
            &&& t.wf()
            &&& (r is Err ==> same_except_ip(t, h))
            &&& (r == Ok::<StepOutcome, VMError>(StepOutcome::NeedInput) ==> t == h
                && h.input.len() == 0)
            &&& (r == Ok::<StepOutcome, VMError>(StepOutcome::Halted) ==> t.halted)
            &&& h.output.is_prefix_of(t.output)
            &&& forall|i: int| 0 <= i < t.mem.len() ==> t.mem[i] == h.mem[i] || is_literal(
                #[trigger] t.mem[i],
            )
            &&& ((op == Op::Push || op == Op::Call) && r == Ok::<StepOutcome, VMError>(
                StepOutcome::Continue,
            ) ==> t.stack.len() == h.stack.len() + 1)
            &&& ((op == Op::Pop || op == Op::Ret) && r == Ok::<StepOutcome, VMError>(
                StepOutcome::Continue,
            ) ==> t.stack.len() == h.stack.len() - 1)
            &&& (!(op == Op::Push || op == Op::Call || op == Op::Pop || op == Op::Ret)
                ==> t.stack == h.stack)
        }),
{
    assert(h.output.is_prefix_of(h.output));
    match op {
        Op::Halt => {},
        Op::SetReg => {
            lemma_rd_dest(h);
            let (h1, r1) = rd_dest(h);
            if r1 is Ok {
                lemma_rd(h1);
            }
        },
        Op::Push => {
            lemma_rd(h);
        },
        Op::Pop => {
            lemma_rd_dest(h);
        },
        Op::Eq | Op::Gt | Op::Add | Op::Mult | Op::Mod | Op::And | Op::Or => {
            lemma_binop_props(h, op);
        },
        Op::Jmp => {
            lemma_rd(h);
        },
        Op::Jt | Op::Jf => {
            lemma_rd(h);
            let (h1, r1) = rd(h);
            if r1 is Ok {
                lemma_rd(h1);
            }
        },
        Op::Not => {
            lemma_rd_dest(h);
            let (h1, r1) = rd_dest(h);
            if r1 is Ok {
                lemma_rd(h1);
                let (h2, r2) = rd(h1);
                if r2 is Ok {
                    lemma_val_not_literal(r2->Ok_0);
                }
            }
        },
        Op::Rmem => {
            lemma_rd_dest(h);
            let (h1, r1) = rd_dest(h);
            if r1 is Ok {
                lemma_rd(h1);
            }
        },
        Op::Wmem => {
            lemma_rd(h);
            let (h1, r1) = rd(h);
            if r1 is Ok {
                lemma_rd(h1);
            }
        },
        Op::Call => {
            lemma_rd(h);
        },
        Op::Ret => {},
        Op::Out => {
            lemma_rd(h);
            let (h1, r1) = rd(h);
            if r1 is Ok {
                assert(h.output.is_prefix_of(h.output.push(r1->Ok_0)));
            }
        },
        Op::In => {
            if h.input.len() > 0 {
                lemma_rd_dest(h);
            }
        },
        Op::Noop => {},
    }
}

/// The three-operand operations preserve well-formedness and write
/// nothing when they fault.
proof fn lemma_binop_props(h: VmView, op: Op)
    requires
        h.wf(),
        op == Op::Eq || op == Op::Gt || op == Op::Add || op == Op::Mult || op == Op::Mod || op
            == Op::And || op == Op::Or,
    ensures
        ({
            let (t, r) = spec_binop(h, op);
            &&& t.wf()
            &&& (r is Err ==> same_except_ip(t, h))
            &&& t.output == h.output
        }),
{
    lemma_rd_dest(h);
    let (h1, r1) = rd_dest(h);
    if r1 is Ok {
        lemma_rd(h1);
        let (h2, r2) = rd(h1);
        if r2 is Ok {
            lemma_rd(h2);
            let (h3, r3) = rd(h2);
            if r3 is Ok {
                if !(op == Op::Mod && r3->Ok_0 == 0) {
                    lemma_val_binop_literal(op, r2->Ok_0, r3->Ok_0);
                }
            }
        }
    }
}

/// One full step from a well-formed state: the result is well formed,
/// so every register and every stack entry holds a literal in every
/// reachable state; every memory cell the step changes receives a
/// literal; a fault, and a suspension for input, leave the state
/// exactly as it was; a `Halted` outcome means the machine is halted;
/// output only grows.
pub proof fn lemma_step_invariants(s: VmView)
    requires
        s.wf(),
    ensures
        ({
            let (t, r) = spec_step(s);
            &&& t.wf()
            &&& (r is Err ==> t == s)
            &&& (r == Ok::<StepOutcome, VMError>(StepOutcome::NeedInput) ==> t == s
                && s.input.len() == 0 && !s.halted)
            &&& (r == Ok::<StepOutcome, VMError>(StepOutcome::Halted) ==> t.halted)
            &&& s.output.is_prefix_of(t.output)
            &&& forall|i: int| 0 <= i < t.mem.len() ==> t.mem[i] == s.mem[i] || is_literal(
                #[trigger] t.mem[i],
            )
        }),
{
    assert(s.output.is_prefix_of(s.output));
    if !s.halted && s.ip < ADDRESS_SPACE {
        match spec_decode(s.mem[s.ip]) {
            None => {},
            Some(op) => {
                lemma_exec_op_props(advance1(s), op);
            },
        }
    }
}

/// The stack obeys a strict discipline: a successful `push` or `call`
/// deepens it by exactly one entry, a successful `pop` or `ret`
/// removes exactly one, and no other instruction touches it.  Summed
/// over any fault-free run, the depth is therefore the number of
/// `push` and `call` steps minus the number of `pop` and `ret` steps.
pub proof fn lemma_step_stack_discipline(s: VmView)
    requires
        s.wf(),
    ensures
        ({
            let (t, r) = spec_step(s);
            let pushing = !s.halted && s.ip < ADDRESS_SPACE && (s.mem[s.ip] == 2 || s.mem[s.ip]
                == 17);
            let popping = !s.halted && s.ip < ADDRESS_SPACE && (s.mem[s.ip] == 3 || s.mem[s.ip]
                == 18);
            &&& (r is Err ==> t.stack == s.stack)
            &&& (r is Ok && pushing ==> t.stack.len() == s.stack.len() + 1)
            &&& (r is Ok && popping ==> t.stack.len() == s.stack.len() - 1)
            &&& (r is Ok && !pushing && !popping ==> t.stack == s.stack)
        }),
{
    if !s.halted && s.ip < ADDRESS_SPACE {
        match spec_decode(s.mem[s.ip]) {
            None => {},
            Some(op) => {
                lemma_exec_op_props(advance1(s), op);
            },
        }
    }
}

/// Whether the step from `s` is a successful `push` or `call`: the
/// two instructions that deepen the stack.
pub open spec fn step_pushes(s: VmView) -> bool {
    &&& !s.halted
    &&& s.ip < ADDRESS_SPACE
    &&& (s.mem[s.ip] == 2 || s.mem[s.ip] == 17)
    &&& spec_step(s).1 is Ok
}

/// Whether the step from `s` is a successful `pop` or `ret`: the two
/// instructions that shorten the stack.
pub open spec fn step_pops(s: VmView) -> bool {
    &&& !s.halted
    &&& s.ip < ADDRESS_SPACE
    &&& (s.mem[s.ip] == 3 || s.mem[s.ip] == 18)
    &&& spec_step(s).1 is Ok
}

/// The number of successful `push` and `call` steps minus the number
/// of successful `pop` and `ret` steps among the first `n` steps from
/// `s`.
pub open spec fn stack_balance(s: VmView, n: nat) -> int
    decreases n,
{
    if n == 0 {
        0
    } else {
        let prev = iter_step(s, (n - 1) as nat);
        stack_balance(s, (n - 1) as nat) + if step_pushes(prev) {
            1int
        } else if step_pops(prev) {
            -1int
        } else {
            0int
        }
    }
}

/// Well-formedness holds along the whole run.
pub proof fn lemma_iter_wf(s: VmView, n: nat)
    requires
        s.wf(),
    ensures
        iter_step(s, n).wf(),
    decreases n,
{
    if n > 0 {
        lemma_iter_wf(s, (n - 1) as nat);
        lemma_step_invariants(iter_step(s, (n - 1) as nat));
    }
}

/// After any number of steps, the stack's depth is its starting depth
/// plus the number of successful `push` and `call` steps taken, minus
/// the number of successful `pop` and `ret` steps taken.
pub proof fn lemma_stack_depth_counts(s: VmView, n: nat)
    requires
        s.wf(),
    ensures
        iter_step(s, n).stack.len() == s.stack.len() + stack_balance(s, n),
    decreases n,
{
    if n > 0 {
        lemma_stack_depth_counts(s, (n - 1) as nat);
        let prev = iter_step(s, (n - 1) as nat);
        lemma_iter_wf(s, (n - 1) as nat);
        lemma_step_stack_discipline(prev);
    }
}

/// `set a L` with a literal `L` stores exactly `L` in register `a` and
/// falls through to the next instruction.
pub proof fn lemma_set_literal(s: VmView, a: u16, lit: u16)
    requires
        s.wf(),
        !s.halted,
        s.ip + 2 < ADDRESS_SPACE,
        s.mem[s.ip] == 1,
        s.mem[s.ip + 1] == a,
        is_reg_ref(a),
        s.mem[s.ip + 2] == lit,
        is_literal(lit),
    ensures
        ({
            let (t, r) = spec_step(s);
            &&& r == Ok::<StepOutcome, VMError>(StepOutcome::Continue)
            &&& t == (VmView { ip: s.ip + 3, regs: s.regs.update(reg_index(a), lit), ..s })
        }),
{
}

/// `push x` then `pop y` stores the value `x` had at the `push` in
/// register `y` and leaves the stack exactly as it was.
pub proof fn lemma_push_pop(s: VmView, x: u16, y: u16)
    requires
        s.wf(),
        !s.halted,
        s.ip + 3 < ADDRESS_SPACE,
        s.mem[s.ip] == 2,
        s.mem[s.ip + 1] == x,
        is_operand(x),
        s.mem[s.ip + 2] == 3,
        s.mem[s.ip + 3] == y,
        is_reg_ref(y),
    ensures
        ({
            let (s1, r1) = spec_step(s);
            let (s2, r2) = spec_step(s1);
            &&& r1 == Ok::<StepOutcome, VMError>(StepOutcome::Continue)
            &&& r2 == Ok::<StepOutcome, VMError>(StepOutcome::Continue)
            &&& s2.regs == s.regs.update(reg_index(y), resolve(s, x))
            &&& s2.stack == s.stack
            &&& s2.ip == s.ip + 4
            &&& s2.mem == s.mem
            &&& s2.output == s.output
        }),
{
    assert(s.stack.push(resolve(s, x)).drop_last() =~= s.stack);
}

/// `call T` pushes the address of the instruction that follows the
/// call's operand, and moves execution to the value of `T`.
pub proof fn lemma_call_pushes_return(s: VmView, target: u16)
    requires
        s.wf(),
        !s.halted,
        s.ip + 2 < ADDRESS_SPACE,
        s.mem[s.ip] == 17,
        s.mem[s.ip + 1] == target,
        is_operand(target),
    ensures
        ({
            let (t, r) = spec_step(s);
            &&& r == Ok::<StepOutcome, VMError>(StepOutcome::Continue)
            &&& t.ip == resolve(s, target)
            &&& t.stack == s.stack.push((s.ip + 2) as u16)
            &&& t.regs == s.regs
            &&& t.mem == s.mem
            &&& t.output == s.output
        }),
{
}

/// `ret` pops the address on top of the stack and resumes there.
pub proof fn lemma_ret_resumes(s: VmView)
    requires
        s.wf(),
        !s.halted,
        s.ip < ADDRESS_SPACE,
        s.mem[s.ip] == 18,
        s.stack.len() > 0,
    ensures
        ({
            let (t, r) = spec_step(s);
            &&& r == Ok::<StepOutcome, VMError>(StepOutcome::Continue)
            &&& t.ip == s.stack.last()
            &&& t.stack == s.stack.drop_last()
            &&& t.regs == s.regs
            &&& t.mem == s.mem
            &&& t.output == s.output
        }),
{
}

/// A balanced `call`: when the called address holds a `ret` at once,
/// the two steps together resume at the instruction following the
/// call's operand, with the stack, registers and memory restored.
pub proof fn lemma_call_then_ret(s: VmView, target: u16)
    requires
        s.wf(),
        !s.halted,
        s.ip + 2 < ADDRESS_SPACE,
        s.mem[s.ip] == 17,
        s.mem[s.ip + 1] == target,
        is_operand(target),
        s.mem[resolve(s, target) as int] == 18,
    ensures
        ({
            let (s1, r1) = spec_step(s);
            let (s2, r2) = spec_step(s1);
            &&& r1 == Ok::<StepOutcome, VMError>(StepOutcome::Continue)
            &&& r2 == Ok::<StepOutcome, VMError>(StepOutcome::Continue)
            &&& s2.ip == s.ip + 2
            &&& s2.stack == s.stack
            &&& s2.regs == s.regs
            &&& s2.mem == s.mem
            &&& s2.output == s.output
        }),
{
    lemma_call_pushes_return(s, target);
    let (s1, r1) = spec_step(s);
    lemma_ret_resumes(s1);
    assert(s.stack.push((s.ip + 2) as u16).drop_last() =~= s.stack);
}

/// `not` is an involution on the 15-bit value space: applying it twice
/// to any literal gives the literal back.
pub proof fn lemma_not_involution(v: u16)
    requires
        v < 32768,
    ensures
        val_not(val_not(v)) == v,
{
    assert(!(!v & 0x7fff) & 0x7fff == v) by (bit_vector)
        requires
            v < 32768,
    ;
}

/// `add a b 0` stores exactly the value of `b` in register `a`: zero
/// is neutral for the machine's modular sum.
pub proof fn lemma_add_zero(s: VmView, a: u16, b: u16)
    requires
        s.wf(),
        !s.halted,
        s.ip + 3 < ADDRESS_SPACE,
        s.mem[s.ip] == 9,
        s.mem[s.ip + 1] == a,
        is_reg_ref(a),
        s.mem[s.ip + 2] == b,
        is_operand(b),
        s.mem[s.ip + 3] == 0,
    ensures
        ({
            let (t, r) = spec_step(s);
            &&& r == Ok::<StepOutcome, VMError>(StepOutcome::Continue)
            &&& t.regs == s.regs.update(reg_index(a), resolve(s, b))
            &&& t.ip == s.ip + 4
        }),
{
    let h = advance1(s);
    lemma_rd_dest(h);
    let (h1, r1) = rd_dest(h);
    if r1 is Ok {
        lemma_rd(h1);
        let (h2, r2) = rd(h1);
        if r2 is Ok {
            lemma_rd(h2);
        }
    }
}

/// `mult a b 1` stores exactly the value of `b` in register `a`: one
/// is neutral for the machine's modular product.
pub proof fn lemma_mult_one(s: VmView, a: u16, b: u16)
    requires
        s.wf(),
        !s.halted,
        s.ip + 3 < ADDRESS_SPACE,
        s.mem[s.ip] == 10,
        s.mem[s.ip + 1] == a,
        is_reg_ref(a),
        s.mem[s.ip + 2] == b,
        is_operand(b),
        s.mem[s.ip + 3] == 1,
    ensures
        ({
            let (t, r) = spec_step(s);
            &&& r == Ok::<StepOutcome, VMError>(StepOutcome::Continue)
            &&& t.regs == s.regs.update(reg_index(a), resolve(s, b))
            &&& t.ip == s.ip + 4
        }),
{
    let h = advance1(s);
    lemma_rd_dest(h);
    let (h1, r1) = rd_dest(h);
    if r1 is Ok {
        lemma_rd(h1);
        let (h2, r2) = rd(h1);
        if r2 is Ok {
            lemma_rd(h2);
        }
    }
}

/// `add` on two literal operands stores their sum reduced modulo
/// 32768, for every pair of literals.
pub proof fn lemma_add_modular(s: VmView, a: u16, b: u16, c: u16)
    requires
        s.wf(),
        !s.halted,
        s.ip + 3 < ADDRESS_SPACE,
        s.mem[s.ip] == 9,
        s.mem[s.ip + 1] == a,
        is_reg_ref(a),
        s.mem[s.ip + 2] == b,
        is_literal(b),
        s.mem[s.ip + 3] == c,
        is_literal(c),
    ensures
        ({
            let (t, r) = spec_step(s);
            &&& r == Ok::<StepOutcome, VMError>(StepOutcome::Continue)
            &&& t.regs[reg_index(a)] == (b + c) % 32768
            &&& t.ip == s.ip + 4
        }),
{
    let h = advance1(s);
    lemma_rd_dest(h);
    let (h1, r1) = rd_dest(h);
    if r1 is Ok {
        lemma_rd(h1);
        let (h2, r2) = rd(h1);
        if r2 is Ok {
            lemma_rd(h2);
        }
    }
}

/// `eq` and `gt` store nothing but 0 or 1: every register they leave
/// behind is either untouched or holds a truth value.
pub proof fn lemma_eq_gt_boolean(s: VmView)
    requires
        s.wf(),
        !s.halted,
        s.ip < ADDRESS_SPACE,
        s.mem[s.ip] == 4 || s.mem[s.ip] == 5,
    ensures
        ({
            let (t, r) = spec_step(s);
            r is Ok ==> forall|i: int|
                0 <= i < t.regs.len() ==> #[trigger] t.regs[i] == s.regs[i] || t.regs[i] == 0
                    || t.regs[i] == 1
        }),
{
    let h = advance1(s);
    lemma_rd_dest(h);
    let (h1, r1) = rd_dest(h);
    if r1 is Ok {
        lemma_rd(h1);
        let (h2, r2) = rd(h1);
        if r2 is Ok {
            lemma_rd(h2);
        }
    }
}

} // verus!
