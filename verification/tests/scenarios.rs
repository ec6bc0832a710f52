//! End-to-end programs, each run from address zero until halt or
//! fault.

use synacor_vm::{StepOutcome, VMError, VM};

fn run_words(words: Vec<u16>) -> (VM, Result<StepOutcome, VMError>) {
    let mut vm = VM::load_words(&words);
    let r = vm.run(100_000);
    (vm, r)
}

#[test]
fn hello_emit() {
    let (vm, r) = run_words(vec![19, 65, 19, 10, 0]);
    assert_eq!(r, Ok(StepOutcome::Halted));
    assert!(vm.is_halted());
    assert_eq!(vm.emitted().clone(), vec![65, 10]);
}

#[test]
fn register_arithmetic() {
    let (vm, r) = run_words(vec![1, 32768, 7, 1, 32769, 5, 9, 32770, 32768, 32769, 19, 32770, 0]);
    assert_eq!(r, Ok(StepOutcome::Halted));
    assert_eq!(vm.register(0), 7);
    assert_eq!(vm.register(1), 5);
    assert_eq!(vm.register(2), 12);
    assert_eq!(vm.emitted().clone(), vec![12]);
}

#[test]
fn modular_wrap() {
    let (vm, r) = run_words(vec![1, 32768, 32767, 9, 32768, 32768, 2, 19, 32768, 0]);
    assert_eq!(r, Ok(StepOutcome::Halted));
    assert_eq!(vm.register(0), 1);
    assert_eq!(vm.emitted().clone(), vec![1]);
}

#[test]
fn call_and_ret() {
    // The call pushes 2 and moves to the subroutine, which emits 'A'
    // and returns to 2; there 'B' is emitted before the halt.
    let (vm, r) = run_words(vec![17, 5, 19, 66, 0, 19, 65, 18]);
    assert_eq!(r, Ok(StepOutcome::Halted));
    assert_eq!(vm.emitted().clone(), vec![65, 66]);
    assert_eq!(vm.stack_len(), 0);
}

#[test]
fn conditional_jump_not_taken() {
    let (vm, r) = run_words(vec![1, 32768, 0, 7, 32768, 9, 19, 88, 19, 89, 0]);
    assert_eq!(r, Ok(StepOutcome::Halted));
    assert_eq!(vm.emitted().clone(), vec![88, 89]);
}

#[test]
fn conditional_jump_taken() {
    // With a nonzero register the jump lands on the second `out`,
    // skipping the 'X'.
    let (vm, r) = run_words(vec![1, 32768, 1, 7, 32768, 8, 19, 88, 19, 89, 0]);
    assert_eq!(r, Ok(StepOutcome::Halted));
    assert_eq!(vm.emitted().clone(), vec![89]);
}

#[test]
fn empty_stack_fault() {
    let (vm, r) = run_words(vec![18]);
    assert_eq!(r, Err(VMError::EmptyStack));
    assert!(!vm.is_halted());
}

#[test]
fn push_pop_restores_value() {
    // A register used as the push operand: R1 := 6, push R1, pop R0.
    let (vm, r) = run_words(vec![1, 32769, 6, 2, 32769, 3, 32768, 0]);
    assert_eq!(r, Ok(StepOutcome::Halted));
    assert_eq!(vm.register(0), 6);
    assert_eq!(vm.stack_len(), 0);
}

#[test]
fn double_not_is_identity() {
    let (vm, r) = run_words(vec![14, 32768, 21, 14, 32769, 32768, 0]);
    assert_eq!(r, Ok(StepOutcome::Halted));
    assert_eq!(vm.register(1), 21);
}

#[test]
fn add_zero_is_value() {
    let (vm, r) = run_words(vec![9, 32768, 123, 0, 0]);
    assert_eq!(r, Ok(StepOutcome::Halted));
    assert_eq!(vm.register(0), 123);
}

#[test]
fn mult_one_is_value() {
    let (vm, r) = run_words(vec![10, 32768, 55, 1, 0]);
    assert_eq!(r, Ok(StepOutcome::Halted));
    assert_eq!(vm.register(0), 55);
}

#[test]
fn add_is_modular() {
    let (vm, r) = run_words(vec![9, 32768, 30000, 5000, 0]);
    assert_eq!(r, Ok(StepOutcome::Halted));
    assert_eq!(vm.register(0), (30000 + 5000) % 32768);
}

#[test]
fn add_wraps_to_zero() {
    let (vm, r) = run_words(vec![9, 32768, 32767, 1, 0]);
    assert_eq!(r, Ok(StepOutcome::Halted));
    assert_eq!(vm.register(0), 0);
}

#[test]
fn not_zero_is_max_literal() {
    let (vm, r) = run_words(vec![14, 32768, 0, 0]);
    assert_eq!(r, Ok(StepOutcome::Halted));
    assert_eq!(vm.register(0), 32767);
}

#[test]
fn eq_gt_yield_truth_values() {
    let (vm, r) = run_words(vec![4, 32768, 3, 3, 5, 32769, 7, 3, 4, 32770, 3, 4, 5, 32771, 3, 7, 0]);
    assert_eq!(r, Ok(StepOutcome::Halted));
    assert_eq!(vm.register(0), 1);
    assert_eq!(vm.register(1), 1);
    assert_eq!(vm.register(2), 0);
    assert_eq!(vm.register(3), 0);
}

#[test]
fn bitwise_and_or() {
    let (vm, r) = run_words(vec![12, 32768, 12, 10, 13, 32769, 12, 10, 0]);
    assert_eq!(r, Ok(StepOutcome::Halted));
    assert_eq!(vm.register(0), 12 & 10);
    assert_eq!(vm.register(1), 12 | 10);
}

#[test]
fn modulus_of_values() {
    let (vm, r) = run_words(vec![11, 32768, 17, 5, 0]);
    assert_eq!(r, Ok(StepOutcome::Halted));
    assert_eq!(vm.register(0), 2);
}

#[test]
fn mult_reduces_modulo() {
    let (vm, r) = run_words(vec![10, 32768, 300, 200, 0]);
    assert_eq!(r, Ok(StepOutcome::Halted));
    assert_eq!(vm.register(0), ((300u32 * 200u32) % 32768) as u16);
}

#[test]
fn jmp_moves_execution() {
    let (vm, r) = run_words(vec![6, 5, 0, 0, 0, 19, 90, 0]);
    assert_eq!(r, Ok(StepOutcome::Halted));
    assert_eq!(vm.emitted().clone(), vec![90]);
}

#[test]
fn jf_jumps_on_zero() {
    let (vm, r) = run_words(vec![8, 32768, 5, 0, 0, 19, 91, 0]);
    assert_eq!(r, Ok(StepOutcome::Halted));
    assert_eq!(vm.emitted().clone(), vec![91]);
}

#[test]
fn wmem_rmem_round_trip() {
    let (vm, r) = run_words(vec![16, 100, 77, 15, 32768, 100, 0]);
    assert_eq!(r, Ok(StepOutcome::Halted));
    assert_eq!(vm.register(0), 77);
    assert_eq!(vm.memory_at(100), 77);
}

#[test]
fn input_reaches_register_and_output() {
    let words: Vec<u16> = vec![20, 32768, 19, 32768, 0];
    let mut vm = VM::load_words(&words);
    let first = vm.run(100);
    assert_eq!(first, Ok(StepOutcome::NeedInput));
    vm.feed_input(&vec![65, 10]);
    let second = vm.run(100);
    assert_eq!(second, Ok(StepOutcome::Halted));
    assert_eq!(vm.register(0), 65);
    assert_eq!(vm.emitted().clone(), vec![65]);
}

#[test]
fn run_out_of_fuel_continues() {
    let words: Vec<u16> = vec![6, 0];
    let mut vm = VM::load_words(&words);
    let r = vm.run(1000);
    assert_eq!(r, Ok(StepOutcome::Continue));
    assert!(!vm.is_halted());
}

#[test]
fn registers_and_stack_stay_literal() {
    let (vm, r) = run_words(vec![1, 32768, 7, 1, 32769, 5, 9, 32770, 32768, 32769, 19, 32770, 0]);
    assert_eq!(r, Ok(StepOutcome::Halted));
    let mut i: usize = 0;
    while i < 8 {
        assert!(vm.register(i) < 32768);
        i += 1;
    }
    assert_eq!(vm.stack_len(), 0);
}
