//! Boundary behaviors of the operand resolver, the decoder, the
//! loader and the fault taxonomy.

use synacor_vm::{Op, StepOutcome, VMError, VM};

#[test]
fn literal_boundary_stays_literal() {
    let words: Vec<u16> = vec![1, 32768, 32767, 0];
    let mut vm = VM::load_words(&words);
    let r = vm.run(100);
    assert_eq!(r, Ok(StepOutcome::Halted));
    assert_eq!(vm.register(0), 32767);
}

#[test]
fn word_32768_dereferences_register_0() {
    let words: Vec<u16> = vec![1, 32768, 5, 1, 32769, 32768, 0];
    let mut vm = VM::load_words(&words);
    let r = vm.run(100);
    assert_eq!(r, Ok(StepOutcome::Halted));
    assert_eq!(vm.register(1), 5);
}

#[test]
fn word_32775_dereferences_register_7() {
    let words: Vec<u16> = vec![1, 32775, 9, 1, 32768, 32775, 0];
    let mut vm = VM::load_words(&words);
    let r = vm.run(100);
    assert_eq!(r, Ok(StepOutcome::Halted));
    assert_eq!(vm.register(7), 9);
    assert_eq!(vm.register(0), 9);
}

#[test]
fn word_32776_faults_as_operand() {
    let words: Vec<u16> = vec![2, 32776];
    let mut vm = VM::load_words(&words);
    let r = vm.run(100);
    assert_eq!(r, Err(VMError::InvalidOperand(32776)));
}

#[test]
fn literal_destination_faults() {
    let words: Vec<u16> = vec![1, 5, 0];
    let mut vm = VM::load_words(&words);
    let r = vm.run(100);
    assert_eq!(r, Err(VMError::InvalidOperand(5)));
}

#[test]
fn unknown_opcode_faults() {
    let words: Vec<u16> = vec![22];
    let mut vm = VM::load_words(&words);
    let r = vm.run(100);
    assert_eq!(r, Err(VMError::UnknownOperation(22)));
}

#[test]
fn pop_on_empty_stack_faults() {
    let words: Vec<u16> = vec![3, 32768];
    let mut vm = VM::load_words(&words);
    let r = vm.run(100);
    assert_eq!(r, Err(VMError::EmptyStack));
}

#[test]
fn divide_by_zero_faults() {
    let words: Vec<u16> = vec![11, 32768, 7, 0];
    let mut vm = VM::load_words(&words);
    let r = vm.run(100);
    assert_eq!(r, Err(VMError::DivideByZero));
}

#[test]
fn running_off_memory_faults() {
    let words: Vec<u16> = vec![21; 32768];
    let mut vm = VM::load_words(&words);
    let r = vm.run(40_000);
    assert_eq!(r, Err(VMError::BadAddress(32768)));
}

#[test]
fn rmem_of_non_literal_cell_faults() {
    let words: Vec<u16> = vec![15, 32768, 4, 0, 32769];
    let mut vm = VM::load_words(&words);
    let r = vm.run(100);
    assert_eq!(r, Err(VMError::InvalidOperand(32769)));
}

#[test]
fn decoder_maps_the_table() {
    assert_eq!(Op::from_code(0), Some(Op::Halt));
    assert_eq!(Op::from_code(1), Some(Op::SetReg));
    assert_eq!(Op::from_code(2), Some(Op::Push));
    assert_eq!(Op::from_code(3), Some(Op::Pop));
    assert_eq!(Op::from_code(4), Some(Op::Eq));
    assert_eq!(Op::from_code(5), Some(Op::Gt));
    assert_eq!(Op::from_code(6), Some(Op::Jmp));
    assert_eq!(Op::from_code(7), Some(Op::Jt));
    assert_eq!(Op::from_code(8), Some(Op::Jf));
    assert_eq!(Op::from_code(9), Some(Op::Add));
    assert_eq!(Op::from_code(10), Some(Op::Mult));
    assert_eq!(Op::from_code(11), Some(Op::Mod));
    assert_eq!(Op::from_code(12), Some(Op::And));
    assert_eq!(Op::from_code(13), Some(Op::Or));
    assert_eq!(Op::from_code(14), Some(Op::Not));
    assert_eq!(Op::from_code(15), Some(Op::Rmem));
    assert_eq!(Op::from_code(16), Some(Op::Wmem));
    assert_eq!(Op::from_code(17), Some(Op::Call));
    assert_eq!(Op::from_code(18), Some(Op::Ret));
    assert_eq!(Op::from_code(19), Some(Op::Out));
    assert_eq!(Op::from_code(20), Some(Op::In));
    assert_eq!(Op::from_code(21), Some(Op::Noop));
    assert_eq!(Op::from_code(22), None);
    assert_eq!(Op::from_code(65535), None);
}

#[test]
fn loader_pairs_bytes_little_endian() {
    let image: Vec<u8> = vec![0x34, 0x12, 0xff, 0x7f];
    let vm = VM::load(&image);
    assert_eq!(vm.memory_at(0), 0x1234);
    assert_eq!(vm.memory_at(1), 0x7fff);
    assert_eq!(vm.memory_at(2), 0);
}

#[test]
fn loader_drops_trailing_odd_byte() {
    let image: Vec<u8> = vec![0x41];
    let vm = VM::load(&image);
    assert_eq!(vm.memory_at(0), 0);
}

#[test]
fn loader_fills_whole_memory() {
    let image: Vec<u8> = vec![1; 65536];
    let vm = VM::load(&image);
    assert_eq!(vm.memory_at(0), 257);
    assert_eq!(vm.memory_at(32767), 257);
}

#[test]
fn loader_truncates_overlong_image() {
    let mut image: Vec<u8> = vec![1; 65536];
    image.push(9);
    image.push(9);
    let vm = VM::load(&image);
    assert_eq!(vm.memory_at(0), 257);
    assert_eq!(vm.memory_at(32767), 257);
}

#[test]
fn loader_runs_loaded_program() {
    // The hello scenario, as a byte image.
    let image: Vec<u8> = vec![19, 0, 65, 0, 19, 0, 10, 0, 0, 0];
    let mut vm = VM::load(&image);
    let r = vm.run(100);
    assert_eq!(r, Ok(StepOutcome::Halted));
    assert_eq!(vm.emitted().clone(), vec![65, 10]);
}

#[test]
fn fresh_machine_is_zeroed() {
    let vm = VM::new();
    assert!(!vm.is_halted());
    assert_eq!(vm.stack_len(), 0);
    assert_eq!(vm.register(0), 0);
    assert_eq!(vm.register(7), 0);
    assert_eq!(vm.memory_at(0), 0);
    assert_eq!(vm.memory_at(32767), 0);
    assert_eq!(vm.emitted().len(), 0);
}

#[test]
fn fresh_machine_halts_at_once() {
    // Memory is all zeros, and opcode 0 is halt.
    let mut vm = VM::new();
    let r = vm.run(100);
    assert_eq!(r, Ok(StepOutcome::Halted));
    assert!(vm.is_halted());
}

#[test]
fn exec_steps_one_instruction() {
    let words: Vec<u16> = vec![21, 0];
    let mut vm = VM::load_words(&words);
    assert_eq!(vm.exec(), Ok(StepOutcome::Continue));
    assert_eq!(vm.exec(), Ok(StepOutcome::Halted));
    assert!(vm.is_halted());
    assert_eq!(vm.exec(), Ok(StepOutcome::Halted));
}

#[test]
fn fault_leaves_state_untouched() {
    let words: Vec<u16> = vec![18];
    let mut vm = VM::load_words(&words);
    assert_eq!(vm.exec(), Err(VMError::EmptyStack));
    // The instruction pointer did not move: the same fault again.
    assert_eq!(vm.exec(), Err(VMError::EmptyStack));
    assert_eq!(vm.stack_len(), 0);
}

#[test]
fn clear_output_empties_the_queue() {
    let words: Vec<u16> = vec![19, 65, 0];
    let mut vm = VM::load_words(&words);
    let r = vm.run(100);
    assert_eq!(r, Ok(StepOutcome::Halted));
    assert_eq!(vm.emitted().len(), 1);
    vm.clear_output();
    assert_eq!(vm.emitted().len(), 0);
}

#[test]
fn input_is_consumed_in_order() {
    let words: Vec<u16> = vec![20, 32768, 20, 32769, 0];
    let mut vm = VM::load_words(&words);
    vm.feed_input(&vec![72, 73]);
    let r = vm.run(100);
    assert_eq!(r, Ok(StepOutcome::Halted));
    assert_eq!(vm.register(0), 72);
    assert_eq!(vm.register(1), 73);
}

#[test]
fn stack_depth_tracks_pushes_and_pops() {
    // push 1; push 2; call 8; (at 8: out 33, ret); pop R0; halt.
    let words: Vec<u16> = vec![2, 1, 2, 2, 17, 8, 3, 32768, 19, 33, 18];
    let mut vm = VM::load_words(&words);
    // push, push: depth 2.
    assert_eq!(vm.exec(), Ok(StepOutcome::Continue));
    assert_eq!(vm.exec(), Ok(StepOutcome::Continue));
    assert_eq!(vm.stack_len(), 2);
    // call: depth 3.
    assert_eq!(vm.exec(), Ok(StepOutcome::Continue));
    assert_eq!(vm.stack_len(), 3);
    // out, ret: depth 2 again.
    assert_eq!(vm.exec(), Ok(StepOutcome::Continue));
    assert_eq!(vm.exec(), Ok(StepOutcome::Continue));
    assert_eq!(vm.stack_len(), 2);
    // pop: depth 1.
    assert_eq!(vm.exec(), Ok(StepOutcome::Continue));
    assert_eq!(vm.stack_len(), 1);
    assert_eq!(vm.register(0), 2);
}
