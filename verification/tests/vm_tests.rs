use brain_corrosion::vm::standard::{Operation, StandardVm, VmError};
use brain_corrosion::vm::Vm;

#[test]
fn read_default_memory_value() {
    let vm = StandardVm::default();

    assert_eq!(vm.get(), 0, "default value of memory cell is 0");
}

#[test]
fn set_current_cell_value() {
    let mut vm = StandardVm::default();

    vm.put(0x8d);

    assert_eq!(vm.get(), 0x8d, "value must be set");
}

#[test]
fn increment_current_memory_cell() {
    let mut vm = StandardVm::default();

    vm.inc();

    assert_eq!(vm.get(), 1, "memory value must be incremented");
}

#[test]
fn decrement_current_memory_cell() {
    let mut vm = StandardVm::default();
    vm.put(0xf);

    vm.dec();

    assert_eq!(vm.get(), 0xe, "memory value must be decremented");
}

#[test]
fn decrement_carry_over() {
    let mut vm = StandardVm::default();

    vm.dec();

    assert_eq!(vm.get(), 255, "decrementing zero cell must carry over");
}

#[test]
fn increment_carry_over() {
    let mut vm = StandardVm::default();
    vm.put(u8::MAX); // set value to maximum

    vm.inc();

    assert_eq!(vm.get(), 0, "incrementing maximum value carries over to 0");
}

#[test]
fn default_memory_cell() {
    let vm = StandardVm::default();

    assert_eq!(vm.mp, 0, "default memory cell is 0");
}

#[test]
fn next_memory_cell() {
    let mut vm = StandardVm::default();

    vm.mem_next();

    assert_eq!(vm.mp, 1, "should move to next cell");
}

#[test]
fn previous_memory_cell() {
    let mut vm = StandardVm::default();
    vm.mem_next();

    vm.mem_prev();

    assert_eq!(vm.mp, 0, "should move to previous cell");
}

#[test]
fn rotate_memory_on_bounds() {
    let mut vm = StandardVm::default();

    vm.mem_prev();

    assert_eq!(
        vm.mp,
        vm.memory.len() - 1,
        "should rotate over to last cell"
    );

    vm.mem_next();

    assert_eq!(vm.mp, 0, "should rotate over to first cell");
}

#[test]
fn run_empty_program() {
    let mut vm = StandardVm::default();

    let result = vm.run(vec![]);

    assert_eq!(vm.get(), 0, "memory must not change");
    assert_eq!(
        vm.ip, 0,
        "no instruction in the program. pointer should not move"
    );
    assert!(result.is_ok(), "empty program is valid");
}

#[test]
fn move_instruction_pointer() {
    let mut vm = StandardVm::default();

    vm.run(vec![Operation::Inc]).unwrap();

    assert_eq!(
        vm.ip, 1,
        "elementary operations increments instruction pointer"
    );
}

#[test]
fn zero_cell() {
    let mut vm = StandardVm::default();
    vm.put(5);

    vm.run(vec![
        Operation::LoopForward,
        Operation::Dec,
        Operation::LoopBack,
    ])
    .unwrap();

    assert_eq!(vm.get(), 0, "cell must be zeroed");
    assert_eq!(vm.ip, 3, "instruction pointer must be at end");
}

#[test]
fn simple_loop() {
    let mut vm = StandardVm::default();

    vm.run(vec![
        Operation::Inc,
        Operation::Inc,
        Operation::Inc,
        Operation::Inc,
        Operation::Inc,
        Operation::LoopForward,
        Operation::Next,
        Operation::Inc,
        Operation::Inc,
        Operation::Prev,
        Operation::Dec,
        Operation::LoopBack,
        Operation::Next,
        Operation::Inc,
    ])
    .unwrap();

    assert_eq!(vm.get(), 11, "2n+1 should be calculated");
    assert_eq!(vm.ip, 14, "instruction pointer must be at end");
}

#[test]
fn unclosed_loop() {
    let mut vm = StandardVm::default();
    let program = vec![Operation::LoopForward];

    let result = vm.run(program);

    assert!(result.is_err(), "the loop is not closed and VM must fail");
    assert_eq!(result.err().unwrap(), VmError::NoLoopEnd);
}

#[test]
fn loop_without_opening() {
    let mut vm = StandardVm::default();
    let program = vec![Operation::Inc, Operation::LoopBack];

    let result = vm.run(program);

    assert!(result.is_err(), "the loop is not closed and VM must fail");
    assert_eq!(result.err().unwrap(), VmError::NoLoopStart);
}

#[test]
fn nested_unclosed_loop() {
    let mut vm = StandardVm::default();
    let program = vec![
        Operation::LoopForward,
        Operation::LoopForward,
        Operation::LoopBack,
    ];

    let result = vm.run(program);

    assert_eq!(result.err().unwrap(), VmError::NoLoopEnd);
}

#[test]
fn zero_cell_loop_skips_nested_body() {
    let mut vm = StandardVm::default();

    vm.run(vec![
        Operation::LoopForward,
        Operation::Inc,
        Operation::LoopForward,
        Operation::Dec,
        Operation::LoopBack,
        Operation::LoopBack,
        Operation::Next,
    ])
    .unwrap();

    assert_eq!(vm.get(), 0, "the skipped body must not touch the tape");
    assert_eq!(vm.mp, 1, "only the operation after the loop runs");
    assert_eq!(vm.ip, 7, "instruction pointer must be at end");
}
