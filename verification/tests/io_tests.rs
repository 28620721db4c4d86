use brain_corrosion::vm::standard::{
    IoErrorKind, Operation, StandardVm, StandardVmBuilder, VmError, DEFAULT_MEMORY_SIZE,
};
use brain_corrosion::vm::Vm;

#[test]
fn read_from_exhausted_input_fails() {
    let mut vm = StandardVm::default();

    let result = vm.run(vec![Operation::In]);

    assert_eq!(
        result.err().unwrap(),
        VmError::IoError(IoErrorKind::UnexpectedEof)
    );
}

#[test]
fn read_consumes_input_in_order() {
    let mut vm = StandardVm::with_io(vec![], vec![7, 9]);

    vm.run(vec![
        Operation::In,
        Operation::Out,
        Operation::In,
        Operation::Out,
    ])
    .unwrap();

    assert_eq!(vm.output, vec![7, 9]);
}

#[test]
fn second_read_past_input_end_fails() {
    let mut vm = StandardVm::with_io(vec![], vec![42]);

    let result = vm.run(vec![Operation::In, Operation::In]);

    assert_eq!(
        result.err().unwrap(),
        VmError::IoError(IoErrorKind::UnexpectedEof)
    );
}

#[test]
fn write_emits_current_cell() {
    let mut vm = StandardVm::with_io(vec![], vec![]);

    vm.run(vec![
        Operation::Inc,
        Operation::Inc,
        Operation::Inc,
        Operation::Out,
        Operation::Out,
    ])
    .unwrap();

    assert_eq!(vm.output, vec![3, 3]);
}

#[test]
fn output_appends_to_given_buffer() {
    let mut vm = StandardVm::with_io(vec![100], vec![]);

    vm.run(vec![Operation::Inc, Operation::Out]).unwrap();

    assert_eq!(vm.output, vec![100, 1]);
}

#[test]
fn builder_defaults_match_standard_machine() {
    let vm = StandardVmBuilder::new().build();

    assert_eq!(vm.memory.len(), DEFAULT_MEMORY_SIZE);
    assert_eq!(vm.mp, 0);
    assert_eq!(vm.ip, 0);
    assert!(vm.input.is_empty());
    assert!(vm.output.is_empty());
}

#[test]
fn builder_sets_memory_size() {
    let compact_vm = StandardVmBuilder::new().with_memory_size(0xff).build();

    assert_eq!(compact_vm.memory.len(), 0xff);
}

#[test]
fn builder_sets_input_and_output() {
    let mut vm = StandardVmBuilder::new()
        .with_input(vec![5])
        .with_output(vec![8])
        .build();

    vm.run(vec![Operation::In, Operation::Out]).unwrap();

    assert_eq!(vm.output, vec![8, 5]);
}

#[test]
fn single_cell_tape_wraps_to_itself() {
    let mut vm = StandardVmBuilder::new().with_memory_size(1).build();

    vm.run(vec![Operation::Inc, Operation::Next, Operation::Inc])
        .unwrap();

    assert_eq!(vm.mp, 0, "a one-cell tape wraps back onto its only cell");
    assert_eq!(vm.get(), 2, "both increments land on the same cell");
}
