use vanadium::vm::{Halt, VM};

fn vm_with(program: Vec<u8>) -> VM {
    let mut vm = VM::new();
    vm.program = program;
    vm
}

#[test]
fn load_500_advances_pc_by_four() {
    let mut vm = vm_with(vec![1, 0, 1, 244]);
    assert_eq!(vm.run_once(), None);
    assert_eq!(vm.registers[0], 500);
    assert_eq!(vm.pc, 4);
}

#[test]
fn load_immediate_is_unsigned_big_endian() {
    let mut vm = vm_with(vec![1, 5, 255, 255]);
    vm.run_once();
    assert_eq!(vm.registers[5], 65535);
}

#[test]
fn div_ten_by_three() {
    let mut vm = vm_with(vec![5, 0, 1, 2]);
    vm.registers[0] = 10;
    vm.registers[1] = 3;
    assert_eq!(vm.run_once(), None);
    assert_eq!(vm.registers[2], 3);
    assert_eq!(vm.remainder, 1);
    assert_eq!(vm.pc, 4);
}

#[test]
fn div_negative_truncates_toward_zero() {
    let mut vm = vm_with(vec![5, 0, 1, 2]);
    vm.registers[0] = -7;
    vm.registers[1] = 2;
    vm.run_once();
    assert_eq!(vm.registers[2], -3);
    assert_eq!(vm.remainder, (-1i32) as u32);
}

#[test]
fn div_min_by_minus_one_wraps() {
    let mut vm = vm_with(vec![5, 0, 1, 2]);
    vm.registers[0] = i32::MIN;
    vm.registers[1] = -1;
    assert_eq!(vm.run_once(), None);
    assert_eq!(vm.registers[2], i32::MIN);
    assert_eq!(vm.remainder, 0);
}

#[test]
fn div_by_zero_faults_and_leaves_state() {
    let mut vm = vm_with(vec![5, 0, 1, 2]);
    vm.registers[0] = 10;
    vm.remainder = 7;
    assert_eq!(vm.run_once(), Some(Halt::DivideByZero));
    assert_eq!(vm.pc, 0);
    assert_eq!(vm.registers[2], 0);
    assert_eq!(vm.remainder, 7);
}

#[test]
fn arithmetic_wraps() {
    let mut vm = vm_with(vec![2, 0, 1, 2, 3, 0, 1, 3, 4, 0, 1, 4]);
    vm.registers[0] = i32::MAX;
    vm.registers[1] = 2;
    vm.run_once();
    vm.run_once();
    vm.run_once();
    assert_eq!(vm.registers[2], i32::MAX.wrapping_add(2));
    assert_eq!(vm.registers[3], i32::MAX - 2);
    assert_eq!(vm.registers[4], i32::MAX.wrapping_mul(2));
}

#[test]
fn comparison_flag_persists_across_other_instructions() {
    let mut vm = vm_with(vec![11, 0, 1, 2, 0, 1, 2, 18]);
    vm.registers[0] = 5;
    vm.registers[1] = 3;
    vm.run_once();
    assert!(vm.equal_flag);
    vm.run_once();
    vm.run_once();
    assert!(vm.equal_flag);
    assert_eq!(vm.pc, 8);
}

#[test]
fn jeq_not_taken_skips_two_bytes() {
    let mut vm = vm_with(vec![15, 0, 18]);
    vm.registers[0] = 100;
    vm.equal_flag = false;
    assert_eq!(vm.run_once(), None);
    assert_eq!(vm.pc, 2);
}

#[test]
fn aloc_keeps_old_bytes_and_zeroes_new() {
    let mut vm = vm_with(vec![17, 0, 17, 1]);
    vm.registers[0] = 3;
    vm.registers[1] = 2;
    vm.heap = vec![9, 8];
    vm.run_once();
    vm.run_once();
    assert_eq!(vm.heap, vec![9, 8, 0, 0, 0, 0, 0]);
}

#[test]
fn aloc_negative_size_faults() {
    let mut vm = vm_with(vec![17, 0]);
    vm.registers[0] = -1;
    assert_eq!(vm.run_once(), Some(Halt::BadAllocation));
    assert_eq!(vm.pc, 0);
    assert!(vm.heap.is_empty());
}

#[test]
fn illegal_byte_halts_without_touching_registers() {
    let mut vm = vm_with(vec![19, 0, 0, 0]);
    vm.registers[3] = 42;
    assert_eq!(vm.run_once(), Some(Halt::Illegal));
    assert_eq!(vm.pc, 1);
    assert_eq!(vm.registers[3], 42);
    assert_eq!(vm.registers[0], 0);
}

#[test]
fn end_of_program_halts() {
    let mut vm = vm_with(vec![]);
    assert_eq!(vm.run_once(), Some(Halt::EndOfProgram));
    assert_eq!(vm.run(), Some(Halt::EndOfProgram));
}

#[test]
fn truncated_instruction_faults() {
    let mut vm = vm_with(vec![1, 0, 1]);
    assert_eq!(vm.run_once(), Some(Halt::Truncated));
    assert_eq!(vm.pc, 0);
}

#[test]
fn register_outside_file_faults() {
    let mut vm = vm_with(vec![1, 32, 0, 1]);
    assert_eq!(vm.run_once(), Some(Halt::BadRegister));
    assert_eq!(vm.pc, 0);
}

#[test]
fn negative_jump_target_halts_on_next_step() {
    let mut vm = vm_with(vec![6, 0]);
    vm.registers[0] = -1;
    assert_eq!(vm.run_once(), None);
    assert_eq!(vm.pc, (-1i32) as usize);
    assert_eq!(vm.run_once(), Some(Halt::EndOfProgram));
}

#[test]
fn taken_jeq_with_negative_target_keeps_running() {
    let mut vm = vm_with(vec![15, 0, 0, 0]);
    vm.registers[0] = -1;
    vm.equal_flag = true;
    assert_eq!(vm.run_once(), None);
    assert_eq!(vm.pc, (-1i32) as usize);
    assert_eq!(vm.run(), Some(Halt::EndOfProgram));
}

#[test]
fn taken_jneq_with_negative_target_keeps_running() {
    let mut vm = vm_with(vec![16, 0]);
    vm.registers[0] = -5;
    vm.equal_flag = false;
    assert_eq!(vm.run_once(), None);
    assert_eq!(vm.pc, (-5i32) as usize);
}

#[test]
fn jmpb_below_zero_faults() {
    let mut vm = vm_with(vec![8, 0]);
    vm.registers[0] = 3;
    assert_eq!(vm.run_once(), Some(Halt::BadJump));
}

#[test]
fn run_stops_at_hlt() {
    let mut vm = vm_with(vec![1, 0, 0, 7, 18, 0, 1, 0, 9]);
    assert_eq!(vm.run(), Some(Halt::Halted));
    assert_eq!(vm.registers[0], 7);
    assert_eq!(vm.pc, 6);
    assert_eq!(vm.registers[1], 0);
}

#[test]
fn run_steps_stops_after_limit() {
    let mut vm = vm_with(vec![6, 0]);
    assert_eq!(vm.run_steps(5), None);
    assert_eq!(vm.pc, 0);
}

#[test]
fn add_byte_and_add_bytes_append() {
    let mut vm = VM::new();
    vm.add_byte(1);
    vm.add_bytes(&[0, 0, 5]);
    assert_eq!(vm.program, vec![1, 0, 0, 5]);
    vm.run_once();
    assert_eq!(vm.registers[0], 5);
}
