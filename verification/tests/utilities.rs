use vmips_rust::errors::SimulatorError;
use vmips_rust::functional_simulator::instructions::Instruction;
use vmips_rust::functional_simulator::loop_detector::{LoopDetector, LoopInfo};
use vmips_rust::functional_simulator::memory::Memory;
use vmips_rust::functional_simulator::pc_manager::PcManager;
use vmips_rust::functional_simulator::register_allocator::RegisterAllocator;
use vmips_rust::functional_simulator::registers::Registers;
use vmips_rust::utils::logger::{is_logged, LogLevel};
use vmips_rust::utils::parser::parse_instruction;
use vmips_rust::utils::syscall::{
    complete_read_char, complete_read_int, complete_read_string, complete_time, syscall_request,
    SyscallAction,
};

#[test]
fn delay_slot_runs_before_the_branch_target() {
    let mut pc = PcManager::new(1024);
    assert!(pc.set_branch_target(100).is_ok());
    assert!(pc.is_in_delay_slot());
    pc.advance();
    assert_eq!(pc.get_current_pc(), 4);
    assert_eq!(pc.get_next_pc(), 100);
    pc.advance();
    assert_eq!(pc.get_current_pc(), 100);
    assert_eq!(pc.get_next_pc(), 104);
    assert!(!pc.is_in_delay_slot());
}

#[test]
fn branch_targets_are_checked() {
    let mut pc = PcManager::new(1024);
    assert!(matches!(pc.set_branch_target(2000), Err(SimulatorError::InvalidBranchTarget(2000))));
    assert!(matches!(pc.set_branch_target(102), Err(SimulatorError::MemoryMisaligned(102))));
    assert!(!pc.is_in_delay_slot());
    assert_eq!(pc.calculate_branch_target(3).ok(), Some(16));
    assert!(matches!(pc.calculate_branch_target(-2), Err(SimulatorError::InvalidBranchTarget(0xFFFF_FFFC))));
    assert_eq!(pc.calculate_jump_target(0x10).ok(), Some(0x40));
    assert!(matches!(pc.calculate_jump_target(0x1000), Err(SimulatorError::InvalidBranchTarget(0x4000))));
    assert!(pc.is_valid_address(1020));
    assert!(!pc.is_valid_address(1022));
    assert!(!pc.is_valid_address(1024));
}

#[test]
fn set_pc_and_reset() {
    let mut pc = PcManager::new(1024);
    assert!(pc.set_pc(64).is_ok());
    assert_eq!(pc.get_current_pc(), 64);
    assert_eq!(pc.get_next_pc(), 68);
    assert!(matches!(pc.set_pc(66), Err(SimulatorError::InvalidBranchTarget(66))));
    assert_eq!(pc.get_current_pc(), 64);
    pc.reset();
    assert_eq!(pc.get_current_pc(), 0);
    assert_eq!(pc.get_next_pc(), 4);
}

#[test]
fn loop_detector_finds_a_counting_loop() {
    let mut detector = LoopDetector::new();
    assert_eq!(detector.detect_loop_pattern(0x10, 0x2508FFFF), None);
    let found = detector.detect_loop_pattern(0x14, 0x1500FFFE).unwrap();
    assert_eq!(
        found,
        LoopInfo { start_pc: 0x10, end_pc: 0x14, counter_register: 8, limit_value: 0, iteration_count: 0 }
    );
    assert_eq!(detector.loop_stack.len(), 1);
    assert_eq!(detector.predict_loop_iterations(&found), Some(10));
    assert_eq!(detector.detect_loop_pattern(0x20, 0x1500FFFE), None);
    assert_eq!(detector.detect_loop_pattern(0x20, 0x15000001), None);
    assert!(detector.optimize_loop_execution(&found).is_empty());
}

#[test]
fn branch_history_keeps_eight_outcomes() {
    let mut detector = LoopDetector::default();
    for _ in 0..3 {
        detector.record_branch(0x40, true);
    }
    detector.record_branch(0x40, false);
    assert_eq!(detector.branch_history.get(&0x40), Some(&0b1110));
    for _ in 0..10 {
        detector.record_branch(0x40, true);
    }
    assert_eq!(detector.branch_history.get(&0x40), Some(&0xFF));
}

#[test]
fn register_usage_and_allocation() {
    let mut allocator = RegisterAllocator::new();
    allocator.analyze_register_usage(&[0x012A4020, 0x21080001]);
    assert_eq!(allocator.register_lifetimes, vec![(9, (0, 0)), (10, (0, 0)), (8, (0, 4))]);
    assert_eq!(allocator.used_registers.len(), 3);
    let allocation = allocator.allocate_registers();
    assert_eq!(allocation.get(&9), Some(&8));
    assert_eq!(allocation.get(&10), Some(&9));
    assert_eq!(allocation.get(&8), Some(&10));
    assert!(allocator.spilled_registers.is_empty());
    assert!(allocator.suggest_optimizations().is_empty());
}

#[test]
fn many_registers_spill_and_draw_advice() {
    let mut allocator = RegisterAllocator::default();
    let mut program = Vec::new();
    for r in 1..=30u32 {
        program.push((r << 21) | (r << 16) | (r << 11) | 0x20);
    }
    allocator.analyze_register_usage(&program);
    assert_eq!(allocator.used_registers.len(), 30);
    let allocation = allocator.allocate_registers();
    assert_eq!(allocation.len(), 8);
    assert_eq!(allocation.get(&1), Some(&8));
    assert_eq!(allocator.spilled_registers.len(), 22);
    assert_eq!(allocator.spilled_registers.get(&9), Some(&0x7000));
    let advice = allocator.suggest_optimizations();
    assert_eq!(advice.len(), 2);
    assert_eq!(advice[0], "High register pressure detected. Consider reducing variable scope.");
    assert_eq!(advice[1], "Register spilling detected for 22 registers. Consider code restructuring.");
}

#[test]
fn parses_add_and_addi() {
    assert_eq!(parse_instruction("add $v0 $at $zero"), Instruction::Add { rd: 2, rs: 1, rt: 0 });
    assert_eq!(parse_instruction("  addi   $v0 $zero -7 "), Instruction::Addi { rt: 2, rs: 0, imm: -7 });
}

#[test]
fn log_levels_order_by_severity() {
    assert!(is_logged(LogLevel::Warning, LogLevel::Info));
    assert!(is_logged(LogLevel::Info, LogLevel::Info));
    assert!(!is_logged(LogLevel::Debug, LogLevel::Info));
    assert_eq!(LogLevel::Error.rank(), 3);
}

#[test]
fn syscalls_report_what_the_host_must_do() {
    let mut registers = Registers::new();
    let mut memory = Memory::new_simple(256);
    for (i, b) in b"hey\0".iter().enumerate() {
        memory.write_byte(0x40 + i, *b);
    }
    registers.write(2, 1);
    registers.write(4, (-5i32) as u32);
    assert!(matches!(syscall_request(&mut registers, &mut memory), SyscallAction::PrintInt(-5)));
    registers.write(2, 4);
    registers.write(4, 0x40);
    match syscall_request(&mut registers, &mut memory) {
        SyscallAction::PrintString(bytes) => assert_eq!(bytes, b"hey".to_vec()),
        other => panic!("unexpected {:?}", other),
    }
    registers.write(2, 10);
    assert!(matches!(syscall_request(&mut registers, &mut memory), SyscallAction::Exit));
    registers.write(2, 99);
    assert!(matches!(syscall_request(&mut registers, &mut memory), SyscallAction::Unimplemented(99)));
}

#[test]
fn syscalls_that_complete_inside() {
    let mut registers = Registers::new();
    let mut memory = Memory::new_simple(256);
    let heap = memory.heap_end();
    registers.write(2, 9);
    registers.write(4, 16);
    assert!(matches!(syscall_request(&mut registers, &mut memory), SyscallAction::Done));
    assert_eq!(registers.read(2), heap as u32);
    assert_eq!(memory.heap_end(), heap + 16);
    registers.write(2, 14);
    registers.write(5, 0x80);
    registers.write(6, 3);
    assert!(matches!(syscall_request(&mut registers, &mut memory), SyscallAction::Done));
    assert_eq!(registers.read(2), 3);
    assert_eq!(memory.read_byte(0x81), Some(1));
    assert_eq!(memory.read_byte(0x82), Some(2));
    registers.write(2, 15);
    registers.write(4, 1);
    registers.write(5, 0x80);
    registers.write(6, 2);
    match syscall_request(&mut registers, &mut memory) {
        SyscallAction::Write(bytes) => assert_eq!(bytes, vec![0, 1]),
        other => panic!("unexpected {:?}", other),
    }
    assert_eq!(registers.read(2), 2);
}

#[test]
fn completing_input_syscalls() {
    let mut registers = Registers::new();
    let mut memory = Memory::new_simple(256);
    complete_read_int(&mut registers, Some(-3));
    assert_eq!(registers.read(2), (-3i32) as u32);
    complete_read_int(&mut registers, None);
    assert_eq!(registers.read(2), 0);
    complete_read_char(&mut registers, Some(b'x'));
    assert_eq!(registers.read(2), b'x' as u32);
    complete_time(&mut registers, 0x1_0000_0005);
    assert_eq!(registers.read(2), 5);
    complete_read_string(&mut memory, 0x10, 4, &b"hello".to_vec());
    assert_eq!(memory.read_byte(0x10), Some(b'h'));
    assert_eq!(memory.read_byte(0x12), Some(b'l'));
    assert_eq!(memory.read_byte(0x13), Some(0));
}
