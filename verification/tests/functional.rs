use std::collections::HashMap;
use vmips_rust::functional_simulator::memory::Memory;
use vmips_rust::functional_simulator::simulator::{Exception, Simulator, StepOutcome};
use vmips_rust::utils::syscall::{syscall_request, SyscallAction};

/// Drives a run to its end, finishing system calls without a host.
fn run(simulator: &mut Simulator) {
    let mut pc_frequency: HashMap<u32, usize> = HashMap::new();
    simulator.begin_run();
    while simulator.ready_to_step() {
        match simulator.run_step(&mut pc_frequency) {
            StepOutcome::Continue => {},
            StepOutcome::Stop => break,
            StepOutcome::Syscall => {
                let action = syscall_request(&mut simulator.registers, &mut simulator.memory);
                let result = match action {
                    SyscallAction::Exit | SyscallAction::ExitWithCode(_) => Some(0xFFFF_FFFF),
                    _ => None,
                };
                if !simulator.complete_syscall(result) {
                    break;
                }
            },
            StepOutcome::FloatingPoint(_) => {
                if !simulator.complete_floating_point() {
                    break;
                }
            },
        }
    }
}

fn to_bytes(program: &[u32]) -> Vec<u8> {
    let mut bytes = Vec::with_capacity(program.len() * 4);
    for &word in program {
        bytes.extend_from_slice(&word.to_le_bytes());
    }
    bytes
}

fn create_test_program(memory_values: &[(usize, u32)]) -> Vec<u32> {
    let mut program = Vec::new();
    for (i, (addr, _)) in memory_values.iter().enumerate() {
        let reg = 2 + i as u32;
        program.push(0x8C000000u32 | (reg << 16) | (*addr as u32));
    }
    if memory_values.len() >= 2 {
        program.push(0x00431020u32);
        if memory_values.len() > 2 {
            let result_addr = memory_values[2].0;
            program.push(0xAC000000u32 | (2 << 16) | (result_addr as u32));
        }
    }
    program.push(0x00000000u32);
    program
}

fn setup_simulator(memory_values: &[(usize, u32)], program: &[u32]) -> Simulator {
    let mut simulator = Simulator::new(32768);
    for &(addr, value) in memory_values {
        simulator.memory.write_word(addr, value);
    }
    simulator.load_program(&to_bytes(program));
    for &(addr, value) in memory_values {
        simulator.memory.write_word(addr, value);
    }
    simulator
}

#[test]
fn test_basic_arithmetic() {
    let memory_values = [(0x1000, 21), (0x1004, 21), (0x1008, 0)];
    let program = create_test_program(&memory_values);
    let mut simulator = setup_simulator(&memory_values, &program);
    run(&mut simulator);
    assert_eq!(simulator.registers.read(2), 42, "Register $2 should be 21 + 21 = 42");
    assert_eq!(simulator.memory.read_word(0x1008), Some(42), "Memory at 0x1008 should contain 42");
}

#[test]
fn test_load_store_operations() {
    let memory_values = [(0x2000, 0x12345678), (0x2004, 0)];
    let program = vec![0x8C022000u32, 0xAC022004u32, 0x00000000u32];
    let mut simulator = setup_simulator(&memory_values, &program);
    run(&mut simulator);
    assert_eq!(simulator.registers.read(2), 0x12345678, "Register $2 should contain 0x12345678");
    assert_eq!(
        simulator.memory.read_word(0x2004),
        Some(0x12345678),
        "Memory at 0x2004 should contain 0x12345678"
    );
}

#[test]
fn test_branching() {
    let mut simulator = Simulator::new(32768);
    let program = vec![
        0x2402000Au32, // addi $2, $0, 10
        0x2442FFFFu32, // addi $2, $2, -1
        0x1440FFFEu32, // bne $2, $0, -2
        0x2403002Au32, // addi $3, $0, 42
        0x00000000u32, // nop
    ];
    simulator.load_program(&to_bytes(&program));
    run(&mut simulator);
    assert_eq!(simulator.registers.read(2), 0, "Register $2 should be decremented to 0");
    assert_eq!(simulator.registers.read(3), 42, "Register $3 should be set to 42 after branching");
}

#[test]
fn test_functional_simulator() {
    let mut simulator = Simulator::new(8192);
    simulator.memory.write_word(0x1000, 21);
    simulator.memory.write_word(0x1004, 21);
    let program = vec![0x8C021000u32, 0x8C031004u32, 0x00431020u32, 0xAC021008u32, 0x00000000u32];
    simulator.load_program(&to_bytes(&program));
    simulator.memory.write_word(0x1000, 21);
    simulator.memory.write_word(0x1004, 21);
    run(&mut simulator);
    assert_eq!(simulator.registers.read(2), 42, "Register $2 should contain 42");
    assert_eq!(simulator.memory.read_word(0x1008), Some(42), "Memory at 0x1008 should contain 42");
}

#[test]
fn test_division_by_zero_error() {
    let mut simulator = Simulator::new(1024);
    let program = vec![0x24020005u32, 0x24030000u32, 0x0043001Au32, 0x00000000u32];
    simulator.load_program(&to_bytes(&program));
    run(&mut simulator);
    if let Some(exception) = &simulator.exception {
        println!("Exception caught: {:?}", exception);
    } else {
        println!("Division by zero handled gracefully");
    }
}

#[test]
fn test_invalid_branch_target() {
    let mut simulator = Simulator::new(1024);
    let program = vec![0x24020001u32, 0x24030001u32, 0x1043FFFFu32, 0x00000000u32];
    simulator.load_program(&to_bytes(&program));
    run(&mut simulator);
    if let Some(exception) = &simulator.exception {
        match exception {
            Exception::MemoryAccessViolation => {
                println!("Successfully caught MemoryAccessViolation exception for invalid branch");
            },
            _ => println!("Exception caught: {:?}", exception),
        }
    } else {
        println!("Invalid branch handled gracefully");
    }
}

#[test]
fn run_reaches_the_exit_syscall() {
    let mut simulator = Simulator::new(4096);
    let program = vec![
        0x2402000Au32, // addiu $2, $0, 10 (exit)
        0x0000000Cu32, // syscall
        0x24030007u32, // addiu $3, $0, 7 (never reached)
    ];
    simulator.load_program(&to_bytes(&program));
    run(&mut simulator);
    assert_eq!(simulator.pc, 4);
    assert_eq!(simulator.registers.read(3), 0);
    assert!(simulator.exception.is_none());
}

#[test]
fn add_commutes_and_wraps() {
    let mut first = Simulator::new(1024);
    let mut second = Simulator::new(1024);
    first.registers.write(1, 0xFFFF_FFF0);
    first.registers.write(2, 0x20);
    second.registers.write(1, 0x20);
    second.registers.write(2, 0xFFFF_FFF0);
    first.memory.write_word_init(0, 0x00221820); // add $3, $1, $2
    second.memory.write_word_init(0, 0x00221820);
    assert!(first.ready_to_step() && second.ready_to_step());
    first.step();
    second.step();
    assert_eq!(first.registers.read(3), 0x10);
    assert_eq!(second.registers.read(3), 0x10);
}

#[test]
fn stored_word_loads_back() {
    let mut simulator = Simulator::new(4096);
    simulator.memory = Memory::new_simple(4096);
    simulator.registers.write(1, 0xDEAD_BEEF);
    simulator.memory.write_word_init(0, 0xAC010200); // sw $1, 0x200($0)
    simulator.memory.write_word_init(4, 0x8C020200); // lw $2, 0x200($0)
    assert!(simulator.ready_to_step());
    simulator.step();
    assert!(simulator.ready_to_step());
    simulator.step();
    assert_eq!(simulator.registers.read(2), 0xDEAD_BEEF);
}

#[test]
fn plain_memory_word_access_bounds() {
    let mut memory = Memory::new_simple(1024);
    assert!(memory.write_word(1020, 7));
    assert_eq!(memory.read_word(1020), Some(7));
    assert!(!memory.write_word(1021, 7));
    assert_eq!(memory.read_word(1022), None);
    assert!(!memory.write_word(1024, 7));
    assert_eq!(memory.read_word(1024), None);
}

#[test]
fn equal_states_step_alike() {
    let program = [0x2402000Au32, 0x2442FFFF, 0x1440FFFE, 0x2403002A, 0];
    let mut first = Simulator::new(2048);
    let mut second = Simulator::new(2048);
    first.load_program(&to_bytes(&program));
    second.load_program(&to_bytes(&program));
    for _ in 0..12 {
        assert!(first.ready_to_step() && second.ready_to_step());
        assert_eq!(first.step(), second.step());
        assert_eq!(first.pc, second.pc);
        for reg in 0..32 {
            assert_eq!(first.registers.read(reg), second.registers.read(reg));
        }
    }
}
