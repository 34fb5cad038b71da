use std::collections::HashMap;
use vmips_rust::functional_simulator::instructions::Instruction;
use vmips_rust::functional_simulator::memory::Memory;
use vmips_rust::functional_simulator::registers::Registers;
use vmips_rust::functional_simulator::simulator::{
    decode_instruction, Exception, Simulator as FunctionalSimulator, StepOutcome,
};
use vmips_rust::timing_simulator::config::{BranchPredictorType, CacheConfig, PipelineConfig};
use vmips_rust::timing_simulator::simulator::Simulator as TimingSimulator;
use vmips_rust::utils::syscall::{syscall_request, SyscallAction};

/// Runs a functional simulation to its end, as a host would.
fn run(simulator: &mut FunctionalSimulator) {
    let mut pc_frequency: HashMap<u32, usize> = HashMap::new();
    simulator.begin_run();
    while simulator.ready_to_step() {
        match simulator.run_step(&mut pc_frequency) {
            StepOutcome::Continue => {},
            StepOutcome::Stop => break,
            StepOutcome::Syscall => {
                let action = syscall_request(&mut simulator.registers, &mut simulator.memory);
                let result = match action {
                    SyscallAction::Exit | SyscallAction::ExitWithCode(_) => Some(0xFFFF_FFFF),
                    _ => None,
                };
                if !simulator.complete_syscall(result) {
                    break;
                }
            },
            StepOutcome::FloatingPoint(_) => {
                if !simulator.complete_floating_point() {
                    break;
                }
            },
        }
    }
}

fn load(simulator: &mut FunctionalSimulator, program: &[u32]) {
    let mut bytes = Vec::new();
    for word in program {
        bytes.extend_from_slice(&word.to_le_bytes());
    }
    simulator.load_program(&bytes);
}

#[test]
fn test_memory_boundary_conditions() {
    let mut memory = Memory::new_simple(1024);
    assert!(memory.write_word(0, 0x12345678));
    assert!(memory.write_word(1020, 0x87654321));
    assert_eq!(memory.read_word(0), Some(0x12345678));
    assert_eq!(memory.read_word(1020), Some(0x87654321));
    assert_eq!(memory.read_word(1024), None);
    assert!(!memory.write_word(1024, 0x12345678));
    assert_eq!(memory.read_word(1), None);
    assert!(!memory.write_word(1, 0x12345678));
}

#[test]
fn test_register_edge_cases() {
    let mut registers = Registers::new();
    registers.write(0, 0x12345678);
    assert_eq!(registers.read(0), 0);
    registers.write(1, u32::MAX);
    assert_eq!(registers.read(1), u32::MAX);
    for i in 1..32 {
        registers.write(i, i as u32);
        assert_eq!(registers.read(i), i as u32);
    }
}

#[test]
fn test_arithmetic_overflow() {
    let mut simulator = FunctionalSimulator::new(1024);
    simulator.registers.write(1, u32::MAX);
    simulator.registers.write(2, 1);
    simulator.memory.write_word_init(0, 0x00221820);
    simulator.step();
    assert_eq!(simulator.registers.read(3), 0);
}

#[test]
fn test_division_by_zero() {
    let mut simulator = FunctionalSimulator::new(1024);
    simulator.registers.write(1, 100);
    simulator.registers.write(2, 0);
    simulator.memory.write_word_init(0, 0x0022001A);
    simulator.step();
}

#[test]
fn test_branch_edge_cases() {
    let mut simulator = FunctionalSimulator::new(1024);
    simulator.registers.write(1, 5);
    simulator.registers.write(2, 5);
    simulator.memory.write_word_init(0, 0x10220FFF);
    simulator.step();
}

#[test]
fn test_load_store_edge_cases() {
    let mut simulator = FunctionalSimulator::new(1024);
    simulator.memory.write_word_init(0, 0x8C010400);
    simulator.step();
    let _loaded_value = simulator.registers.read(1);
    simulator.registers.write(2, 0x12345678);
    simulator.memory.write_word_init(4, 0xAC0203FC);
    simulator.step();
    let _stored_value = simulator.memory.read_word(0x3FC);
}

#[test]
fn test_cache_edge_cases() {
    let cache_config = CacheConfig::new(64, 1, 4);
    let pipeline_config = PipelineConfig::new(5);
    let mut simulator = TimingSimulator::new(pipeline_config, cache_config.clone(), cache_config, 1024);
    for i in 0..20 {
        let addr = i * 64;
        simulator.memory.write_word_init(addr, i as u32);
    }
    for i in 0..10 {
        let addr = i * 64;
        let _ = simulator.memory.read_word(addr);
    }
}

#[test]
fn test_pipeline_hazard_edge_cases() {
    let pipeline_config = PipelineConfig::new(5).with_forwarding(false);
    let cache_config = CacheConfig::new(1024, 4, 32);
    let mut simulator = TimingSimulator::new(pipeline_config, cache_config.clone(), cache_config, 1024);
    let instructions = vec![0x8C010000u32, 0x00211020u32, 0x00411820u32];
    for (i, &instr) in instructions.iter().enumerate() {
        simulator.memory.write_word_init(i * 4, instr);
    }
    for _ in 0..20 {
        if simulator.pc >= (instructions.len() * 4) as u32 {
            break;
        }
    }
}

#[test]
fn test_branch_prediction_edge_cases() {
    let pipeline_config = PipelineConfig::new(5).with_branch_prediction(true, BranchPredictorType::TwoBit);
    let cache_config = CacheConfig::new(1024, 4, 32);
    let mut simulator = TimingSimulator::new(pipeline_config, cache_config.clone(), cache_config, 1024);
    simulator.registers.write(1, 0);
    simulator.registers.write(2, 1);
    let instructions = vec![0x10220001u32, 0x00000000u32, 0x14220001u32, 0x00000000u32];
    for (i, &instr) in instructions.iter().enumerate() {
        simulator.memory.write_word_init(i * 4, instr);
    }
    for _ in 0..10 {
        if simulator.pc >= (instructions.len() * 4) as u32 {
            break;
        }
    }
}

#[test]
fn test_memory_alignment_errors() {
    let mut memory = Memory::new_simple(1024);
    for offset in 1..4 {
        assert_eq!(memory.read_word(offset), None);
        assert!(!memory.write_word(offset, 0x12345678));
    }
    for i in 0..10 {
        let addr = i * 4;
        assert!(memory.write_word(addr, i as u32));
        assert_eq!(memory.read_word(addr), Some(i as u32));
    }
}

#[test]
fn edge_cases_test_instruction_decode_edge_cases() {
    let invalid = decode_instruction(0xFFFFFFFF);
    assert!(matches!(invalid, Instruction::InvalidInstruction));
    let zeros = decode_instruction(0x00000000);
    assert!(matches!(zeros, Instruction::Nop));
    let add = decode_instruction(0x00221020);
    assert!(matches!(add, Instruction::Add { .. }));
    let lw = decode_instruction(0x8C220000);
    assert!(matches!(lw, Instruction::Lw { .. }));
}

#[test]
fn test_simulator_state_consistency() {
    let mut simulator = FunctionalSimulator::new(1024);
    simulator.registers.write(1, 100);
    simulator.memory.write_word_init(0x100, 200);
    let reg_val = simulator.registers.read(1);
    let mem_val = simulator.memory.read_word(0x100);
    simulator.memory.write_word_init(0, 0x00000000);
    simulator.step();
    assert_eq!(simulator.registers.read(1), reg_val);
    assert_eq!(simulator.memory.read_word(0x100), mem_val);
}

#[test]
fn test_functional_simulator_boundary_conditions() {
    let mut simulator = FunctionalSimulator::new(1024);
    let boundary_address = 1020;
    simulator.memory.write_word_init(boundary_address, 0x12345678);
    assert_eq!(simulator.memory.read_word(boundary_address), Some(0x12345678));
    assert_eq!(simulator.memory.read_word(1024), None);
}

#[test]
fn test_timing_simulator_zero_cycles() {
    let pipeline_config = PipelineConfig::new(5).with_latencies(vec![1, 1, 1, 1, 1]).with_forwarding(false);
    let cache_config = CacheConfig::new(1024, 2, 32);
    let simulator = TimingSimulator::new(pipeline_config, cache_config.clone(), cache_config, 1024);
    assert_eq!(simulator.pc, 0);
    assert_eq!(simulator.max_steps, 1000);
}

#[test]
fn test_register_edge_values() {
    let mut simulator = FunctionalSimulator::new(1024);
    simulator.registers.write(1, u32::MAX);
    assert_eq!(simulator.registers.read(1), u32::MAX);
    simulator.registers.write(0, 0x12345678);
    assert_eq!(simulator.registers.read(0), 0);
}

#[test]
fn test_cache_configuration_edge_cases() {
    let min_cache = CacheConfig::new(64, 1, 4);
    assert_eq!(min_cache.size, 64);
    assert_eq!(min_cache.associativity, 1);
    assert_eq!(min_cache.block_size, 4);
    let power2_cache = CacheConfig::new(1024, 4, 64);
    assert_eq!(power2_cache.size, 1024);
    assert_eq!(power2_cache.associativity, 4);
    assert_eq!(power2_cache.block_size, 64);
}

#[test]
fn test_pipeline_configuration_validation() {
    let min_pipeline = PipelineConfig::new(3);
    assert!(min_pipeline.num_stages >= 3);
    let full_pipeline = PipelineConfig::new(7)
        .with_latencies(vec![1, 2, 3, 2, 1, 1, 1])
        .with_forwarding(true)
        .with_branch_prediction(true, BranchPredictorType::TwoBit)
        .with_superscalar(2);
    assert_eq!(full_pipeline.num_stages, 7);
    assert!(full_pipeline.forwarding_enabled);
    assert!(full_pipeline.branch_prediction_enabled);
}

#[test]
fn additional_edge_cases_test_instruction_decode_edge_cases() {
    let nop = decode_instruction(0x00000000);
    assert!(matches!(nop, Instruction::Nop));
    let invalid = decode_instruction(0xFFFFFFFF);
    assert!(matches!(invalid, Instruction::InvalidInstruction));
    let _edge_case = decode_instruction(0x80000000);
}

#[test]
fn test_memory_alignment_edge_cases() {
    let mut simulator = FunctionalSimulator::new(1024);
    simulator.memory.write_byte(1, 0x42);
    let result = simulator.memory.read_word(1);
    assert!(result.is_some() || result.is_none());
}

#[test]
fn test_simulation_state_consistency() {
    let mut simulator = FunctionalSimulator::new(1024);
    simulator.registers.write(1, 100);
    simulator.memory.write_word_init(0, 0x20010064);
    let initial_reg_value = simulator.registers.read(1);
    assert_eq!(initial_reg_value, 100);
    let final_reg_value = simulator.registers.read(1);
    assert_eq!(final_reg_value, initial_reg_value);
}

#[test]
fn test_memory_out_of_bounds_error() {
    let mut simulator = FunctionalSimulator::new(1024);
    load(&mut simulator, &[0x8C020400, 0x00000000]);
    run(&mut simulator);
    if let Some(exception) = &simulator.exception {
        assert_eq!(*exception, Exception::MemoryAccessViolation);
    }
}

#[test]
fn test_memory_bounds_checking() {
    let memory = Memory::new(1024);
    assert!(memory.read_word(100).is_some());
    assert!(memory.read_word(2000).is_none());
    assert!(memory.read_word(1020).is_some());
    assert!(memory.read_word(1024).is_none());
}

#[test]
fn test_enhanced_branch_handling() {
    let mut simulator = FunctionalSimulator::new(1024);
    load(&mut simulator, &[0x24020005, 0x24030005, 0x10430001, 0x00000000, 0x24040001, 0x00000000]);
    run(&mut simulator);
    assert_eq!(simulator.registers.read(4), 1);
}

#[test]
fn test_safe_memory_operations() {
    let mut simulator = FunctionalSimulator::new(1024);
    load(&mut simulator, &[0x24020064, 0x24030014, 0xAC430000, 0x8C440000, 0x00000000]);
    run(&mut simulator);
    assert_eq!(simulator.registers.read(4), 20);
}

#[test]
fn test_loop_detection_basic() {
    let mut simulator = FunctionalSimulator::new(1024);
    load(&mut simulator, &[0x2402000A, 0x2442FFFF, 0x1440FFFE, 0x00000000]);
    run(&mut simulator);
    assert_eq!(simulator.registers.read(2), 0);
}

#[test]
fn test_complex_algorithm_support() {
    let mut simulator = FunctionalSimulator::new(2048);
    load(
        &mut simulator,
        &[0x24040000, 0x24050005, 0x00852020, 0x24A5FFFF, 0x14A0FFFD, 0x24020001, 0x0000000C],
    );
    run(&mut simulator);
    assert_eq!(simulator.registers.read(4), 15);
}

#[test]
fn timing_step_executes_and_moves_on() {
    let cache_config = CacheConfig::new(1024, 4, 32);
    let mut simulator = TimingSimulator::new(PipelineConfig::new(5), cache_config.clone(), cache_config, 1024);
    simulator.memory.write_word_init(0, 0x20010005);
    simulator.memory.write_word_init(4, 0x00211020);
    simulator.memory.write_word_init(8, 0xFFFFFFFF);
    assert!(simulator.step());
    assert!(simulator.step());
    assert_eq!(simulator.registers.read(1), 5);
    assert_eq!(simulator.registers.read(2), 10);
    assert_eq!(simulator.pc, 8);
    assert!(!simulator.step());
    assert_eq!(simulator.pc, 8);
}
