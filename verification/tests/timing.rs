use vmips_rust::timing_simulator::config::{BranchPredictorType, CacheConfig, PipelineConfig};
use vmips_rust::functional_simulator::instructions::Instruction;
use vmips_rust::timing_simulator::simulator::{ExecutionMode, Simulator};
use vmips_rust::timing_simulator::walkthrough::WalkStep;
use vmips_rust::functional_simulator::memory::Memory;
use vmips_rust::timing_simulator::components::CacheHierarchy;

fn create_test_pipeline_config(stages: usize, forwarding: bool, branch_prediction: bool) -> PipelineConfig {
    PipelineConfig::new(stages)
        .with_latencies(vec![1; stages])
        .with_forwarding(forwarding)
        .with_branch_prediction(branch_prediction, BranchPredictorType::TwoBit)
        .with_superscalar(1)
}

fn setup_simulator(pipeline_config: PipelineConfig, memory_values: &[(usize, u32)]) -> Simulator {
    let instr_cache_config = CacheConfig::new(4096, 2, 64);
    let data_cache_config = CacheConfig::new(4096, 4, 64);
    let mut simulator = Simulator::new(pipeline_config, instr_cache_config, data_cache_config, 32768);
    simulator.visualization = None;
    simulator.set_max_steps(100);
    for &(addr, value) in memory_values {
        simulator.memory.write_word_init(addr, value);
    }
    simulator
}

fn load_program(simulator: &mut Simulator, program: &[u32]) {
    for (i, instr) in program.iter().enumerate() {
        simulator.memory.write_word_init(i * 4, *instr);
    }
    simulator.pc = 0;
}

fn load_program_at(simulator: &mut Simulator, program: &[u32], base: usize) {
    for (i, &instr) in program.iter().enumerate() {
        simulator.memory.write_word_init(base + i * 4, instr);
    }
    simulator.pc = base as u32;
}

#[test]
fn test_basic_pipeline_execution() {
    let pipeline_config = create_test_pipeline_config(3, false, false);
    let memory_values = [(0x100, 20), (0x104, 22)];
    let program = vec![0x8C020100u32, 0x8C030104u32, 0x00431020u32, 0x00000000u32];
    let mut simulator = setup_simulator(pipeline_config, &memory_values);
    load_program(&mut simulator, &program);
    simulator.run();
    assert_eq!(simulator.registers.read(2), 42, "Register 2 should contain 42");
    assert_eq!(simulator.registers.read(3), 22, "Register 3 should contain 22");
    assert!(simulator.pc >= 12, "PC should have advanced beyond the program");
}

#[test]
fn test_pipeline_with_forwarding() {
    let pipeline_config = create_test_pipeline_config(5, true, false);
    let memory_values = [(0x200, 5), (0x204, 10)];
    let program = vec![0x8C020200u32, 0x8C030204u32, 0x00431020u32, 0x00421820u32, 0x00000000u32];
    let mut simulator = setup_simulator(pipeline_config, &memory_values);
    load_program(&mut simulator, &program);
    simulator.run();
    assert_eq!(simulator.registers.read(2), 15, "Register 2 should contain 15");
    assert_eq!(simulator.registers.read(3), 30, "Register 3 should contain 30");
}

#[test]
fn test_branch_prediction() {
    let pipeline_config = create_test_pipeline_config(5, true, true);
    let program = vec![
        0x24020003u32, // addi $2, $0, 3
        0x10400002u32, // beq $2, $0, 2
        0x2442FFFFu32, // addi $2, $2, -1
        0x08000001u32, // j 0x00000004
        0x2403002Au32, // addi $3, $0, 42
        0x00000000u32, // nop
    ];
    let mut simulator = setup_simulator(pipeline_config, &[]);
    load_program(&mut simulator, &program);
    simulator.set_max_steps(200);
    simulator.run();
    assert_eq!(simulator.registers.read(2), 0, "Register $2 should be decremented to 0");
    assert_eq!(simulator.registers.read(3), 42, "Register $3 should be set to 42 after branching");
}

#[test]
fn timing_simulator_test_memory_access_patterns() {
    let pipeline_config = create_test_pipeline_config(5, true, true);
    let mut memory_values = Vec::new();
    for i in 0..8 {
        memory_values.push((0x1000 + i * 64, i as u32 * 10));
    }
    let mut program = Vec::new();
    for i in 0..8 {
        let reg = 2 + i as u32;
        let addr = 0x1000 + i * 64;
        program.push(0x8C000000u32 | (reg << 16) | (addr as u32));
    }
    program.push(0x00431020u32);
    program.push(0x00000000u32);
    let mut simulator = setup_simulator(pipeline_config, &memory_values);
    load_program(&mut simulator, &program);
    simulator.run();
    for i in 0..8 {
        let reg = 2 + i as u32;
        let expected_value = if i == 0 { 10 } else { i as u32 * 10 };
        assert_eq!(
            simulator.registers.read(reg),
            expected_value,
            "Register ${} should contain {}",
            reg,
            expected_value
        );
    }
}

#[test]
fn test_timing_simulator() {
    let pipeline_config = PipelineConfig::new(3)
        .with_latencies(vec![1, 1, 1])
        .with_forwarding(false)
        .with_branch_prediction(false, BranchPredictorType::TwoBit)
        .with_superscalar(1);
    let instr_cache_config = CacheConfig::new(4096, 2, 64);
    let data_cache_config = CacheConfig::new(4096, 4, 64);
    let mut simulator = Simulator::new(pipeline_config, instr_cache_config, data_cache_config, 8192);
    simulator.memory.write_word_init(0x100, 20);
    simulator.memory.write_word_init(0x104, 22);
    let program = vec![0x8C020100u32, 0x8C030104u32, 0x00431020u32, 0x00000000u32];
    simulator.memory.write_word_init(0, program[0]);
    simulator.memory.write_word_init(4, program[1]);
    simulator.memory.write_word_init(8, program[2]);
    simulator.memory.write_word_init(12, program[3]);
    simulator.visualization = None;
    simulator.pc = 0;
    simulator.set_max_steps(50);
    simulator.run();
    assert_eq!(simulator.registers.read(2), 42, "Register 2 should contain 42");
    assert_eq!(simulator.registers.read(3), 22, "Register 3 should contain 22");
    assert!(simulator.pc >= 12, "PC should have advanced beyond the program");
}

fn advanced_simulator(pipeline_config: PipelineConfig, instr: CacheConfig, data: CacheConfig) -> Simulator {
    let mut simulator = Simulator::new(pipeline_config, instr, data, 32768);
    simulator.visualization = None;
    simulator
}

#[test]
fn test_multi_cycle_execution() {
    let pipeline_config = PipelineConfig::new(5)
        .with_latencies(vec![1, 2, 3, 2, 1])
        .with_forwarding(true)
        .with_branch_prediction(false, BranchPredictorType::TwoBit);
    let mut simulator =
        advanced_simulator(pipeline_config, CacheConfig::new(4096, 2, 64), CacheConfig::new(4096, 4, 64));
    simulator.memory.write_word_init(0x100, 5);
    simulator.memory.write_word_init(0x104, 10);
    let program = vec![0x8C020100u32, 0x8C030104u32, 0x00431020u32, 0x00000000u32];
    load_program_at(&mut simulator, &program, 0x1000);
    simulator.set_max_steps(50);
    simulator.run();
    assert_eq!(simulator.registers.read(2), 15, "Register $2 should contain 15");
    assert_eq!(simulator.registers.read(3), 10, "Register $3 should contain 10");
}

#[test]
fn test_cache_miss_handling() {
    let pipeline_config = PipelineConfig::new(5)
        .with_latencies(vec![1, 1, 1, 1, 1])
        .with_forwarding(true);
    let mut simulator =
        advanced_simulator(pipeline_config, CacheConfig::new(512, 1, 16), CacheConfig::new(512, 1, 16));
    for i in 0..10 {
        simulator.memory.write_word_init(i * 128, i as u32 * 10);
    }
    let mut program = Vec::new();
    for i in 0..5 {
        let reg = 10 + i as u32;
        program.push(0x8C000000u32 | (reg << 16) | ((i * 128) as u32));
    }
    for i in 5..10 {
        let reg = 15 + (i - 5) as u32;
        program.push(0x8C000000u32 | (reg << 16) | ((i * 128) as u32));
    }
    for i in 0..5 {
        let reg = 20 + i as u32;
        program.push(0x8C000000u32 | (reg << 16) | ((i * 128) as u32));
    }
    program.push(0x00000000u32);
    load_program_at(&mut simulator, &program, 0x1000);
    simulator.set_max_steps(200);
    simulator.run();
    for i in 0..5 {
        let reg = 10 + i as u32;
        assert_eq!(simulator.registers.read(reg), i as u32 * 10, "Register ${} should contain {}", reg, i * 10);
        let reg2 = 20 + i as u32;
        assert_eq!(simulator.registers.read(reg2), i as u32 * 10, "Register ${} should contain {}", reg2, i * 10);
    }
    for i in 5..10 {
        let reg = 15 + (i - 5) as u32;
        assert_eq!(simulator.registers.read(reg), i as u32 * 10, "Register ${} should contain {}", reg, i * 10);
    }
}

#[test]
fn advanced_features_test_memory_access_patterns() {
    let pipeline_config = PipelineConfig::new(5).with_latencies(vec![1, 1, 1, 1, 1]);
    let mut simulator =
        advanced_simulator(pipeline_config, CacheConfig::new(1024, 2, 32), CacheConfig::new(1024, 2, 32));
    for i in 0..20 {
        simulator.memory.write_word_init(0x1000 + i * 4, i as u32);
    }
    let program: Vec<u32> = (0..10u32)
        .map(|i| {
            let reg = 2 + i;
            let addr = 0x1000 + i * 4;
            0x8C000000u32 | (reg << 16) | addr
        })
        .collect();
    load_program_at(&mut simulator, &program, 0x2000);
    simulator.set_max_steps(100);
    simulator.run();
    for i in 0..10 {
        let reg = 2 + i as u32;
        assert_eq!(simulator.registers.read(reg), i as u32, "Register ${} should contain {}", reg, i);
    }
}

#[test]
fn test_superscalar_execution() {
    let pipeline_config = PipelineConfig::new(5)
        .with_latencies(vec![1, 1, 1, 1, 1])
        .with_superscalar(2);
    let mut simulator =
        advanced_simulator(pipeline_config, CacheConfig::new(4096, 2, 64), CacheConfig::new(4096, 4, 64));
    let program = vec![
        0x20020001u32, 0x20030002u32, 0x20040003u32, 0x20050004u32, 0x20060005u32, 0x20070006u32,
        0x20080007u32, 0x20090008u32, 0x00000000u32,
    ];
    load_program_at(&mut simulator, &program, 0x1000);
    simulator.set_max_steps(50);
    simulator.run();
    for i in 1..9 {
        let reg = 1 + i as u32;
        assert_eq!(simulator.registers.read(reg), i as u32, "Register ${} should contain {}", reg, i);
    }
}

fn walk_simulator() -> Simulator {
    let pipeline_config = create_test_pipeline_config(5, true, true);
    let mut simulator = Simulator::new(
        pipeline_config,
        CacheConfig::new(32768, 4, 64),
        CacheConfig::new(32768, 4, 64),
        8192,
    );
    simulator.memory.write_word_init(0x1000, 10);
    simulator.memory.write_word_init(0x1004, 20);
    simulator
}

#[test]
fn walk_runs_the_demonstration_program() {
    let mut simulator = walk_simulator();
    let program = [
        0x8C021000u32, 0x8C031004, 0x00431020, 0xAC021008, 0x8C021000, 0x8C031004, 0x00430018,
        0x00001012, 0xAC02100C, 0, 0, 0,
    ];
    load_program(&mut simulator, &program);
    let mut cycle = 0;
    let mut last = WalkStep::FetchFailed;
    while cycle < 100 {
        cycle += 1;
        last = simulator.walk_cycle(cycle);
        match last {
            WalkStep::Executed { .. } => {},
            _ => break,
        }
    }
    assert_eq!(last, WalkStep::ReachedNop);
    assert_eq!(cycle, 10);
    assert_eq!(simulator.pc, 36);
    assert_eq!(simulator.registers.read(2), 200);
    assert_eq!(simulator.registers.get_lo(), 200);
    assert_eq!(simulator.memory.read_word(0x1008), Some(30));
    assert_eq!(simulator.memory.read_word(0x100C), Some(200));
}

#[test]
fn walk_reports_values_and_moves_the_diagram() {
    let mut simulator = walk_simulator();
    // lw $2, 0x1000($0); beq $2, $2, 2
    load_program(&mut simulator, &[0x8C021000, 0x10420002]);
    let first = simulator.walk_cycle(1);
    assert_eq!(
        first,
        WalkStep::Executed {
            word: 0x8C021000,
            instruction: Instruction::Lw { rt: 2, base: 0, offset: 0x1000 },
            value: 10,
            jumped: false
        }
    );
    let second = simulator.walk_cycle(2);
    assert_eq!(
        second,
        WalkStep::Executed {
            word: 0x10420002,
            instruction: Instruction::Beq { rs: 2, rt: 2, offset: 2 },
            value: 12,
            jumped: true
        }
    );
    assert_eq!(simulator.pc, 12);
    match &simulator.execution_mode {
        ExecutionMode::InOrder(pipeline) => {
            assert_eq!(pipeline.stages[0].pc, 4);
            assert_eq!(pipeline.stages[1].pc, 0);
            assert!(pipeline.stages[2].instruction.is_none());
        },
        _ => panic!("expected the in-order pipeline"),
    }
}

#[test]
fn walk_stops_at_a_failed_load() {
    let mut simulator = walk_simulator();
    // lw $2, 0x7FF0($0): beyond the 8 KiB memory
    load_program(&mut simulator, &[0x8C027FF0]);
    match simulator.walk_cycle(1) {
        WalkStep::MemoryFault { address, .. } => assert_eq!(address, 0x7FF0),
        other => panic!("unexpected {:?}", other),
    }
    assert_eq!(simulator.pc, 0);
    assert_eq!(simulator.registers.read(2), 0);
}

#[test]
fn hierarchy_miss_is_served_by_the_second_level() {
    let mut memory = Memory::new(8192);
    memory.write_word_init(0x200, 0x1122_3344);
    let l1 = CacheConfig::new(1024, 2, 32);
    let l2 = CacheConfig::new(4096, 4, 32);
    let mut hierarchy = CacheHierarchy::new(memory, l1, l1, Some(l2));
    let (bytes, latency) = hierarchy.read_data(0x200).unwrap();
    assert_eq!(bytes, vec![0x44, 0x33, 0x22, 0x11]);
    assert_eq!(latency, 1 + 10);
    let (again, hit_latency) = hierarchy.read_data(0x200).unwrap();
    assert_eq!(again, vec![0x44, 0x33, 0x22, 0x11]);
    assert_eq!(hit_latency, 1 + 1);
}
