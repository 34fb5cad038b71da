use vmips_rust::functional_simulator::instructions::Instruction;
use vmips_rust::functional_simulator::memory::{Memory, MemoryRegion};
use vmips_rust::functional_simulator::registers::Registers;
use vmips_rust::timing_simulator::config::{CacheConfig, PipelineConfig};
use vmips_rust::timing_simulator::simulator::{ExecutionMode, Simulator};
use vmips_rust::timing_simulator::visualization::{OutputFormat, PipelineVisualization};
use vmips_rust::utils::syscall::{syscall_request, SyscallAction};

#[test]
fn mult_keeps_the_full_signed_product() {
    let mut r = Registers::new();
    let mut m = Memory::new(64);
    r.write(1, 0x10000);
    r.write(2, 0x10000);
    assert_eq!(Instruction::Mult { rs: 1, rt: 2 }.execute(&mut r, &mut m), None);
    assert_eq!(r.get_hi(), 1);
    assert_eq!(r.get_lo(), 0);
    r.write(3, (-3i32) as u32);
    r.write(4, 5);
    Instruction::Mult { rs: 3, rt: 4 }.execute(&mut r, &mut m);
    assert_eq!(r.get_hi(), 0xFFFF_FFFF);
    assert_eq!(r.get_lo(), (-15i32) as u32);
}

#[test]
fn conditional_branches_give_byte_offsets() {
    let mut r = Registers::new();
    let mut m = Memory::new(64);
    r.write(1, 7);
    assert_eq!(Instruction::Bgtz { rs: 1, offset: 3 }.execute(&mut r, &mut m), Some(12));
    assert_eq!(Instruction::Bgez { rs: 1, offset: -2 }.execute(&mut r, &mut m), Some((-8i32) as u32));
    assert_eq!(Instruction::Bltz { rs: 1, offset: 3 }.execute(&mut r, &mut m), None);
    assert_eq!(Instruction::Blez { rs: 0, offset: 5 }.execute(&mut r, &mut m), Some(20));
    assert_eq!(Instruction::BC1F { offset: 4 }.execute(&mut r, &mut m), Some(16));
}

#[test]
fn fill_range_fills_any_length() {
    let mut m = Memory::new_simple(1024);
    assert!(m.fill_range(16, 8, 0xAA));
    for i in 0..1024 {
        let expected = if (16..24).contains(&i) { 0xAA } else { 0 };
        assert_eq!(m.data[i], expected);
    }
    assert!(!m.fill_range(1020, 8, 0x11));
    assert_eq!(m.data[1020], 0);
}

#[test]
fn ranges_past_the_end_are_not_writable() {
    let mut m = Memory::new(1024);
    m.set_memory_regions(vec![MemoryRegion {
        start: 0,
        end: 512,
        readable: true,
        writable: false,
        executable: false,
        priority: 1,
    }]);
    assert!(!m.is_range_writable(500, 20));
    assert!(m.is_range_writable(512, 100));
    assert!(!m.is_range_writable(1020, 8));
}

#[test]
fn timing_addi_adds_to_the_source_register() {
    let mut sim = Simulator::new(PipelineConfig::new(5), CacheConfig::new(4096, 2, 64), CacheConfig::new(4096, 4, 64), 4096);
    sim.visualization = None;
    sim.registers.write(1, 5);
    sim.memory.write_word_init(0, 0x2023002A);
    sim.set_max_steps(1);
    sim.run();
    assert_eq!(sim.registers.read(3), 47);
}

#[test]
fn hex_dump_shows_bytes_and_characters() {
    let mut m = Memory::new_simple(64);
    m.write_byte_init(0, b'H');
    m.write_byte_init(1, b'i');
    m.write_byte_init(2, 0x01);
    let dump = m.dump_memory(0, 3);
    assert_eq!(
        dump,
        "00000000:  48 69 01                                          |Hi.             |\n"
    );
    assert_eq!(m.dump_memory(64, 16), "");
    assert_eq!(m.dump_memory(0, 20).lines().count(), 2);
}

#[test]
fn csv_visualization_of_an_empty_pipeline() {
    let sim = Simulator::new(PipelineConfig::new(5), CacheConfig::new(4096, 2, 64), CacheConfig::new(4096, 4, 64), 4096);
    let mut v = PipelineVisualization::new();
    v.output_format = OutputFormat::CSV;
    if let ExecutionMode::InOrder(ref p) = sim.execution_mode {
        assert_eq!(
            v.visualize_pipeline(p, 1),
            "Cycle,Fetch,Decode,Execute,Memory,Writeback,Hazards\n1,\"\",\"\",\"\",\"\",\"\",\"\"\n"
        );
        assert_eq!(v.visualize_pipeline(p, 2), "2,\"\",\"\",\"\",\"\",\"\",\"\"\n");
        let text = PipelineVisualization::new().visualize_pipeline(p, 3);
        assert!(text.starts_with("=== Pipeline State at Cycle 3 ===\n"));
        v.output_format = OutputFormat::JSON;
        let json = v.visualize_pipeline(p, 4);
        assert!(json.starts_with("{\n  \"cycle\": 4,\n  \"stages\": [\n"));
        assert!(json.ends_with("  \"hazards\": [\n  ]\n}\n"));
    } else {
        panic!("expected an in-order pipeline");
    }
}

#[test]
fn sbrk_moves_the_heap_end() {
    let mut r = Registers::new();
    let mut m = Memory::new(4096);
    let h = m.heap_end();
    r.write(2, 9);
    r.write(4, 16);
    assert!(matches!(syscall_request(&mut r, &mut m), SyscallAction::Done));
    assert_eq!(r.read(2), h as u32);
    assert_eq!(m.heap_end(), h + 16);
}

#[test]
fn copy_range_moves_any_length() {
    let mut m = Memory::new_simple(256);
    for i in 0..8 {
        m.write_byte_init(i, i as u8 + 1);
    }
    assert!(m.copy_range(0, 100, 8));
    for i in 0..8 {
        assert_eq!(m.data[100 + i], i as u8 + 1);
    }
    assert!(!m.copy_range(0, 250, 8));
    assert!(m.is_range_writable(16, 8));
    assert!(!m.is_range_writable(250, 8));
}
