use vmips_rust::elf_loader::{ElfError, ElfLoader};
use vmips_rust::functional_simulator::memory::Memory;

fn sample_elf() -> Vec<u8> {
    let mut d = vec![0u8; 90];
    d[0..4].copy_from_slice(&[0x7f, b'E', b'L', b'F']);
    d[18..20].copy_from_slice(&8u16.to_le_bytes());
    d[24..28].copy_from_slice(&0x400000u32.to_le_bytes());
    d[28..32].copy_from_slice(&52u32.to_le_bytes());
    d[42..44].copy_from_slice(&32u16.to_le_bytes());
    d[44..46].copy_from_slice(&1u16.to_le_bytes());
    let ph: [u32; 8] = [1, 84, 0x100, 0, 6, 8, 5, 4];
    for (i, v) in ph.iter().enumerate() {
        d[52 + 4 * i..56 + 4 * i].copy_from_slice(&v.to_le_bytes());
    }
    d[84..90].copy_from_slice(&[1, 2, 3, 4, 5, 6]);
    d
}

#[test]
fn test_elf_magic_validation() {
    let mut invalid_data = vec![0u8; 64];
    invalid_data[0..4].copy_from_slice(&[0x7f, b'E', b'L', b'X']);
    let result = ElfLoader::load_from_bytes(invalid_data);
    assert!(matches!(result, Err(ElfError::InvalidMagic)));
}

#[test]
fn test_insufficient_data() {
    let small_data = vec![0u8; 10];
    let result = ElfLoader::load_from_bytes(small_data);
    assert!(matches!(result, Err(ElfError::InvalidFormat)));
}

#[test]
fn rejects_other_architectures() {
    let mut d = sample_elf();
    d[18] = 3;
    assert!(matches!(ElfLoader::load_from_bytes(d), Err(ElfError::UnsupportedArchitecture)));
}

#[test]
fn rejects_program_headers_outside_the_file() {
    let mut d = sample_elf();
    d[44] = 2;
    assert!(matches!(ElfLoader::load_from_bytes(d), Err(ElfError::InvalidFormat)));
}

#[test]
fn loads_segments_into_memory() {
    let loader = ElfLoader::load_from_bytes(sample_elf()).ok().unwrap();
    assert_eq!(loader.entry_point(), 0x400000);
    assert_eq!(loader.get_segments(), vec![(0x100, 8, 5)]);
    let mut memory = Memory::new(4096);
    assert!(loader.load_into_memory(&mut memory).is_ok());
    assert_eq!(memory.read_word(0x100), Some(0x04030201));
    assert_eq!(memory.read_word(0x104), Some(0x00000605));
}

#[test]
fn segment_outside_memory_is_a_memory_error() {
    let mut d = sample_elf();
    d[60..64].copy_from_slice(&0x10000u32.to_le_bytes());
    let loader = ElfLoader::load_from_bytes(d).ok().unwrap();
    let mut memory = Memory::new_simple(1024);
    assert!(matches!(loader.load_into_memory(&mut memory), Err(ElfError::MemoryError)));
}

#[test]
fn segment_beyond_the_file_is_a_format_error() {
    let mut d = sample_elf();
    d[68..72].copy_from_slice(&100u32.to_le_bytes());
    let loader = ElfLoader::load_from_bytes(d).ok().unwrap();
    let mut memory = Memory::new(4096);
    assert!(matches!(loader.load_into_memory(&mut memory), Err(ElfError::InvalidFormat)));
}
