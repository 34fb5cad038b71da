use vmips_rust::functional_simulator::disassembly::instruction_to_string;
use vmips_rust::functional_simulator::instructions::Instruction;
use vmips_rust::functional_simulator::simulator::{decode_instruction, Simulator};

#[test]
fn register_operands_are_numbered() {
    let i = Instruction::Add { rd: 1, rs: 2, rt: 3 };
    assert_eq!(instruction_to_string(&i, 0), "add $1, $2, $3");
    let i = Instruction::Sllv { rd: 10, rt: 11, rs: 31 };
    assert_eq!(instruction_to_string(&i, 0), "sllv $10, $11, $31");
    let i = Instruction::Jalr { rd: 31, rs: 4 };
    assert_eq!(instruction_to_string(&i, 0), "jalr $31, $4");
}

#[test]
fn signed_immediates_are_decimal() {
    let i = Instruction::Addi { rt: 2, rs: 0, imm: -1 };
    assert_eq!(instruction_to_string(&i, 0), "addi $2, $0, -1");
    let i = Instruction::Slti { rt: 2, rs: 3, imm: i16::MIN };
    assert_eq!(instruction_to_string(&i, 0), "slti $2, $3, -32768");
    let i = Instruction::Bne { rs: 2, rt: 0, offset: -2 };
    assert_eq!(instruction_to_string(&i, 0), "bne $2, $0, -2");
    let i = Instruction::Sll { rd: 4, rt: 5, shamt: 31 };
    assert_eq!(instruction_to_string(&i, 0), "sll $4, $5, 31");
}

#[test]
fn logical_immediates_and_targets_are_hexadecimal() {
    let i = Instruction::Ori { rt: 1, rs: 2, imm: 0xABCD };
    assert_eq!(instruction_to_string(&i, 0), "ori $1, $2, 0xABCD");
    let i = Instruction::Lui { rt: 1, imm: 0 };
    assert_eq!(instruction_to_string(&i, 0), "lui $1, 0x0");
    let i = Instruction::J { target: 0x100 };
    assert_eq!(instruction_to_string(&i, 0), "j 0x400");
    let i = Instruction::Jal { target: 0x3FFFFFF };
    assert_eq!(instruction_to_string(&i, 0), "jal 0xFFFFFFC");
}

#[test]
fn memory_and_floating_point_operands() {
    let i = Instruction::Lw { rt: 8, base: 29, offset: -4 };
    assert_eq!(instruction_to_string(&i, 0), "lw $8, -4($29)");
    let i = Instruction::SwC1 { ft: 2, base: 3, offset: 16 };
    assert_eq!(instruction_to_string(&i, 0), "swc1 $f2, 16($3)");
    let i = Instruction::AddS { fd: 0, fs: 1, ft: 2 };
    assert_eq!(instruction_to_string(&i, 0), "add.s $f0, $f1, $f2");
    let i = Instruction::CmpS { fs: 2, ft: 4, cond: 1 };
    assert_eq!(instruction_to_string(&i, 0), "c.lt.s $f2, $f4");
    let i = Instruction::CmpS { fs: 2, ft: 4, cond: 7 };
    assert_eq!(instruction_to_string(&i, 0), "c.??.s $f2, $f4");
    let i = Instruction::BC1F { offset: 3 };
    assert_eq!(instruction_to_string(&i, 0), "bc1f 3");
}

#[test]
fn special_instructions() {
    assert_eq!(instruction_to_string(&Instruction::Nop, 0), "nop");
    assert_eq!(instruction_to_string(&Instruction::Syscall, 0), "syscall");
    assert_eq!(instruction_to_string(&Instruction::Break { code: 7 }, 0), "break 7");
    assert_eq!(
        instruction_to_string(&Instruction::InvalidInstruction, 0xFC00_0001),
        "INVALID (0xFC000001)"
    );
    assert_eq!(
        instruction_to_string(&decode_instruction(0x8C021000), 0x8C021000),
        "lw $2, 4096($0)"
    );
}

#[test]
fn listing_stops_at_the_end_of_memory() {
    let mut simulator = Simulator::new(16);
    simulator.memory.write_word_init(0, 0x8C021000);
    simulator.memory.write_word_init(4, 0x00431020);
    let listing = simulator.get_disassembly(0, 10);
    assert_eq!(listing.len(), 4);
    assert_eq!(listing[0], (0, "00000000: lw $2, 4096($0)".to_string()));
    assert_eq!(listing[1], (4, "00000004: add $2, $2, $3".to_string()));
    assert_eq!(listing[2], (8, "00000008: nop".to_string()));
    let listing = simulator.get_disassembly(8, 1);
    assert_eq!(listing, vec![(8, "00000008: nop".to_string())]);
    assert!(simulator.get_disassembly(16, 3).is_empty());
}
