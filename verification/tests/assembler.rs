use vmips_rust::assembler::lexer::{tokenize, Fault, Mnemonic, Token};
use vmips_rust::assembler::{Assembler, AssemblerError};
use vmips_rust::functional_simulator::instructions::Instruction;
use vmips_rust::functional_simulator::simulator::decode_instruction;

fn words(image: &[u8]) -> Vec<u32> {
    image[8..]
        .chunks(4)
        .map(|c| u32::from_le_bytes([c[0], c[1], c[2], c[3]]))
        .collect()
}

fn header(image: &[u8]) -> (u32, u32) {
    (
        u32::from_le_bytes([image[0], image[1], image[2], image[3]]),
        u32::from_le_bytes([image[4], image[5], image[6], image[7]]),
    )
}

fn line_of(e: &AssemblerError) -> usize {
    match e {
        AssemblerError::ParseError(_, l)
        | AssemblerError::SymbolError(_, l)
        | AssemblerError::SyntaxError(_, l)
        | AssemblerError::RegisterError(_, l)
        | AssemblerError::OperandError(_, l)
        | AssemblerError::RangeError(_, l)
        | AssemblerError::UnsupportedError(_, l) => *l,
        AssemblerError::IoError(_) => 0,
    }
}

#[test]
fn test_empty_program_handling() {
    let mut assembler = Assembler::new();
    let result = assembler.assemble_string("");
    assert!(result.is_ok());
    let binary = result.unwrap();
    assert_eq!(binary.len(), 8);
    let data_size = u32::from_le_bytes([binary[0], binary[1], binary[2], binary[3]]);
    assert_eq!(data_size, 0);
    let text_size = u32::from_le_bytes([binary[4], binary[5], binary[6], binary[7]]);
    assert_eq!(text_size, 0);
}

#[test]
fn test_error_propagation() {
    let mut assembler = Assembler::new();
    let result = assembler.assemble_string("invalid_instruction");
    assert!(result.is_err());
    if let Err(error) = result {
        assert!(matches!(error, AssemblerError::SyntaxError(_, 1)));
        let error_str = error.message();
        assert!(!error_str.is_empty());
        assert!(error_str.starts_with("Syntax error at line 1: "));
    }
}

#[test]
fn test_assembler_error_display() {
    let parse_error = AssemblerError::ParseError("Invalid instruction".to_string(), 5);
    let display_str = parse_error.message();
    assert!(display_str.contains("Parse error at line 5"));
    assert!(display_str.contains("Invalid instruction"));

    let io_error = AssemblerError::IoError(std::io::Error::new(std::io::ErrorKind::NotFound, "File not found"));
    let display_str = io_error.message();
    assert!(display_str.contains("I/O error"));
    assert!(display_str.contains("File not found"));
}

#[test]
fn fp_comparisons_round_trip_through_the_decoder() {
    let mut a = Assembler::new();
    for (text, cond) in [("c.eq.s $f1, $f2", 0u32), ("c.lt.s $f1, $f2", 1), ("c.le.s $f1, $f2", 2)] {
        let out = a.assemble_string(text).unwrap();
        let w = u32::from_le_bytes([out[8], out[9], out[10], out[11]]);
        assert!(matches!(decode_instruction(w), Instruction::CmpS { fs: 1, ft: 2, cond: c } if c == cond));
    }
}

#[test]
fn assembles_register_arithmetic() {
    let mut assembler = Assembler::new();
    let image = assembler.assemble_string("add $t0, $t1, $t2").unwrap();
    assert_eq!(header(&image), (0, 4));
    assert_eq!(words(&image), vec![0x012A4020]);
    assert_eq!(
        decode_instruction(0x012A4020),
        Instruction::Add { rd: 8, rs: 9, rt: 10 }
    );
}

#[test]
fn assembles_labels_and_branches() {
    let code = ".text\nmain: addi $t0, $zero, 5\nloop: addi $t0, $t0, -1\n      bne $t0, $zero, loop\n      j main\n";
    let mut assembler = Assembler::new();
    let image = assembler.assemble_string(code).unwrap();
    assert_eq!(header(&image), (0, 16));
    assert_eq!(
        words(&image),
        vec![0x20080005, 0x2108FFFF, 0x1500FFFE, 0x08000000]
    );
    assert_eq!(
        decode_instruction(0x1500FFFE),
        Instruction::Bne { rs: 8, rt: 0, offset: -2 }
    );
}

#[test]
fn assembles_data_directives() {
    let code = ".data\nvals: .word 1, 2\n.byte 255, -1\n.asciiz \"hi\"\n.half 0x1234\n";
    let mut assembler = Assembler::new();
    let image = assembler.assemble_string(code).unwrap();
    assert_eq!(header(&image), (15, 0));
    assert_eq!(
        &image[8..],
        &[1, 0, 0, 0, 2, 0, 0, 0, 0xFF, 0xFF, b'h', b'i', 0, 0x34, 0x12]
    );
}

#[test]
fn word_directive_holds_label_addresses() {
    let code = ".text\nstart: nop\nnext: nop\n.data\ntable: .word next, start\n";
    let mut assembler = Assembler::new();
    let image = assembler.assemble_string(code).unwrap();
    assert_eq!(header(&image), (8, 8));
    assert_eq!(&image[8..16], &[4, 0, 0, 0, 0, 0, 0, 0]);
}

#[test]
fn align_and_space_pad_the_data_section() {
    let code = ".data\n.byte 1\n.align 2\n.space 3\n";
    let mut assembler = Assembler::new();
    let image = assembler.assemble_string(code).unwrap();
    assert_eq!(header(&image), (7, 0));
    assert_eq!(&image[8..], &[1, 0, 0, 0, 0, 0, 0]);
}

#[test]
fn comments_and_blank_lines_are_ignored() {
    let code = "# a program\n\n   syscall   # stop here\r\nnop\n";
    let mut assembler = Assembler::new();
    let image = assembler.assemble_string(code).unwrap();
    assert_eq!(words(&image), vec![0x0000000C, 0]);
}

#[test]
fn load_store_takes_address_without_comma() {
    let mut assembler = Assembler::new();
    let image = assembler.assemble_string("lw $t0 4($sp)").unwrap();
    assert_eq!(words(&image), vec![0x8FA80004]);
    let mut assembler = Assembler::new();
    let err = assembler.assemble_string("lw $t0, 4($sp)").unwrap_err();
    assert!(matches!(err, AssemblerError::SyntaxError(_, 1)));
}

#[test]
fn pseudo_instructions() {
    let mut assembler = Assembler::new();
    let image = assembler
        .assemble_string("move $t0, $t1\nli $t2, 7\nb there\nthere: nop\n")
        .unwrap();
    assert_eq!(words(&image), vec![0x00094021, 0x200A0007, 0x10000000, 0]);
}

#[test]
fn each_error_kind_has_its_line() {
    let cases: Vec<(&str, fn(&AssemblerError) -> bool, usize)> = vec![
        ("nop\nadd $t0, $t1", |e| matches!(e, AssemblerError::SyntaxError(..)), 2),
        ("bne $t0, $zero, nowhere", |e| matches!(e, AssemblerError::SymbolError(..)), 1),
        ("nop\nnop\naddi $t0, $t0, 70000", |e| matches!(e, AssemblerError::RangeError(..)), 3),
        ("add $t99, $t0, $t0", |e| matches!(e, AssemblerError::RegisterError(..)), 1),
        ("li $t0, 0x", |e| matches!(e, AssemblerError::ParseError(..)), 1),
        ("slti $t0, $t1, 1", |e| matches!(e, AssemblerError::UnsupportedError(..)), 1),
        (".word 1", |e| matches!(e, AssemblerError::SyntaxError(..)), 1),
        ("x: @", |e| matches!(e, AssemblerError::SyntaxError(..)), 1),
    ];
    for (code, kind, line) in cases {
        let mut assembler = Assembler::new();
        let err = assembler.assemble_string(code).unwrap_err();
        assert!(kind(&err), "wrong kind for {:?}: {:?}", code, err);
        assert_eq!(line_of(&err), line, "wrong line for {:?}", code);
    }
}

#[test]
fn tokenizer_reads_numbers_registers_and_strings() {
    let line: Vec<char> = "addi $sp, $f3, -0x10".chars().collect();
    assert!(matches!(tokenize(&line), Err(Fault::Parse)));
    let line: Vec<char> = "ADDI $sp, $f3, 0x10, 017, 0b101, -42 \"a\\tb\\x41\"".chars().collect();
    let tokens = tokenize(&line).unwrap();
    assert!(matches!(tokens[0], Token::Instruction(Mnemonic::Addi)));
    assert!(matches!(tokens[1], Token::Register(29)));
    assert!(matches!(tokens[3], Token::FpRegister(3)));
    assert!(matches!(tokens[5], Token::Immediate(16)));
    assert!(matches!(tokens[7], Token::Immediate(15)));
    assert!(matches!(tokens[9], Token::Immediate(5)));
    assert!(matches!(tokens[11], Token::Immediate(-42)));
    match &tokens[12] {
        Token::StringLiteral(s) => assert_eq!(s.iter().collect::<String>(), "a\tbA"),
        other => panic!("expected a string, got {:?}", other),
    }
    let line: Vec<char> = "$fp".chars().collect();
    assert!(matches!(tokenize(&line), Err(Fault::Register)));
}
