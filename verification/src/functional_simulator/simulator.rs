//! The functional simulator: instruction decoding and the fetch/decode/
//! execute step over registers and memory.
use vstd::prelude::*;
use std::collections::HashMap;
use super::instructions::{Instruction, law_execution_deterministic};
use super::memory::{Memory, compose_word, le_word};
use super::registers::{Registers, RegistersModel};
use super::disassembly::{disassembly, hex_width, instruction_to_string, push_hex_width};

verus! {

/// Bits `[shift, shift + width)` of an instruction word.
pub open spec fn field(w: u32, shift: u32, mask: u32) -> u32 {
    (w >> shift) & mask
}

/// The instruction that a 32-bit word encodes.
pub open spec fn decoded(w: u32) -> Instruction {
    let opcode = field(w, 26, 0x3F);
    let rs = field(w, 21, 0x1F);
    let rt = field(w, 16, 0x1F);
    let rd = field(w, 11, 0x1F);
    let shamt = field(w, 6, 0x1F);
    let funct = w & 0x3F;
    let imm = w & 0xFFFF;
    let target = w & 0x3FFFFFF;
    if opcode == 0 {
        if w == 0 {
            Instruction::Nop
        } else if funct == 0x20 {
            Instruction::Add { rd, rs, rt }
        } else if funct == 0x22 {
            Instruction::Sub { rd, rs, rt }
        } else if funct == 0x24 {
            Instruction::And { rd, rs, rt }
        } else if funct == 0x25 {
            Instruction::Or { rd, rs, rt }
        } else if funct == 0x2A {
            Instruction::Slt { rd, rs, rt }
        } else if funct == 0x00 {
            Instruction::Sll { rd, rt, shamt }
        } else if funct == 0x02 {
            Instruction::Srl { rd, rt, shamt }
        } else if funct == 0x03 {
            Instruction::Sra { rd, rt, shamt }
        } else if funct == 0x04 {
            Instruction::Sllv { rd, rt, rs }
        } else if funct == 0x06 {
            Instruction::Srlv { rd, rt, rs }
        } else if funct == 0x07 {
            Instruction::Srav { rd, rt, rs }
        } else if funct == 0x08 {
            Instruction::Jr { rs }
        } else if funct == 0x09 {
            Instruction::Jalr { rd, rs }
        } else if funct == 0x0C {
            Instruction::Syscall
        } else if funct == 0x0D {
            Instruction::Break { code: w >> 16 }
        } else if funct == 0x10 {
            Instruction::Mfhi { rd }
        } else if funct == 0x11 {
            Instruction::Mthi { rs }
        } else if funct == 0x12 {
            Instruction::Mflo { rd }
        } else if funct == 0x13 {
            Instruction::Mtlo { rs }
        } else if funct == 0x18 {
            Instruction::Mult { rs, rt }
        } else if funct == 0x1A {
            Instruction::Div { rs, rt }
        } else if funct == 0x1B {
            Instruction::Divu { rs, rt }
        } else if funct == 0x26 {
            Instruction::Xor { rd, rs, rt }
        } else if funct == 0x27 {
            Instruction::Nor { rd, rs, rt }
        } else {
            Instruction::InvalidInstruction
        }
    } else if opcode == 0x08 {
        Instruction::Addi { rt, rs, imm: imm as i16 }
    } else if opcode == 0x09 {
        Instruction::Addiu { rt, rs, imm: imm as i16 }
    } else if opcode == 0x0A {
        Instruction::Slti { rt, rs, imm: imm as i16 }
    } else if opcode == 0x0B {
        Instruction::Sltiu { rt, rs, imm: imm as i16 }
    } else if opcode == 0x0C {
        Instruction::Andi { rt, rs, imm: imm as u16 }
    } else if opcode == 0x0D {
        Instruction::Ori { rt, rs, imm: imm as u16 }
    } else if opcode == 0x0E {
        Instruction::Xori { rt, rs, imm: imm as u16 }
    } else if opcode == 0x0F {
        Instruction::Lui { rt, imm: imm as u16 }
    } else if opcode == 0x20 {
        Instruction::Lb { rt, base: rs, offset: imm as i16 }
    } else if opcode == 0x21 {
        Instruction::Lh { rt, base: rs, offset: imm as i16 }
    } else if opcode == 0x23 {
        Instruction::Lw { rt, base: rs, offset: imm as i16 }
    } else if opcode == 0x24 {
        Instruction::Lbu { rt, base: rs, offset: imm as i16 }
    } else if opcode == 0x25 {
        Instruction::Lhu { rt, base: rs, offset: imm as i16 }
    } else if opcode == 0x28 {
        Instruction::Sb { rt, base: rs, offset: imm as i16 }
    } else if opcode == 0x29 {
        Instruction::Sh { rt, base: rs, offset: imm as i16 }
    } else if opcode == 0x2B {
        Instruction::Sw { rt, base: rs, offset: imm as i16 }
    } else if opcode == 0x04 {
        Instruction::Beq { rs, rt, offset: imm as i16 }
    } else if opcode == 0x05 {
        Instruction::Bne { rs, rt, offset: imm as i16 }
    } else if opcode == 0x06 {
        Instruction::Blez { rs, offset: imm as i16 }
    } else if opcode == 0x07 {
        Instruction::Bgtz { rs, offset: imm as i16 }
    } else if opcode == 0x01 {
        if rt == 0 {
            Instruction::Bltz { rs, offset: imm as i16 }
        } else if rt == 1 {
            Instruction::Bgez { rs, offset: imm as i16 }
        } else {
            Instruction::InvalidInstruction
        }
    } else if opcode == 0x02 {
        Instruction::J { target }
    } else if opcode == 0x03 {
        Instruction::Jal { target }
    } else if opcode == 0x31 {
        Instruction::LwC1 { ft: rt, base: rs, offset: imm as i16 }
    } else if opcode == 0x39 {
        Instruction::SwC1 { ft: rt, base: rs, offset: imm as i16 }
    } else if opcode == 0x11 {
        let fd = shamt;
        let fs = rd;
        let ft = rt;
        if rs == 0x10 {
            if funct == 0x00 {
                Instruction::AddS { fd, fs, ft }
            } else if funct == 0x01 {
                Instruction::SubS { fd, fs, ft }
            } else if funct == 0x02 {
                Instruction::MulS { fd, fs, ft }
            } else if funct == 0x03 {
                Instruction::DivS { fd, fs, ft }
            } else if funct == 0x05 {
                Instruction::AbsS { fd, fs }
            } else if funct == 0x07 {
                Instruction::NegS { fd, fs }
            } else if funct == 0x06 {
                Instruction::MovS { fd, fs }
            } else if funct == 0x32 {
                Instruction::CvtWS { fd, fs }
            } else if funct == 0x20 {
                Instruction::CvtSW { fd, fs }
            } else if funct == 0x30 {
                Instruction::CmpS { fs, ft, cond: 0 }
            } else if funct == 0x3C {
                Instruction::CmpS { fs, ft, cond: 1 }
            } else if funct == 0x3E {
                Instruction::CmpS { fs, ft, cond: 2 }
            } else {
                Instruction::InvalidInstruction
            }
        } else if rs == 0x08 {
            if rt == 0 {
                Instruction::BC1F { offset: imm as i16 }
            } else if rt == 1 {
                Instruction::BC1T { offset: imm as i16 }
            } else {
                Instruction::InvalidInstruction
            }
        } else {
            Instruction::InvalidInstruction
        }
    } else {
        Instruction::InvalidInstruction
    }
}

/// Decodes an instruction word into an `Instruction`.
pub fn decode_instruction(instruction_word: u32) -> (r: Instruction)
    ensures
        r == decoded(instruction_word),
{
    let w = instruction_word;
    let opcode = (w >> 26u32) & 0x3F;
    let rs = (w >> 21u32) & 0x1F;
    let rt = (w >> 16u32) & 0x1F;
    let rd = (w >> 11u32) & 0x1F;
    let shamt = (w >> 6u32) & 0x1F;
    let funct = w & 0x3F;
    let imm = w & 0xFFFF;
    let target = w & 0x3FFFFFF;
    if opcode == 0 {
        if w == 0 {
            Instruction::Nop
        } else if funct == 0x20 {
            Instruction::Add { rd, rs, rt }
        } else if funct == 0x22 {
            Instruction::Sub { rd, rs, rt }
        } else if funct == 0x24 {
            Instruction::And { rd, rs, rt }
        } else if funct == 0x25 {
            Instruction::Or { rd, rs, rt }
        } else if funct == 0x2A {
            Instruction::Slt { rd, rs, rt }
        } else if funct == 0x00 {
            Instruction::Sll { rd, rt, shamt }
        } else if funct == 0x02 {
            Instruction::Srl { rd, rt, shamt }
        } else if funct == 0x03 {
            Instruction::Sra { rd, rt, shamt }
        } else if funct == 0x04 {
            Instruction::Sllv { rd, rt, rs }
        } else if funct == 0x06 {
            Instruction::Srlv { rd, rt, rs }
        } else if funct == 0x07 {
            Instruction::Srav { rd, rt, rs }
        } else if funct == 0x08 {
            Instruction::Jr { rs }
        } else if funct == 0x09 {
            Instruction::Jalr { rd, rs }
        } else if funct == 0x0C {
            Instruction::Syscall
        } else if funct == 0x0D {
            Instruction::Break { code: w >> 16u32 }
        } else if funct == 0x10 {
            Instruction::Mfhi { rd }
        } else if funct == 0x11 {
            Instruction::Mthi { rs }
        } else if funct == 0x12 {
            Instruction::Mflo { rd }
        } else if funct == 0x13 {
            Instruction::Mtlo { rs }
        } else if funct == 0x18 {
            Instruction::Mult { rs, rt }
        } else if funct == 0x1A {
            Instruction::Div { rs, rt }
        } else if funct == 0x1B {
            Instruction::Divu { rs, rt }
        } else if funct == 0x26 {
            Instruction::Xor { rd, rs, rt }
        } else if funct == 0x27 {
            Instruction::Nor { rd, rs, rt }
        } else {
            Instruction::InvalidInstruction
        }
    } else if opcode == 0x08 {
        Instruction::Addi { rt, rs, imm: imm as i16 }
    } else if opcode == 0x09 {
        Instruction::Addiu { rt, rs, imm: imm as i16 }
    } else if opcode == 0x0A {
        Instruction::Slti { rt, rs, imm: imm as i16 }
    } else if opcode == 0x0B {
        Instruction::Sltiu { rt, rs, imm: imm as i16 }
    } else if opcode == 0x0C {
        Instruction::Andi { rt, rs, imm: imm as u16 }
    } else if opcode == 0x0D {
        Instruction::Ori { rt, rs, imm: imm as u16 }
    } else if opcode == 0x0E {
        Instruction::Xori { rt, rs, imm: imm as u16 }
    } else if opcode == 0x0F {
        Instruction::Lui { rt, imm: imm as u16 }
    } else if opcode == 0x20 {
        Instruction::Lb { rt, base: rs, offset: imm as i16 }
    } else if opcode == 0x21 {
        Instruction::Lh { rt, base: rs, offset: imm as i16 }
    } else if opcode == 0x23 {
        Instruction::Lw { rt, base: rs, offset: imm as i16 }
    } else if opcode == 0x24 {
        Instruction::Lbu { rt, base: rs, offset: imm as i16 }
    } else if opcode == 0x25 {
        Instruction::Lhu { rt, base: rs, offset: imm as i16 }
    } else if opcode == 0x28 {
        Instruction::Sb { rt, base: rs, offset: imm as i16 }
    } else if opcode == 0x29 {
        Instruction::Sh { rt, base: rs, offset: imm as i16 }
    } else if opcode == 0x2B {
        Instruction::Sw { rt, base: rs, offset: imm as i16 }
    } else if opcode == 0x04 {
        Instruction::Beq { rs, rt, offset: imm as i16 }
    } else if opcode == 0x05 {
        Instruction::Bne { rs, rt, offset: imm as i16 }
    } else if opcode == 0x06 {
        Instruction::Blez { rs, offset: imm as i16 }
    } else if opcode == 0x07 {
        Instruction::Bgtz { rs, offset: imm as i16 }
    } else if opcode == 0x01 {
        if rt == 0 {
            Instruction::Bltz { rs, offset: imm as i16 }
        } else if rt == 1 {
            Instruction::Bgez { rs, offset: imm as i16 }
        } else {
            Instruction::InvalidInstruction
        }
    } else if opcode == 0x02 {
        Instruction::J { target }
    } else if opcode == 0x03 {
        Instruction::Jal { target }
    } else if opcode == 0x31 {
        Instruction::LwC1 { ft: rt, base: rs, offset: imm as i16 }
    } else if opcode == 0x39 {
        Instruction::SwC1 { ft: rt, base: rs, offset: imm as i16 }
    } else if opcode == 0x11 {
        let fd = shamt;
        let fs = rd;
        let ft = rt;
        if rs == 0x10 {
            if funct == 0x00 {
                Instruction::AddS { fd, fs, ft }
            } else if funct == 0x01 {
                Instruction::SubS { fd, fs, ft }
            } else if funct == 0x02 {
                Instruction::MulS { fd, fs, ft }
            } else if funct == 0x03 {
                Instruction::DivS { fd, fs, ft }
            } else if funct == 0x05 {
                Instruction::AbsS { fd, fs }
            } else if funct == 0x07 {
                Instruction::NegS { fd, fs }
            } else if funct == 0x06 {
                Instruction::MovS { fd, fs }
            } else if funct == 0x32 {
                Instruction::CvtWS { fd, fs }
            } else if funct == 0x20 {
                Instruction::CvtSW { fd, fs }
            } else if funct == 0x30 {
                Instruction::CmpS { fs, ft, cond: 0 }
            } else if funct == 0x3C {
                Instruction::CmpS { fs, ft, cond: 1 }
            } else if funct == 0x3E {
                Instruction::CmpS { fs, ft, cond: 2 }
            } else {
                Instruction::InvalidInstruction
            }
        } else if rs == 0x08 {
            if rt == 0 {
                Instruction::BC1F { offset: imm as i16 }
            } else if rt == 1 {
                Instruction::BC1T { offset: imm as i16 }
            } else {
                Instruction::InvalidInstruction
            }
        } else {
            Instruction::InvalidInstruction
        }
    } else {
        Instruction::InvalidInstruction
    }
}

/// Register fields decode to register numbers below 32, shift amounts below
/// 32 and 26-bit jump targets.
proof fn lemma_decoded_fields_in_range(w: u32)
    ensures
        field(w, 21, 0x1F) < 32,
        field(w, 16, 0x1F) < 32,
        field(w, 11, 0x1F) < 32,
        field(w, 6, 0x1F) < 32,
        w & 0x3FFFFFF < 0x4000000,
{
    assert((w >> 21u32) & 0x1F < 32) by (bit_vector);
    assert((w >> 16u32) & 0x1F < 32) by (bit_vector);
    assert((w >> 11u32) & 0x1F < 32) by (bit_vector);
    assert((w >> 6u32) & 0x1F < 32) by (bit_vector);
    assert(w & 0x3FFFFFF < 0x4000000) by (bit_vector);
}

/// Decoding a word never names a register outside a file of 32: the
/// register an instruction writes and the registers it reads are below 32.
pub proof fn law_decoded_registers_in_range(w: u32)
    ensures
        decoded(w).dest_register() matches Some(d) ==> d < 32,
        forall|k: int|
            0 <= k < decoded(w).source_regs().len() ==> #[trigger] decoded(w).source_regs()[k] < 32,
{
    lemma_decoded_fields_in_range(w);
}



/// The little-endian word at byte offset `k` of `bytes`.
pub open spec fn le_word_at(bytes: Seq<u8>, k: int) -> u32 {
    le_word(bytes[k], bytes[k + 1], bytes[k + 2], bytes[k + 3])
}

/// The little-endian words of `bytes`; a trailing partial word is dropped.
pub open spec fn words_of(bytes: Seq<u8>) -> Seq<u32> {
    Seq::new(bytes.len() / 4, |i: int| le_word_at(bytes, 4 * i))
}

/// The first `n` elements of `s` (all of them when `s` is shorter).
pub open spec fn first_n<A>(s: Seq<A>, n: nat) -> Seq<A> {
    if s.len() <= n {
        s
    } else {
        s.take(n as int)
    }
}

/// Whether a program image starts with a header of two plausible section
/// sizes (data, then text), each below one million bytes.
pub open spec fn has_header(p: Seq<u8>) -> bool {
    &&& p.len() >= 8
    &&& le_word_at(p, 0) < 1_000_000
    &&& le_word_at(p, 4) < 1_000_000
}

/// Whether the sections that a header announces fit in the image.
pub open spec fn header_fits(p: Seq<u8>) -> bool {
    has_header(p) && le_word_at(p, 0) + le_word_at(p, 4) + 8 <= p.len()
}

/// Base of the data segment.
pub const DATA_SEGMENT: usize = 0x10000000;

/// Base of the text segment.
pub const TEXT_SEGMENT: usize = 0x00400000;

/// The backing store after the fixed test words are written at
/// 0x1000..0x100C (10, 20, 0, 0).
pub open spec fn with_test_data(m: &Memory) -> Seq<u8> {
    m.word_written(
        m.word_written(m.word_written(m.word_written(m.contents(), 0x1000, 10), 0x1004, 20), 0x1008, 0),
        0x100C,
        0,
    )
}

/// The backing store after loading program image `p` into `m`.
pub open spec fn program_loaded(m: &Memory, p: Seq<u8>) -> Seq<u8> {
    let d0 = with_test_data(m);
    if header_fits(p) {
        let ds = le_word_at(p, 0) as int;
        let ts = le_word_at(p, 4) as int;
        m.words_loaded(
            m.bytes_loaded(d0, DATA_SEGMENT, p.subrange(8, 8 + ds)),
            TEXT_SEGMENT,
            words_of(p.subrange(8 + ds, 8 + ds + ts)),
        )
    } else if has_header(p) {
        p + d0.skip(p.len() as int)
    } else {
        m.words_loaded(d0, 0, first_n(words_of(p), 16))
    }
}

/// The program counter after loading program image `p`.
pub open spec fn entry_pc(p: Seq<u8>) -> u32 {
    if header_fits(p) {
        TEXT_SEGMENT as u32
    } else {
        0
    }
}

/// Checked writes through one memory give the same backing store as
/// through another with the same layout.
proof fn lemma_same_layout_writes(m1: &Memory, m2: &Memory, d: Seq<u8>, a: usize, b: u8, w: u32)
    requires
        m2.same_layout(m1),
    ensures
        m2.byte_written(d, a, b) == m1.byte_written(d, a, b),
        m2.word_written(d, a, w) == m1.word_written(d, a, w),
{
}

/// Whether `i` executes without overflow on `registers` at program counter
/// `pc`.
fn execution_defined_here(i: Instruction, registers: &Registers, pc: u32) -> (r: bool)
    ensures
        r == i.execution_defined(RegistersModel { pc: pc, ..registers@ }),
{
    match i {
        Instruction::Sll { shamt, .. } => shamt < 32,
        Instruction::Srl { shamt, .. } => shamt < 32,
        Instruction::Sra { shamt, .. } => shamt < 32,
        Instruction::Jal { .. } => pc <= u32::MAX - 4,
        Instruction::Jalr { .. } => pc <= u32::MAX - 4,
        Instruction::Div { rs, rt } => !(registers.read(rs) == 0x8000_0000u32 && registers.read(rt)
            == 0xFFFF_FFFFu32),
        Instruction::LwC1 { base, offset, .. } => (registers.read(base).wrapping_add(
            offset as u32,
        ) as usize) <= usize::MAX - 3,
        Instruction::SwC1 { base, offset, .. } => (registers.read(base).wrapping_add(
            offset as u32,
        ) as usize) <= usize::MAX - 3,
        _ => true,
    }
}

/// Byte loads through memories of the same layout agree.
proof fn lemma_layout_loads(m1: &Memory, m2: &Memory, d: Seq<u8>, base: usize, bytes: Seq<u8>)
    requires
        m2.same_layout(m1),
    ensures
        m2.bytes_loaded(d, base, bytes) == m1.bytes_loaded(d, base, bytes),
    decreases bytes.len(),
{
    if bytes.len() > 0 {
        lemma_layout_loads(m1, m2, d, base, bytes.drop_last());
        lemma_same_layout_writes(
            m1,
            m2,
            m1.bytes_loaded(d, base, bytes.drop_last()),
            (base + bytes.len() - 1) as usize,
            bytes.last(),
            0,
        );
    }
}

/// Word loads through memories of the same layout agree.
proof fn lemma_layout_loads_words(m1: &Memory, m2: &Memory, d: Seq<u8>, base: usize, words: Seq<u32>)
    requires
        m2.same_layout(m1),
    ensures
        m2.words_loaded(d, base, words) == m1.words_loaded(d, base, words),
    decreases words.len(),
{
    if words.len() > 0 {
        lemma_layout_loads_words(m1, m2, d, base, words.drop_last());
        lemma_same_layout_writes(
            m1,
            m2,
            m1.words_loaded(d, base, words.drop_last()),
            (base + 4 * (words.len() - 1)) as usize,
            0,
            words.last(),
        );
    }
}

/// Writes `program[start..start + len]` byte by byte at `base`, `base + 1`, ...
fn load_bytes(memory: &mut Memory, program: &[u8], start: usize, len: usize, base: usize)
    requires
        old(memory).wf(),
        old(memory).translation_safe(),
        start + len <= program@.len(),
        base + len <= usize::MAX,
    ensures
        final(memory).wf(),
        final(memory).same_layout(old(memory)),
        final(memory).contents() == old(memory).bytes_loaded(
            old(memory).contents(),
            base,
            program@.subrange(start as int, start + len),
        ),
{
    let ghost m0 = *old(memory);
    let plen = program.len();
    let mut i: usize = 0;
    while i < len
        invariant
            plen == program@.len(),
            i <= len,
            start + len <= program@.len(),
            base + len <= usize::MAX,
            m0.wf(),
            m0.translation_safe(),
            memory.wf(),
            memory.same_layout(&m0),
            memory.contents() == m0.bytes_loaded(
                m0.contents(),
                base,
                program@.subrange(start as int, start + i),
            ),
        decreases len - i,
    {
        let ghost before = *memory;
        memory.write_byte(base + i, program[start + i]);
        proof {
            lemma_same_layout_writes(&m0, &before, before.contents(), (base + i) as usize, program@[start + i], 0);
            let s1 = program@.subrange(start as int, start + i + 1);
            assert(s1.drop_last() =~= program@.subrange(start as int, start + i));
            assert(s1.last() == program@[start + i]);
        }
        i = i + 1;
    }
}

/// Writes the first `count` little-endian words of
/// `program[start..start + 4 * count]` at `base`, `base + 4`, ...
fn load_words(memory: &mut Memory, program: &[u8], start: usize, count: usize, base: usize)
    requires
        old(memory).wf(),
        old(memory).translation_safe(),
        start + 4 * count <= program@.len(),
        base + 4 * count <= usize::MAX,
    ensures
        final(memory).wf(),
        final(memory).same_layout(old(memory)),
        final(memory).contents() == old(memory).words_loaded(
            old(memory).contents(),
            base,
            words_of(program@.subrange(start as int, start + 4 * count)),
        ),
{
    let ghost m0 = *old(memory);
    let ghost all = words_of(program@.subrange(start as int, start + 4 * count));
    let plen = program.len();
    let mut i: usize = 0;
    while i < count
        invariant
            plen == program@.len(),
            i <= count,
            start + 4 * count <= program@.len(),
            base + 4 * count <= usize::MAX,
            all == words_of(program@.subrange(start as int, start + 4 * count)),
            m0.wf(),
            m0.translation_safe(),
            memory.wf(),
            memory.same_layout(&m0),
            memory.contents() == m0.words_loaded(m0.contents(), base, all.take(i as int)),
        decreases count - i,
    {
        let k = start + 4 * i;
        let w = compose_word(program[k], program[k + 1], program[k + 2], program[k + 3]);
        let ghost before = *memory;
        memory.write_word(base + 4 * i, w);
        proof {
            lemma_same_layout_writes(&m0, &before, before.contents(), (base + 4 * i) as usize, 0, w);
            assert(all[i as int] == w);
            assert(all.take(i + 1).drop_last() =~= all.take(i as int));
        }
        i = i + 1;
    }
    assert(all.take(count as int) =~= all);
}


/// Where a taken branch or jump leads during a run, given the program
/// counter `pc0`, the value `offset` that execution returned and the
/// registers `r1` after it: `EXIT_SIGNAL` leads to the return address in
/// `$ra`; `j`/`jal` keep the top four bits of the program counter;
/// `jr`/`jalr` go to the value itself; other branches are relative to the
/// next instruction.
pub open spec fn run_target(i: Instruction, pc0: u32, offset: u32, r1: RegistersModel) -> u32 {
    if offset == EXIT_SIGNAL {
        r1.reg(31)
    } else if i.branches() {
        if i is J || i is Jal {
            (pc0 & 0xF0000000) | (offset & 0x0FFFFFFF)
        } else if i is Jr || i is Jalr {
            offset
        } else {
            pc0.wrapping_add(4).wrapping_add(offset)
        }
    } else {
        pc0.wrapping_add(offset)
    }
}

/// Whether the word at address `a` lies in memory and reads as zero.
pub open spec fn zero_at(m: &Memory, a: int) -> bool {
    &&& 0 <= a < m.msize()
    &&& m.readable(a as usize, 4)
    &&& m.word(m.phys(a as usize) as int) == 0
}

/// Whether no device answers in the four words from `pc` that lie in memory.
pub open spec fn window_known(m: &Memory, pc: u32) -> bool {
    forall|k: int| 0 <= k < 4 && pc + 4 * k < m.msize() ==> (#[trigger] m.device_at(
        (pc + 4 * k) as usize,
    )) is None
}

/// How many of the four words from `pc` read as zero.
pub open spec fn zeros_ahead(m: &Memory, pc: u32) -> int {
    (if zero_at(m, pc as int) { 1int } else { 0 }) + (if zero_at(m, pc + 4) { 1int } else { 0 }) + (
    if zero_at(m, pc + 8) { 1int } else { 0 }) + (if zero_at(m, pc + 12) { 1int } else { 0 })
}

/// The frequency table after one more visit of `pc`.
pub open spec fn bumped(f: Map<u32, usize>, pc: u32) -> Map<u32, usize> {
    f.insert(pc, (if f.contains_key(pc) { f[pc] + 1 } else { 1 }) as usize)
}

/// No visit count exceeds `n`.
pub open spec fn counts_bounded(f: Map<u32, usize>, n: int) -> bool {
    forall|k: u32| f.contains_key(k) ==> #[trigger] f[k] <= n
}

#[derive(Debug, Clone, Copy, PartialEq, Eq, Structural)]
pub enum Exception {
    InvalidInstruction,
    MemoryAccessViolation,
    SystemCall,
    BreakPoint,
    ArithmeticOverflow,
    FloatingPointException,
}

#[derive(Clone, Copy, Debug, PartialEq, Eq, Structural)]
pub enum ExecutionMode {
    User,
    Kernel,
}

/// What a step left for the host to do.
#[derive(Debug, Clone, Copy, PartialEq, Eq, Structural)]
pub enum StepOutcome {
    /// The instruction was executed; execution should continue.
    Continue,
    /// Execution should stop.
    Stop,
    /// A system call awaits the host; finish with `complete_syscall`.
    Syscall,
    /// Floating-point arithmetic awaits the host; finish with
    /// `complete_floating_point`.
    FloatingPoint(Instruction),
}

/// Signals that the program asked to terminate.
pub const EXIT_SIGNAL: u32 = 0xFFFFFFFF;

/// The initial stack pointer.
pub const INITIAL_SP: u32 = 0x7FFFFFFC;

/// The default step limit.
pub const DEFAULT_MAX_STEPS: usize = 1000000;

pub struct Simulator {
    pub registers: Registers,
    pub memory: Memory,
    pub pc: u32,
    pub exception: Option<Exception>,
    pub step_count: usize,
    pub max_steps: usize,
    pub break_points: HashMap<u32, bool>,
    pub mode: ExecutionMode,
    pub fp_enabled: bool,
    pub trace_enabled: bool,
    pub debug_enabled: bool,
}

impl Simulator {
    /// The program counter.
    pub open spec fn pc_value(&self) -> u32 {
        self.pc
    }

    /// Whether `i` may be the instruction fetched at the program counter:
    /// the decoded word when memory holds it, `InvalidInstruction` when the
    /// fetch fails, anything when a device answers.
    pub open spec fn may_fetch(&self, i: Instruction) -> bool {
        let a = self.pc_value() as usize;
        if self.memory.device_at(a) is Some {
            true
        } else if self.memory.readable(a, 4) {
            i == decoded(self.memory.word(self.memory.phys(a) as int))
        } else {
            i == Instruction::InvalidInstruction
        }
    }

    /// The state in which a step runs is well formed and no instruction
    /// that may be fetched would overflow (the program counter leaves room
    /// for the next instruction, and there is no `i32::MIN / -1`).
    pub open spec fn step_defined(&self) -> bool {
        &&& self.memory.wf()
        &&& self.memory.translation_safe()
        &&& self.pc_value() + 4 <= u32::MAX
        &&& self.step_count < usize::MAX
        &&& forall|i: Instruction| #[trigger]
            self.may_fetch(i) ==> i.execution_defined(
                RegistersModel { pc: self.pc_value(), ..self.registers@ },
            )
    }

    pub fn new(memory_size: usize) -> (r: Self)
        requires
            memory_size <= isize::MAX,
        ensures
            r.registers@.data == Seq::new(32, |i: int| 0u32),
            r.registers@.pc == 0 && r.registers@.hi == 0 && r.registers@.lo == 0,
            r.memory.wf(),
            r.memory.msize() == memory_size,
            r.memory.contents() == Seq::new(memory_size as nat, |i: int| 0u8),
            r.pc_value() == 0,
            r.exception is None,
            r.step_count == 0,
            r.max_steps == DEFAULT_MAX_STEPS,
            r.break_points@ == Map::<u32, bool>::empty(),
            r.mode == ExecutionMode::User,
            r.fp_enabled,
            !r.trace_enabled,
            !r.debug_enabled,
    {
        Self {
            registers: Registers::new(),
            memory: Memory::new(memory_size),
            pc: 0,
            exception: None,
            step_count: 0,
            max_steps: DEFAULT_MAX_STEPS,
            break_points: HashMap::new(),
            mode: ExecutionMode::User,
            fp_enabled: true,
            trace_enabled: false,
            debug_enabled: false,
        }
    }

    /// The program counter.
    pub fn get_pc(&self) -> (r: u32)
        ensures
            r == self.pc_value(),
    {
        self.pc
    }

    /// Loads a program image. The fixed test words 10, 20, 0, 0 are first
    /// written at 0x1000..0x100C. An image with a header whose sections fit
    /// has its data section written byte by byte from 0x10000000 and its
    /// text section word by word from 0x00400000, where execution starts.
    /// An image whose header announces sections that do not fit is copied
    /// raw to the start of the backing store; an image without a header has
    /// its first sixteen words written from address 0. In both cases
    /// execution starts at 0. The stack pointer is set to 0x7FFFFFFC.
    pub fn load_program(&mut self, program: &[u8])
        requires
            old(self).memory.wf(),
            old(self).memory.translation_safe(),
            has_header(program@) && !header_fits(program@) ==> program@.len()
                <= old(self).memory.msize(),
        ensures
            final(self).memory.wf(),
            final(self).memory.same_layout(&old(self).memory),
            final(self).memory.contents() == program_loaded(&old(self).memory, program@),
            final(self).pc_value() == entry_pc(program@),
            final(self).registers@ == old(self).registers@.written(29, INITIAL_SP),
            final(self).exception == old(self).exception,
            final(self).step_count == old(self).step_count,
            final(self).max_steps == old(self).max_steps,
            final(self).break_points == old(self).break_points,
    {
        let ghost m0 = self.memory;
        self.memory.write_word(0x1000, 10);
        let ghost m1 = self.memory;
        self.memory.write_word(0x1004, 20);
        let ghost m2 = self.memory;
        self.memory.write_word(0x1008, 0);
        let ghost m3 = self.memory;
        self.memory.write_word(0x100C, 0);
        proof {
            lemma_same_layout_writes(&m0, &m1, m1.contents(), 0x1004, 0, 20);
            lemma_same_layout_writes(&m0, &m2, m2.contents(), 0x1008, 0, 0);
            lemma_same_layout_writes(&m0, &m3, m3.contents(), 0x100C, 0, 0);
        }
        let ghost d0 = self.memory.contents();
        assert(d0 == with_test_data(&m0));
        let len = program.len();
        let has_header = len >= 8 && compose_word(program[0], program[1], program[2], program[3])
            < 1_000_000 && compose_word(program[4], program[5], program[6], program[7]) < 1_000_000;
        if has_header {
            let data_size = compose_word(program[0], program[1], program[2], program[3]) as usize;
            let text_size = compose_word(program[4], program[5], program[6], program[7]) as usize;
            assert(data_size == le_word_at(program@, 0) && text_size == le_word_at(program@, 4));
            if data_size + text_size + 8 > len {
                self.memory.load_raw_image(program);
                self.pc = 0;
            } else {
                let ghost m4 = self.memory;
                load_bytes(&mut self.memory, program, 8, data_size, DATA_SEGMENT);
                let ghost m5 = self.memory;
                load_words(&mut self.memory, program, 8 + data_size, text_size / 4, TEXT_SEGMENT);
                proof {
                    let sub = program@.subrange(8 + data_size, 8 + data_size + text_size);
                    let sub4 = program@.subrange(
                        8 + data_size,
                        8 + data_size + 4 * (text_size / 4),
                    );
                    assert(words_of(sub4) =~= words_of(sub));
                    lemma_layout_loads(&m0, &m4, d0, DATA_SEGMENT, program@.subrange(8, 8 + data_size));
                    lemma_layout_loads_words(&m0, &m5, m5.contents(), TEXT_SEGMENT, words_of(sub));
                }
                self.pc = 0x00400000;
            }
        } else {
            let words = len / 4;
            let count = if words < 16 {
                words
            } else {
                16
            };
            let ghost m4 = self.memory;
            load_words(&mut self.memory, program, 0, count, 0);
            proof {
                let sub = program@.subrange(0, 4 * count as int);
                assert(words_of(sub) =~= first_n(words_of(program@), 16));
                lemma_layout_loads_words(&m0, &m4, d0, 0, words_of(sub));
            }
            self.pc = 0;
        }
        self.registers.write(29, INITIAL_SP);
    }

    /// Fetches and decodes the instruction at the program counter; a failed
    /// fetch gives `InvalidInstruction`.
    fn fetch_instruction(&self) -> (r: Instruction)
        requires
            self.memory.wf(),
            self.memory.translation_safe(),
            self.pc + 4 <= u32::MAX,
        ensures
            self.may_fetch(r),
    {
        match self.memory.read_word(self.pc as usize) {
            Some(instruction_word) => decode_instruction(instruction_word),
            None => Instruction::InvalidInstruction,
        }
    }

    /// Executes one instruction, up to the point where the host must act.
    pub fn step(&mut self) -> (r: StepOutcome)
        requires
            old(self).step_defined(),
        ensures
            final(self).memory.wf(),
            final(self).step_count == old(self).step_count + 1,
            final(self).max_steps == old(self).max_steps,
            final(self).break_points == old(self).break_points,
            old(self).step_count + 1 > old(self).max_steps ==> r == StepOutcome::Stop
                && final(self).pc_value() == old(self).pc_value()
                && final(self).registers == old(self).registers
                && final(self).memory == old(self).memory,
            old(self).step_count + 1 <= old(self).max_steps && old(
                self,
            ).break_points@.contains_key(old(self).pc_value()) ==> r == StepOutcome::Stop
                && final(self).exception == Some(Exception::BreakPoint)
                && final(self).pc_value() == old(self).pc_value()
                && final(self).registers == old(self).registers,
            old(self).step_count + 1 <= old(self).max_steps && !old(
                self,
            ).break_points@.contains_key(old(self).pc_value()) ==> exists|i: Instruction|
                #[trigger] old(self).may_fetch(i) && Self::stepped(
                    i,
                    RegistersModel { pc: old(self).pc_value(), ..old(self).registers@ },
                    &old(self).memory,
                    old(self).pc_value(),
                    old(self).exception,
                    final(self).registers@,
                    &final(self).memory,
                    final(self).pc_value(),
                    final(self).exception,
                    r,
                ),
    {
        self.step_count = self.step_count + 1;
        if self.step_count > self.max_steps {
            return StepOutcome::Stop;
        }
        if self.break_points.contains_key(&self.pc) {
            self.exception = Some(Exception::BreakPoint);
            return StepOutcome::Stop;
        }
        self.registers.pc = self.pc;
        let ghost r0 = self.registers@;
        let ghost pc0 = self.pc;
        let ghost e0 = self.exception;
        let instruction = self.fetch_instruction();
        assert(old(self).may_fetch(instruction));
        assert(r0 == RegistersModel { pc: old(self).pc_value(), ..old(self).registers@ });
        assert(instruction.execution_defined(r0));
        match instruction {
            Instruction::InvalidInstruction => {
                self.exception = Some(Exception::InvalidInstruction);
                StepOutcome::Stop
            },
            Instruction::Syscall => StepOutcome::Syscall,
            Instruction::Break { .. } => {
                self.exception = Some(Exception::BreakPoint);
                StepOutcome::Stop
            },
            Instruction::Nop => {
                self.pc = self.pc + 4;
                StepOutcome::Continue
            },
            _ => {
                if instruction.is_fp_arithmetic_op() {
                    assert(Self::stepped(
                        instruction,
                        r0,
                        &old(self).memory,
                        pc0,
                        e0,
                        self.registers@,
                        &self.memory,
                        self.pc,
                        self.exception,
                        StepOutcome::FloatingPoint(instruction),
                    ));
                    return StepOutcome::FloatingPoint(instruction);
                }
                let pc_offset = instruction.execute(&mut self.registers, &mut self.memory);
                assert(instruction.executed(r0, &old(self).memory, self.registers@, &self.memory, pc_offset));
                match pc_offset {
                    Some(offset) => {
                        let new_pc = if offset == EXIT_SIGNAL {
                            let reg = match self.registers.target_reg {
                                Some(t) => t,
                                None => 0,
                            };
                            self.registers.read(reg)
                        } else {
                            self.pc.wrapping_add(offset)
                        };
                        if new_pc < self.memory.get_size() as u32 {
                            self.pc = new_pc;
                            StepOutcome::Continue
                        } else {
                            self.exception = Some(Exception::MemoryAccessViolation);
                            StepOutcome::Stop
                        }
                    },
                    None => {
                        self.pc = self.pc + 4;
                        if self.exception.is_some() {
                            StepOutcome::Stop
                        } else {
                            StepOutcome::Continue
                        }
                    },
                }
            },
        }
    }

    /// One step from fetched instruction `i`, with registers `r0` (whose
    /// `pc` is the program counter `pc0`), memory `m0` and pending exception
    /// `e0`, to registers `r1`, memory `m1`, program counter `pc1`,
    /// exception `e1` and outcome `out`.
    pub open spec fn stepped(
        i: Instruction,
        r0: RegistersModel,
        m0: &Memory,
        pc0: u32,
        e0: Option<Exception>,
        r1: RegistersModel,
        m1: &Memory,
        pc1: u32,
        e1: Option<Exception>,
        out: StepOutcome,
    ) -> bool {
        match i {
            Instruction::InvalidInstruction => out == StepOutcome::Stop && e1 == Some(
                Exception::InvalidInstruction,
            ) && r1 == r0 && m1 == m0 && pc1 == pc0,
            Instruction::Syscall => out == StepOutcome::Syscall && r1 == r0 && m1 == m0 && pc1
                == pc0 && e1 == e0,
            Instruction::Break { .. } => out == StepOutcome::Stop && e1 == Some(
                Exception::BreakPoint,
            ) && r1 == r0 && m1 == m0 && pc1 == pc0,
            Instruction::Nop => out == StepOutcome::Continue && r1 == r0 && m1 == m0 && pc1 == pc0
                + 4 && e1 == e0,
            _ => if i.is_fp_arithmetic() {
                out == StepOutcome::FloatingPoint(i) && r1 == r0 && m1 == m0 && pc1 == pc0 && e1
                    == e0
            } else {
                exists|res: Option<u32>|
                    {
                        &&& #[trigger] i.executed(r0, m0, r1, m1, res)
                        &&& match res {
                            Some(offset) => {
                                let new_pc = if offset == EXIT_SIGNAL {
                                    r1.reg(
                                        match r1.target_reg {
                                            Some(t) => t,
                                            None => 0,
                                        },
                                    )
                                } else {
                                    pc0.wrapping_add(offset)
                                };
                                if new_pc < (m1.msize() as u32) {
                                    pc1 == new_pc && out == StepOutcome::Continue && e1 == e0
                                } else {
                                    pc1 == pc0 && out == StepOutcome::Stop && e1 == Some(
                                        Exception::MemoryAccessViolation,
                                    )
                                }
                            },
                            None => pc1 == pc0 + 4 && e1 == e0 && out == (if e0 is Some {
                                StepOutcome::Stop
                            } else {
                                StepOutcome::Continue
                            }),
                        }
                    }
            },
        }
    }

    /// What `ready_to_step` checks: the memory can translate every address,
    /// the counters leave room, no device answers at the program counter,
    /// and the word there, if it can be read, decodes to an instruction
    /// that executes without overflow.
    pub open spec fn fetch_checked(&self) -> bool {
        let a = self.pc_value() as usize;
        &&& self.memory.translation_safe()
        &&& self.pc_value() + 4 <= u32::MAX
        &&& self.step_count < usize::MAX
        &&& self.memory.device_at(a) is None
        &&& (self.memory.readable(a, 4) ==> decoded(
            self.memory.word(self.memory.phys(a) as int),
        ).execution_defined(RegistersModel { pc: self.pc_value(), ..self.registers@ }))
    }

    /// Checks that the next step is defined (see `fetch_checked`).
    pub fn ready_to_step(&self) -> (r: bool)
        requires
            self.memory.wf(),
        ensures
            r == self.fetch_checked(),
            r ==> self.step_defined(),
    {
        let cfg = self.memory.get_config();
        if !(self.memory.get_size() > 0 || !cfg.enable_translation) {
            return false;
        }
        if self.pc > u32::MAX - 4 || self.step_count == usize::MAX {
            return false;
        }
        if self.memory.is_device_address(self.pc as usize) {
            return false;
        }
        let r = match self.memory.read_word(self.pc as usize) {
            Some(w) => execution_defined_here(decode_instruction(w), &self.registers, self.pc),
            None => true,
        };
        proof {
            if r {
                assert forall|i: Instruction| #[trigger] self.may_fetch(i) implies i.execution_defined(
                    RegistersModel { pc: self.pc_value(), ..self.registers@ },
                ) by {}
            }
        }
        r
    }

    /// Starts a run: the step counter restarts from zero and the register
    /// file records the program counter.
    pub fn begin_run(&mut self)
        ensures
            final(self).step_count == 0,
            final(self).registers@ == (RegistersModel { pc: old(self).pc_value(), ..old(self).registers@ }),
            final(self).pc_value() == old(self).pc_value(),
            final(self).memory == old(self).memory,
            final(self).exception == old(self).exception,
            final(self).max_steps == old(self).max_steps,
            final(self).break_points == old(self).break_points,
    {
        self.step_count = 0;
        self.registers.pc = self.pc;
    }

    /// Whether the `k`-th word from the program counter lies in memory and
    /// reads as zero.
    fn zero_word_ahead(&self, k: usize) -> (r: bool)
        requires
            self.memory.wf(),
            self.memory.translation_safe(),
            k < 4,
        ensures
            self.pc_value() + 4 * k < self.memory.msize() && self.memory.device_at(
                (self.pc_value() + 4 * k) as usize,
            ) is None ==> r == zero_at(&self.memory, self.pc_value() + 4 * k),
            self.pc_value() + 4 * k >= self.memory.msize() ==> !r,
    {
        let size = self.memory.get_size();
        let base = self.pc as usize;
        if base >= size || k * 4 >= size - base {
            return false;
        }
        let addr = base + k * 4;
        match self.memory.read_word(addr) {
            Some(w) => w == 0,
            None => false,
        }
    }

    /// One step of a run from fetched instruction `i`: as `stepped`, except
    /// that branches and jumps go to `run_target`, that a jump to the same
    /// address after more than ten visits (`visits`) moves on to the next
    /// instruction, and that a `nop` after the tenth step (`count`) stops
    /// the run when at least three of the four words from the program
    /// counter read as zero (which is left open when a device answers
    /// there).
    pub open spec fn run_stepped(
        i: Instruction,
        r0: RegistersModel,
        m0: &Memory,
        pc0: u32,
        e0: Option<Exception>,
        visits: int,
        count: int,
        r1: RegistersModel,
        m1: &Memory,
        pc1: u32,
        e1: Option<Exception>,
        out: StepOutcome,
    ) -> bool {
        match i {
            Instruction::Nop => r1 == r0 && m1 == m0 && e1 == e0 && if count > 10 && window_known(
                m0,
                pc0,
            ) {
                if zeros_ahead(m0, pc0) >= 3 {
                    out == StepOutcome::Stop && pc1 == pc0
                } else {
                    out == StepOutcome::Continue && pc1 == pc0 + 4
                }
            } else if count > 10 {
                (out == StepOutcome::Stop && pc1 == pc0) || (out == StepOutcome::Continue && pc1
                    == pc0 + 4)
            } else {
                out == StepOutcome::Continue && pc1 == pc0 + 4
            },
            Instruction::InvalidInstruction => Self::stepped(i, r0, m0, pc0, e0, r1, m1, pc1, e1, out),
            Instruction::Syscall => Self::stepped(i, r0, m0, pc0, e0, r1, m1, pc1, e1, out),
            Instruction::Break { .. } => Self::stepped(i, r0, m0, pc0, e0, r1, m1, pc1, e1, out),
            _ => if i.is_fp_arithmetic() {
                Self::stepped(i, r0, m0, pc0, e0, r1, m1, pc1, e1, out)
            } else {
                exists|res: Option<u32>|
                    {
                        &&& #[trigger] i.executed(r0, m0, r1, m1, res)
                        &&& match res {
                            Some(offset) => {
                                let t = run_target(i, pc0, offset, r1);
                                if t == pc0 && visits > 10 {
                                    pc1 == pc0 + 4 && out == StepOutcome::Continue && e1 == e0
                                } else if t < (m1.msize() as u32) {
                                    pc1 == t && out == StepOutcome::Continue && e1 == e0
                                } else {
                                    pc1 == pc0 && out == StepOutcome::Stop && e1 == Some(
                                        Exception::MemoryAccessViolation,
                                    )
                                }
                            },
                            None => pc1 == pc0 + 4 && e1 == e0 && out == (if e0 is Some {
                                StepOutcome::Stop
                            } else {
                                StepOutcome::Continue
                            }),
                        }
                    }
            },
        }
    }

    /// One iteration of a run, up to the point where the host must act.
    /// `pc_frequency` counts the visits of each program counter.
    pub fn run_step(&mut self, pc_frequency: &mut HashMap<u32, usize>) -> (r: StepOutcome)
        requires
            old(self).step_defined(),
            counts_bounded(old(pc_frequency)@, old(self).step_count as int),
        ensures
            final(self).memory.wf(),
            final(self).step_count == old(self).step_count + 1,
            final(self).max_steps == old(self).max_steps,
            final(self).break_points == old(self).break_points,
            counts_bounded(final(pc_frequency)@, final(self).step_count as int),
            old(self).step_count + 1 > old(self).max_steps ==> r == StepOutcome::Stop
                && final(self).pc_value() == old(self).pc_value()
                && final(self).registers == old(self).registers
                && final(self).memory == old(self).memory
                && final(self).exception == old(self).exception
                && final(pc_frequency)@ == old(pc_frequency)@,
            old(self).step_count + 1 <= old(self).max_steps ==> final(pc_frequency)@ == bumped(
                old(pc_frequency)@,
                old(self).pc_value(),
            ),
            old(self).step_count + 1 <= old(self).max_steps && old(
                self,
            ).break_points@.contains_key(old(self).pc_value()) ==> r == StepOutcome::Stop
                && final(self).exception == Some(Exception::BreakPoint)
                && final(self).pc_value() == old(self).pc_value()
                && final(self).registers == old(self).registers
                && final(self).memory == old(self).memory,
            old(self).step_count + 1 <= old(self).max_steps && !old(
                self,
            ).break_points@.contains_key(old(self).pc_value()) ==> exists|i: Instruction|
                #[trigger] old(self).may_fetch(i) && Self::run_stepped(
                    i,
                    RegistersModel { pc: old(self).pc_value(), ..old(self).registers@ },
                    &old(self).memory,
                    old(self).pc_value(),
                    old(self).exception,
                    final(pc_frequency)@[old(self).pc_value()] as int,
                    old(self).step_count + 1,
                    final(self).registers@,
                    &final(self).memory,
                    final(self).pc_value(),
                    final(self).exception,
                    r,
                ),
    {
        broadcast use vstd::std_specs::hash::group_hash_axioms;

        self.step_count = self.step_count + 1;
        if self.step_count > self.max_steps {
            return StepOutcome::Stop;
        }
        let visits = match pc_frequency.get(&self.pc) {
            Some(c) => *c + 1,
            None => 1,
        };
        pc_frequency.insert(self.pc, visits);
        assert(pc_frequency@ == bumped(old(pc_frequency)@, old(self).pc_value()));
        if self.break_points.contains_key(&self.pc) {
            self.exception = Some(Exception::BreakPoint);
            return StepOutcome::Stop;
        }
        self.registers.pc = self.pc;
        let ghost r0 = self.registers@;
        let ghost pc0 = self.pc;
        let ghost e0 = self.exception;
        let ghost m0 = self.memory;
        let instruction = self.fetch_instruction();
        assert(old(self).may_fetch(instruction));
        assert(instruction.execution_defined(r0));
        match instruction {
            Instruction::InvalidInstruction => {
                self.exception = Some(Exception::InvalidInstruction);
                StepOutcome::Stop
            },
            Instruction::Syscall => StepOutcome::Syscall,
            Instruction::Break { .. } => {
                self.exception = Some(Exception::BreakPoint);
                StepOutcome::Stop
            },
            Instruction::Nop => {
                if self.step_count > 10 {
                    let z0 = self.zero_word_ahead(0);
                    let z1 = self.zero_word_ahead(1);
                    let z2 = self.zero_word_ahead(2);
                    let z3 = self.zero_word_ahead(3);
                    let nop_count: usize = (if z0 { 1 } else { 0 }) + (if z1 { 1 } else { 0 })
                        + (if z2 { 1 } else { 0 }) + (if z3 { 1 } else { 0 });
                    proof {
                        if window_known(&m0, pc0) {
                            assert(m0.device_at(pc0 as usize) is None || pc0 + 4 * 0 >= m0.msize());
                            assert(pc0 + 4 * 1 < m0.msize() ==> m0.device_at((pc0 + 4 * 1) as usize) is None);
                            assert(pc0 + 4 * 2 < m0.msize() ==> m0.device_at((pc0 + 4 * 2) as usize) is None);
                            assert(pc0 + 4 * 3 < m0.msize() ==> m0.device_at((pc0 + 4 * 3) as usize) is None);
                            assert(nop_count == zeros_ahead(&m0, pc0));
                        }
                    }
                    if nop_count >= 3 {
                        return StepOutcome::Stop;
                    }
                }
                self.pc = self.pc + 4;
                StepOutcome::Continue
            },
            _ => {
                if instruction.is_fp_arithmetic_op() {
                    assert(Self::stepped(
                        instruction,
                        r0,
                        &old(self).memory,
                        pc0,
                        e0,
                        self.registers@,
                        &self.memory,
                        self.pc,
                        self.exception,
                        StepOutcome::FloatingPoint(instruction),
                    ));
                    return StepOutcome::FloatingPoint(instruction);
                }
                let pc_offset = instruction.execute(&mut self.registers, &mut self.memory);
                assert(instruction.executed(r0, &old(self).memory, self.registers@, &self.memory, pc_offset));
                match pc_offset {
                    Some(offset) => {
                        let new_pc = if offset == EXIT_SIGNAL {
                            self.registers.read(31)
                        } else if instruction.is_branch_or_jump() {
                            match instruction {
                                Instruction::J { .. } | Instruction::Jal { .. } => (self.pc
                                    & 0xF0000000) | (offset & 0x0FFFFFFF),
                                Instruction::Jr { .. } | Instruction::Jalr { .. } => offset,
                                _ => self.pc.wrapping_add(4).wrapping_add(offset),
                            }
                        } else {
                            self.pc.wrapping_add(offset)
                        };
                        if new_pc == self.pc && visits > 10 {
                            self.pc = self.pc.wrapping_add(4);
                            StepOutcome::Continue
                        } else if new_pc < self.memory.get_size() as u32 {
                            self.pc = new_pc;
                            StepOutcome::Continue
                        } else {
                            self.exception = Some(Exception::MemoryAccessViolation);
                            StepOutcome::Stop
                        }
                    },
                    None => {
                        self.pc = self.pc + 4;
                        if self.exception.is_some() {
                            StepOutcome::Stop
                        } else {
                            StepOutcome::Continue
                        }
                    },
                }
            },
        }
    }

    /// Finishes a step whose system call the host has performed, given the
    /// program counter it returned (if any); returns whether execution
    /// should continue.
    pub fn complete_syscall(&mut self, result: Option<u32>) -> (r: bool)
        requires
            old(self).pc_value() + 4 <= u32::MAX,
        ensures
            result == Some(EXIT_SIGNAL) ==> !r && final(self).pc_value() == old(self).pc_value(),
            result is Some && result.unwrap() != EXIT_SIGNAL ==> r && final(self).pc_value()
                == result.unwrap(),
            result is None ==> r && final(self).pc_value() == old(self).pc_value() + 4,
            final(self).registers == old(self).registers,
            final(self).memory == old(self).memory,
            final(self).exception == old(self).exception,
            final(self).step_count == old(self).step_count,
    {
        match result {
            Some(new_pc) => {
                if new_pc == EXIT_SIGNAL {
                    return false;
                }
                self.pc = new_pc;
            },
            None => {
                self.pc = self.pc + 4;
            },
        }
        true
    }

    /// Finishes a step whose floating-point arithmetic the host has
    /// performed; returns whether execution should continue.
    pub fn complete_floating_point(&mut self) -> (r: bool)
        requires
            old(self).pc_value() + 4 <= u32::MAX,
        ensures
            final(self).pc_value() == old(self).pc_value() + 4,
            r == old(self).exception is None,
            final(self).registers == old(self).registers,
            final(self).memory == old(self).memory,
            final(self).exception == old(self).exception,
            final(self).step_count == old(self).step_count,
    {
        self.pc = self.pc + 4;
        self.exception.is_none()
    }

    pub fn add_breakpoint(&mut self, address: u32)
        ensures
            final(self).break_points@ == old(self).break_points@.insert(address, true),
            final(self).pc_value() == old(self).pc_value(),
            final(self).registers == old(self).registers,
            final(self).memory == old(self).memory,
    {
        broadcast use vstd::std_specs::hash::group_hash_axioms;
        self.break_points.insert(address, true);
    }

    pub fn remove_breakpoint(&mut self, address: u32)
        ensures
            final(self).break_points@ == old(self).break_points@.remove(address),
            final(self).pc_value() == old(self).pc_value(),
            final(self).registers == old(self).registers,
            final(self).memory == old(self).memory,
    {
        broadcast use vstd::std_specs::hash::group_hash_axioms;
        self.break_points.remove(&address);
    }

    pub fn enable_floating_point(&mut self, enabled: bool)
        ensures
            final(self).fp_enabled == enabled,
            final(self).trace_enabled == old(self).trace_enabled,
            final(self).debug_enabled == old(self).debug_enabled,
            final(self).pc_value() == old(self).pc_value(),
    {
        self.fp_enabled = enabled;
    }

    pub fn enable_trace(&mut self, enabled: bool)
        ensures
            final(self).trace_enabled == enabled,
            final(self).fp_enabled == old(self).fp_enabled,
            final(self).debug_enabled == old(self).debug_enabled,
            final(self).pc_value() == old(self).pc_value(),
    {
        self.trace_enabled = enabled;
    }

    pub fn enable_debug(&mut self, enabled: bool)
        ensures
            final(self).debug_enabled == enabled,
            final(self).fp_enabled == old(self).fp_enabled,
            final(self).trace_enabled == old(self).trace_enabled,
            final(self).pc_value() == old(self).pc_value(),
    {
        self.debug_enabled = enabled;
    }

    pub fn set_max_steps(&mut self, max_steps: usize)
        ensures
            final(self).max_steps == max_steps,
            final(self).step_count == old(self).step_count,
            final(self).pc_value() == old(self).pc_value(),
    {
        self.max_steps = max_steps;
    }
}

/// Without mapped devices, a step is a function of the state it starts
/// from: two steps of the same instruction from the same state end in the
/// same registers, program counter, exception, outcome and memory contents.
pub proof fn law_step_deterministic(
    i: Instruction,
    r0: RegistersModel,
    m0: Memory,
    pc0: u32,
    e0: Option<Exception>,
    r1: RegistersModel,
    m1: Memory,
    pc1: u32,
    e1: Option<Exception>,
    o1: StepOutcome,
    r2: RegistersModel,
    m2: Memory,
    pc2: u32,
    e2: Option<Exception>,
    o2: StepOutcome,
)
    requires
        m0.device_bases().len() == 0,
        Simulator::stepped(i, r0, &m0, pc0, e0, r1, &m1, pc1, e1, o1),
        Simulator::stepped(i, r0, &m0, pc0, e0, r2, &m2, pc2, e2, o2),
    ensures
        r1 == r2,
        pc1 == pc2,
        e1 == e2,
        o1 == o2,
        m1.contents() == m2.contents(),
{
    if i.executable_here() && !(i is InvalidInstruction || i is Break || i is Nop) {
        assert forall|a: Option<u32>, b: Option<u32>|
            #![trigger i.executed(r0, &m0, r1, &m1, a), i.executed(r0, &m0, r2, &m2, b)]
            i.executed(r0, &m0, r1, &m1, a) && i.executed(r0, &m0, r2, &m2, b) implies a == b && r1
                == r2 && m1.contents() == m2.contents() && m1.msize() == m2.msize() by {
            law_execution_deterministic(i, r0, m0, r1, m1, a, r2, m2, b);
        }
    }
}

/// Whether `w` may be the word a read at `a` gives: the word memory holds
/// there when it is readable, anything when a device answers.
pub open spec fn may_read_word(m: &Memory, a: usize, w: u32) -> bool {
    if m.device_at(a) is Some {
        true
    } else {
        m.readable(a, 4) && w == m.word(m.phys(a) as int)
    }
}

/// A line of a listing: the address in eight hexadecimal digits, a colon,
/// and the text of the instruction that `w` encodes.
pub open spec fn listing_line(address: u32, w: u32) -> Seq<char> {
    hex_width(address as nat, 8) + ": "@ + disassembly(decoded(w), w)
}

/// Whether `line` lists the word a read at `a` may give.
pub open spec fn listed(m: &Memory, a: int, line: Seq<char>) -> bool {
    exists|w: u32| #[trigger] may_read_word(m, a as usize, w) && line == listing_line(a as u32, w)
}

impl Simulator {
    /// Lists up to `count` instructions from `address`, one every four
    /// bytes, stopping at the end of memory or at the first word that
    /// cannot be read.
    pub fn get_disassembly(&self, address: u32, count: usize) -> (r: Vec<(u32, String)>)
        requires
            self.memory.wf(),
            self.memory.msize() <= u32::MAX - 4,
        ensures
            r.len() <= count,
            forall|k: int|
                0 <= k < r.len() ==> {
                    let a = address + 4 * k;
                    &&& (#[trigger] r[k]).0 == a
                    &&& a < self.memory.msize()
                    &&& listed(&self.memory, a, r[k].1@)
                },
            r.len() < count ==> {
                let a = address + 4 * r.len();
                a >= self.memory.msize() || (self.memory.device_at(a as usize) is None
                    && !self.memory.readable(a as usize, 4))
            },
    {
        let size = self.memory.get_size();
        let mut result: Vec<(u32, String)> = Vec::new();
        let mut current: u32 = address;
        let mut i: usize = 0;
        let mut stopped = false;
        while i < count && !stopped
            invariant
                i <= count,
                self.memory.wf(),
                size == self.memory.msize(),
                size <= u32::MAX - 4,
                result.len() == i,
                current == address + 4 * i,
                forall|k: int| 0 <= k < result.len() ==> (#[trigger] result[k]).0 == address + 4 * k,
                forall|k: int| 0 <= k < result.len() ==> (#[trigger] result[k]).0 < size,
                forall|k: int|
                    0 <= k < result.len() ==> listed(
                        &self.memory,
                        address + 4 * k,
                        (#[trigger] result[k]).1@,
                    ),
                stopped ==> current >= size || (self.memory.device_at(current as usize) is None
                    && !self.memory.readable(current as usize, 4)),
            decreases count - i + (if stopped { 0int } else { 1int }),
        {
            if current as usize >= size {
                stopped = true;
            } else {
                match self.memory.read_word(current as usize) {
                    Some(word) => {
                        let mut line = String::new();
                        push_hex_width(&mut line, current, 8);
                        line.append(": ");
                        let text = instruction_to_string(&decode_instruction(word), word);
                        line.append(text.as_str());
                        assert(may_read_word(&self.memory, current as usize, word));
                        assert(line@ =~= listing_line(current, word));
                        assert(listed(&self.memory, current as int, line@));
                        result.push((current, line));
                        current = current + 4;
                        i = i + 1;
                    },
                    None => {
                        stopped = true;
                    },
                }
            }
        }
        result
    }
}

} // verus!
