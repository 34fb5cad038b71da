//! The MIPS instruction set: the `Instruction` enum, its classification
//! queries, and the execution of each instruction on a register file and a
//! memory.
use vstd::prelude::*;
use super::memory::{Memory, law_word_read_after_write};
use super::registers::{Registers, RegistersModel};

verus! {

#[allow(inconsistent_fields)]
#[derive(Debug, Clone, Copy, PartialEq, Eq, Structural)]
pub enum Instruction {
    // R-type
    Add { rd: u32, rs: u32, rt: u32 },
    Sub { rd: u32, rs: u32, rt: u32 },
    And { rd: u32, rs: u32, rt: u32 },
    Or { rd: u32, rs: u32, rt: u32 },
    Slt { rd: u32, rs: u32, rt: u32 },
    Sll { rd: u32, rt: u32, shamt: u32 },
    Srl { rd: u32, rt: u32, shamt: u32 },
    // I-type
    Addi { rt: u32, rs: u32, imm: i16 },
    Lw { rt: u32, base: u32, offset: i16 },
    Sw { rt: u32, base: u32, offset: i16 },
    Beq { rs: u32, rt: u32, offset: i16 },
    // J-type
    J { target: u32 },
    Lui { rt: u32, imm: u16 },
    Ori { rt: u32, rs: u32, imm: u16 },
    Mult { rs: u32, rt: u32 },
    Mflo { rd: u32 },
    Addiu { rt: u32, rs: u32, imm: i16 },
    Bne { rs: u32, rt: u32, offset: i16 },
    Jr { rs: u32 },
    Sra { rd: u32, rt: u32, shamt: u32 },
    Sllv { rd: u32, rt: u32, rs: u32 },
    Srlv { rd: u32, rt: u32, rs: u32 },
    Srav { rd: u32, rt: u32, rs: u32 },
    Div { rs: u32, rt: u32 },
    Divu { rs: u32, rt: u32 },
    Xor { rd: u32, rs: u32, rt: u32 },
    Nor { rd: u32, rs: u32, rt: u32 },
    Mfhi { rd: u32 },
    Mthi { rs: u32 },
    Mtlo { rs: u32 },
    Andi { rt: u32, rs: u32, imm: u16 },
    Xori { rt: u32, rs: u32, imm: u16 },
    Slti { rt: u32, rs: u32, imm: i16 },
    Sltiu { rt: u32, rs: u32, imm: i16 },
    Lb { rt: u32, base: u32, offset: i16 },
    Lh { rt: u32, base: u32, offset: i16 },
    Lbu { rt: u32, base: u32, offset: i16 },
    Lhu { rt: u32, base: u32, offset: i16 },
    Sb { rt: u32, base: u32, offset: i16 },
    Sh { rt: u32, base: u32, offset: i16 },
    // Branches
    Bgtz { rs: u32, offset: i16 },
    Blez { rs: u32, offset: i16 },
    Bltz { rs: u32, offset: i16 },
    Bgez { rs: u32, offset: i16 },
    // Jumps
    Jal { target: u32 },
    Jalr { rd: u32, rs: u32 },
    // Floating point
    AddS { fd: u32, fs: u32, ft: u32 },
    SubS { fd: u32, fs: u32, ft: u32 },
    MulS { fd: u32, fs: u32, ft: u32 },
    DivS { fd: u32, fs: u32, ft: u32 },
    AbsS { fd: u32, fs: u32 },
    NegS { fd: u32, fs: u32 },
    MovS { fd: u32, fs: u32 },
    CvtSW { fd: u32, fs: u32 },
    CvtWS { fd: u32, fs: u32 },
    CmpS { fs: u32, ft: u32, cond: u32 },
    LwC1 { ft: u32, base: u32, offset: i16 },
    SwC1 { ft: u32, base: u32, offset: i16 },
    BC1T { offset: i16 },
    BC1F { offset: i16 },
    // Special
    Syscall,
    Break { code: u32 },
    Nop,
    InvalidInstruction,
}

/// The FP condition flag of the FCSR (bit 23).
pub const FP_CONDITION_BIT: u32 = 0x800000;

/// Sign-extends a 16-bit immediate to 32 bits.
/// The signed 64-bit product of two words read as `i32`, split into its
/// high and low words.
pub fn signed_product(x: u32, y: u32) -> (r: (u32, u32))
    ensures
        r == ({
            let p = ((x as i32 as i64) * (y as i32 as i64)) as i64;
            ((p >> 32i64) as u32, p as u32)
        }),
{
    let a = x as i32 as i64;
    let b = y as i32 as i64;
    assert(-0x4000_0000_0000_0000 <= a * b <= 0x4000_0000_0000_0000) by (nonlinear_arith)
        requires
            -0x8000_0000 <= a <= 0x7FFF_FFFF,
            -0x8000_0000 <= b <= 0x7FFF_FFFF,
    ;
    let p = a * b;
    ((p >> 32i64) as u32, p as u32)
}

pub open spec fn sext(imm: i16) -> u32 {
    imm as i32 as u32
}

/// `base + sext(offset)` with 32-bit wrap-around: the effective address of a
/// load or store.
pub open spec fn effective_address(base_value: u32, offset: i16) -> u32 {
    base_value.wrapping_add(offset as u32)
}

/// Absolute value.
pub open spec fn iabs(a: int) -> int {
    if a < 0 {
        -a
    } else {
        a
    }
}

/// Quotient of division rounding toward zero (as MIPS `div` and Rust's
/// signed `/` compute it).
pub open spec fn trunc_div(a: int, b: int) -> int {
    if (a >= 0) == (b > 0) {
        iabs(a) / iabs(b)
    } else {
        -(iabs(a) / iabs(b))
    }
}

/// Remainder of division rounding toward zero; it has the sign of `a`.
pub open spec fn trunc_rem(a: int, b: int) -> int {
    a - b * trunc_div(a, b)
}

/// Signed 32-bit division rounding toward zero, with its remainder.
pub fn div_rem_i32(a: i32, b: i32) -> (r: (i32, i32))
    requires
        b != 0,
        !(a == i32::MIN && b == -1),
    ensures
        r.0 == trunc_div(a as int, b as int),
        r.1 == trunc_rem(a as int, b as int),
{
    let ua: u32 = if a < 0 { (0u32).wrapping_sub(a as u32) } else { a as u32 };
    let ub: u32 = if b < 0 { (0u32).wrapping_sub(b as u32) } else { b as u32 };
    proof {
        assert(ua == iabs(a as int)) by (bit_vector)
            requires
                ua == if a < 0 { (0u32).wrapping_sub(a as u32) } else { a as u32 },
        ;
        assert(ub == iabs(b as int)) by (bit_vector)
            requires
                ub == if b < 0 { (0u32).wrapping_sub(b as u32) } else { b as u32 },
        ;
    }
    let uq = ua / ub;
    let ur = ua % ub;
    proof {
        assert(uq * ub + ur == ua) by (nonlinear_arith)
            requires
                uq == ua / ub,
                ur == ua % ub,
                ub > 0,
        ;
        assert(uq <= ua) by (nonlinear_arith)
            requires
                uq == ua / ub,
                ub >= 1,
        ;
        assert(ur < ub);
    }
    let q: i32 = if (a >= 0) == (b > 0) {
        // The quotient fits: it is at most |a| and only |a| = 2^31 with b = -1
        // would overflow, which is excluded.
        assert(uq <= i32::MAX) by {
            if uq > i32::MAX {
                assert(ua <= 0x8000_0000u32);
                if ub >= 2 {
                    assert(uq * 2 <= ua) by (nonlinear_arith)
                        requires
                            uq * ub + ur == ua,
                            ub >= 2,
                    ;
                } else {
                    assert(uq == ua) by (nonlinear_arith)
                        requires
                            uq * ub + ur == ua,
                            ub == 1,
                            ur < ub,
                    ;
                }
            }
        }
        uq as i32
    } else {
        assert(uq <= 0x8000_0000u32);
        (0i64 - (uq as i64)) as i32
    };
    let rm: i32 = if a < 0 {
        (0i64 - (ur as i64)) as i32
    } else {
        ur as i32
    };
    proof {
        assert(q == trunc_div(a as int, b as int));
        if a < 0 {
            if b > 0 {
                assert(a as int - b as int * q as int == -(ua as int) + ub as int * uq as int)
                    by (nonlinear_arith)
                    requires
                        a as int == -(ua as int),
                        b as int == ub as int,
                        q as int == -(uq as int),
                ;
            } else {
                assert(a as int - b as int * q as int == -(ua as int) + ub as int * uq as int)
                    by (nonlinear_arith)
                    requires
                        a as int == -(ua as int),
                        b as int == -(ub as int),
                        q as int == uq as int,
                ;
            }
        } else {
            if b > 0 {
                assert(a as int - b as int * q as int == ua as int - ub as int * uq as int)
                    by (nonlinear_arith)
                    requires
                        a as int == ua as int,
                        b as int == ub as int,
                        q as int == uq as int,
                ;
            } else {
                assert(a as int - b as int * q as int == ua as int - ub as int * uq as int)
                    by (nonlinear_arith)
                    requires
                        a as int == ua as int,
                        b as int == -(ub as int),
                        q as int == -(uq as int),
                ;
            }
        }
    }
    (q, rm)
}

impl Instruction {
    // ------------------------------------------------------------------
    // Classification (spec)
    // ------------------------------------------------------------------
    pub open spec fn writes_result(self) -> bool {
        ||| self is Add
        ||| self is Sub
        ||| self is And
        ||| self is Or
        ||| self is Xor
        ||| self is Nor
        ||| self is Slt
        ||| self is Slti
        ||| self is Sltiu
        ||| self is Sll
        ||| self is Srl
        ||| self is Sra
        ||| self is Sllv
        ||| self is Srlv
        ||| self is Srav
        ||| self is Addi
        ||| self is Addiu
        ||| self is Lui
        ||| self is Ori
        ||| self is Andi
        ||| self is Xori
        ||| self is Lw
        ||| self is Lb
        ||| self is Lbu
        ||| self is Lh
        ||| self is Lhu
        ||| self is Mflo
        ||| self is Mfhi
        ||| self is LwC1
        ||| self is AddS
        ||| self is SubS
        ||| self is MulS
        ||| self is DivS
        ||| self is AbsS
        ||| self is NegS
        ||| self is MovS
        ||| self is CvtSW
        ||| self is CvtWS
    }

    pub open spec fn dest_register(self) -> Option<u32> {
        match self {
            Instruction::Add { rd, .. } | Instruction::Sub { rd, .. } | Instruction::And { rd, .. }
            | Instruction::Or { rd, .. } | Instruction::Xor { rd, .. } | Instruction::Nor {
                rd,
                ..
            } | Instruction::Slt { rd, .. } | Instruction::Sll { rd, .. } | Instruction::Srl {
                rd,
                ..
            } | Instruction::Sra { rd, .. } | Instruction::Sllv { rd, .. } | Instruction::Srlv {
                rd,
                ..
            } | Instruction::Srav { rd, .. } | Instruction::Mflo { rd } | Instruction::Mfhi { rd }
            | Instruction::Jalr { rd, .. } => Some(rd),
            Instruction::Addi { rt, .. } | Instruction::Addiu { rt, .. } | Instruction::Slti {
                rt,
                ..
            } | Instruction::Sltiu { rt, .. } | Instruction::Andi { rt, .. } | Instruction::Ori {
                rt,
                ..
            } | Instruction::Xori { rt, .. } | Instruction::Lui { rt, .. } | Instruction::Lw {
                rt,
                ..
            } | Instruction::Lb { rt, .. } | Instruction::Lbu { rt, .. } | Instruction::Lh {
                rt,
                ..
            } | Instruction::Lhu { rt, .. } => Some(rt),
            Instruction::Jal { .. } => Some(31),
            Instruction::AddS { fd, .. } | Instruction::SubS { fd, .. } | Instruction::MulS {
                fd,
                ..
            } | Instruction::DivS { fd, .. } | Instruction::AbsS { fd, .. } | Instruction::NegS {
                fd,
                ..
            } | Instruction::MovS { fd, .. } | Instruction::CvtSW { fd, .. }
            | Instruction::CvtWS { fd, .. } => Some(fd),
            Instruction::LwC1 { ft, .. } => Some(ft),
            _ => None,
        }
    }

    pub open spec fn source_regs(self) -> Seq<u32> {
        match self {
            Instruction::Add { rs, rt, .. } | Instruction::Sub { rs, rt, .. } | Instruction::And {
                rs,
                rt,
                ..
            } | Instruction::Or { rs, rt, .. } | Instruction::Xor { rs, rt, .. }
            | Instruction::Nor { rs, rt, .. } | Instruction::Slt { rs, rt, .. } => seq![rs, rt],
            Instruction::Sll { rt, .. } | Instruction::Srl { rt, .. } | Instruction::Sra {
                rt,
                ..
            } => seq![rt],
            Instruction::Sllv { rs, rt, .. } | Instruction::Srlv { rs, rt, .. }
            | Instruction::Srav { rs, rt, .. } => seq![rs, rt],
            Instruction::Addi { rs, .. } | Instruction::Addiu { rs, .. } | Instruction::Slti {
                rs,
                ..
            } | Instruction::Sltiu { rs, .. } | Instruction::Andi { rs, .. } | Instruction::Ori {
                rs,
                ..
            } | Instruction::Xori { rs, .. } => seq![rs],
            Instruction::Lw { base, .. } | Instruction::Lb { base, .. } | Instruction::Lbu {
                base,
                ..
            } | Instruction::Lh { base, .. } | Instruction::Lhu { base, .. } | Instruction::LwC1 {
                base,
                ..
            } => seq![base],
            Instruction::Sw { rt, base, .. } | Instruction::Sb { rt, base, .. } | Instruction::Sh {
                rt,
                base,
                ..
            } => if base == 0 {
                seq![rt]
            } else {
                seq![rt, base]
            },
            Instruction::SwC1 { ft, base, .. } => if base == 0 {
                seq![ft]
            } else {
                seq![ft, base]
            },
            Instruction::Beq { rs, rt, .. } | Instruction::Bne { rs, rt, .. } => seq![rs, rt],
            Instruction::Bgtz { rs, .. } | Instruction::Blez { rs, .. } | Instruction::Bltz {
                rs,
                ..
            } | Instruction::Bgez { rs, .. } => seq![rs],
            Instruction::Jr { rs } | Instruction::Jalr { rs, .. } | Instruction::Mthi { rs }
            | Instruction::Mtlo { rs } => seq![rs],
            Instruction::Mult { rs, rt } | Instruction::Div { rs, rt } | Instruction::Divu {
                rs,
                rt,
            } => seq![rs, rt],
            Instruction::AddS { fs, ft, .. } | Instruction::SubS { fs, ft, .. }
            | Instruction::MulS { fs, ft, .. } | Instruction::DivS { fs, ft, .. }
            | Instruction::CmpS { fs, ft, .. } => seq![fs, ft],
            Instruction::AbsS { fs, .. } | Instruction::NegS { fs, .. } | Instruction::MovS {
                fs,
                ..
            } | Instruction::CvtSW { fs, .. } | Instruction::CvtWS { fs, .. } => seq![fs],
            Instruction::Syscall => seq![2, 4, 5, 6, 7],
            _ => seq![],
        }
    }

    pub open spec fn branches(self) -> bool {
        ||| self is Beq
        ||| self is Bne
        ||| self is Bgtz
        ||| self is Blez
        ||| self is Bltz
        ||| self is Bgez
        ||| self is J
        ||| self is Jal
        ||| self is Jr
        ||| self is Jalr
        ||| self is BC1T
        ||| self is BC1F
    }

    pub open spec fn loads(self) -> bool {
        ||| self is Lw
        ||| self is Lb
        ||| self is Lbu
        ||| self is Lh
        ||| self is Lhu
        ||| self is LwC1
    }

    pub open spec fn stores(self) -> bool {
        ||| self is Sw
        ||| self is Sb
        ||| self is Sh
        ||| self is SwC1
    }

    pub open spec fn uses_fpu(self) -> bool {
        ||| self is AddS
        ||| self is SubS
        ||| self is MulS
        ||| self is DivS
        ||| self is AbsS
        ||| self is NegS
        ||| self is MovS
        ||| self is CvtSW
        ||| self is CvtWS
        ||| self is CmpS
        ||| self is LwC1
        ||| self is SwC1
        ||| self is BC1T
        ||| self is BC1F
    }

    /// Floating-point arithmetic, which the host performs: these compute on
    /// `f32` values.
    pub open spec fn is_fp_arithmetic(self) -> bool {
        ||| self is AddS
        ||| self is SubS
        ||| self is MulS
        ||| self is DivS
        ||| self is AbsS
        ||| self is NegS
        ||| self is CvtSW
        ||| self is CvtWS
        ||| self is CmpS
    }

    /// The 16-bit branch offset of a conditional branch.
    pub open spec fn branch_offset(self) -> Option<i16> {
        match self {
            Instruction::Beq { offset, .. } | Instruction::Bne { offset, .. } | Instruction::Bgtz {
                offset,
                ..
            } | Instruction::Blez { offset, .. } | Instruction::Bltz { offset, .. }
            | Instruction::Bgez { offset, .. } | Instruction::BC1T { offset }
            | Instruction::BC1F { offset } => Some(offset),
            _ => None,
        }
    }

    pub open spec fn immediate_target(self) -> Option<u32> {
        match self {
            Instruction::J { target } | Instruction::Jal { target } => Some(target << 2u32),
            _ => match self.branch_offset() {
                Some(offset) => Some((offset as u32) << 2u32),
                None => None,
            },
        }
    }

    pub open spec fn branch_target(self, pc: u32) -> Option<u32> {
        match self {
            Instruction::J { target } | Instruction::Jal { target } => Some(
                (pc.wrapping_add(4) & 0xF000_0000) | ((target & 0x03FF_FFFF) << 2u32),
            ),
            _ => match self.branch_offset() {
                Some(offset) => Some(pc.wrapping_add(4).wrapping_add(((offset as i32) << 2u32) as u32)),
                None => None,
            },
        }
    }

    // ------------------------------------------------------------------
    // Classification (exec)
    // ------------------------------------------------------------------
    pub fn generates_result(&self) -> (r: bool)
        ensures
            r == self.writes_result(),
    {
        match self {
            Instruction::Add { .. } | Instruction::Sub { .. } | Instruction::And { .. }
            | Instruction::Or { .. } | Instruction::Xor { .. } | Instruction::Nor { .. }
            | Instruction::Slt { .. } | Instruction::Slti { .. } | Instruction::Sltiu { .. }
            | Instruction::Sll { .. } | Instruction::Srl { .. } | Instruction::Sra { .. }
            | Instruction::Sllv { .. } | Instruction::Srlv { .. } | Instruction::Srav { .. }
            | Instruction::Addi { .. } | Instruction::Addiu { .. } | Instruction::Lui { .. }
            | Instruction::Ori { .. } | Instruction::Andi { .. } | Instruction::Xori { .. }
            | Instruction::Lw { .. } | Instruction::Lb { .. } | Instruction::Lbu { .. }
            | Instruction::Lh { .. } | Instruction::Lhu { .. } | Instruction::Mflo { .. }
            | Instruction::Mfhi { .. } | Instruction::LwC1 { .. } | Instruction::AddS { .. }
            | Instruction::SubS { .. } | Instruction::MulS { .. } | Instruction::DivS { .. }
            | Instruction::AbsS { .. } | Instruction::NegS { .. } | Instruction::MovS { .. }
            | Instruction::CvtSW { .. } | Instruction::CvtWS { .. } => true,
            _ => false,
        }
    }

    pub fn get_destination_register(&self) -> (r: Option<u32>)
        ensures
            r == self.dest_register(),
    {
        match *self {
            Instruction::Add { rd, .. } | Instruction::Sub { rd, .. } | Instruction::And { rd, .. }
            | Instruction::Or { rd, .. } | Instruction::Xor { rd, .. } | Instruction::Nor {
                rd,
                ..
            } | Instruction::Slt { rd, .. } | Instruction::Sll { rd, .. } | Instruction::Srl {
                rd,
                ..
            } | Instruction::Sra { rd, .. } | Instruction::Sllv { rd, .. } | Instruction::Srlv {
                rd,
                ..
            } | Instruction::Srav { rd, .. } | Instruction::Mflo { rd } | Instruction::Mfhi { rd }
            | Instruction::Jalr { rd, .. } => Some(rd),
            Instruction::Addi { rt, .. } | Instruction::Addiu { rt, .. } | Instruction::Slti {
                rt,
                ..
            } | Instruction::Sltiu { rt, .. } | Instruction::Andi { rt, .. } | Instruction::Ori {
                rt,
                ..
            } | Instruction::Xori { rt, .. } | Instruction::Lui { rt, .. } | Instruction::Lw {
                rt,
                ..
            } | Instruction::Lb { rt, .. } | Instruction::Lbu { rt, .. } | Instruction::Lh {
                rt,
                ..
            } | Instruction::Lhu { rt, .. } => Some(rt),
            Instruction::Jal { .. } => Some(31),
            Instruction::AddS { fd, .. } | Instruction::SubS { fd, .. } | Instruction::MulS {
                fd,
                ..
            } | Instruction::DivS { fd, .. } | Instruction::AbsS { fd, .. } | Instruction::NegS {
                fd,
                ..
            } | Instruction::MovS { fd, .. } | Instruction::CvtSW { fd, .. }
            | Instruction::CvtWS { fd, .. } => Some(fd),
            Instruction::LwC1 { ft, .. } => Some(ft),
            _ => None,
        }
    }

    pub fn get_source_registers(&self) -> (r: Vec<u32>)
        ensures
            r@ == self.source_regs(),
    {
        match *self {
            Instruction::Add { rs, rt, .. } | Instruction::Sub { rs, rt, .. } | Instruction::And {
                rs,
                rt,
                ..
            } | Instruction::Or { rs, rt, .. } | Instruction::Xor { rs, rt, .. }
            | Instruction::Nor { rs, rt, .. } | Instruction::Slt { rs, rt, .. } => vec![rs, rt],
            Instruction::Sll { rt, .. } | Instruction::Srl { rt, .. } | Instruction::Sra {
                rt,
                ..
            } => vec![rt],
            Instruction::Sllv { rs, rt, .. } | Instruction::Srlv { rs, rt, .. }
            | Instruction::Srav { rs, rt, .. } => vec![rs, rt],
            Instruction::Addi { rs, .. } | Instruction::Addiu { rs, .. } | Instruction::Slti {
                rs,
                ..
            } | Instruction::Sltiu { rs, .. } | Instruction::Andi { rs, .. } | Instruction::Ori {
                rs,
                ..
            } | Instruction::Xori { rs, .. } => vec![rs],
            Instruction::Lw { base, .. } | Instruction::Lb { base, .. } | Instruction::Lbu {
                base,
                ..
            } | Instruction::Lh { base, .. } | Instruction::Lhu { base, .. } | Instruction::LwC1 {
                base,
                ..
            } => vec![base],
            Instruction::Sw { rt, base, .. } | Instruction::Sb { rt, base, .. } | Instruction::Sh {
                rt,
                base,
                ..
            } => if base == 0 {
                vec![rt]
            } else {
                vec![rt, base]
            },
            Instruction::SwC1 { ft, base, .. } => if base == 0 {
                vec![ft]
            } else {
                vec![ft, base]
            },
            Instruction::Beq { rs, rt, .. } | Instruction::Bne { rs, rt, .. } => vec![rs, rt],
            Instruction::Bgtz { rs, .. } | Instruction::Blez { rs, .. } | Instruction::Bltz {
                rs,
                ..
            } | Instruction::Bgez { rs, .. } => vec![rs],
            Instruction::Jr { rs } | Instruction::Jalr { rs, .. } | Instruction::Mthi { rs }
            | Instruction::Mtlo { rs } => vec![rs],
            Instruction::Mult { rs, rt } | Instruction::Div { rs, rt } | Instruction::Divu {
                rs,
                rt,
            } => vec![rs, rt],
            Instruction::AddS { fs, ft, .. } | Instruction::SubS { fs, ft, .. }
            | Instruction::MulS { fs, ft, .. } | Instruction::DivS { fs, ft, .. }
            | Instruction::CmpS { fs, ft, .. } => vec![fs, ft],
            Instruction::AbsS { fs, .. } | Instruction::NegS { fs, .. } | Instruction::MovS {
                fs,
                ..
            } | Instruction::CvtSW { fs, .. } | Instruction::CvtWS { fs, .. } => vec![fs],
            Instruction::Syscall => vec![2, 4, 5, 6, 7],
            _ => Vec::new(),
        }
    }

    pub fn is_branch_or_jump(&self) -> (r: bool)
        ensures
            r == self.branches(),
    {
        match self {
            Instruction::Beq { .. } | Instruction::Bne { .. } | Instruction::Bgtz { .. }
            | Instruction::Blez { .. } | Instruction::Bltz { .. } | Instruction::Bgez { .. }
            | Instruction::J { .. } | Instruction::Jal { .. } | Instruction::Jr { .. }
            | Instruction::Jalr { .. } | Instruction::BC1T { .. } | Instruction::BC1F {
                ..
            } => true,
            _ => false,
        }
    }

    pub fn is_memory_access(&self) -> (r: bool)
        ensures
            r == (self.loads() || self.stores()),
    {
        match self {
            Instruction::Lw { .. } | Instruction::Sw { .. } | Instruction::Lb { .. }
            | Instruction::Lbu { .. } | Instruction::Lh { .. } | Instruction::Lhu { .. }
            | Instruction::Sb { .. } | Instruction::Sh { .. } | Instruction::LwC1 { .. }
            | Instruction::SwC1 { .. } => true,
            _ => false,
        }
    }

    pub fn is_load(&self) -> (r: bool)
        ensures
            r == self.loads(),
    {
        match self {
            Instruction::Lw { .. } | Instruction::Lb { .. } | Instruction::Lbu { .. }
            | Instruction::Lh { .. } | Instruction::Lhu { .. } | Instruction::LwC1 { .. } => true,
            _ => false,
        }
    }

    pub fn is_store(&self) -> (r: bool)
        ensures
            r == self.stores(),
    {
        match self {
            Instruction::Sw { .. } | Instruction::Sb { .. } | Instruction::Sh { .. }
            | Instruction::SwC1 { .. } => true,
            _ => false,
        }
    }

    pub fn is_fp_instruction(&self) -> (r: bool)
        ensures
            r == self.uses_fpu(),
    {
        match self {
            Instruction::AddS { .. } | Instruction::SubS { .. } | Instruction::MulS { .. }
            | Instruction::DivS { .. } | Instruction::AbsS { .. } | Instruction::NegS { .. }
            | Instruction::MovS { .. } | Instruction::CvtSW { .. } | Instruction::CvtWS { .. }
            | Instruction::CmpS { .. } | Instruction::LwC1 { .. } | Instruction::SwC1 { .. }
            | Instruction::BC1T { .. } | Instruction::BC1F { .. } => true,
            _ => false,
        }
    }

    /// Whether the instruction is floating-point arithmetic, which the host
    /// performs on `f32` values.
    pub fn is_fp_arithmetic_op(&self) -> (r: bool)
        ensures
            r == self.is_fp_arithmetic(),
    {
        match self {
            Instruction::AddS { .. } | Instruction::SubS { .. } | Instruction::MulS { .. }
            | Instruction::DivS { .. } | Instruction::AbsS { .. } | Instruction::NegS { .. }
            | Instruction::CvtSW { .. } | Instruction::CvtWS { .. } | Instruction::CmpS {
                ..
            } => true,
            _ => false,
        }
    }

    fn offset_of(&self) -> (r: Option<i16>)
        ensures
            r == self.branch_offset(),
    {
        match *self {
            Instruction::Beq { offset, .. } | Instruction::Bne { offset, .. } | Instruction::Bgtz {
                offset,
                ..
            } | Instruction::Blez { offset, .. } | Instruction::Bltz { offset, .. }
            | Instruction::Bgez { offset, .. } | Instruction::BC1T { offset }
            | Instruction::BC1F { offset } => Some(offset),
            _ => None,
        }
    }

    /// Immediate target of a branch (its offset in bytes, to be added to
    /// PC+4) or jump (its target shifted left by 2); `None` for register
    /// jumps and other instructions.
    pub fn get_immediate_target(&self) -> (r: Option<u32>)
        ensures
            r == self.immediate_target(),
    {
        match *self {
            Instruction::J { target } | Instruction::Jal { target } => Some(target << 2u32),
            _ => match self.offset_of() {
                Some(offset) => Some((offset as u32) << 2u32),
                None => None,
            },
        }
    }

    /// The target address of a branch or jump taken at `current_pc`.
    pub fn calculate_branch_target(&self, current_pc: u32) -> (r: Option<u32>)
        ensures
            r == self.branch_target(current_pc),
    {
        match *self {
            Instruction::J { target } | Instruction::Jal { target } => {
                let pc_plus_4 = current_pc.wrapping_add(4);
                Some((pc_plus_4 & 0xF000_0000) | ((target & 0x03FF_FFFF) << 2u32))
            },
            _ => match self.offset_of() {
                Some(offset) => {
                    let pc_plus_4 = current_pc.wrapping_add(4);
                    Some(pc_plus_4.wrapping_add(((offset as i32) << 2u32) as u32))
                },
                None => None,
            },
        }
    }
}


/// The value written to the destination of a register-to-register or
/// register-immediate instruction.
impl Instruction {
    /// `(destination, value)` of the instructions that only write a
    /// general-purpose register from other registers or an immediate.
    pub open spec fn reg_effect(self, r: RegistersModel) -> Option<(u32, u32)> {
        match self {
            Instruction::Add { rd, rs, rt } => Some((rd, r.reg(rs).wrapping_add(r.reg(rt)))),
            Instruction::Sub { rd, rs, rt } => Some((rd, r.reg(rs).wrapping_sub(r.reg(rt)))),
            Instruction::And { rd, rs, rt } => Some((rd, r.reg(rs) & r.reg(rt))),
            Instruction::Or { rd, rs, rt } => Some((rd, r.reg(rs) | r.reg(rt))),
            Instruction::Xor { rd, rs, rt } => Some((rd, r.reg(rs) ^ r.reg(rt))),
            Instruction::Nor { rd, rs, rt } => Some((rd, !(r.reg(rs) | r.reg(rt)))),
            Instruction::Slt { rd, rs, rt } => Some(
                (rd, if (r.reg(rs) as i32) < (r.reg(rt) as i32) { 1 } else { 0 }),
            ),
            Instruction::Sll { rd, rt, shamt } => Some((rd, r.reg(rt) << shamt)),
            Instruction::Srl { rd, rt, shamt } => Some((rd, r.reg(rt) >> shamt)),
            Instruction::Sra { rd, rt, shamt } => Some((rd, ((r.reg(rt) as i32) >> shamt) as u32)),
            Instruction::Sllv { rd, rt, rs } => Some((rd, r.reg(rt) << (r.reg(rs) & 0x1F))),
            Instruction::Srlv { rd, rt, rs } => Some((rd, r.reg(rt) >> (r.reg(rs) & 0x1F))),
            Instruction::Srav { rd, rt, rs } => Some(
                (rd, ((r.reg(rt) as i32) >> (r.reg(rs) & 0x1F)) as u32),
            ),
            Instruction::Addi { rt, rs, imm } | Instruction::Addiu { rt, rs, imm } => Some(
                (rt, r.reg(rs).wrapping_add(sext(imm))),
            ),
            Instruction::Lui { rt, imm } => Some((rt, (imm as u32) << 16u32)),
            Instruction::Ori { rt, rs, imm } => Some((rt, r.reg(rs) | (imm as u32))),
            Instruction::Andi { rt, rs, imm } => Some((rt, r.reg(rs) & (imm as u32))),
            Instruction::Xori { rt, rs, imm } => Some((rt, r.reg(rs) ^ (imm as u32))),
            Instruction::Slti { rt, rs, imm } => Some(
                (rt, if (r.reg(rs) as i32) < (imm as i32) { 1 } else { 0 }),
            ),
            Instruction::Sltiu { rt, rs, imm } => Some(
                (rt, if r.reg(rs) < sext(imm) { 1 } else { 0 }),
            ),
            Instruction::Mflo { rd } => Some((rd, r.lo)),
            Instruction::Mfhi { rd } => Some((rd, r.hi)),
            _ => None,
        }
    }

    /// `(hi, lo)` after the instructions that only write HI and LO.
    pub open spec fn hilo_effect(self, r: RegistersModel) -> Option<(u32, u32)> {
        match self {
            Instruction::Mult { rs, rt } => {
                let p = ((r.reg(rs) as i32 as i64) * (r.reg(rt) as i32 as i64)) as i64;
                Some(((p >> 32i64) as u32, p as u32))
            },
            Instruction::Div { rs, rt } => if r.reg(rt) == 0 {
                Some((0, 0))
            } else {
                Some(
                    (
                        trunc_rem(r.reg(rs) as i32 as int, r.reg(rt) as i32 as int) as i32 as u32,
                        trunc_div(r.reg(rs) as i32 as int, r.reg(rt) as i32 as int) as i32 as u32,
                    ),
                )
            },
            Instruction::Divu { rs, rt } => if r.reg(rt) == 0 {
                Some((0, 0))
            } else {
                Some((r.reg(rs) % r.reg(rt), r.reg(rs) / r.reg(rt)))
            },
            Instruction::Mthi { rs } => Some((r.reg(rs), r.lo)),
            Instruction::Mtlo { rs } => Some((r.hi, r.reg(rs))),
            _ => None,
        }
    }

    /// The value returned by the instructions that only decide where control
    /// goes: a branch offset, a jump target, or `None` to fall through.
    pub open spec fn control_effect(self, r: RegistersModel) -> Option<Option<u32>> {
        match self {
            Instruction::Beq { rs, rt, offset } => Some(
                if r.reg(rs) == r.reg(rt) { Some((offset as u32) << 2u32) } else { None },
            ),
            Instruction::Bne { rs, rt, offset } => Some(
                if r.reg(rs) != r.reg(rt) { Some((offset as u32) << 2u32) } else { None },
            ),
            Instruction::Bgtz { rs, offset } => Some(
                if (r.reg(rs) as i32) > 0 { Some((offset as u32) << 2u32) } else { None },
            ),
            Instruction::Blez { rs, offset } => Some(
                if (r.reg(rs) as i32) <= 0 { Some((offset as u32) << 2u32) } else { None },
            ),
            Instruction::Bltz { rs, offset } => Some(
                if (r.reg(rs) as i32) < 0 { Some((offset as u32) << 2u32) } else { None },
            ),
            Instruction::Bgez { rs, offset } => Some(
                if (r.reg(rs) as i32) >= 0 { Some((offset as u32) << 2u32) } else { None },
            ),
            Instruction::J { target } => Some(Some(target)),
            Instruction::Jr { rs } => Some(Some(r.reg(rs))),
            Instruction::BC1T { offset } => Some(
                if r.fcsr & FP_CONDITION_BIT != 0 { Some((offset as u32) << 2u32) } else { None },
            ),
            Instruction::BC1F { offset } => Some(
                if r.fcsr & FP_CONDITION_BIT == 0 { Some((offset as u32) << 2u32) } else { None },
            ),
            _ => None,
        }
    }

    /// The instructions `execute` performs: all but floating-point
    /// arithmetic and system calls, which the host carries out.
    pub open spec fn executable_here(self) -> bool {
        !self.is_fp_arithmetic() && !(self is Syscall)
    }

    /// What `execute` needs of the state so that no operation overflows:
    /// shift amounts below 32, a return address that fits, and no
    /// `i32::MIN / -1`.
    pub open spec fn execution_defined(self, r: RegistersModel) -> bool {
        &&& (self matches Instruction::Sll { shamt, .. } ==> shamt < 32)
        &&& (self matches Instruction::Srl { shamt, .. } ==> shamt < 32)
        &&& (self matches Instruction::Sra { shamt, .. } ==> shamt < 32)
        &&& (self is Jal || self is Jalr ==> r.pc + 4 <= u32::MAX)
        &&& (self matches Instruction::Div { rs, rt } ==> !(r.reg(rs) == 0x8000_0000u32 && r.reg(
            rt,
        ) == 0xFFFF_FFFFu32))
        &&& (self matches Instruction::LwC1 { base, offset, .. } ==> effective_address(
            r.reg(base),
            offset,
        ) as usize <= usize::MAX - 3)
        &&& (self matches Instruction::SwC1 { base, offset, .. } ==> effective_address(
            r.reg(base),
            offset,
        ) as usize <= usize::MAX - 3)
    }

    /// The state after `execute` and its result: `r0`/`m0` before,
    /// `r1`/`m1` after, `res` the returned branch offset, jump target or
    /// faulting address.
    pub open spec fn executed(
        self,
        r0: RegistersModel,
        m0: &Memory,
        r1: RegistersModel,
        m1: &Memory,
        res: Option<u32>,
    ) -> bool {
        if let Some((d, v)) = self.reg_effect(r0) {
            r1 == r0.written(d, v) && m1 == m0 && res is None
        } else if let Some((hi, lo)) = self.hilo_effect(r0) {
            r1 == (RegistersModel { hi, lo, ..r0 }) && m1 == m0 && res is None
        } else if let Some(c) = self.control_effect(r0) {
            r1 == r0 && m1 == m0 && res == c
        } else {
            match self {
                Instruction::Jal { target } => r1 == r0.written(31, (r0.pc + 4) as u32) && m1
                    == m0 && res == Some(target),
                Instruction::Jalr { rd, rs } => {
                    let r = r0.written(rd, (r0.pc + 4) as u32);
                    r1 == r && m1 == m0 && res == Some(r.reg(rs))
                },
                Instruction::MovS { fd, fs } => r1 == r0.fwritten(fd, r0.freg(fs)) && m1 == m0
                    && res is None,
                Instruction::Lw { rt, base, offset } => {
                    let a = effective_address(r0.reg(base), offset);
                    &&& m1 == m0
                    &&& if a % 4 != 0 {
                        r1 == r0 && res == Some(a)
                    } else if m0.device_at(a as usize) is Some {
                        res is None && exists|v: u32| r1 == r0.written(rt, v)
                    } else if m0.readable(a as usize, 4) {
                        res is None && r1 == r0.written(rt, m0.word(m0.phys(a as usize) as int))
                    } else {
                        r1 == r0 && res == Some(a)
                    }
                },
                Instruction::LwC1 { ft, base, offset } => {
                    let a = effective_address(r0.reg(base), offset);
                    &&& m1 == m0
                    &&& if m0.device_at(a as usize) is Some {
                        res is None && exists|v: u32| r1 == r0.fwritten(ft, v)
                    } else if m0.readable(a as usize, 4) {
                        res is None && r1 == r0.fwritten(ft, m0.word(m0.phys(a as usize) as int))
                    } else {
                        r1 == r0 && res == Some(a)
                    }
                },
                Instruction::Lb { rt, base, offset } => {
                    let a = effective_address(r0.reg(base), offset);
                    &&& m1 == m0
                    &&& if m0.device_at(a as usize) is Some {
                        res is None && exists|v: u32| r1 == r0.written(rt, v)
                    } else if m0.readable(a as usize, 1) {
                        let b = m0.byte(m0.phys(a as usize) as int);
                        res is None && r1 == r0.written(
                            rt,
                            b as i8 as i32 as u32,
                        )
                    } else {
                        r1 == r0 && res == Some(a)
                    }
                },
                Instruction::Lbu { rt, base, offset } => {
                    let a = effective_address(r0.reg(base), offset);
                    &&& m1 == m0
                    &&& if m0.device_at(a as usize) is Some {
                        res is None && exists|v: u32| r1 == r0.written(rt, v)
                    } else if m0.readable(a as usize, 1) {
                        let b = m0.byte(m0.phys(a as usize) as int);
                        res is None && r1 == r0.written(
                            rt,
                            b as u32,
                        )
                    } else {
                        r1 == r0 && res == Some(a)
                    }
                },
                Instruction::Lh { rt, base, offset } => {
                    let a = effective_address(r0.reg(base), offset);
                    &&& m1 == m0
                    &&& if a % 2 != 0 {
                        r1 == r0 && res == Some(a)
                    } else if a + 1 >= m0.msize() {
                        r1 == r0 && res == Some(a)
                    } else if m0.device_at(a as usize) is Some || m0.device_at((a + 1) as usize) is Some {
                        res is None && exists|v: u32| r1 == r0.written(rt, v)
                    } else {
                        let h = crate::functional_simulator::memory::le_half(
                            m0.byte_or_zero(a as usize),
                            m0.byte_or_zero((a + 1) as usize),
                        );
                        res is None && r1 == r0.written(
                            rt,
                            h as i16 as i32 as u32,
                        )
                    }
                },
                Instruction::Lhu { rt, base, offset } => {
                    let a = effective_address(r0.reg(base), offset);
                    &&& m1 == m0
                    &&& if a % 2 != 0 {
                        r1 == r0 && res == Some(a)
                    } else if a + 1 >= m0.msize() {
                        r1 == r0 && res == Some(a)
                    } else if m0.device_at(a as usize) is Some || m0.device_at((a + 1) as usize) is Some {
                        res is None && exists|v: u32| r1 == r0.written(rt, v)
                    } else {
                        let h = crate::functional_simulator::memory::le_half(
                            m0.byte_or_zero(a as usize),
                            m0.byte_or_zero((a + 1) as usize),
                        );
                        res is None && r1 == r0.written(
                            rt,
                            h as u32,
                        )
                    }
                },
                Instruction::Sw { rt, base, offset } | Instruction::SwC1 { ft: rt, base, offset } => {
                    let a = effective_address(r0.reg(base), offset);
                    let v = if self is Sw { r0.reg(rt) } else { r0.freg(rt) };
                    &&& r1 == r0
                    &&& if self is Sw && a % 4 != 0 {
                        m1 == m0 && res == Some(a)
                    } else if m0.device_at(a as usize) is Some {
                        res is None && m1.same_layout(m0) && m1.contents() == m0.contents()
                    } else if m0.writable(a as usize, 4) {
                        res is None && m1.same_layout(m0) && m1.contents() == m0.data_with_word(
                            m0.phys(a as usize) as int,
                            v,
                        )
                    } else {
                        res == Some(a) && m1.same_layout(m0) && m1.contents() == m0.contents()
                    }
                },
                Instruction::Sb { rt, base, offset } => {
                    let a = effective_address(r0.reg(base), offset);
                    &&& r1 == r0
                    &&& m1.same_layout(m0)
                    &&& m1.contents() == m0.byte_written(m0.contents(), a as usize, r0.reg(rt) as u8)
                    &&& res == if m0.device_at(a as usize) is Some || m0.writable(a as usize, 1) {
                        None
                    } else {
                        Some(a)
                    }
                },
                Instruction::Sh { rt, base, offset } => {
                    let a = effective_address(r0.reg(base), offset);
                    let v = r0.reg(rt) as u16;
                    &&& r1 == r0
                    &&& if a % 2 != 0 {
                        m1 == m0 && res == Some(a)
                    } else if a + 1 >= m0.msize() {
                        m1 == m0 && res == Some(a)
                    } else {
                        &&& res is None
                        &&& m1.same_layout(m0)
                        &&& (m0.device_at(a as usize) is None && m0.device_at((a + 1) as usize) is None
                            ==> m1.contents() == m0.byte_written(
                            m0.byte_written(m0.contents(), a as usize, v as u8),
                            (a + 1) as usize,
                            (v >> 8u16) as u8,
                        ))
                    }
                },
                Instruction::Break { .. } | Instruction::Nop | Instruction::InvalidInstruction => r1
                    == r0 && m1 == m0 && res is None,
                _ => true,
            }
        }
    }

    /// Executes the instruction on the register file and memory. Returns the
    /// branch offset or jump target for control flow, the faulting address
    /// for a failed memory access, or `None` to fall through.
    #[verifier::spinoff_prover]
    #[verifier::rlimit(80)]
    pub fn execute(&self, registers: &mut Registers, memory: &mut Memory) -> (res: Option<u32>)
        requires
            self.executable_here(),
            self.execution_defined(old(registers)@),
            old(memory).wf(),
            self.loads() || self.stores() ==> old(memory).translation_safe(),
        ensures
            final(memory).wf(),
            self.executed(old(registers)@, old(memory), final(registers)@, final(memory), res),
    {
        match *self {
            Instruction::Add { .. } | Instruction::Sub { .. } | Instruction::And { .. } | Instruction::Or { .. } | Instruction::Slt { .. } | Instruction::Sll { .. } | Instruction::Srl { .. } | Instruction::Addi { .. } | Instruction::Lui { .. } | Instruction::Ori { .. } | Instruction::Mflo { .. } | Instruction::Sra { .. } | Instruction::Sllv { .. } | Instruction::Srlv { .. } | Instruction::Srav { .. } | Instruction::Xor { .. } | Instruction::Nor { .. } | Instruction::Mfhi { .. } | Instruction::Andi { .. } | Instruction::Xori { .. } | Instruction::Slti { .. } | Instruction::Sltiu { .. } | Instruction::Addiu { .. } => {
                self.exec_register_op(registers);
                None
            },
            Instruction::Mult { .. } | Instruction::Div { .. } | Instruction::Divu { .. } | Instruction::Mthi { .. } | Instruction::Mtlo { .. } => {
                self.exec_hilo_op(registers);
                None
            },
            Instruction::Beq { .. } | Instruction::J { .. } | Instruction::Bne { .. } | Instruction::Jr { .. } | Instruction::Bgtz { .. } | Instruction::Blez { .. } | Instruction::Bltz { .. } | Instruction::Bgez { .. } | Instruction::BC1T { .. } | Instruction::BC1F { .. } => self.exec_control_op(registers),
            Instruction::Lw { .. } | Instruction::Sw { .. } | Instruction::Lb { .. } | Instruction::Lbu { .. } | Instruction::Lh { .. } | Instruction::Lhu { .. } | Instruction::Sb { .. } | Instruction::Sh { .. } | Instruction::LwC1 { .. } | Instruction::SwC1 { .. } => self.exec_memory_op(registers, memory),
            _ => self.exec_other_op(registers),
        }
    }

    fn exec_other_op(&self, registers: &mut Registers) -> (res: Option<u32>)
        requires
            self.execution_defined(old(registers)@),
        ensures
            match *self {
                Instruction::Jal { target } => final(registers)@ == old(registers)@.written(
                    31,
                    (old(registers)@.pc + 4) as u32,
                ) && res == Some(target),
                Instruction::Jalr { rd, rs } => {
                    let r = old(registers)@.written(rd, (old(registers)@.pc + 4) as u32);
                    final(registers)@ == r && res == Some(r.reg(rs))
                },
                Instruction::MovS { fd, fs } => final(registers)@ == old(registers)@.fwritten(
                    fd,
                    old(registers)@.freg(fs),
                ) && res is None,
                _ => final(registers)@ == old(registers)@ && res is None,
            },
    {
        match *self {
            Instruction::Jal { target } => {
                let link = registers.pc + 4;
                registers.write(31, link);
                Some(target)
            },
            Instruction::Jalr { rd, rs } => {
                let link = registers.pc + 4;
                registers.write(rd, link);
                Some(registers.read(rs))
            },
            Instruction::MovS { fd, fs } => {
                let v = registers.read_float_bits(fs);
                registers.write_float_bits(fd, v);
                None
            },
            Instruction::Break { .. } | Instruction::Nop | Instruction::InvalidInstruction => None,
            Instruction::AddS { .. } | Instruction::SubS { .. } | Instruction::MulS { .. }
            | Instruction::DivS { .. } | Instruction::AbsS { .. } | Instruction::NegS { .. }
            | Instruction::CvtSW { .. } | Instruction::CvtWS { .. } | Instruction::CmpS { .. }
            | Instruction::Syscall => None,

            _ => None,
        }
    }

    fn exec_register_op(&self, registers: &mut Registers)
        requires
            self.reg_effect(old(registers)@) is Some,
            self.execution_defined(old(registers)@),
        ensures
            final(registers)@ == old(registers)@.written(
                self.reg_effect(old(registers)@).unwrap().0,
                self.reg_effect(old(registers)@).unwrap().1,
            ),
    {
        match *self {
            Instruction::Add { rd, rs, rt } => {
                let v = registers.read(rs).wrapping_add(registers.read(rt));
                registers.write(rd, v);
            },
            Instruction::Sub { rd, rs, rt } => {
                let v = registers.read(rs).wrapping_sub(registers.read(rt));
                registers.write(rd, v);
            },
            Instruction::And { rd, rs, rt } => {
                let v = registers.read(rs) & registers.read(rt);
                registers.write(rd, v);
            },
            Instruction::Or { rd, rs, rt } => {
                let v = registers.read(rs) | registers.read(rt);
                registers.write(rd, v);
            },
            Instruction::Slt { rd, rs, rt } => {
                let a = registers.read(rs) as i32;
                let b = registers.read(rt) as i32;
                registers.write(rd, if a < b { 1 } else { 0 });
            },
            Instruction::Sll { rd, rt, shamt } => {
                let v = registers.read(rt) << shamt;
                registers.write(rd, v);
            },
            Instruction::Srl { rd, rt, shamt } => {
                let v = registers.read(rt) >> shamt;
                registers.write(rd, v);
            },
            Instruction::Addi { rt, rs, imm } | Instruction::Addiu { rt, rs, imm } => {
                let v = registers.read(rs).wrapping_add(imm as u32);
                registers.write(rt, v);
            },
            Instruction::Lui { rt, imm } => {
                registers.write(rt, (imm as u32) << 16u32);
            },
            Instruction::Ori { rt, rs, imm } => {
                let v = registers.read(rs) | (imm as u32);
                registers.write(rt, v);
            },
            Instruction::Mflo { rd } => {
                let v = registers.get_lo();
                registers.write(rd, v);
            },
            Instruction::Sra { rd, rt, shamt } => {
                let v = registers.read(rt) as i32;
                registers.write(rd, (v >> shamt) as u32);
            },
            Instruction::Sllv { rd, rt, rs } => {
                let x = registers.read(rs);
                let sh = x & 0x1F;
                assert(sh < 32) by (bit_vector)
                    requires
                        sh == x & 0x1F,
                ;
                let v = registers.read(rt) << sh;
                registers.write(rd, v);
            },
            Instruction::Srlv { rd, rt, rs } => {
                let x = registers.read(rs);
                let sh = x & 0x1F;
                assert(sh < 32) by (bit_vector)
                    requires
                        sh == x & 0x1F,
                ;
                let v = registers.read(rt) >> sh;
                registers.write(rd, v);
            },
            Instruction::Srav { rd, rt, rs } => {
                let v = registers.read(rt) as i32;
                let x = registers.read(rs);
                let sh = x & 0x1F;
                assert(sh < 32) by (bit_vector)
                    requires
                        sh == x & 0x1F,
                ;
                registers.write(rd, (v >> sh) as u32);
            },
            Instruction::Xor { rd, rs, rt } => {
                let v = registers.read(rs) ^ registers.read(rt);
                registers.write(rd, v);
            },
            Instruction::Nor { rd, rs, rt } => {
                let v = !(registers.read(rs) | registers.read(rt));
                registers.write(rd, v);
            },
            Instruction::Mfhi { rd } => {
                let v = registers.get_hi();
                registers.write(rd, v);
            },
            Instruction::Andi { rt, rs, imm } => {
                let v = registers.read(rs) & (imm as u32);
                registers.write(rt, v);
            },
            Instruction::Xori { rt, rs, imm } => {
                let v = registers.read(rs) ^ (imm as u32);
                registers.write(rt, v);
            },
            Instruction::Slti { rt, rs, imm } => {
                let a = registers.read(rs) as i32;
                registers.write(rt, if a < (imm as i32) { 1 } else { 0 });
            },
            Instruction::Sltiu { rt, rs, imm } => {
                let a = registers.read(rs);
                registers.write(rt, if a < (imm as u32) { 1 } else { 0 });
            },
            _ => (),
        }
    }

    fn exec_hilo_op(&self, registers: &mut Registers)
        requires
            self.hilo_effect(old(registers)@) is Some,
            self.execution_defined(old(registers)@),
        ensures
            final(registers)@ == (RegistersModel {
                hi: self.hilo_effect(old(registers)@).unwrap().0,
                lo: self.hilo_effect(old(registers)@).unwrap().1,
                ..old(registers)@
            }),
    {
        match *self {
            Instruction::Mult { rs, rt } => {
                let (hi, lo) = signed_product(registers.read(rs), registers.read(rt));
                registers.set_lo(lo);
                registers.set_hi(hi);
            },
            Instruction::Div { rs, rt } => {
                let a = registers.read(rs) as i32;
                let b = registers.read(rt) as i32;
                proof {
                    let x = registers@.reg(rs);
                    let y = registers@.reg(rt);
                    assert((x as i32 == i32::MIN) == (x == 0x8000_0000u32)) by (bit_vector);
                    assert((y as i32 == -1i32) == (y == 0xFFFF_FFFFu32)) by (bit_vector);
                    assert((y as i32 == 0i32) == (y == 0u32)) by (bit_vector);
                }
                if b == 0 {
                    registers.set_lo(0);
                    registers.set_hi(0);
                } else {
                    let (q, rm) = div_rem_i32(a, b);
                    registers.set_lo(q as u32);
                    registers.set_hi(rm as u32);
                }
            },
            Instruction::Divu { rs, rt } => {
                let a = registers.read(rs);
                let b = registers.read(rt);
                if b == 0 {
                    registers.set_lo(0);
                    registers.set_hi(0);
                } else {
                    registers.set_lo(a / b);
                    registers.set_hi(a % b);
                }
            },
            Instruction::Mthi { rs } => {
                let v = registers.read(rs);
                registers.set_hi(v);
            },
            Instruction::Mtlo { rs } => {
                let v = registers.read(rs);
                registers.set_lo(v);
            },
            _ => (),
        }
    }

    fn exec_control_op(&self, registers: &Registers) -> (res: Option<u32>)
        requires
            self.control_effect(registers@) is Some,
        ensures
            res == self.control_effect(registers@).unwrap(),
    {
        match *self {
            Instruction::Beq { rs, rt, offset } => {
                if registers.read(rs) == registers.read(rt) {
                    Some((offset as u32) << 2u32)
                } else {
                    None
                }
            },
            Instruction::J { target } => Some(target),
            Instruction::Bne { rs, rt, offset } => {
                if registers.read(rs) != registers.read(rt) {
                    Some((offset as u32) << 2u32)
                } else {
                    None
                }
            },
            Instruction::Jr { rs } => Some(registers.read(rs)),
            Instruction::Bgtz { rs, offset } => {
                if (registers.read(rs) as i32) > 0 {
                    Some((offset as u32) << 2u32)
                } else {
                    None
                }
            },
            Instruction::Blez { rs, offset } => {
                if (registers.read(rs) as i32) <= 0 {
                    Some((offset as u32) << 2u32)
                } else {
                    None
                }
            },
            Instruction::Bltz { rs, offset } => {
                if (registers.read(rs) as i32) < 0 {
                    Some((offset as u32) << 2u32)
                } else {
                    None
                }
            },
            Instruction::Bgez { rs, offset } => {
                if (registers.read(rs) as i32) >= 0 {
                    Some((offset as u32) << 2u32)
                } else {
                    None
                }
            },
            Instruction::BC1T { offset } => {
                if (registers.fcsr & FP_CONDITION_BIT) != 0 {
                    Some((offset as u32) << 2u32)
                } else {
                    None
                }
            },
            Instruction::BC1F { offset } => {
                if (registers.fcsr & FP_CONDITION_BIT) == 0 {
                    Some((offset as u32) << 2u32)
                } else {
                    None
                }
            },
            _ => None,
        }
    }

    fn exec_memory_op(&self, registers: &mut Registers, memory: &mut Memory) -> (res: Option<u32>)
        requires
            self.loads() || self.stores(),
            self.execution_defined(old(registers)@),
            old(memory).wf(),
            self.loads() || self.stores() ==> old(memory).translation_safe(),
        ensures
            final(memory).wf(),
            self.executed(old(registers)@, old(memory), final(registers)@, final(memory), res),
    {
        match *self {
            Instruction::Lw { .. } => self.exec_lw(registers, memory),
            Instruction::Sw { .. } => self.exec_sw(registers, memory),
            Instruction::Lb { .. } => self.exec_lb(registers, memory),
            Instruction::Lbu { .. } => self.exec_lbu(registers, memory),
            Instruction::Lh { .. } | Instruction::Lhu { .. } => self.exec_lh_lhu(registers, memory),
            Instruction::Sb { .. } => self.exec_sb(registers, memory),
            Instruction::Sh { .. } => self.exec_sh(registers, memory),
            Instruction::LwC1 { .. } => self.exec_lwc1(registers, memory),
            Instruction::SwC1 { .. } => self.exec_swc1(registers, memory),
            _ => None,
        }
    }

    fn exec_lw(&self, registers: &mut Registers, memory: &mut Memory) -> (res: Option<u32>)
        requires
            self is Lw,
            self.execution_defined(old(registers)@),
            old(memory).wf(),
            self.loads() || self.stores() ==> old(memory).translation_safe(),
        ensures
            final(memory).wf(),
            self.executed(old(registers)@, old(memory), final(registers)@, final(memory), res),
    {
        match *self {
            Instruction::Lw { rt, base, offset } => {
                let address = registers.read(base).wrapping_add(offset as u32);
                if address % 4 != 0 {
                    return Some(address);
                }
                match memory.read_word(address as usize) {
                    Some(value) => {
                        registers.write(rt, value);
                        None
                    },
                    None => Some(address),
                }
            },
            _ => None,
        }
    }

    fn exec_sw(&self, registers: &mut Registers, memory: &mut Memory) -> (res: Option<u32>)
        requires
            self is Sw,
            self.execution_defined(old(registers)@),
            old(memory).wf(),
            self.loads() || self.stores() ==> old(memory).translation_safe(),
        ensures
            final(memory).wf(),
            self.executed(old(registers)@, old(memory), final(registers)@, final(memory), res),
    {
        match *self {
            Instruction::Sw { rt, base, offset } => {
                let address = registers.read(base).wrapping_add(offset as u32);
                if address % 4 != 0 {
                    return Some(address);
                }
                let value = registers.read(rt);
                if memory.write_word(address as usize, value) {
                    None
                } else {
                    Some(address)
                }
            },
            _ => None,
        }
    }

    fn exec_lb(&self, registers: &mut Registers, memory: &mut Memory) -> (res: Option<u32>)
        requires
            self is Lb,
            self.execution_defined(old(registers)@),
            old(memory).wf(),
            self.loads() || self.stores() ==> old(memory).translation_safe(),
        ensures
            final(memory).wf(),
            self.executed(old(registers)@, old(memory), final(registers)@, final(memory), res),
    {
        match *self {
            Instruction::Lb { rt, base, offset } => {
                let address = registers.read(base).wrapping_add(offset as u32);
                match memory.read_byte(address as usize) {
                    Some(value) => {
                        registers.write(rt, value as i8 as i32 as u32);
                        None
                    },
                    None => Some(address),
                }
            },
            _ => None,
        }
    }

    fn exec_lbu(&self, registers: &mut Registers, memory: &mut Memory) -> (res: Option<u32>)
        requires
            self is Lbu,
            self.execution_defined(old(registers)@),
            old(memory).wf(),
            self.loads() || self.stores() ==> old(memory).translation_safe(),
        ensures
            final(memory).wf(),
            self.executed(old(registers)@, old(memory), final(registers)@, final(memory), res),
    {
        match *self {
            Instruction::Lbu { rt, base, offset } => {
                let address = registers.read(base).wrapping_add(offset as u32);
                match memory.read_byte(address as usize) {
                    Some(value) => {
                        registers.write(rt, value as u32);
                        None
                    },
                    None => Some(address),
                }
            },
            _ => None,
        }
    }

    fn exec_lh_lhu(&self, registers: &mut Registers, memory: &mut Memory) -> (res: Option<u32>)
        requires
            self is Lh || self is Lhu,
            self.execution_defined(old(registers)@),
            old(memory).wf(),
            self.loads() || self.stores() ==> old(memory).translation_safe(),
        ensures
            final(memory).wf(),
            self.executed(old(registers)@, old(memory), final(registers)@, final(memory), res),
    {
        match *self {
            Instruction::Lh { rt, base, offset } | Instruction::Lhu { rt, base, offset } => {
                let address = registers.read(base).wrapping_add(offset as u32);
                if address % 2 != 0 {
                    return Some(address);
                }
                if (address as usize) + 1 < memory.get_size() {
                    let low = match memory.read_byte(address as usize) {
                        Some(b) => b,
                        None => 0,
                    };
                    let high = match memory.read_byte((address as usize) + 1) {
                        Some(b) => b,
                        None => 0,
                    };
                    let half = ((high as u16) << 8u16) | (low as u16);
                    proof {
                        assert(half == crate::functional_simulator::memory::le_half(low, high))
                            by (bit_vector)
                            requires
                                half == ((high as u16) << 8u16) | (low as u16),
                        ;
                    }
                    let value = if let Instruction::Lh { .. } = *self {
                        half as i16 as i32 as u32
                    } else {
                        half as u32
                    };
                    registers.write(rt, value);
                    None
                } else {
                    Some(address)
                }
            },
            _ => None,
        }
    }

    fn exec_sb(&self, registers: &mut Registers, memory: &mut Memory) -> (res: Option<u32>)
        requires
            self is Sb,
            self.execution_defined(old(registers)@),
            old(memory).wf(),
            self.loads() || self.stores() ==> old(memory).translation_safe(),
        ensures
            final(memory).wf(),
            self.executed(old(registers)@, old(memory), final(registers)@, final(memory), res),
    {
        match *self {
            Instruction::Sb { rt, base, offset } => {
                let address = registers.read(base).wrapping_add(offset as u32);
                let value = registers.read(rt) as u8;
                if memory.write_byte(address as usize, value) {
                    None
                } else {
                    Some(address)
                }
            },
            _ => None,
        }
    }

    fn exec_sh(&self, registers: &mut Registers, memory: &mut Memory) -> (res: Option<u32>)
        requires
            self is Sh,
            self.execution_defined(old(registers)@),
            old(memory).wf(),
            self.loads() || self.stores() ==> old(memory).translation_safe(),
        ensures
            final(memory).wf(),
            self.executed(old(registers)@, old(memory), final(registers)@, final(memory), res),
    {
        match *self {
            Instruction::Sh { rt, base, offset } => {
                let address = registers.read(base).wrapping_add(offset as u32);
                if address % 2 != 0 {
                    return Some(address);
                }
                let value = registers.read(rt) as u16;
                if (address as usize) + 1 < memory.get_size() {
                    let low = value as u8;
                    let high = (value >> 8u16) as u8;
                    let _ = memory.write_byte(address as usize, low);
                    let _ = memory.write_byte((address as usize) + 1, high);
                    None
                } else {
                    Some(address)
                }
            },
            _ => None,
        }
    }

    fn exec_lwc1(&self, registers: &mut Registers, memory: &mut Memory) -> (res: Option<u32>)
        requires
            self is LwC1,
            self.execution_defined(old(registers)@),
            old(memory).wf(),
            self.loads() || self.stores() ==> old(memory).translation_safe(),
        ensures
            final(memory).wf(),
            self.executed(old(registers)@, old(memory), final(registers)@, final(memory), res),
    {
        match *self {
            Instruction::LwC1 { ft, base, offset } => {
                let address = registers.read(base).wrapping_add(offset as u32);
                match memory.read_word(address as usize) {
                    Some(value) => {
                        registers.write_float_bits(ft, value);
                        None
                    },
                    None => Some(address),
                }
            },
            _ => None,
        }
    }

    fn exec_swc1(&self, registers: &mut Registers, memory: &mut Memory) -> (res: Option<u32>)
        requires
            self is SwC1,
            self.execution_defined(old(registers)@),
            old(memory).wf(),
            self.loads() || self.stores() ==> old(memory).translation_safe(),
        ensures
            final(memory).wf(),
            self.executed(old(registers)@, old(memory), final(registers)@, final(memory), res),
    {
        match *self {
            Instruction::SwC1 { ft, base, offset } => {
                let address = registers.read(base).wrapping_add(offset as u32);
                let value = registers.read_float_bits(ft);
                if memory.write_word(address as usize, value) {
                    None
                } else {
                    Some(address)
                }
            },

            _ => None,
        }
    }
}


impl Instruction {
    /// The address an instruction refers to: the effective address of a
    /// load or store, the target of a branch (PC+4+offset*4) or jump, the
    /// register value of a register jump, 0 otherwise.
    pub open spec fn address_of(self, r: RegistersModel, pc: u32) -> u32 {
        match self {
            Instruction::Lw { base, offset, .. } | Instruction::Sw { base, offset, .. }
            | Instruction::Lb { base, offset, .. } | Instruction::Lh { base, offset, .. }
            | Instruction::Lbu { base, offset, .. } | Instruction::Lhu { base, offset, .. }
            | Instruction::Sb { base, offset, .. } | Instruction::Sh { base, offset, .. }
            | Instruction::LwC1 { base, offset, .. } | Instruction::SwC1 { base, offset, .. } =>
                effective_address(r.reg(base), offset),
            Instruction::J { target } | Instruction::Jal { target } => (pc & 0xF0000000) | (target
                << 2u32),
            Instruction::Jr { rs } | Instruction::Jalr { rs, .. } => r.reg(rs),
            _ => match self.branch_offset() {
                Some(offset) => pc.wrapping_add(4).wrapping_add((offset as u32) << 2u32),
                None => 0,
            },
        }
    }

    pub fn get_address(&self, registers: &Registers, pc: u32) -> (r: u32)
        ensures
            r == self.address_of(registers@, pc),
    {
        match *self {
            Instruction::Lw { base, offset, .. } | Instruction::Sw { base, offset, .. }
            | Instruction::Lb { base, offset, .. } | Instruction::Lh { base, offset, .. }
            | Instruction::Lbu { base, offset, .. } | Instruction::Lhu { base, offset, .. }
            | Instruction::Sb { base, offset, .. } | Instruction::Sh { base, offset, .. }
            | Instruction::LwC1 { base, offset, .. } | Instruction::SwC1 { base, offset, .. } =>
                registers.read(base).wrapping_add(offset as u32),
            Instruction::J { target } | Instruction::Jal { target } => (pc & 0xF0000000) | (target
                << 2u32),
            Instruction::Jr { rs } | Instruction::Jalr { rs, .. } => registers.read(rs),
            _ => match self.offset_of() {
                Some(offset) => pc.wrapping_add(4).wrapping_add((offset as u32) << 2u32),
                None => 0,
            },
        }
    }
}

/// Addition is commutative: `add` with its two source registers swapped
/// writes the same value to the same register, the 32-bit wrapping sum.
pub proof fn law_add_commutes(r: RegistersModel, rd: u32, rs: u32, rt: u32)
    ensures
        (Instruction::Add { rd, rs, rt }).reg_effect(r) == (Instruction::Add {
            rd,
            rs: rt,
            rt: rs,
        }).reg_effect(r),
        (Instruction::Add { rd, rs, rt }).reg_effect(r) == Some(
            (rd, r.reg(rs).wrapping_add(r.reg(rt))),
        ),
{
    let a = r.reg(rs);
    let b = r.reg(rt);
    assert(a.wrapping_add(b) == b.wrapping_add(a)) by (bit_vector);
}

/// A word that `sw` stores is what a following `lw` from the same address
/// loads: the store leaves the registers alone and the load writes the
/// stored register's value to its destination.
pub proof fn law_store_then_load(
    sw: Instruction,
    lw: Instruction,
    r0: RegistersModel,
    m0: Memory,
    r1: RegistersModel,
    m1: Memory,
    res1: Option<u32>,
    r2: RegistersModel,
    m2: Memory,
    res2: Option<u32>,
)
    requires
        (sw is Sw),
        (lw is Lw),
        m0.wf(),
        effective_address(r0.reg(sw->Sw_base), sw->Sw_offset) == effective_address(
            r0.reg(lw->Lw_base),
            lw->Lw_offset,
        ),
        ({
            let a = effective_address(r0.reg(sw->Sw_base), sw->Sw_offset);
            &&& a % 4 == 0
            &&& m0.device_at(a as usize) is None
            &&& m0.writable(a as usize, 4)
            &&& m0.readable(a as usize, 4)
        }),
        sw.executed(r0, &m0, r1, &m1, res1),
        lw.executed(r1, &m1, r2, &m2, res2),
    ensures
        (res1 is None && res2 is None),
        r1 == r0,
        r2 == r0.written(lw->Lw_rt, r0.reg(sw->Sw_rt)),
{
    let a = effective_address(r0.reg(sw->Sw_base), sw->Sw_offset);
    law_word_read_after_write(m0, m1, a as usize, r0.reg(sw->Sw_rt), 0);
}

/// Without mapped devices, executing an instruction (one that `execute`
/// performs) is a function of the state it starts from: two executions
/// from the same registers and memory end in the same registers, result
/// and memory contents.
pub proof fn law_execution_deterministic(
    i: Instruction,
    r0: RegistersModel,
    m0: Memory,
    r1: RegistersModel,
    m1: Memory,
    res1: Option<u32>,
    r2: RegistersModel,
    m2: Memory,
    res2: Option<u32>,
)
    requires
        i.executable_here(),
        m0.device_bases().len() == 0,
        i.executed(r0, &m0, r1, &m1, res1),
        i.executed(r0, &m0, r2, &m2, res2),
    ensures
        r1 == r2,
        res1 == res2,
        m1.contents() == m2.contents(),
        m1.msize() == m0.msize() && m2.msize() == m0.msize(),
{
}


/// The two's-complement value of a 32-bit word.
pub open spec fn signed_value(x: u32) -> int {
    if x < 0x8000_0000 {
        x as int
    } else {
        x as int - 0x1_0000_0000
    }
}

proof fn lemma_i32_of(x: u32) by (bit_vector)
    ensures
        x < 0x8000_0000u32 ==> (x as i32) as int == x as int,
        x >= 0x8000_0000u32 ==> (x as i32) as int == x as int - 0x1_0000_0000,
{
}

proof fn lemma_signed_value(x: u32, y: u32)
    ensures
        ((x as i32) < (y as i32)) == (signed_value(x) < signed_value(y)),
{
    lemma_i32_of(x);
    lemma_i32_of(y);
}

proof fn lemma_sext_value(imm: i16) by (bit_vector)
    ensures
        imm >= 0 ==> (imm as i32 as u32) as int == imm,
        imm < 0 ==> (imm as i32 as u32) as int == imm + 0x1_0000_0000,
{
}

/// Executing `add`, `sub` or `slt` writes the destination register (unless
/// it is `$zero`) with, respectively, the sum of the two sources modulo
/// 2^32, the word that added to the second source gives the first modulo
/// 2^32, or 1 exactly when the first source is less than the second as a
/// signed number (else 0); every other register and the memory are left
/// alone, and execution falls through.
pub proof fn law_register_arithmetic(
    i: Instruction,
    r0: RegistersModel,
    m0: &Memory,
    r1: RegistersModel,
    m1: &Memory,
    res: Option<u32>,
)
    requires
        r0.data.len() == 32,
        i.executed(r0, m0, r1, m1, res),
    ensures
        i matches Instruction::Add { rd, rs, rt } ==> (0 < rd < 32 ==> r1.reg(rd) as int == (r0.reg(rs)
            + r0.reg(rt)) % 0x1_0000_0000),
        i matches Instruction::Sub { rd, rs, rt } ==> (0 < rd < 32 ==> (r1.reg(rd) + r0.reg(rt))
            % 0x1_0000_0000 == r0.reg(rs) as int),
        i matches Instruction::Slt { rd, rs, rt } ==> (0 < rd < 32 ==> r1.reg(rd) == (if signed_value(
            r0.reg(rs),
        ) < signed_value(r0.reg(rt)) {
            1u32
        } else {
            0u32
        })),
        (i is Add || i is Sub || i is Slt) ==> {
            &&& *m1 == *m0
            &&& res is None
            &&& r1.reg(0) == 0
            &&& forall|k: u32| k != i.dest_register_of_arith() ==> #[trigger] r1.reg(k) == r0.reg(k)
        },
{
    match i {
        Instruction::Slt { rd, rs, rt } => {
            lemma_signed_value(r0.reg(rs), r0.reg(rt));
        },
        _ => {},
    }
}

impl Instruction {
    /// The destination register of `add`, `sub` and `slt` (0 otherwise).
    pub open spec fn dest_register_of_arith(self) -> u32 {
        match self {
            Instruction::Add { rd, .. } => rd,
            Instruction::Sub { rd, .. } => rd,
            Instruction::Slt { rd, .. } => rd,
            _ => 0,
        }
    }
}

/// Subtracting undoes adding: after `add d, s, t` (with `d` neither `$zero`
/// nor `t`), `sub e, d, t` writes `e` with the old value of `s`.
pub proof fn law_sub_undoes_add(
    d: u32,
    s: u32,
    t: u32,
    e: u32,
    r0: RegistersModel,
    m0: &Memory,
    r1: RegistersModel,
    m1: &Memory,
    r2: RegistersModel,
    m2: &Memory,
    res1: Option<u32>,
    res2: Option<u32>,
)
    requires
        r0.data.len() == 32,
        0 < d < 32,
        d != t,
        0 < e < 32,
        (Instruction::Add { rd: d, rs: s, rt: t }).executed(r0, m0, r1, m1, res1),
        (Instruction::Sub { rd: e, rs: d, rt: t }).executed(r1, m1, r2, m2, res2),
    ensures
        r2.reg(e) == r0.reg(s),
{
    law_register_arithmetic(Instruction::Add { rd: d, rs: s, rt: t }, r0, m0, r1, m1, res1);
    assert(r1.data.len() == 32);
    law_register_arithmetic(Instruction::Sub { rd: e, rs: d, rt: t }, r1, m1, r2, m2, res2);
    assert(r1.reg(t) == r0.reg(t));
}


/// Bit `b` of `x`.
pub open spec fn bit(x: u32, b: u32) -> bool {
    (x >> b) & 1 == 1
}

proof fn lemma_bitwise(x: u32, y: u32, b: u32) by (bit_vector)
    requires
        b < 32,
    ensures
        (((x & y) >> b) & 1 == 1) == (((x >> b) & 1 == 1) && ((y >> b) & 1 == 1)),
        (((x | y) >> b) & 1 == 1) == (((x >> b) & 1 == 1) || ((y >> b) & 1 == 1)),
        (((x ^ y) >> b) & 1 == 1) == (((x >> b) & 1 == 1) != ((y >> b) & 1 == 1)),
        (((!(x | y)) >> b) & 1 == 1) == !(((x >> b) & 1 == 1) || ((y >> b) & 1 == 1)),
{
}

/// Executing `and`, `or`, `xor` or `nor` sets each bit of the destination
/// register (unless it is `$zero`) from the same bit of the two sources:
/// both set, either set, exactly one set, neither set.
pub proof fn law_register_logic(
    i: Instruction,
    r0: RegistersModel,
    m0: &Memory,
    r1: RegistersModel,
    m1: &Memory,
    res: Option<u32>,
)
    requires
        r0.data.len() == 32,
        i.executed(r0, m0, r1, m1, res),
    ensures
        i matches Instruction::And { rd, rs, rt } ==> (0 < rd < 32 ==> forall|b: u32|
            b < 32 ==> #[trigger] bit(r1.reg(rd), b) == (bit(r0.reg(rs), b) && bit(r0.reg(rt), b))),
        i matches Instruction::Or { rd, rs, rt } ==> (0 < rd < 32 ==> forall|b: u32|
            b < 32 ==> #[trigger] bit(r1.reg(rd), b) == (bit(r0.reg(rs), b) || bit(r0.reg(rt), b))),
        i matches Instruction::Xor { rd, rs, rt } ==> (0 < rd < 32 ==> forall|b: u32|
            b < 32 ==> #[trigger] bit(r1.reg(rd), b) == (bit(r0.reg(rs), b) != bit(r0.reg(rt), b))),
        i matches Instruction::Nor { rd, rs, rt } ==> (0 < rd < 32 ==> forall|b: u32|
            b < 32 ==> #[trigger] bit(r1.reg(rd), b) == !(bit(r0.reg(rs), b) || bit(r0.reg(rt), b))),
{
    match i {
        Instruction::And { rd, rs, rt } => {
            assert forall|b: u32| b < 32 implies #[trigger] bit(r0.reg(rs) & r0.reg(rt), b) == (bit(r0.reg(rs), b)
                && bit(r0.reg(rt), b)) by {
                lemma_bitwise(r0.reg(rs), r0.reg(rt), b);
            }
        },
        Instruction::Or { rd, rs, rt } => {
            assert forall|b: u32| b < 32 implies #[trigger] bit(r0.reg(rs) | r0.reg(rt), b) == (bit(r0.reg(rs), b)
                || bit(r0.reg(rt), b)) by {
                lemma_bitwise(r0.reg(rs), r0.reg(rt), b);
            }
        },
        Instruction::Xor { rd, rs, rt } => {
            assert forall|b: u32| b < 32 implies #[trigger] bit(r0.reg(rs) ^ r0.reg(rt), b) == (bit(r0.reg(rs), b)
                != bit(r0.reg(rt), b)) by {
                lemma_bitwise(r0.reg(rs), r0.reg(rt), b);
            }
        },
        Instruction::Nor { rd, rs, rt } => {
            assert forall|b: u32| b < 32 implies #[trigger] bit(!(r0.reg(rs) | r0.reg(rt)), b) == !(bit(
                r0.reg(rs),
                b,
            ) || bit(r0.reg(rt), b)) by {
                lemma_bitwise(r0.reg(rs), r0.reg(rt), b);
            }
        },
        _ => {},
    }
}

/// Executing `addi`/`addiu` writes the destination (unless it is `$zero`)
/// with the source plus the signed immediate, modulo 2^32; `lui` writes the
/// immediate times 65536; `slti` writes 1 exactly when the source is less
/// than the signed immediate as a signed number.
pub proof fn law_immediate_arithmetic(
    i: Instruction,
    r0: RegistersModel,
    m0: &Memory,
    r1: RegistersModel,
    m1: &Memory,
    res: Option<u32>,
)
    requires
        r0.data.len() == 32,
        i.executed(r0, m0, r1, m1, res),
    ensures
        i matches Instruction::Addi { rt, rs, imm } ==> (0 < rt < 32 ==> r1.reg(rt) as int == (r0.reg(rs)
            + imm + 0x1_0000_0000) % 0x1_0000_0000),
        i matches Instruction::Addiu { rt, rs, imm } ==> (0 < rt < 32 ==> r1.reg(rt) as int == (r0.reg(rs)
            + imm + 0x1_0000_0000) % 0x1_0000_0000),
        i matches Instruction::Lui { rt, imm } ==> (0 < rt < 32 ==> r1.reg(rt) as int == imm * 0x1_0000),
        i matches Instruction::Slti { rt, rs, imm } ==> (0 < rt < 32 ==> r1.reg(rt) == (if signed_value(
            r0.reg(rs),
        ) < imm { 1u32 } else { 0u32 })),
{
    match i {
        Instruction::Addi { rt, rs, imm } | Instruction::Addiu { rt, rs, imm } => {
            lemma_sext_value(imm);
        },
        Instruction::Lui { rt, imm } => {
            assert(((imm as u32) << 16u32) as int == imm * 0x1_0000) by (bit_vector);
        },
        Instruction::Slti { rt, rs, imm } => {
            lemma_i32_of(r0.reg(rs));
        },
        _ => {},
    }
}

} // verus!
