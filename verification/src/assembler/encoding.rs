//! Encoding one instruction: its mnemonic and operand tokens, with the
//! labels and the current address, to a machine word.
use vstd::prelude::*;
use super::lexer::{Fault, Mnemonic, Tok, Token, toks};
use crate::functional_simulator::instructions::{Instruction, trunc_div};
use crate::functional_simulator::simulator::{decoded, field};

verus! {

/// The address of the latest definition of label `name`.
pub open spec fn label_value(labels: Seq<(Seq<char>, u32)>, name: Seq<char>) -> Option<u32>
    decreases labels.len(),
{
    if labels.len() == 0 {
        None
    } else if labels.last().0 == name {
        Some(labels.last().1)
    } else {
        label_value(labels.drop_last(), name)
    }
}

/// Label definitions as values.
pub open spec fn label_seq(v: Seq<(Vec<char>, u32)>) -> Seq<(Seq<char>, u32)> {
    v.map_values(|p: (Vec<char>, u32)| (p.0@, p.1))
}

/// Whether `a` and `b` hold the same characters.
pub fn chars_eq(a: &Vec<char>, b: &Vec<char>) -> (r: bool)
    ensures
        r == (a@ == b@),
{
    if a.len() != b.len() {
        return false;
    }
    let mut k: usize = 0;
    while k < a.len()
        invariant
            a@.len() == b@.len(),
            k <= a.len(),
            forall|q: int| 0 <= q < k ==> a@[q] == b@[q],
        decreases a.len() - k,
    {
        if a[k] != b[k] {
            return false;
        }
        k = k + 1;
    }
    assert(a@ =~= b@);
    true
}

/// `label_value`.
pub fn find_label(labels: &Vec<(Vec<char>, u32)>, name: &Vec<char>) -> (r: Option<u32>)
    ensures
        r == label_value(label_seq(labels@), name@),
{
    let mut k = labels.len();
    assert(label_seq(labels@).subrange(0, k as int) =~= label_seq(labels@));
    while k > 0
        invariant
            k <= labels.len(),
            label_value(label_seq(labels@), name@) == label_value(
                label_seq(labels@).subrange(0, k as int),
                name@,
            ),
        decreases k,
    {
        let ghost s = label_seq(labels@).subrange(0, k as int);
        assert(s.drop_last() =~= label_seq(labels@).subrange(0, k - 1));
        if chars_eq(&labels[k - 1].0, name) {
            return Some(labels[k - 1].1);
        }
        k = k - 1;
    }
    None
}

/// The word offset from the instruction after `addr` to `target`, as the
/// original arithmetic on `i32` computes it; `None` where that arithmetic
/// overflows or the offset does not fit 16 signed bits.
pub open spec fn branch_offset(target: u32, addr: u32) -> Option<int> {
    let a = target as i32 as int;
    let c = addr as i32 as int;
    let d = a - (c + 4);
    if c + 4 > i32::MAX || d < i32::MIN || d > i32::MAX {
        None
    } else {
        let q = trunc_div(d, 4);
        if -32768 <= q <= 32767 {
            Some(q)
        } else {
            None
        }
    }
}

/// `branch_offset`.
fn branch_offset_of(target: u32, addr: u32) -> (r: Option<i32>)
    ensures
        r matches Some(q) ==> branch_offset(target, addr) == Some(q as int),
        r is None ==> branch_offset(target, addr) is None,
{
    let a: i64 = target as i32 as i64;
    let c: i64 = addr as i32 as i64;
    if c + 4 > i32::MAX as i64 {
        return None;
    }
    let d: i64 = a - (c + 4);
    if d < i32::MIN as i64 || d > i32::MAX as i64 {
        return None;
    }
    let q: i64 = if d >= 0 {
        d / 4
    } else {
        0 - ((0 - d) / 4)
    };
    if q < -32768 || q > 32767 {
        None
    } else {
        Some(q as i32)
    }
}

/// The 16-bit field of a signed value.
pub open spec fn low16(v: int) -> u32 {
    (v as i32 as u32) & 0xFFFFu32
}

/// The 16-bit offset field for a branch from `addr` to label `name`.
pub open spec fn label_offset(labels: Seq<(Seq<char>, u32)>, name: Seq<char>, addr: u32) -> Result<u32, Fault> {
    match label_value(labels, name) {
        Some(target) => match branch_offset(target, addr) {
            Some(q) => Ok(low16(q)),
            None => Err(Fault::Range),
        },
        None => Err(Fault::Symbol),
    }
}

/// `label_offset`.
fn label_offset_of(labels: &Vec<(Vec<char>, u32)>, name: &Vec<char>, addr: u32) -> (r: Result<u32, Fault>)
    ensures
        r == label_offset(label_seq(labels@), name@, addr),
{
    match find_label(labels, name) {
        Some(target) => match branch_offset_of(target, addr) {
            Some(q) => Ok((q as u32) & 0xFFFF),
            None => Err(Fault::Range),
        },
        None => Err(Fault::Symbol),
    }
}

/// Whether `v` lies in `lo..=hi`.
pub open spec fn within(v: i32, lo: int, hi: int) -> bool {
    lo <= v <= hi
}

/// The base register and offset of an address operand: a bare register,
/// `offset(base)` with a 16-bit signed offset, or `label(base)` with the
/// label's address cut to 16 bits.
pub open spec fn address_operand(ts: Seq<Tok>, labels: Seq<(Seq<char>, u32)>) -> Result<(u32, i16), Fault> {
    if ts.len() == 0 {
        Err(Fault::Syntax)
    } else if let Tok::Register(base) = ts[0] {
        Ok((base, 0i16))
    } else if ts.len() >= 4 && ts[1] is LeftParen && ts[3] is RightParen {
        match (ts[0], ts[2]) {
            (Tok::Immediate(off), Tok::Register(base)) => if within(off, -32768, 32767) {
                Ok((base, off as i16))
            } else {
                Err(Fault::Range)
            },
            (Tok::Symbol(s), Tok::Register(base)) => match label_value(labels, s) {
                Some(a) => Ok((base, a as i16)),
                None => Err(Fault::Symbol),
            },
            _ => Err(Fault::Syntax),
        }
    } else {
        Err(Fault::Syntax)
    }
}

/// The tokens of `v` from `b`.
pub open spec fn ops_from(v: Seq<Token>, b: int) -> Seq<Tok> {
    toks(v).skip(b)
}

/// `address_operand` of the tokens from `b`.
fn parse_address(tokens: &Vec<Token>, b: usize, labels: &Vec<(Vec<char>, u32)>) -> (r: Result<(u32, i16), Fault>)
    requires
        b <= tokens.len(),
    ensures
        r == address_operand(ops_from(tokens@, b as int), label_seq(labels@)),
{
    let ghost ts = ops_from(tokens@, b as int);
    if b >= tokens.len() {
        return Err(Fault::Syntax);
    }
    assert(ts[0] == tokens@[b as int]@);
    if let Token::Register(base) = &tokens[b] {
        return Ok((*base, 0i16));
    }
    if tokens.len() - b >= 4 && matches!(tokens[b + 1], Token::LeftParen) && matches!(tokens[b + 3], Token::RightParen) {
        assert(ts[1] == tokens@[b + 1]@ && ts[2] == tokens@[b + 2]@ && ts[3] == tokens@[b + 3]@);
        match (&tokens[b], &tokens[b + 2]) {
            (Token::Immediate(off), Token::Register(base)) => if *off >= -32768 && *off <= 32767 {
                Ok((*base, *off as i16))
            } else {
                Err(Fault::Range)
            },
            (Token::Symbol(s), Token::Register(base)) => match find_label(labels, s) {
                Some(a) => Ok((*base, a as i16)),
                None => Err(Fault::Symbol),
            },
            _ => Err(Fault::Syntax),
        }
    } else {
        Err(Fault::Syntax)
    }
}


/// `rd, rs, rt`: an R-type word.
pub open spec fn r_type(opcode: u32, funct: u32, ops: Seq<Tok>) -> Result<u32, Fault> {
    if ops.len() < 5 {
        Err(Fault::Syntax)
    } else {
        match (ops[0], ops[2], ops[4]) {
            (Tok::Register(rd), Tok::Register(rs), Tok::Register(rt)) => Ok(
                (opcode << 26u32) | (rs << 21u32) | (rt << 16u32) | (rd << 11u32) | funct,
            ),
            _ => Err(Fault::Syntax),
        }
    }
}

/// `rd, rt, shamt` with a shift amount in `0..=31`.
pub open spec fn shift_type(opcode: u32, funct: u32, ops: Seq<Tok>) -> Result<u32, Fault> {
    if ops.len() < 5 {
        Err(Fault::Syntax)
    } else {
        match (ops[0], ops[2], ops[4]) {
            (Tok::Register(rd), Tok::Register(rt), Tok::Immediate(shamt)) => if within(shamt, 0, 31) {
                Ok((opcode << 26u32) | (rt << 16u32) | (rd << 11u32) | ((shamt as u32) << 6u32) | funct)
            } else {
                Err(Fault::Range)
            },
            _ => Err(Fault::Syntax),
        }
    }
}

/// `jr rs`.
pub open spec fn jr_type(ops: Seq<Tok>) -> Result<u32, Fault> {
    if ops.len() == 0 {
        Err(Fault::Syntax)
    } else {
        match ops[0] {
            Tok::Register(rs) => Ok((rs << 21u32) | 0x08u32),
            _ => Err(Fault::Syntax),
        }
    }
}

/// `jalr rs` (linking `$ra`) or `jalr rd, rs`.
pub open spec fn jalr_type(ops: Seq<Tok>) -> Result<u32, Fault> {
    if ops.len() < 1 {
        Err(Fault::Syntax)
    } else if ops.len() == 1 {
        match ops[0] {
            Tok::Register(rs) => Ok((rs << 21u32) | (31u32 << 11u32) | 0x09u32),
            _ => Err(Fault::Syntax),
        }
    } else if ops.len() >= 3 {
        match (ops[0], ops[2]) {
            (Tok::Register(rd), Tok::Register(rs)) => Ok((rs << 21u32) | (rd << 11u32) | 0x09u32),
            _ => Err(Fault::Syntax),
        }
    } else {
        Err(Fault::Syntax)
    }
}

/// `rt, rs, imm` with `imm` in `-32768..=65535`, or `rt, rs, label` with
/// the label's branch offset.
pub open spec fn i_type(
    opcode: u32,
    ops: Seq<Tok>,
    labels: Seq<(Seq<char>, u32)>,
    addr: u32,
) -> Result<u32, Fault> {
    if ops.len() < 5 {
        Err(Fault::Syntax)
    } else {
        match (ops[0], ops[2], ops[4]) {
            (Tok::Register(rt), Tok::Register(rs), Tok::Immediate(imm)) => if within(imm, -32768, 65535) {
                Ok((opcode << 26u32) | (rs << 21u32) | (rt << 16u32) | ((imm as u32) & 0xFFFFu32))
            } else {
                Err(Fault::Range)
            },
            (Tok::Register(rt), Tok::Register(rs), Tok::Symbol(sym)) => match label_offset(labels, sym, addr) {
                Ok(off) => Ok((opcode << 26u32) | (rs << 21u32) | (rt << 16u32) | off),
                Err(f) => Err(f),
            },
            _ => Err(Fault::Syntax),
        }
    }
}

/// `lui rt, imm` with `imm` in `-32768..=65535`.
pub open spec fn lui_type(ops: Seq<Tok>) -> Result<u32, Fault> {
    if ops.len() < 3 {
        Err(Fault::Syntax)
    } else {
        match (ops[0], ops[2]) {
            (Tok::Register(rt), Tok::Immediate(imm)) => if within(imm, -32768, 65535) {
                Ok((0x0Fu32 << 26u32) | (rt << 16u32) | ((imm as u32) & 0xFFFFu32))
            } else {
                Err(Fault::Range)
            },
            _ => Err(Fault::Syntax),
        }
    }
}

/// `rt, address` (see `address_operand`); `fp` takes a floating-point
/// register in place of `rt`.
pub open spec fn load_store_type(
    opcode: u32,
    fp: bool,
    ops: Seq<Tok>,
    labels: Seq<(Seq<char>, u32)>,
) -> Result<u32, Fault> {
    if ops.len() < 3 {
        Err(Fault::Syntax)
    } else {
        let rt = match ops[0] {
            Tok::Register(r) => if fp {
                None
            } else {
                Some(r)
            },
            Tok::FpRegister(r) => if fp {
                Some(r)
            } else {
                None
            },
            _ => None,
        };
        match rt {
            Some(rt) => match address_operand(ops.skip(1), labels) {
                Ok((base, off)) => Ok(
                    (opcode << 26u32) | (base << 21u32) | (rt << 16u32) | ((off as u32) & 0xFFFFu32),
                ),
                Err(f) => Err(f),
            },
            None => Err(Fault::Syntax),
        }
    }
}

/// `rs, rt, label` or `rs, rt, offset` (a 16-bit signed offset).
pub open spec fn branch_type(
    opcode: u32,
    ops: Seq<Tok>,
    labels: Seq<(Seq<char>, u32)>,
    addr: u32,
) -> Result<u32, Fault> {
    if ops.len() < 5 {
        Err(Fault::Syntax)
    } else {
        match (ops[0], ops[2], ops[4]) {
            (Tok::Register(rs), Tok::Register(rt), Tok::Symbol(sym)) => match label_offset(labels, sym, addr) {
                Ok(off) => Ok((opcode << 26u32) | (rs << 21u32) | (rt << 16u32) | off),
                Err(f) => Err(f),
            },
            (Tok::Register(rs), Tok::Register(rt), Tok::Immediate(off)) => if within(off, -32768, 32767) {
                Ok((opcode << 26u32) | (rs << 21u32) | (rt << 16u32) | ((off as u32) & 0xFFFFu32))
            } else {
                Err(Fault::Range)
            },
            _ => Err(Fault::Syntax),
        }
    }
}

/// `rs, label` or `rs, offset`, with `rt` as the word's rt field.
pub open spec fn branch_zero_type(
    opcode: u32,
    rt: u32,
    ops: Seq<Tok>,
    labels: Seq<(Seq<char>, u32)>,
    addr: u32,
) -> Result<u32, Fault> {
    if ops.len() < 3 {
        Err(Fault::Syntax)
    } else {
        match (ops[0], ops[2]) {
            (Tok::Register(rs), Tok::Symbol(sym)) => match label_offset(labels, sym, addr) {
                Ok(off) => Ok((opcode << 26u32) | (rs << 21u32) | (rt << 16u32) | off),
                Err(f) => Err(f),
            },
            (Tok::Register(rs), Tok::Immediate(off)) => if within(off, -32768, 32767) {
                Ok((opcode << 26u32) | (rs << 21u32) | (rt << 16u32) | ((off as u32) & 0xFFFFu32))
            } else {
                Err(Fault::Range)
            },
            _ => Err(Fault::Syntax),
        }
    }
}

/// The jump word for a word-aligned target.
pub open spec fn jump_word(opcode: u32, target: u32) -> Result<u32, Fault> {
    if target % 4 != 0 {
        Err(Fault::Range)
    } else {
        Ok((opcode << 26u32) | ((target >> 2u32) & 0x3FFFFFFu32))
    }
}

/// `label` or an absolute address.
pub open spec fn jump_type(opcode: u32, ops: Seq<Tok>, labels: Seq<(Seq<char>, u32)>) -> Result<u32, Fault> {
    if ops.len() == 0 {
        Err(Fault::Syntax)
    } else {
        match ops[0] {
            Tok::Symbol(sym) => match label_value(labels, sym) {
                Some(a) => jump_word(opcode, a),
                None => Err(Fault::Symbol),
            },
            Tok::Immediate(a) => jump_word(opcode, a as u32),
            _ => Err(Fault::Syntax),
        }
    }
}

/// `rs, rt` of a multiply or divide.
pub open spec fn mult_div_type(funct: u32, ops: Seq<Tok>) -> Result<u32, Fault> {
    if ops.len() < 3 {
        Err(Fault::Syntax)
    } else {
        match (ops[0], ops[2]) {
            (Tok::Register(rs), Tok::Register(rt)) => Ok((rs << 21u32) | (rt << 16u32) | funct),
            _ => Err(Fault::Syntax),
        }
    }
}

/// `rd` of a move from `hi`/`lo`.
pub open spec fn move_from_type(funct: u32, ops: Seq<Tok>) -> Result<u32, Fault> {
    if ops.len() == 0 {
        Err(Fault::Syntax)
    } else {
        match ops[0] {
            Tok::Register(rd) => Ok((rd << 11u32) | funct),
            _ => Err(Fault::Syntax),
        }
    }
}

/// `rs` of a move to `hi`/`lo`.
pub open spec fn move_to_type(funct: u32, ops: Seq<Tok>) -> Result<u32, Fault> {
    if ops.len() == 0 {
        Err(Fault::Syntax)
    } else {
        match ops[0] {
            Tok::Register(rs) => Ok((rs << 21u32) | funct),
            _ => Err(Fault::Syntax),
        }
    }
}

/// `break` with an optional code in `0..=1048575` (a first operand that is
/// not a number counts as code 0).
pub open spec fn break_type(ops: Seq<Tok>) -> Result<u32, Fault> {
    if ops.len() == 0 {
        Ok(0x0Du32)
    } else {
        match ops[0] {
            Tok::Immediate(code) => if within(code, 0, 1048575) {
                Ok(((code as u32) << 6u32) | 0x0Du32)
            } else {
                Err(Fault::Range)
            },
            _ => Ok(0x0Du32),
        }
    }
}

/// `move rd, rs`, as `addu rd, $zero, rs`.
pub open spec fn move_type(ops: Seq<Tok>) -> Result<u32, Fault> {
    if ops.len() < 3 {
        Err(Fault::Syntax)
    } else {
        match (ops[0], ops[2]) {
            (Tok::Register(rd), Tok::Register(rs)) => Ok((rs << 16u32) | (rd << 11u32) | 0x21u32),
            _ => Err(Fault::Syntax),
        }
    }
}

/// `li rt, imm`: `addi rt, $zero, imm` for a 16-bit signed value, else
/// only the `lui` of the upper half.
pub open spec fn li_type(ops: Seq<Tok>) -> Result<u32, Fault> {
    if ops.len() < 3 {
        Err(Fault::Syntax)
    } else {
        match (ops[0], ops[2]) {
            (Tok::Register(rt), Tok::Immediate(imm)) => if within(imm, -32768, 32767) {
                Ok((0x08u32 << 26u32) | (rt << 16u32) | ((imm as u32) & 0xFFFFu32))
            } else {
                Ok((0x0Fu32 << 26u32) | (rt << 16u32) | ((((imm >> 16i32) & 0xFFFFi32) as u32) & 0xFFFFu32))
            },
            _ => Err(Fault::Syntax),
        }
    }
}

/// `la rt, label`: only the `lui` of the upper half of the label's address.
pub open spec fn la_type(ops: Seq<Tok>, labels: Seq<(Seq<char>, u32)>) -> Result<u32, Fault> {
    if ops.len() < 3 {
        Err(Fault::Syntax)
    } else {
        match (ops[0], ops[2]) {
            (Tok::Register(rt), Tok::Symbol(sym)) => match label_value(labels, sym) {
                Some(a) => Ok((0x0Fu32 << 26u32) | (rt << 16u32) | ((a >> 16u32) & 0xFFFFu32)),
                None => Err(Fault::Symbol),
            },
            _ => Err(Fault::Syntax),
        }
    }
}

/// `b label`, as `beq $zero, $zero, label`.
pub open spec fn b_type(ops: Seq<Tok>, labels: Seq<(Seq<char>, u32)>, addr: u32) -> Result<u32, Fault> {
    if ops.len() == 0 {
        Err(Fault::Syntax)
    } else {
        match ops[0] {
            Tok::Symbol(sym) => match label_offset(labels, sym, addr) {
                Ok(off) => Ok((0x04u32 << 26u32) | off),
                Err(f) => Err(f),
            },
            _ => Err(Fault::Syntax),
        }
    }
}

/// `fd, fs, ft` of a floating-point operation.
pub open spec fn fp_r_type(fmt: u32, funct: u32, ops: Seq<Tok>) -> Result<u32, Fault> {
    if ops.len() < 5 {
        Err(Fault::Syntax)
    } else {
        match (ops[0], ops[2], ops[4]) {
            (Tok::FpRegister(fd), Tok::FpRegister(fs), Tok::FpRegister(ft)) => Ok(
                (0x11u32 << 26u32) | (fmt << 21u32) | (ft << 16u32) | (fs << 11u32) | (fd << 6u32) | funct,
            ),
            _ => Err(Fault::Syntax),
        }
    }
}

/// `fd, fs` of a one-operand floating-point operation.
pub open spec fn fp_r_type_fs(fmt: u32, funct: u32, ops: Seq<Tok>) -> Result<u32, Fault> {
    if ops.len() < 3 {
        Err(Fault::Syntax)
    } else {
        match (ops[0], ops[2]) {
            (Tok::FpRegister(fd), Tok::FpRegister(fs)) => Ok(
                (0x11u32 << 26u32) | (fmt << 21u32) | (fs << 11u32) | (fd << 6u32) | funct,
            ),
            _ => Err(Fault::Syntax),
        }
    }
}

/// `fs, ft` of a floating-point comparison with function code `funct`
/// (0x30 equal, 0x3C less than, 0x3E less or equal), on condition code 0.
pub open spec fn fp_compare_type(funct: u32, ops: Seq<Tok>) -> Result<u32, Fault> {
    if ops.len() < 3 {
        Err(Fault::Syntax)
    } else {
        match (ops[0], ops[2]) {
            (Tok::FpRegister(fs), Tok::FpRegister(ft)) => Ok(
                (0x11u32 << 26u32) | (0x10u32 << 21u32) | (ft << 16u32) | (fs << 11u32) | funct,
            ),
            _ => Err(Fault::Syntax),
        }
    }
}

/// `label` of a branch on the floating-point condition.
pub open spec fn fp_branch_type(rt: u32, ops: Seq<Tok>, labels: Seq<(Seq<char>, u32)>, addr: u32) -> Result<u32, Fault> {
    if ops.len() == 0 {
        Err(Fault::Syntax)
    } else {
        match ops[0] {
            Tok::Symbol(sym) => match label_offset(labels, sym, addr) {
                Ok(off) => Ok((0x11u32 << 26u32) | (0x08u32 << 21u32) | (rt << 16u32) | off),
                Err(f) => Err(f),
            },
            _ => Err(Fault::Syntax),
        }
    }
}

/// The machine word of instruction `m` with operand tokens `ops`, at
/// address `addr`, with `labels` defined. `slti` has no encoding.
pub open spec fn encoding(m: Mnemonic, ops: Seq<Tok>, labels: Seq<(Seq<char>, u32)>, addr: u32) -> Result<u32, Fault> {
    match m {
        Mnemonic::Add => r_type(0, 0x20, ops),
        Mnemonic::Sub => r_type(0, 0x22, ops),
        Mnemonic::And => r_type(0, 0x24, ops),
        Mnemonic::Or => r_type(0, 0x25, ops),
        Mnemonic::Xor => r_type(0, 0x26, ops),
        Mnemonic::Nor => r_type(0, 0x27, ops),
        Mnemonic::Slt => r_type(0, 0x2A, ops),
        Mnemonic::Sll => shift_type(0, 0x00, ops),
        Mnemonic::Srl => shift_type(0, 0x02, ops),
        Mnemonic::Sra => shift_type(0, 0x03, ops),
        Mnemonic::Jr => jr_type(ops),
        Mnemonic::Jalr => jalr_type(ops),
        Mnemonic::Addi => i_type(0x08, ops, labels, addr),
        Mnemonic::Andi => i_type(0x0C, ops, labels, addr),
        Mnemonic::Ori => i_type(0x0D, ops, labels, addr),
        Mnemonic::Xori => i_type(0x0E, ops, labels, addr),
        Mnemonic::Lui => lui_type(ops),
        Mnemonic::Lw => load_store_type(0x23, false, ops, labels),
        Mnemonic::Sw => load_store_type(0x2B, false, ops, labels),
        Mnemonic::Lb => load_store_type(0x20, false, ops, labels),
        Mnemonic::Lbu => load_store_type(0x24, false, ops, labels),
        Mnemonic::Sb => load_store_type(0x28, false, ops, labels),
        Mnemonic::Lh => load_store_type(0x21, false, ops, labels),
        Mnemonic::Lhu => load_store_type(0x25, false, ops, labels),
        Mnemonic::Sh => load_store_type(0x29, false, ops, labels),
        Mnemonic::Beq => branch_type(0x04, ops, labels, addr),
        Mnemonic::Bne => branch_type(0x05, ops, labels, addr),
        Mnemonic::Bgtz => branch_zero_type(0x07, 0, ops, labels, addr),
        Mnemonic::Blez => branch_zero_type(0x06, 0, ops, labels, addr),
        Mnemonic::Bgez => branch_zero_type(0x01, 0x01, ops, labels, addr),
        Mnemonic::Bltz => branch_zero_type(0x01, 0x00, ops, labels, addr),
        Mnemonic::J => jump_type(0x02, ops, labels),
        Mnemonic::Jal => jump_type(0x03, ops, labels),
        Mnemonic::Mult => mult_div_type(0x18, ops),
        Mnemonic::Div => mult_div_type(0x1A, ops),
        Mnemonic::Mfhi => move_from_type(0x10, ops),
        Mnemonic::Mflo => move_from_type(0x12, ops),
        Mnemonic::Mthi => move_to_type(0x11, ops),
        Mnemonic::Mtlo => move_to_type(0x13, ops),
        Mnemonic::Syscall => Ok(0x0Cu32),
        Mnemonic::Break => break_type(ops),
        Mnemonic::Nop => Ok(0u32),
        Mnemonic::Move => move_type(ops),
        Mnemonic::Li => li_type(ops),
        Mnemonic::La => la_type(ops, labels),
        Mnemonic::B => b_type(ops, labels, addr),
        Mnemonic::AddS => fp_r_type(0x10, 0x00, ops),
        Mnemonic::SubS => fp_r_type(0x10, 0x01, ops),
        Mnemonic::MulS => fp_r_type(0x10, 0x02, ops),
        Mnemonic::DivS => fp_r_type(0x10, 0x03, ops),
        Mnemonic::AbsS => fp_r_type_fs(0x10, 0x05, ops),
        Mnemonic::NegS => fp_r_type_fs(0x10, 0x07, ops),
        Mnemonic::MovS => fp_r_type_fs(0x10, 0x06, ops),
        Mnemonic::CvtSW => fp_r_type_fs(0x14, 0x20, ops),
        Mnemonic::CvtWS => fp_r_type_fs(0x10, 0x24, ops),
        Mnemonic::CEqS => fp_compare_type(0x30, ops),
        Mnemonic::CLtS => fp_compare_type(0x3C, ops),
        Mnemonic::CLeS => fp_compare_type(0x3E, ops),
        Mnemonic::Lwc1 => load_store_type(0x31, true, ops, labels),
        Mnemonic::Swc1 => load_store_type(0x39, true, ops, labels),
        Mnemonic::Bc1t => fp_branch_type(0x01, ops, labels, addr),
        Mnemonic::Bc1f => fp_branch_type(0x00, ops, labels, addr),
        Mnemonic::Slti => Err(Fault::Unsupported),
    }
}


proof fn lemma_ops_index(tokens: Seq<Token>, b: int, k: int)
    requires
        0 <= b,
        0 <= k,
        b + k < tokens.len(),
    ensures
        ops_from(tokens, b)[k] == tokens[b + k]@,
        ops_from(tokens, b).len() == tokens.len() - b,
{
}

proof fn lemma_ops_len(tokens: Seq<Token>, b: int)
    requires
        0 <= b <= tokens.len(),
    ensures
        ops_from(tokens, b).len() == tokens.len() - b,
{
}

/// `r_type`.
fn assemble_r_type(opcode: u32, funct: u32, tokens: &Vec<Token>, b: usize) -> (r: Result<u32, Fault>)
    requires
        b <= tokens.len(),
    ensures
        r == r_type(opcode, funct, ops_from(tokens@, b as int)),
{
    proof {
        lemma_ops_len(tokens@, b as int);
    }
    if tokens.len() - b < 5 {
        return Err(Fault::Syntax);
    }
    proof {
        lemma_ops_index(tokens@, b as int, 0);
        lemma_ops_index(tokens@, b as int, 2);
        lemma_ops_index(tokens@, b as int, 4);
    }
    match (&tokens[b], &tokens[b + 2], &tokens[b + 4]) {
        (Token::Register(rd), Token::Register(rs), Token::Register(rt)) => Ok(
            (opcode << 26u32) | (*rs << 21u32) | (*rt << 16u32) | (*rd << 11u32) | funct,
        ),
        _ => Err(Fault::Syntax),
    }
}

/// `shift_type`.
fn assemble_shift(opcode: u32, funct: u32, tokens: &Vec<Token>, b: usize) -> (r: Result<u32, Fault>)
    requires
        b <= tokens.len(),
    ensures
        r == shift_type(opcode, funct, ops_from(tokens@, b as int)),
{
    proof {
        lemma_ops_len(tokens@, b as int);
    }
    if tokens.len() - b < 5 {
        return Err(Fault::Syntax);
    }
    proof {
        lemma_ops_index(tokens@, b as int, 0);
        lemma_ops_index(tokens@, b as int, 2);
        lemma_ops_index(tokens@, b as int, 4);
    }
    match (&tokens[b], &tokens[b + 2], &tokens[b + 4]) {
        (Token::Register(rd), Token::Register(rt), Token::Immediate(shamt)) => if *shamt >= 0 && *shamt <= 31 {
            Ok((opcode << 26u32) | (*rt << 16u32) | (*rd << 11u32) | ((*shamt as u32) << 6u32) | funct)
        } else {
            Err(Fault::Range)
        },
        _ => Err(Fault::Syntax),
    }
}

/// `jr_type`.
fn assemble_jr(tokens: &Vec<Token>, b: usize) -> (r: Result<u32, Fault>)
    requires
        b <= tokens.len(),
    ensures
        r == jr_type(ops_from(tokens@, b as int)),
{
    proof {
        lemma_ops_len(tokens@, b as int);
    }
    if tokens.len() - b == 0 {
        return Err(Fault::Syntax);
    }
    proof {
        lemma_ops_index(tokens@, b as int, 0);
    }
    match &tokens[b] {
        Token::Register(rs) => Ok((*rs << 21u32) | 0x08u32),
        _ => Err(Fault::Syntax),
    }
}

/// `jalr_type`.
fn assemble_jalr(tokens: &Vec<Token>, b: usize) -> (r: Result<u32, Fault>)
    requires
        b <= tokens.len(),
    ensures
        r == jalr_type(ops_from(tokens@, b as int)),
{
    proof {
        lemma_ops_len(tokens@, b as int);
    }
    let n = tokens.len() - b;
    if n < 1 {
        Err(Fault::Syntax)
    } else if n == 1 {
        proof {
            lemma_ops_index(tokens@, b as int, 0);
        }
        match &tokens[b] {
            Token::Register(rs) => Ok((*rs << 21u32) | (31u32 << 11u32) | 0x09u32),
            _ => Err(Fault::Syntax),
        }
    } else if n >= 3 {
        proof {
            lemma_ops_index(tokens@, b as int, 0);
            lemma_ops_index(tokens@, b as int, 2);
        }
        match (&tokens[b], &tokens[b + 2]) {
            (Token::Register(rd), Token::Register(rs)) => Ok((*rs << 21u32) | (*rd << 11u32) | 0x09u32),
            _ => Err(Fault::Syntax),
        }
    } else {
        Err(Fault::Syntax)
    }
}

/// `i_type`.
fn assemble_i_type(
    opcode: u32,
    tokens: &Vec<Token>,
    b: usize,
    labels: &Vec<(Vec<char>, u32)>,
    addr: u32,
) -> (r: Result<u32, Fault>)
    requires
        b <= tokens.len(),
    ensures
        r == i_type(opcode, ops_from(tokens@, b as int), label_seq(labels@), addr),
{
    proof {
        lemma_ops_len(tokens@, b as int);
    }
    if tokens.len() - b < 5 {
        return Err(Fault::Syntax);
    }
    proof {
        lemma_ops_index(tokens@, b as int, 0);
        lemma_ops_index(tokens@, b as int, 2);
        lemma_ops_index(tokens@, b as int, 4);
    }
    match (&tokens[b], &tokens[b + 2], &tokens[b + 4]) {
        (Token::Register(rt), Token::Register(rs), Token::Immediate(imm)) => if *imm >= -32768 && *imm <= 65535 {
            Ok((opcode << 26u32) | (*rs << 21u32) | (*rt << 16u32) | ((*imm as u32) & 0xFFFFu32))
        } else {
            Err(Fault::Range)
        },
        (Token::Register(rt), Token::Register(rs), Token::Symbol(sym)) => match label_offset_of(labels, sym, addr) {
            Ok(off) => Ok((opcode << 26u32) | (*rs << 21u32) | (*rt << 16u32) | off),
            Err(f) => Err(f),
        },
        _ => Err(Fault::Syntax),
    }
}

/// `lui_type`.
fn assemble_lui(tokens: &Vec<Token>, b: usize) -> (r: Result<u32, Fault>)
    requires
        b <= tokens.len(),
    ensures
        r == lui_type(ops_from(tokens@, b as int)),
{
    proof {
        lemma_ops_len(tokens@, b as int);
    }
    if tokens.len() - b < 3 {
        return Err(Fault::Syntax);
    }
    proof {
        lemma_ops_index(tokens@, b as int, 0);
        lemma_ops_index(tokens@, b as int, 2);
    }
    match (&tokens[b], &tokens[b + 2]) {
        (Token::Register(rt), Token::Immediate(imm)) => if *imm >= -32768 && *imm <= 65535 {
            Ok((0x0Fu32 << 26u32) | (*rt << 16u32) | ((*imm as u32) & 0xFFFFu32))
        } else {
            Err(Fault::Range)
        },
        _ => Err(Fault::Syntax),
    }
}

/// `load_store_type`.
fn assemble_load_store(
    opcode: u32,
    fp: bool,
    tokens: &Vec<Token>,
    b: usize,
    labels: &Vec<(Vec<char>, u32)>,
) -> (r: Result<u32, Fault>)
    requires
        b <= tokens.len(),
    ensures
        r == load_store_type(opcode, fp, ops_from(tokens@, b as int), label_seq(labels@)),
{
    proof {
        lemma_ops_len(tokens@, b as int);
    }
    if tokens.len() - b < 3 {
        return Err(Fault::Syntax);
    }
    proof {
        lemma_ops_index(tokens@, b as int, 0);
        assert(ops_from(tokens@, b as int).skip(1) =~= ops_from(tokens@, b + 1));
    }
    let rt = match &tokens[b] {
        Token::Register(r) => if fp {
            None
        } else {
            Some(*r)
        },
        Token::FpRegister(r) => if fp {
            Some(*r)
        } else {
            None
        },
        _ => None,
    };
    match rt {
        Some(rt) => match parse_address(tokens, b + 1, labels) {
            Ok((base, off)) => Ok(
                (opcode << 26u32) | (base << 21u32) | (rt << 16u32) | ((off as u32) & 0xFFFFu32),
            ),
            Err(f) => Err(f),
        },
        None => Err(Fault::Syntax),
    }
}

/// `branch_type`.
fn assemble_branch(
    opcode: u32,
    tokens: &Vec<Token>,
    b: usize,
    labels: &Vec<(Vec<char>, u32)>,
    addr: u32,
) -> (r: Result<u32, Fault>)
    requires
        b <= tokens.len(),
    ensures
        r == branch_type(opcode, ops_from(tokens@, b as int), label_seq(labels@), addr),
{
    proof {
        lemma_ops_len(tokens@, b as int);
    }
    if tokens.len() - b < 5 {
        return Err(Fault::Syntax);
    }
    proof {
        lemma_ops_index(tokens@, b as int, 0);
        lemma_ops_index(tokens@, b as int, 2);
        lemma_ops_index(tokens@, b as int, 4);
    }
    match (&tokens[b], &tokens[b + 2], &tokens[b + 4]) {
        (Token::Register(rs), Token::Register(rt), Token::Symbol(sym)) => match label_offset_of(labels, sym, addr) {
            Ok(off) => Ok((opcode << 26u32) | (*rs << 21u32) | (*rt << 16u32) | off),
            Err(f) => Err(f),
        },
        (Token::Register(rs), Token::Register(rt), Token::Immediate(off)) => if *off >= -32768 && *off <= 32767 {
            Ok((opcode << 26u32) | (*rs << 21u32) | (*rt << 16u32) | ((*off as u32) & 0xFFFFu32))
        } else {
            Err(Fault::Range)
        },
        _ => Err(Fault::Syntax),
    }
}

/// `branch_zero_type`.
fn assemble_branch_z(
    opcode: u32,
    rt: u32,
    tokens: &Vec<Token>,
    b: usize,
    labels: &Vec<(Vec<char>, u32)>,
    addr: u32,
) -> (r: Result<u32, Fault>)
    requires
        b <= tokens.len(),
    ensures
        r == branch_zero_type(opcode, rt, ops_from(tokens@, b as int), label_seq(labels@), addr),
{
    proof {
        lemma_ops_len(tokens@, b as int);
    }
    if tokens.len() - b < 3 {
        return Err(Fault::Syntax);
    }
    proof {
        lemma_ops_index(tokens@, b as int, 0);
        lemma_ops_index(tokens@, b as int, 2);
    }
    match (&tokens[b], &tokens[b + 2]) {
        (Token::Register(rs), Token::Symbol(sym)) => match label_offset_of(labels, sym, addr) {
            Ok(off) => Ok((opcode << 26u32) | (*rs << 21u32) | (rt << 16u32) | off),
            Err(f) => Err(f),
        },
        (Token::Register(rs), Token::Immediate(off)) => if *off >= -32768 && *off <= 32767 {
            Ok((opcode << 26u32) | (*rs << 21u32) | (rt << 16u32) | ((*off as u32) & 0xFFFFu32))
        } else {
            Err(Fault::Range)
        },
        _ => Err(Fault::Syntax),
    }
}

/// `jump_word`.
fn jump_word_of(opcode: u32, target: u32) -> (r: Result<u32, Fault>)
    ensures
        r == jump_word(opcode, target),
{
    if target % 4 != 0 {
        Err(Fault::Range)
    } else {
        Ok((opcode << 26u32) | ((target >> 2u32) & 0x3FFFFFFu32))
    }
}

/// `jump_type`.
fn assemble_jump(opcode: u32, tokens: &Vec<Token>, b: usize, labels: &Vec<(Vec<char>, u32)>) -> (r: Result<u32, Fault>)
    requires
        b <= tokens.len(),
    ensures
        r == jump_type(opcode, ops_from(tokens@, b as int), label_seq(labels@)),
{
    proof {
        lemma_ops_len(tokens@, b as int);
    }
    if tokens.len() - b == 0 {
        return Err(Fault::Syntax);
    }
    proof {
        lemma_ops_index(tokens@, b as int, 0);
    }
    match &tokens[b] {
        Token::Symbol(sym) => match find_label(labels, sym) {
            Some(a) => jump_word_of(opcode, a),
            None => Err(Fault::Symbol),
        },
        Token::Immediate(a) => jump_word_of(opcode, *a as u32),
        _ => Err(Fault::Syntax),
    }
}

/// `mult_div_type`.
fn assemble_mult_div(funct: u32, tokens: &Vec<Token>, b: usize) -> (r: Result<u32, Fault>)
    requires
        b <= tokens.len(),
    ensures
        r == mult_div_type(funct, ops_from(tokens@, b as int)),
{
    proof {
        lemma_ops_len(tokens@, b as int);
    }
    if tokens.len() - b < 3 {
        return Err(Fault::Syntax);
    }
    proof {
        lemma_ops_index(tokens@, b as int, 0);
        lemma_ops_index(tokens@, b as int, 2);
    }
    match (&tokens[b], &tokens[b + 2]) {
        (Token::Register(rs), Token::Register(rt)) => Ok((*rs << 21u32) | (*rt << 16u32) | funct),
        _ => Err(Fault::Syntax),
    }
}

/// `move_from_type` (`to` false) or `move_to_type` (`to` true).
fn assemble_move_hilo(to: bool, funct: u32, tokens: &Vec<Token>, b: usize) -> (r: Result<u32, Fault>)
    requires
        b <= tokens.len(),
    ensures
        !to ==> r == move_from_type(funct, ops_from(tokens@, b as int)),
        to ==> r == move_to_type(funct, ops_from(tokens@, b as int)),
{
    proof {
        lemma_ops_len(tokens@, b as int);
    }
    if tokens.len() - b == 0 {
        return Err(Fault::Syntax);
    }
    proof {
        lemma_ops_index(tokens@, b as int, 0);
    }
    match &tokens[b] {
        Token::Register(reg) => if to {
            Ok((*reg << 21u32) | funct)
        } else {
            Ok((*reg << 11u32) | funct)
        },
        _ => Err(Fault::Syntax),
    }
}

/// `break_type`.
fn assemble_break(tokens: &Vec<Token>, b: usize) -> (r: Result<u32, Fault>)
    requires
        b <= tokens.len(),
    ensures
        r == break_type(ops_from(tokens@, b as int)),
{
    proof {
        lemma_ops_len(tokens@, b as int);
    }
    if tokens.len() - b == 0 {
        return Ok(0x0Du32);
    }
    proof {
        lemma_ops_index(tokens@, b as int, 0);
    }
    match &tokens[b] {
        Token::Immediate(code) => if *code >= 0 && *code <= 1048575 {
            Ok(((*code as u32) << 6u32) | 0x0Du32)
        } else {
            Err(Fault::Range)
        },
        _ => Ok(0x0Du32),
    }
}

/// `move_type`.
fn assemble_move(tokens: &Vec<Token>, b: usize) -> (r: Result<u32, Fault>)
    requires
        b <= tokens.len(),
    ensures
        r == move_type(ops_from(tokens@, b as int)),
{
    proof {
        lemma_ops_len(tokens@, b as int);
    }
    if tokens.len() - b < 3 {
        return Err(Fault::Syntax);
    }
    proof {
        lemma_ops_index(tokens@, b as int, 0);
        lemma_ops_index(tokens@, b as int, 2);
    }
    match (&tokens[b], &tokens[b + 2]) {
        (Token::Register(rd), Token::Register(rs)) => Ok((*rs << 16u32) | (*rd << 11u32) | 0x21u32),
        _ => Err(Fault::Syntax),
    }
}

/// `li_type`.
fn assemble_li(tokens: &Vec<Token>, b: usize) -> (r: Result<u32, Fault>)
    requires
        b <= tokens.len(),
    ensures
        r == li_type(ops_from(tokens@, b as int)),
{
    proof {
        lemma_ops_len(tokens@, b as int);
    }
    if tokens.len() - b < 3 {
        return Err(Fault::Syntax);
    }
    proof {
        lemma_ops_index(tokens@, b as int, 0);
        lemma_ops_index(tokens@, b as int, 2);
    }
    match (&tokens[b], &tokens[b + 2]) {
        (Token::Register(rt), Token::Immediate(imm)) => if *imm >= -32768 && *imm <= 32767 {
            Ok((0x08u32 << 26u32) | (*rt << 16u32) | ((*imm as u32) & 0xFFFFu32))
        } else {
            let upper: i32 = (*imm >> 16i32) & 0xFFFFi32;
            Ok((0x0Fu32 << 26u32) | (*rt << 16u32) | ((upper as u32) & 0xFFFFu32))
        },
        _ => Err(Fault::Syntax),
    }
}

/// `la_type`.
fn assemble_la(tokens: &Vec<Token>, b: usize, labels: &Vec<(Vec<char>, u32)>) -> (r: Result<u32, Fault>)
    requires
        b <= tokens.len(),
    ensures
        r == la_type(ops_from(tokens@, b as int), label_seq(labels@)),
{
    proof {
        lemma_ops_len(tokens@, b as int);
    }
    if tokens.len() - b < 3 {
        return Err(Fault::Syntax);
    }
    proof {
        lemma_ops_index(tokens@, b as int, 0);
        lemma_ops_index(tokens@, b as int, 2);
    }
    match (&tokens[b], &tokens[b + 2]) {
        (Token::Register(rt), Token::Symbol(sym)) => match find_label(labels, sym) {
            Some(a) => Ok((0x0Fu32 << 26u32) | (*rt << 16u32) | ((a >> 16u32) & 0xFFFFu32)),
            None => Err(Fault::Symbol),
        },
        _ => Err(Fault::Syntax),
    }
}

/// `b_type`.
fn assemble_b(tokens: &Vec<Token>, b: usize, labels: &Vec<(Vec<char>, u32)>, addr: u32) -> (r: Result<u32, Fault>)
    requires
        b <= tokens.len(),
    ensures
        r == b_type(ops_from(tokens@, b as int), label_seq(labels@), addr),
{
    proof {
        lemma_ops_len(tokens@, b as int);
    }
    if tokens.len() - b == 0 {
        return Err(Fault::Syntax);
    }
    proof {
        lemma_ops_index(tokens@, b as int, 0);
    }
    match &tokens[b] {
        Token::Symbol(sym) => match label_offset_of(labels, sym, addr) {
            Ok(off) => Ok((0x04u32 << 26u32) | off),
            Err(f) => Err(f),
        },
        _ => Err(Fault::Syntax),
    }
}

/// `fp_r_type`.
fn assemble_fp_r_type(fmt: u32, funct: u32, tokens: &Vec<Token>, b: usize) -> (r: Result<u32, Fault>)
    requires
        b <= tokens.len(),
    ensures
        r == fp_r_type(fmt, funct, ops_from(tokens@, b as int)),
{
    proof {
        lemma_ops_len(tokens@, b as int);
    }
    if tokens.len() - b < 5 {
        return Err(Fault::Syntax);
    }
    proof {
        lemma_ops_index(tokens@, b as int, 0);
        lemma_ops_index(tokens@, b as int, 2);
        lemma_ops_index(tokens@, b as int, 4);
    }
    match (&tokens[b], &tokens[b + 2], &tokens[b + 4]) {
        (Token::FpRegister(fd), Token::FpRegister(fs), Token::FpRegister(ft)) => Ok(
            (0x11u32 << 26u32) | (fmt << 21u32) | (*ft << 16u32) | (*fs << 11u32) | (*fd << 6u32) | funct,
        ),
        _ => Err(Fault::Syntax),
    }
}

/// `fp_r_type_fs`.
fn assemble_fp_r_type_fs(fmt: u32, funct: u32, tokens: &Vec<Token>, b: usize) -> (r: Result<u32, Fault>)
    requires
        b <= tokens.len(),
    ensures
        r == fp_r_type_fs(fmt, funct, ops_from(tokens@, b as int)),
{
    proof {
        lemma_ops_len(tokens@, b as int);
    }
    if tokens.len() - b < 3 {
        return Err(Fault::Syntax);
    }
    proof {
        lemma_ops_index(tokens@, b as int, 0);
        lemma_ops_index(tokens@, b as int, 2);
    }
    match (&tokens[b], &tokens[b + 2]) {
        (Token::FpRegister(fd), Token::FpRegister(fs)) => Ok(
            (0x11u32 << 26u32) | (fmt << 21u32) | (*fs << 11u32) | (*fd << 6u32) | funct,
        ),
        _ => Err(Fault::Syntax),
    }
}

/// `fp_compare_type`.
fn assemble_fp_compare(funct: u32, tokens: &Vec<Token>, b: usize) -> (r: Result<u32, Fault>)
    requires
        b <= tokens.len(),
    ensures
        r == fp_compare_type(funct, ops_from(tokens@, b as int)),
{
    proof {
        lemma_ops_len(tokens@, b as int);
    }
    if tokens.len() - b < 3 {
        return Err(Fault::Syntax);
    }
    proof {
        lemma_ops_index(tokens@, b as int, 0);
        lemma_ops_index(tokens@, b as int, 2);
    }
    match (&tokens[b], &tokens[b + 2]) {
        (Token::FpRegister(fs), Token::FpRegister(ft)) => Ok(
            (0x11u32 << 26u32) | (0x10u32 << 21u32) | (*ft << 16u32) | (*fs << 11u32) | funct,
        ),
        _ => Err(Fault::Syntax),
    }
}

/// `fp_branch_type`.
fn assemble_fp_branch(
    rt: u32,
    tokens: &Vec<Token>,
    b: usize,
    labels: &Vec<(Vec<char>, u32)>,
    addr: u32,
) -> (r: Result<u32, Fault>)
    requires
        b <= tokens.len(),
    ensures
        r == fp_branch_type(rt, ops_from(tokens@, b as int), label_seq(labels@), addr),
{
    proof {
        lemma_ops_len(tokens@, b as int);
    }
    if tokens.len() - b == 0 {
        return Err(Fault::Syntax);
    }
    proof {
        lemma_ops_index(tokens@, b as int, 0);
    }
    match &tokens[b] {
        Token::Symbol(sym) => match label_offset_of(labels, sym, addr) {
            Ok(off) => Ok((0x11u32 << 26u32) | (0x08u32 << 21u32) | (rt << 16u32) | off),
            Err(f) => Err(f),
        },
        _ => Err(Fault::Syntax),
    }
}

/// Encodes instruction `m` whose operand tokens start at `b` (see
/// `encoding`).
pub fn assemble_instruction(
    m: Mnemonic,
    tokens: &Vec<Token>,
    b: usize,
    labels: &Vec<(Vec<char>, u32)>,
    addr: u32,
) -> (r: Result<u32, Fault>)
    requires
        b <= tokens.len(),
    ensures
        r == encoding(m, ops_from(tokens@, b as int), label_seq(labels@), addr),
{
    match m {
        Mnemonic::Add => assemble_r_type(0, 0x20, tokens, b),
        Mnemonic::Sub => assemble_r_type(0, 0x22, tokens, b),
        Mnemonic::And => assemble_r_type(0, 0x24, tokens, b),
        Mnemonic::Or => assemble_r_type(0, 0x25, tokens, b),
        Mnemonic::Xor => assemble_r_type(0, 0x26, tokens, b),
        Mnemonic::Nor => assemble_r_type(0, 0x27, tokens, b),
        Mnemonic::Slt => assemble_r_type(0, 0x2A, tokens, b),
        Mnemonic::Sll => assemble_shift(0, 0x00, tokens, b),
        Mnemonic::Srl => assemble_shift(0, 0x02, tokens, b),
        Mnemonic::Sra => assemble_shift(0, 0x03, tokens, b),
        Mnemonic::Jr => assemble_jr(tokens, b),
        Mnemonic::Jalr => assemble_jalr(tokens, b),
        Mnemonic::Addi => assemble_i_type(0x08, tokens, b, labels, addr),
        Mnemonic::Andi => assemble_i_type(0x0C, tokens, b, labels, addr),
        Mnemonic::Ori => assemble_i_type(0x0D, tokens, b, labels, addr),
        Mnemonic::Xori => assemble_i_type(0x0E, tokens, b, labels, addr),
        Mnemonic::Lui => assemble_lui(tokens, b),
        Mnemonic::Lw => assemble_load_store(0x23, false, tokens, b, labels),
        Mnemonic::Sw => assemble_load_store(0x2B, false, tokens, b, labels),
        Mnemonic::Lb => assemble_load_store(0x20, false, tokens, b, labels),
        Mnemonic::Lbu => assemble_load_store(0x24, false, tokens, b, labels),
        Mnemonic::Sb => assemble_load_store(0x28, false, tokens, b, labels),
        Mnemonic::Lh => assemble_load_store(0x21, false, tokens, b, labels),
        Mnemonic::Lhu => assemble_load_store(0x25, false, tokens, b, labels),
        Mnemonic::Sh => assemble_load_store(0x29, false, tokens, b, labels),
        Mnemonic::Beq => assemble_branch(0x04, tokens, b, labels, addr),
        Mnemonic::Bne => assemble_branch(0x05, tokens, b, labels, addr),
        Mnemonic::Bgtz => assemble_branch_z(0x07, 0, tokens, b, labels, addr),
        Mnemonic::Blez => assemble_branch_z(0x06, 0, tokens, b, labels, addr),
        Mnemonic::Bgez => assemble_branch_z(0x01, 0x01, tokens, b, labels, addr),
        Mnemonic::Bltz => assemble_branch_z(0x01, 0x00, tokens, b, labels, addr),
        Mnemonic::J => assemble_jump(0x02, tokens, b, labels),
        Mnemonic::Jal => assemble_jump(0x03, tokens, b, labels),
        Mnemonic::Mult => assemble_mult_div(0x18, tokens, b),
        Mnemonic::Div => assemble_mult_div(0x1A, tokens, b),
        Mnemonic::Mfhi => assemble_move_hilo(false, 0x10, tokens, b),
        Mnemonic::Mflo => assemble_move_hilo(false, 0x12, tokens, b),
        Mnemonic::Mthi => assemble_move_hilo(true, 0x11, tokens, b),
        Mnemonic::Mtlo => assemble_move_hilo(true, 0x13, tokens, b),
        Mnemonic::Syscall => Ok(0x0Cu32),
        Mnemonic::Break => assemble_break(tokens, b),
        Mnemonic::Nop => Ok(0u32),
        Mnemonic::Move => assemble_move(tokens, b),
        Mnemonic::Li => assemble_li(tokens, b),
        Mnemonic::La => assemble_la(tokens, b, labels),
        Mnemonic::B => assemble_b(tokens, b, labels, addr),
        Mnemonic::AddS => assemble_fp_r_type(0x10, 0x00, tokens, b),
        Mnemonic::SubS => assemble_fp_r_type(0x10, 0x01, tokens, b),
        Mnemonic::MulS => assemble_fp_r_type(0x10, 0x02, tokens, b),
        Mnemonic::DivS => assemble_fp_r_type(0x10, 0x03, tokens, b),
        Mnemonic::AbsS => assemble_fp_r_type_fs(0x10, 0x05, tokens, b),
        Mnemonic::NegS => assemble_fp_r_type_fs(0x10, 0x07, tokens, b),
        Mnemonic::MovS => assemble_fp_r_type_fs(0x10, 0x06, tokens, b),
        Mnemonic::CvtSW => assemble_fp_r_type_fs(0x14, 0x20, tokens, b),
        Mnemonic::CvtWS => assemble_fp_r_type_fs(0x10, 0x24, tokens, b),
        Mnemonic::CEqS => assemble_fp_compare(0x30, tokens, b),
        Mnemonic::CLtS => assemble_fp_compare(0x3C, tokens, b),
        Mnemonic::CLeS => assemble_fp_compare(0x3E, tokens, b),
        Mnemonic::Lwc1 => assemble_load_store(0x31, true, tokens, b, labels),
        Mnemonic::Swc1 => assemble_load_store(0x39, true, tokens, b, labels),
        Mnemonic::Bc1t => assemble_fp_branch(0x01, tokens, b, labels, addr),
        Mnemonic::Bc1f => assemble_fp_branch(0x00, tokens, b, labels, addr),
        Mnemonic::Slti => Err(Fault::Unsupported),
    }
}


proof fn lemma_r3_word(op: u32, rs: u32, rt: u32, rd: u32, funct: u32) by (bit_vector)
    requires
        op < 64,
        rs < 32,
        rt < 32,
        rd < 32,
        funct < 64,
    ensures
        field((op << 26u32) | (rs << 21u32) | (rt << 16u32) | (rd << 11u32) | funct, 26, 0x3F) == op,
        field((op << 26u32) | (rs << 21u32) | (rt << 16u32) | (rd << 11u32) | funct, 21, 0x1F) == rs,
        field((op << 26u32) | (rs << 21u32) | (rt << 16u32) | (rd << 11u32) | funct, 16, 0x1F) == rt,
        field((op << 26u32) | (rs << 21u32) | (rt << 16u32) | (rd << 11u32) | funct, 11, 0x1F) == rd,
        ((op << 26u32) | (rs << 21u32) | (rt << 16u32) | (rd << 11u32) | funct) & 0x3F == funct,
        funct != 0 ==> (op << 26u32) | (rs << 21u32) | (rt << 16u32) | (rd << 11u32) | funct != 0,
{
}

proof fn lemma_shift_word(rt: u32, rd: u32, sh: u32, funct: u32) by (bit_vector)
    requires
        rt < 32,
        rd < 32,
        sh < 32,
        funct < 64,
    ensures
        field((0u32 << 26u32) | (rt << 16u32) | (rd << 11u32) | (sh << 6u32) | funct, 26, 0x3F) == 0,
        field((0u32 << 26u32) | (rt << 16u32) | (rd << 11u32) | (sh << 6u32) | funct, 16, 0x1F) == rt,
        field((0u32 << 26u32) | (rt << 16u32) | (rd << 11u32) | (sh << 6u32) | funct, 11, 0x1F) == rd,
        field((0u32 << 26u32) | (rt << 16u32) | (rd << 11u32) | (sh << 6u32) | funct, 6, 0x1F) == sh,
        ((0u32 << 26u32) | (rt << 16u32) | (rd << 11u32) | (sh << 6u32) | funct) & 0x3F == funct,
        (rt != 0 || rd != 0 || sh != 0 || funct != 0) ==> (0u32 << 26u32) | (rt << 16u32) | (rd << 11u32)
            | (sh << 6u32) | funct != 0,
{
}

proof fn lemma_i_word(op: u32, rs: u32, rt: u32, imm: u32) by (bit_vector)
    requires
        op < 64,
        rs < 32,
        rt < 32,
    ensures
        field((op << 26u32) | (rs << 21u32) | (rt << 16u32) | (imm & 0xFFFFu32), 26, 0x3F) == op,
        field((op << 26u32) | (rs << 21u32) | (rt << 16u32) | (imm & 0xFFFFu32), 21, 0x1F) == rs,
        field((op << 26u32) | (rs << 21u32) | (rt << 16u32) | (imm & 0xFFFFu32), 16, 0x1F) == rt,
        ((op << 26u32) | (rs << 21u32) | (rt << 16u32) | (imm & 0xFFFFu32)) & 0xFFFF == imm & 0xFFFF,
{
}

proof fn lemma_lui_word(rt: u32, imm: u32) by (bit_vector)
    requires
        rt < 32,
    ensures
        field((0x0Fu32 << 26u32) | (rt << 16u32) | (imm & 0xFFFFu32), 26, 0x3F) == 0x0F,
        field((0x0Fu32 << 26u32) | (rt << 16u32) | (imm & 0xFFFFu32), 16, 0x1F) == rt,
        ((0x0Fu32 << 26u32) | (rt << 16u32) | (imm & 0xFFFFu32)) & 0xFFFF == imm & 0xFFFF,
{
}

proof fn lemma_small_words(rs: u32, rt: u32, rd: u32, funct: u32) by (bit_vector)
    requires
        rs < 32,
        rt < 32,
        rd < 32,
        0 < funct < 64,
    ensures
        field((rs << 21u32) | funct, 26, 0x3F) == 0,
        field((rs << 21u32) | funct, 21, 0x1F) == rs,
        ((rs << 21u32) | funct) & 0x3F == funct,
        (rs << 21u32) | funct != 0,
        field((rs << 21u32) | (rt << 16u32) | funct, 26, 0x3F) == 0,
        field((rs << 21u32) | (rt << 16u32) | funct, 21, 0x1F) == rs,
        field((rs << 21u32) | (rt << 16u32) | funct, 16, 0x1F) == rt,
        ((rs << 21u32) | (rt << 16u32) | funct) & 0x3F == funct,
        (rs << 21u32) | (rt << 16u32) | funct != 0,
        field((rd << 11u32) | funct, 26, 0x3F) == 0,
        field((rd << 11u32) | funct, 11, 0x1F) == rd,
        ((rd << 11u32) | funct) & 0x3F == funct,
        (rd << 11u32) | funct != 0,
{
}

proof fn lemma_jump_word(op: u32, target: u32) by (bit_vector)
    requires
        op < 64,
    ensures
        field((op << 26u32) | ((target >> 2u32) & 0x3FFFFFFu32), 26, 0x3F) == op,
        ((op << 26u32) | ((target >> 2u32) & 0x3FFFFFFu32)) & 0x3FFFFFF == (target >> 2u32) & 0x3FFFFFF,
{
}

proof fn lemma_immediate_bits(imm: i32) by (bit_vector)
    ensures
        (((imm as u32) & 0xFFFFu32) as i16) == imm as i16,
        (((imm as u32) & 0xFFFFu32) as u16) == imm as u16,
{
}

proof fn lemma_offset_bits(off: i16) by (bit_vector)
    ensures
        ((((off as u32) & 0xFFFFu32) as i16) == off),
{
}

/// The operands `a, b, c` of a three-operand instruction.
pub open spec fn three(a: Tok, b: Tok, c: Tok) -> Seq<Tok> {
    seq![a, Tok::Comma, b, Tok::Comma, c]
}

/// The operands `a, b` of a two-operand instruction.
pub open spec fn two(a: Tok, b: Tok) -> Seq<Tok> {
    seq![a, Tok::Comma, b]
}

/// Assembling `add`, `sub`, `and`, `or`, `xor`, `nor` or `slt` with
/// registers `rd, rs, rt` gives a word that decodes to that instruction.
pub proof fn law_register_arithmetic_round_trip(
    rd: u32,
    rs: u32,
    rt: u32,
    labels: Seq<(Seq<char>, u32)>,
    addr: u32,
)
    requires
        rd < 32,
        rs < 32,
        rt < 32,
    ensures
        ({
            let ops = three(Tok::Register(rd), Tok::Register(rs), Tok::Register(rt));
            &&& encoding(Mnemonic::Add, ops, labels, addr) matches Ok(w) && decoded(w) == (Instruction::Add { rd, rs, rt })
            &&& encoding(Mnemonic::Sub, ops, labels, addr) matches Ok(w) && decoded(w) == (Instruction::Sub { rd, rs, rt })
            &&& encoding(Mnemonic::And, ops, labels, addr) matches Ok(w) && decoded(w) == (Instruction::And { rd, rs, rt })
            &&& encoding(Mnemonic::Or, ops, labels, addr) matches Ok(w) && decoded(w) == (Instruction::Or { rd, rs, rt })
            &&& encoding(Mnemonic::Xor, ops, labels, addr) matches Ok(w) && decoded(w) == (Instruction::Xor { rd, rs, rt })
            &&& encoding(Mnemonic::Nor, ops, labels, addr) matches Ok(w) && decoded(w) == (Instruction::Nor { rd, rs, rt })
            &&& encoding(Mnemonic::Slt, ops, labels, addr) matches Ok(w) && decoded(w) == (Instruction::Slt { rd, rs, rt })
        }),
{
    lemma_r3_word(0, rs, rt, rd, 0x20);
    lemma_r3_word(0, rs, rt, rd, 0x22);
    lemma_r3_word(0, rs, rt, rd, 0x24);
    lemma_r3_word(0, rs, rt, rd, 0x25);
    lemma_r3_word(0, rs, rt, rd, 0x26);
    lemma_r3_word(0, rs, rt, rd, 0x27);
    lemma_r3_word(0, rs, rt, rd, 0x2A);
}

/// Assembling `sll`, `srl` or `sra` with registers `rd, rt` and a shift
/// amount gives a word that decodes to that instruction, except
/// `sll $0, $0, 0`, whose word is the no-op.
pub proof fn law_shift_round_trip(rd: u32, rt: u32, shamt: i32, labels: Seq<(Seq<char>, u32)>, addr: u32)
    requires
        rd < 32,
        rt < 32,
        0 <= shamt < 32,
    ensures
        ({
            let ops = three(Tok::Register(rd), Tok::Register(rt), Tok::Immediate(shamt));
            let sh = shamt as u32;
            &&& !(rd == 0 && rt == 0 && shamt == 0) ==> (encoding(Mnemonic::Sll, ops, labels, addr) matches Ok(w)
                && decoded(w) == (Instruction::Sll { rd, rt, shamt: sh }))
            &&& encoding(Mnemonic::Srl, ops, labels, addr) matches Ok(w) && decoded(w) == (Instruction::Srl { rd, rt, shamt: sh })
            &&& encoding(Mnemonic::Sra, ops, labels, addr) matches Ok(w) && decoded(w) == (Instruction::Sra { rd, rt, shamt: sh })
        }),
{
    lemma_shift_word(rt, rd, shamt as u32, 0x00);
    lemma_shift_word(rt, rd, shamt as u32, 0x02);
    lemma_shift_word(rt, rd, shamt as u32, 0x03);
}

/// Assembling `addi` with registers `rt, rs` and a number gives a word
/// that decodes to `addi` with the number's low sixteen bits; likewise
/// `andi`, `ori` and `xori` with the bits unsigned, and `lui`.
pub proof fn law_immediate_round_trip(rt: u32, rs: u32, imm: i32, labels: Seq<(Seq<char>, u32)>, addr: u32)
    requires
        rt < 32,
        rs < 32,
        -32768 <= imm <= 65535,
    ensures
        ({
            let ops = three(Tok::Register(rt), Tok::Register(rs), Tok::Immediate(imm));
            &&& encoding(Mnemonic::Addi, ops, labels, addr) matches Ok(w) && decoded(w) == (Instruction::Addi {
                rt,
                rs,
                imm: imm as i16,
            })
            &&& encoding(Mnemonic::Andi, ops, labels, addr) matches Ok(w) && decoded(w) == (Instruction::Andi {
                rt,
                rs,
                imm: imm as u16,
            })
            &&& encoding(Mnemonic::Ori, ops, labels, addr) matches Ok(w) && decoded(w) == (Instruction::Ori {
                rt,
                rs,
                imm: imm as u16,
            })
            &&& encoding(Mnemonic::Xori, ops, labels, addr) matches Ok(w) && decoded(w) == (Instruction::Xori {
                rt,
                rs,
                imm: imm as u16,
            })
            &&& encoding(Mnemonic::Lui, two(Tok::Register(rt), Tok::Immediate(imm)), labels, addr) matches Ok(w)
                && decoded(w) == (Instruction::Lui { rt, imm: imm as u16 })
        }),
{
    lemma_immediate_bits(imm);
    lemma_i_word(0x08, rs, rt, imm as u32);
    lemma_i_word(0x0C, rs, rt, imm as u32);
    lemma_i_word(0x0D, rs, rt, imm as u32);
    lemma_i_word(0x0E, rs, rt, imm as u32);
    lemma_lui_word(rt, imm as u32);
}

/// Assembling `lw` or `sw` with register `rt` followed (without a comma)
/// by an address `offset(base)` gives a word that decodes to that load or
/// store.
pub proof fn law_load_store_round_trip(rt: u32, base: u32, offset: i32, labels: Seq<(Seq<char>, u32)>, addr: u32)
    requires
        rt < 32,
        base < 32,
        -32768 <= offset <= 32767,
    ensures
        ({
            let ops = seq![Tok::Register(rt), Tok::Immediate(offset), Tok::LeftParen, Tok::Register(base), Tok::RightParen];
            &&& encoding(Mnemonic::Lw, ops, labels, addr) matches Ok(w) && decoded(w) == (Instruction::Lw {
                rt,
                base,
                offset: offset as i16,
            })
            &&& encoding(Mnemonic::Sw, ops, labels, addr) matches Ok(w) && decoded(w) == (Instruction::Sw {
                rt,
                base,
                offset: offset as i16,
            })
        }),
{
    let ops = seq![Tok::Register(rt), Tok::Immediate(offset), Tok::LeftParen, Tok::Register(base), Tok::RightParen];
    assert(ops.skip(1) =~= seq![Tok::Immediate(offset), Tok::LeftParen, Tok::Register(base), Tok::RightParen]);
    let ts = ops.skip(1);
    assert(!(ts[0] is Register));
    let o = offset as i16;
    lemma_offset_bits(o);
    lemma_i_word(0x23, base, rt, o as u32);
    lemma_i_word(0x2B, base, rt, o as u32);
    assert(address_operand(ts, labels) == Ok::<(u32, i16), Fault>((base, o))) by {
        assert(ts[1] is LeftParen && ts[3] is RightParen);
    }
}

/// Assembling `beq` or `bne` with registers `rs, rt` and a numeric offset
/// gives a word that decodes to that branch.
pub proof fn law_branch_round_trip(rs: u32, rt: u32, offset: i32, labels: Seq<(Seq<char>, u32)>, addr: u32)
    requires
        rs < 32,
        rt < 32,
        -32768 <= offset <= 32767,
    ensures
        ({
            let ops = three(Tok::Register(rs), Tok::Register(rt), Tok::Immediate(offset));
            &&& encoding(Mnemonic::Beq, ops, labels, addr) matches Ok(w) && decoded(w) == (Instruction::Beq {
                rs,
                rt,
                offset: offset as i16,
            })
            &&& encoding(Mnemonic::Bne, ops, labels, addr) matches Ok(w) && decoded(w) == (Instruction::Bne {
                rs,
                rt,
                offset: offset as i16,
            })
        }),
{
    lemma_immediate_bits(offset);
    lemma_i_word(0x04, rs, rt, offset as u32);
    lemma_i_word(0x05, rs, rt, offset as u32);
}

/// Assembling `j` or `jal` to a word-aligned numeric address gives a word
/// that decodes to a jump to the address's word index (its low 28 bits).
pub proof fn law_jump_round_trip(target: i32, labels: Seq<(Seq<char>, u32)>, addr: u32)
    requires
        (target as u32) % 4 == 0,
    ensures
        ({
            let ops = seq![Tok::Immediate(target)];
            let index = ((target as u32) >> 2u32) & 0x3FFFFFFu32;
            &&& encoding(Mnemonic::J, ops, labels, addr) matches Ok(w) && decoded(w) == (Instruction::J { target: index })
            &&& encoding(Mnemonic::Jal, ops, labels, addr) matches Ok(w) && decoded(w) == (Instruction::Jal { target: index })
        }),
{
    lemma_jump_word(0x02, target as u32);
    lemma_jump_word(0x03, target as u32);
}

/// Assembling `jr`, `mthi`, `mtlo` with a register, `mfhi`, `mflo` with a
/// register, `mult` or `div` with two registers, or `syscall` gives a word
/// that decodes to that instruction.
pub proof fn law_register_moves_round_trip(rs: u32, rt: u32, labels: Seq<(Seq<char>, u32)>, addr: u32)
    requires
        rs < 32,
        rt < 32,
    ensures
        ({
            let one = seq![Tok::Register(rs)];
            let ops = two(Tok::Register(rs), Tok::Register(rt));
            &&& encoding(Mnemonic::Jr, one, labels, addr) matches Ok(w) && decoded(w) == (Instruction::Jr { rs })
            &&& encoding(Mnemonic::Mthi, one, labels, addr) matches Ok(w) && decoded(w) == (Instruction::Mthi { rs })
            &&& encoding(Mnemonic::Mtlo, one, labels, addr) matches Ok(w) && decoded(w) == (Instruction::Mtlo { rs })
            &&& encoding(Mnemonic::Mfhi, one, labels, addr) matches Ok(w) && decoded(w) == (Instruction::Mfhi { rd: rs })
            &&& encoding(Mnemonic::Mflo, one, labels, addr) matches Ok(w) && decoded(w) == (Instruction::Mflo { rd: rs })
            &&& encoding(Mnemonic::Mult, ops, labels, addr) matches Ok(w) && decoded(w) == (Instruction::Mult { rs, rt })
            &&& encoding(Mnemonic::Div, ops, labels, addr) matches Ok(w) && decoded(w) == (Instruction::Div { rs, rt })
            &&& encoding(Mnemonic::Syscall, ops, labels, addr) matches Ok(w) && decoded(w) == Instruction::Syscall
        }),
{
    lemma_small_words(rs, rt, rs, 0x08);
    lemma_small_words(rs, rt, rs, 0x11);
    lemma_small_words(rs, rt, rs, 0x13);
    lemma_small_words(rs, rt, rs, 0x10);
    lemma_small_words(rs, rt, rs, 0x12);
    lemma_small_words(rs, rt, rs, 0x18);
    lemma_small_words(rs, rt, rs, 0x1A);
    assert(field(0x0Cu32, 26, 0x3F) == 0 && 0x0Cu32 & 0x3F == 0x0C) by (bit_vector);
}


/// Assembling `blez`, `bgtz`, `bltz` or `bgez` with a register and an
/// offset in range gives a word that decodes to that same branch, on that
/// register, with that offset.
pub proof fn law_zero_branch_round_trip(rs: u32, offset: i32, labels: Seq<(Seq<char>, u32)>, addr: u32)
    requires
        rs < 32,
        -32768 <= offset <= 32767,
    ensures
        ({
            let ops = two(Tok::Register(rs), Tok::Immediate(offset));
            &&& encoding(Mnemonic::Blez, ops, labels, addr) matches Ok(w) && decoded(w) == (Instruction::Blez {
                rs,
                offset: offset as i16,
            })
            &&& encoding(Mnemonic::Bgtz, ops, labels, addr) matches Ok(w) && decoded(w) == (Instruction::Bgtz {
                rs,
                offset: offset as i16,
            })
            &&& encoding(Mnemonic::Bltz, ops, labels, addr) matches Ok(w) && decoded(w) == (Instruction::Bltz {
                rs,
                offset: offset as i16,
            })
            &&& encoding(Mnemonic::Bgez, ops, labels, addr) matches Ok(w) && decoded(w) == (Instruction::Bgez {
                rs,
                offset: offset as i16,
            })
        }),
{
    lemma_immediate_bits(offset);
    lemma_i_word(0x06, rs, 0, offset as u32);
    lemma_i_word(0x07, rs, 0, offset as u32);
    lemma_i_word(0x01, rs, 0, offset as u32);
    lemma_i_word(0x01, rs, 1, offset as u32);
}

/// The MIPS encodings of the conditional branches: a word whose top six
/// bits are 4, 5, 6 or 7 is `beq`, `bne`, `blez` or `bgtz`; with top bits 1
/// and bits 16 to 20 equal to 0 or 1 it is `bltz` or `bgez`. The source
/// registers are bits 21 to 25 and 16 to 20, and the offset is the low
/// sixteen bits read as a signed number.
pub proof fn law_branch_encodings(w: u32)
    ensures
        ({
            let op = w / 0x400_0000;
            let rs = (w / 0x20_0000) % 32;
            let rt = (w / 0x1_0000) % 32;
            let off = (w % 0x1_0000) as u16 as i16;
            &&& op == 4 ==> decoded(w) == (Instruction::Beq { rs, rt, offset: off })
            &&& op == 5 ==> decoded(w) == (Instruction::Bne { rs, rt, offset: off })
            &&& op == 6 ==> decoded(w) == (Instruction::Blez { rs, offset: off })
            &&& op == 7 ==> decoded(w) == (Instruction::Bgtz { rs, offset: off })
            &&& op == 1 && rt == 0 ==> decoded(w) == (Instruction::Bltz { rs, offset: off })
            &&& op == 1 && rt == 1 ==> decoded(w) == (Instruction::Bgez { rs, offset: off })
        }),
{
    lemma_word_fields(w);
}

proof fn lemma_word_fields(w: u32)
    ensures
        field(w, 26, 0x3F) == w / 0x400_0000,
        field(w, 21, 0x1F) == (w / 0x20_0000) % 32,
        field(w, 16, 0x1F) == (w / 0x1_0000) % 32,
        ((w & 0xFFFF) as i16) == ((w % 0x1_0000) as u16 as i16),
{
    assert(field(w, 26, 0x3F) == w / 0x400_0000 && field(w, 21, 0x1F) == (w / 0x20_0000) % 32 && field(
        w,
        16,
        0x1F,
    ) == (w / 0x1_0000) % 32 && ((w & 0xFFFF) as i16) == ((w % 0x1_0000) as u16 as i16)) by (bit_vector);
}

proof fn lemma_branch_word_fields(rs: u32, imm: u32) by (bit_vector)
    requires
        rs < 32,
    ensures
        ((0x06u32 << 26u32) | (rs << 21u32) | (0u32 << 16u32) | (imm & 0xFFFFu32)) / 0x400_0000 == 6,
        ((0x07u32 << 26u32) | (rs << 21u32) | (0u32 << 16u32) | (imm & 0xFFFFu32)) / 0x400_0000 == 7,
        ((0x01u32 << 26u32) | (rs << 21u32) | (0u32 << 16u32) | (imm & 0xFFFFu32)) / 0x400_0000 == 1,
        (((0x01u32 << 26u32) | (rs << 21u32) | (0u32 << 16u32) | (imm & 0xFFFFu32)) / 0x1_0000) % 32 == 0,
        ((0x01u32 << 26u32) | (rs << 21u32) | (1u32 << 16u32) | (imm & 0xFFFFu32)) / 0x400_0000 == 1,
        (((0x01u32 << 26u32) | (rs << 21u32) | (1u32 << 16u32) | (imm & 0xFFFFu32)) / 0x1_0000) % 32 == 1,
{
}

/// The words that `blez`, `bgtz`, `bltz` and `bgez` assemble to carry the
/// MIPS opcode (6, 7, 1 and 1) in their top six bits, and, for `bltz` and
/// `bgez`, 0 and 1 in bits 16 to 20.
pub proof fn law_zero_branch_opcodes(rs: u32, offset: i32, labels: Seq<(Seq<char>, u32)>, addr: u32)
    requires
        rs < 32,
        -32768 <= offset <= 32767,
    ensures
        ({
            let ops = two(Tok::Register(rs), Tok::Immediate(offset));
            &&& encoding(Mnemonic::Blez, ops, labels, addr) matches Ok(w) && w / 0x400_0000 == 6
            &&& encoding(Mnemonic::Bgtz, ops, labels, addr) matches Ok(w) && w / 0x400_0000 == 7
            &&& encoding(Mnemonic::Bltz, ops, labels, addr) matches Ok(w) && w / 0x400_0000 == 1
                && (w / 0x1_0000) % 32 == 0
            &&& encoding(Mnemonic::Bgez, ops, labels, addr) matches Ok(w) && w / 0x400_0000 == 1
                && (w / 0x1_0000) % 32 == 1
        }),
{
    lemma_branch_word_fields(rs, offset as u32);
}

} // verus!
