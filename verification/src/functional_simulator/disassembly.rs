//! The text of an instruction in assembly syntax: registers as `$n` and
//! `$fn`, signed immediates and offsets in decimal, logical immediates and
//! jump targets in hexadecimal.
use vstd::prelude::*;
use super::instructions::Instruction;

verus! {

/// The digit of `d` (below 16), upper case.
pub open spec fn digit(d: nat) -> Seq<char> {
    if d == 0 { "0"@ }
    else if d == 1 { "1"@ }
    else if d == 2 { "2"@ }
    else if d == 3 { "3"@ }
    else if d == 4 { "4"@ }
    else if d == 5 { "5"@ }
    else if d == 6 { "6"@ }
    else if d == 7 { "7"@ }
    else if d == 8 { "8"@ }
    else if d == 9 { "9"@ }
    else if d == 10 { "A"@ }
    else if d == 11 { "B"@ }
    else if d == 12 { "C"@ }
    else if d == 13 { "D"@ }
    else if d == 14 { "E"@ }
    else { "F"@ }
}

/// `n` in decimal, without leading zeros.
pub open spec fn decimal(n: nat) -> Seq<char>
    decreases n,
{
    if n < 10 {
        digit(n)
    } else {
        decimal(n / 10) + digit(n % 10)
    }
}

/// `n` in hexadecimal, without leading zeros.
pub open spec fn hex(n: nat) -> Seq<char>
    decreases n,
{
    if n < 16 {
        digit(n)
    } else {
        hex(n / 16) + digit(n % 16)
    }
}

/// The last `w` hexadecimal digits of `n`, with leading zeros.
pub open spec fn hex_width(n: nat, w: nat) -> Seq<char>
    decreases w,
{
    if w == 0 {
        Seq::empty()
    } else {
        hex_width(n / 16, (w - 1) as nat) + digit(n % 16)
    }
}

/// `v` in decimal, with a minus sign when negative.
pub open spec fn signed(v: int) -> Seq<char> {
    if v < 0 {
        "-"@ + decimal((-v) as nat)
    } else {
        decimal(v as nat)
    }
}

/// A general-purpose register operand.
pub open spec fn gpr(n: u32) -> Seq<char> {
    "$"@ + decimal(n as nat)
}

/// A floating-point register operand.
pub open spec fn fpr(n: u32) -> Seq<char> {
    "$f"@ + decimal(n as nat)
}

/// A hexadecimal operand.
pub open spec fn hex_operand(n: nat) -> Seq<char> {
    "0x"@ + hex(n)
}

/// A memory operand `offset(base)`.
pub open spec fn mem_operand(offset: i16, base: u32) -> Seq<char> {
    signed(offset as int) + "("@ + gpr(base) + ")"@
}

/// A mnemonic with one operand.
pub open spec fn one(m: Seq<char>, a: Seq<char>) -> Seq<char> {
    m + " "@ + a
}

/// A mnemonic with two operands.
pub open spec fn two(m: Seq<char>, a: Seq<char>, b: Seq<char>) -> Seq<char> {
    m + " "@ + a + ", "@ + b
}

/// A mnemonic with three operands.
pub open spec fn three(m: Seq<char>, a: Seq<char>, b: Seq<char>, c: Seq<char>) -> Seq<char> {
    m + " "@ + a + ", "@ + b + ", "@ + c
}

/// The name of a floating-point comparison condition.
pub open spec fn condition_name(cond: u32) -> Seq<char> {
    if cond == 0 {
        "eq"@
    } else if cond == 1 {
        "lt"@
    } else if cond == 2 {
        "le"@
    } else {
        "??"@
    }
}

/// The assembly text of `i`; `raw` is the word shown for an invalid one.
pub open spec fn disassembly(i: Instruction, raw: u32) -> Seq<char> {
    match i {
        Instruction::Add { rd, rs, rt } => three("add"@, gpr(rd), gpr(rs), gpr(rt)),
        Instruction::Sub { rd, rs, rt } => three("sub"@, gpr(rd), gpr(rs), gpr(rt)),
        Instruction::And { rd, rs, rt } => three("and"@, gpr(rd), gpr(rs), gpr(rt)),
        Instruction::Or { rd, rs, rt } => three("or"@, gpr(rd), gpr(rs), gpr(rt)),
        Instruction::Xor { rd, rs, rt } => three("xor"@, gpr(rd), gpr(rs), gpr(rt)),
        Instruction::Nor { rd, rs, rt } => three("nor"@, gpr(rd), gpr(rs), gpr(rt)),
        Instruction::Slt { rd, rs, rt } => three("slt"@, gpr(rd), gpr(rs), gpr(rt)),
        Instruction::Sll { rd, rt, shamt } => three("sll"@, gpr(rd), gpr(rt), decimal(shamt as nat)),
        Instruction::Srl { rd, rt, shamt } => three("srl"@, gpr(rd), gpr(rt), decimal(shamt as nat)),
        Instruction::Sra { rd, rt, shamt } => three("sra"@, gpr(rd), gpr(rt), decimal(shamt as nat)),
        Instruction::Sllv { rd, rt, rs } => three("sllv"@, gpr(rd), gpr(rt), gpr(rs)),
        Instruction::Srlv { rd, rt, rs } => three("srlv"@, gpr(rd), gpr(rt), gpr(rs)),
        Instruction::Srav { rd, rt, rs } => three("srav"@, gpr(rd), gpr(rt), gpr(rs)),
        Instruction::Jr { rs } => one("jr"@, gpr(rs)),
        Instruction::Jalr { rd, rs } => two("jalr"@, gpr(rd), gpr(rs)),
        Instruction::Syscall => "syscall"@,
        Instruction::Break { code } => one("break"@, decimal(code as nat)),
        Instruction::Mfhi { rd } => one("mfhi"@, gpr(rd)),
        Instruction::Mthi { rs } => one("mthi"@, gpr(rs)),
        Instruction::Mflo { rd } => one("mflo"@, gpr(rd)),
        Instruction::Mtlo { rs } => one("mtlo"@, gpr(rs)),
        Instruction::Mult { rs, rt } => two("mult"@, gpr(rs), gpr(rt)),
        Instruction::Div { rs, rt } => two("div"@, gpr(rs), gpr(rt)),
        Instruction::Divu { rs, rt } => two("divu"@, gpr(rs), gpr(rt)),
        Instruction::Addi { rt, rs, imm } => three("addi"@, gpr(rt), gpr(rs), signed(imm as int)),
        Instruction::Addiu { rt, rs, imm } => three("addiu"@, gpr(rt), gpr(rs), signed(imm as int)),
        Instruction::Slti { rt, rs, imm } => three("slti"@, gpr(rt), gpr(rs), signed(imm as int)),
        Instruction::Sltiu { rt, rs, imm } => three("sltiu"@, gpr(rt), gpr(rs), signed(imm as int)),
        Instruction::Andi { rt, rs, imm } => three("andi"@, gpr(rt), gpr(rs), hex_operand(imm as nat)),
        Instruction::Ori { rt, rs, imm } => three("ori"@, gpr(rt), gpr(rs), hex_operand(imm as nat)),
        Instruction::Xori { rt, rs, imm } => three("xori"@, gpr(rt), gpr(rs), hex_operand(imm as nat)),
        Instruction::Lui { rt, imm } => two("lui"@, gpr(rt), hex_operand(imm as nat)),
        Instruction::Lb { rt, base, offset } => two("lb"@, gpr(rt), mem_operand(offset, base)),
        Instruction::Lh { rt, base, offset } => two("lh"@, gpr(rt), mem_operand(offset, base)),
        Instruction::Lw { rt, base, offset } => two("lw"@, gpr(rt), mem_operand(offset, base)),
        Instruction::Lbu { rt, base, offset } => two("lbu"@, gpr(rt), mem_operand(offset, base)),
        Instruction::Lhu { rt, base, offset } => two("lhu"@, gpr(rt), mem_operand(offset, base)),
        Instruction::Sb { rt, base, offset } => two("sb"@, gpr(rt), mem_operand(offset, base)),
        Instruction::Sh { rt, base, offset } => two("sh"@, gpr(rt), mem_operand(offset, base)),
        Instruction::Sw { rt, base, offset } => two("sw"@, gpr(rt), mem_operand(offset, base)),
        Instruction::Beq { rs, rt, offset } => three("beq"@, gpr(rs), gpr(rt), signed(offset as int)),
        Instruction::Bne { rs, rt, offset } => three("bne"@, gpr(rs), gpr(rt), signed(offset as int)),
        Instruction::Bgtz { rs, offset } => two("bgtz"@, gpr(rs), signed(offset as int)),
        Instruction::Blez { rs, offset } => two("blez"@, gpr(rs), signed(offset as int)),
        Instruction::Bltz { rs, offset } => two("bltz"@, gpr(rs), signed(offset as int)),
        Instruction::Bgez { rs, offset } => two("bgez"@, gpr(rs), signed(offset as int)),
        Instruction::J { target } => one("j"@, hex_operand((target << 2u32) as nat)),
        Instruction::Jal { target } => one("jal"@, hex_operand((target << 2u32) as nat)),
        Instruction::AddS { fd, fs, ft } => three("add.s"@, fpr(fd), fpr(fs), fpr(ft)),
        Instruction::SubS { fd, fs, ft } => three("sub.s"@, fpr(fd), fpr(fs), fpr(ft)),
        Instruction::MulS { fd, fs, ft } => three("mul.s"@, fpr(fd), fpr(fs), fpr(ft)),
        Instruction::DivS { fd, fs, ft } => three("div.s"@, fpr(fd), fpr(fs), fpr(ft)),
        Instruction::AbsS { fd, fs } => two("abs.s"@, fpr(fd), fpr(fs)),
        Instruction::NegS { fd, fs } => two("neg.s"@, fpr(fd), fpr(fs)),
        Instruction::MovS { fd, fs } => two("mov.s"@, fpr(fd), fpr(fs)),
        Instruction::CvtSW { fd, fs } => two("cvt.s.w"@, fpr(fd), fpr(fs)),
        Instruction::CvtWS { fd, fs } => two("cvt.w.s"@, fpr(fd), fpr(fs)),
        Instruction::CmpS { fs, ft, cond } => two("c."@ + condition_name(cond) + ".s"@, fpr(fs), fpr(ft)),
        Instruction::LwC1 { ft, base, offset } => two("lwc1"@, fpr(ft), mem_operand(offset, base)),
        Instruction::SwC1 { ft, base, offset } => two("swc1"@, fpr(ft), mem_operand(offset, base)),
        Instruction::BC1T { offset } => one("bc1t"@, signed(offset as int)),
        Instruction::BC1F { offset } => one("bc1f"@, signed(offset as int)),
        Instruction::Nop => "nop"@,
        Instruction::InvalidInstruction => "INVALID (0x"@ + hex_width(raw as nat, 8) + ")"@,
    }
}

/// Appends the digit of `d`.
fn push_digit(s: &mut String, d: u32)
    requires
        d < 16,
    ensures
        final(s)@ == old(s)@ + digit(d as nat),
{
    if d == 0 { s.append("0") }
    else if d == 1 { s.append("1") }
    else if d == 2 { s.append("2") }
    else if d == 3 { s.append("3") }
    else if d == 4 { s.append("4") }
    else if d == 5 { s.append("5") }
    else if d == 6 { s.append("6") }
    else if d == 7 { s.append("7") }
    else if d == 8 { s.append("8") }
    else if d == 9 { s.append("9") }
    else if d == 10 { s.append("A") }
    else if d == 11 { s.append("B") }
    else if d == 12 { s.append("C") }
    else if d == 13 { s.append("D") }
    else if d == 14 { s.append("E") }
    else { s.append("F") }
}

/// Appends `n` in decimal.
pub fn push_decimal(s: &mut String, n: u32)
    ensures
        final(s)@ == old(s)@ + decimal(n as nat),
    decreases n,
{
    if n >= 10 {
        push_decimal(s, n / 10);
    }
    push_digit(s, n % 10);
    assert(final(s)@ =~= old(s)@ + decimal(n as nat)) by {
        if n >= 10 {
            assert(decimal(n as nat) == decimal((n / 10) as nat) + digit((n % 10) as nat));
        }
    }
}

/// Appends `n` in decimal.
pub fn push_count(s: &mut String, n: usize)
    ensures
        final(s)@ == old(s)@ + decimal(n as nat),
    decreases n,
{
    if n >= 10 {
        push_count(s, n / 10);
    }
    push_digit(s, (n % 10) as u32);
    assert(final(s)@ =~= old(s)@ + decimal(n as nat)) by {
        if n >= 10 {
            assert(decimal(n as nat) == decimal((n / 10) as nat) + digit((n % 10) as nat));
        }
    }
}

/// Appends `n` in hexadecimal.
pub fn push_hex(s: &mut String, n: u32)
    ensures
        final(s)@ == old(s)@ + hex(n as nat),
    decreases n,
{
    if n >= 16 {
        push_hex(s, n / 16);
    }
    push_digit(s, n % 16);
    assert(final(s)@ =~= old(s)@ + hex(n as nat)) by {
        if n >= 16 {
            assert(hex(n as nat) == hex((n / 16) as nat) + digit((n % 16) as nat));
        }
    }
}

/// Appends the last `w` hexadecimal digits of `n`.
pub fn push_hex_width(s: &mut String, n: u32, w: u32)
    ensures
        final(s)@ == old(s)@ + hex_width(n as nat, w as nat),
    decreases w,
{
    if w > 0 {
        push_hex_width(s, n / 16, w - 1);
        push_digit(s, n % 16);
        assert(final(s)@ =~= old(s)@ + hex_width(n as nat, w as nat));
    } else {
        assert(final(s)@ =~= old(s)@ + hex_width(n as nat, w as nat));
    }
}

/// Appends `v` in decimal, signed.
fn push_signed(s: &mut String, v: i16)
    ensures
        final(s)@ == old(s)@ + signed(v as int),
{
    if v < 0 {
        s.append("-");
        let m: i32 = -(v as i32);
        push_decimal(s, m as u32);
        assert(final(s)@ =~= old(s)@ + signed(v as int));
    } else {
        push_decimal(s, v as u32);
    }
}

fn push_gpr(s: &mut String, n: u32)
    ensures
        final(s)@ == old(s)@ + gpr(n),
{
    s.append("$");
    push_decimal(s, n);
    assert(final(s)@ =~= old(s)@ + gpr(n));
}

fn push_fpr(s: &mut String, n: u32)
    ensures
        final(s)@ == old(s)@ + fpr(n),
{
    s.append("$f");
    push_decimal(s, n);
    assert(final(s)@ =~= old(s)@ + fpr(n));
}

fn push_hex_operand(s: &mut String, n: u32)
    ensures
        final(s)@ == old(s)@ + hex_operand(n as nat),
{
    s.append("0x");
    push_hex(s, n);
    assert(final(s)@ =~= old(s)@ + hex_operand(n as nat));
}

fn push_mem_operand(s: &mut String, offset: i16, base: u32)
    ensures
        final(s)@ == old(s)@ + mem_operand(offset, base),
{
    push_signed(s, offset);
    s.append("(");
    push_gpr(s, base);
    s.append(")");
    assert(final(s)@ =~= old(s)@ + mem_operand(offset, base));
}

fn begin(s: &mut String, m: &str)
    ensures
        final(s)@ == old(s)@ + m@ + " "@,
{
    s.append(m);
    s.append(" ");
}

fn sep(s: &mut String)
    ensures
        final(s)@ == old(s)@ + ", "@,
{
    s.append(", ");
}

fn put_three_gpr(s: &mut String, m: &str, a: u32, b: u32, c: u32)
    ensures
        final(s)@ == old(s)@ + three(m@, gpr(a), gpr(b), gpr(c)),
{
    begin(s, m);
    push_gpr(s, a);
    sep(s);
    push_gpr(s, b);
    sep(s);
    push_gpr(s, c);
    assert(final(s)@ =~= old(s)@ + three(m@, gpr(a), gpr(b), gpr(c)));
}

fn put_shift(s: &mut String, m: &str, a: u32, b: u32, amount: u32)
    ensures
        final(s)@ == old(s)@ + three(m@, gpr(a), gpr(b), decimal(amount as nat)),
{
    begin(s, m);
    push_gpr(s, a);
    sep(s);
    push_gpr(s, b);
    sep(s);
    push_decimal(s, amount);
    assert(final(s)@ =~= old(s)@ + three(m@, gpr(a), gpr(b), decimal(amount as nat)));
}

fn put_signed_three(s: &mut String, m: &str, a: u32, b: u32, v: i16)
    ensures
        final(s)@ == old(s)@ + three(m@, gpr(a), gpr(b), signed(v as int)),
{
    begin(s, m);
    push_gpr(s, a);
    sep(s);
    push_gpr(s, b);
    sep(s);
    push_signed(s, v);
    assert(final(s)@ =~= old(s)@ + three(m@, gpr(a), gpr(b), signed(v as int)));
}

fn put_logical(s: &mut String, m: &str, a: u32, b: u32, imm: u16)
    ensures
        final(s)@ == old(s)@ + three(m@, gpr(a), gpr(b), hex_operand(imm as nat)),
{
    begin(s, m);
    push_gpr(s, a);
    sep(s);
    push_gpr(s, b);
    sep(s);
    push_hex_operand(s, imm as u32);
    assert(final(s)@ =~= old(s)@ + three(m@, gpr(a), gpr(b), hex_operand(imm as nat)));
}

fn put_two_gpr(s: &mut String, m: &str, a: u32, b: u32)
    ensures
        final(s)@ == old(s)@ + two(m@, gpr(a), gpr(b)),
{
    begin(s, m);
    push_gpr(s, a);
    sep(s);
    push_gpr(s, b);
    assert(final(s)@ =~= old(s)@ + two(m@, gpr(a), gpr(b)));
}

fn put_one_gpr(s: &mut String, m: &str, a: u32)
    ensures
        final(s)@ == old(s)@ + one(m@, gpr(a)),
{
    begin(s, m);
    push_gpr(s, a);
    assert(final(s)@ =~= old(s)@ + one(m@, gpr(a)));
}

fn put_memory(s: &mut String, m: &str, a: u32, offset: i16, base: u32)
    ensures
        final(s)@ == old(s)@ + two(m@, gpr(a), mem_operand(offset, base)),
{
    begin(s, m);
    push_gpr(s, a);
    sep(s);
    push_mem_operand(s, offset, base);
    assert(final(s)@ =~= old(s)@ + two(m@, gpr(a), mem_operand(offset, base)));
}

fn put_fp_memory(s: &mut String, m: &str, a: u32, offset: i16, base: u32)
    ensures
        final(s)@ == old(s)@ + two(m@, fpr(a), mem_operand(offset, base)),
{
    begin(s, m);
    push_fpr(s, a);
    sep(s);
    push_mem_operand(s, offset, base);
    assert(final(s)@ =~= old(s)@ + two(m@, fpr(a), mem_operand(offset, base)));
}

fn put_branch(s: &mut String, m: &str, a: u32, offset: i16)
    ensures
        final(s)@ == old(s)@ + two(m@, gpr(a), signed(offset as int)),
{
    begin(s, m);
    push_gpr(s, a);
    sep(s);
    push_signed(s, offset);
    assert(final(s)@ =~= old(s)@ + two(m@, gpr(a), signed(offset as int)));
}

fn put_one_signed(s: &mut String, m: &str, v: i16)
    ensures
        final(s)@ == old(s)@ + one(m@, signed(v as int)),
{
    begin(s, m);
    push_signed(s, v);
    assert(final(s)@ =~= old(s)@ + one(m@, signed(v as int)));
}

fn put_jump(s: &mut String, m: &str, target: u32)
    ensures
        final(s)@ == old(s)@ + one(m@, hex_operand((target << 2u32) as nat)),
{
    begin(s, m);
    push_hex_operand(s, target << 2u32);
    assert(final(s)@ =~= old(s)@ + one(m@, hex_operand((target << 2u32) as nat)));
}

fn put_three_fpr(s: &mut String, m: &str, a: u32, b: u32, c: u32)
    ensures
        final(s)@ == old(s)@ + three(m@, fpr(a), fpr(b), fpr(c)),
{
    begin(s, m);
    push_fpr(s, a);
    sep(s);
    push_fpr(s, b);
    sep(s);
    push_fpr(s, c);
    assert(final(s)@ =~= old(s)@ + three(m@, fpr(a), fpr(b), fpr(c)));
}

fn put_two_fpr(s: &mut String, m: &str, a: u32, b: u32)
    ensures
        final(s)@ == old(s)@ + two(m@, fpr(a), fpr(b)),
{
    begin(s, m);
    push_fpr(s, a);
    sep(s);
    push_fpr(s, b);
    assert(final(s)@ =~= old(s)@ + two(m@, fpr(a), fpr(b)));
}

fn put_compare(s: &mut String, a: u32, b: u32, cond: u32)
    ensures
        final(s)@ == old(s)@ + two("c."@ + condition_name(cond) + ".s"@, fpr(a), fpr(b)),
{
    s.append("c.");
    if cond == 0 {
        s.append("eq");
    } else if cond == 1 {
        s.append("lt");
    } else if cond == 2 {
        s.append("le");
    } else {
        s.append("??");
    }
    s.append(".s");
    s.append(" ");
    push_fpr(s, a);
    sep(s);
    push_fpr(s, b);
    assert(final(s)@ =~= old(s)@ + two("c."@ + condition_name(cond) + ".s"@, fpr(a), fpr(b)));
}

/// The assembly text of `instruction` (see `disassembly`); `raw_word` is
/// shown for an invalid instruction.
pub fn instruction_to_string(instruction: &Instruction, raw_word: u32) -> (r: String)
    ensures
        r@ == disassembly(*instruction, raw_word),
{
    let mut s = String::new();
    match *instruction {
        Instruction::Add { rd, rs, rt } => put_three_gpr(&mut s, "add", rd, rs, rt),
        Instruction::Sub { rd, rs, rt } => put_three_gpr(&mut s, "sub", rd, rs, rt),
        Instruction::And { rd, rs, rt } => put_three_gpr(&mut s, "and", rd, rs, rt),
        Instruction::Or { rd, rs, rt } => put_three_gpr(&mut s, "or", rd, rs, rt),
        Instruction::Xor { rd, rs, rt } => put_three_gpr(&mut s, "xor", rd, rs, rt),
        Instruction::Nor { rd, rs, rt } => put_three_gpr(&mut s, "nor", rd, rs, rt),
        Instruction::Slt { rd, rs, rt } => put_three_gpr(&mut s, "slt", rd, rs, rt),
        Instruction::Sll { rd, rt, shamt } => put_shift(&mut s, "sll", rd, rt, shamt),
        Instruction::Srl { rd, rt, shamt } => put_shift(&mut s, "srl", rd, rt, shamt),
        Instruction::Sra { rd, rt, shamt } => put_shift(&mut s, "sra", rd, rt, shamt),
        Instruction::Sllv { rd, rt, rs } => put_three_gpr(&mut s, "sllv", rd, rt, rs),
        Instruction::Srlv { rd, rt, rs } => put_three_gpr(&mut s, "srlv", rd, rt, rs),
        Instruction::Srav { rd, rt, rs } => put_three_gpr(&mut s, "srav", rd, rt, rs),
        Instruction::Jr { rs } => put_one_gpr(&mut s, "jr", rs),
        Instruction::Jalr { rd, rs } => put_two_gpr(&mut s, "jalr", rd, rs),
        Instruction::Syscall => s.append("syscall"),
        Instruction::Break { code } => {
            begin(&mut s, "break");
            push_decimal(&mut s, code);
        },
        Instruction::Mfhi { rd } => put_one_gpr(&mut s, "mfhi", rd),
        Instruction::Mthi { rs } => put_one_gpr(&mut s, "mthi", rs),
        Instruction::Mflo { rd } => put_one_gpr(&mut s, "mflo", rd),
        Instruction::Mtlo { rs } => put_one_gpr(&mut s, "mtlo", rs),
        Instruction::Mult { rs, rt } => put_two_gpr(&mut s, "mult", rs, rt),
        Instruction::Div { rs, rt } => put_two_gpr(&mut s, "div", rs, rt),
        Instruction::Divu { rs, rt } => put_two_gpr(&mut s, "divu", rs, rt),
        Instruction::Addi { rt, rs, imm } => put_signed_three(&mut s, "addi", rt, rs, imm),
        Instruction::Addiu { rt, rs, imm } => put_signed_three(&mut s, "addiu", rt, rs, imm),
        Instruction::Slti { rt, rs, imm } => put_signed_three(&mut s, "slti", rt, rs, imm),
        Instruction::Sltiu { rt, rs, imm } => put_signed_three(&mut s, "sltiu", rt, rs, imm),
        Instruction::Andi { rt, rs, imm } => put_logical(&mut s, "andi", rt, rs, imm),
        Instruction::Ori { rt, rs, imm } => put_logical(&mut s, "ori", rt, rs, imm),
        Instruction::Xori { rt, rs, imm } => put_logical(&mut s, "xori", rt, rs, imm),
        Instruction::Lui { rt, imm } => {
            begin(&mut s, "lui");
            push_gpr(&mut s, rt);
            sep(&mut s);
            push_hex_operand(&mut s, imm as u32);
        },
        Instruction::Lb { rt, base, offset } => put_memory(&mut s, "lb", rt, offset, base),
        Instruction::Lh { rt, base, offset } => put_memory(&mut s, "lh", rt, offset, base),
        Instruction::Lw { rt, base, offset } => put_memory(&mut s, "lw", rt, offset, base),
        Instruction::Lbu { rt, base, offset } => put_memory(&mut s, "lbu", rt, offset, base),
        Instruction::Lhu { rt, base, offset } => put_memory(&mut s, "lhu", rt, offset, base),
        Instruction::Sb { rt, base, offset } => put_memory(&mut s, "sb", rt, offset, base),
        Instruction::Sh { rt, base, offset } => put_memory(&mut s, "sh", rt, offset, base),
        Instruction::Sw { rt, base, offset } => put_memory(&mut s, "sw", rt, offset, base),
        Instruction::Beq { rs, rt, offset } => put_signed_three(&mut s, "beq", rs, rt, offset),
        Instruction::Bne { rs, rt, offset } => put_signed_three(&mut s, "bne", rs, rt, offset),
        Instruction::Bgtz { rs, offset } => put_branch(&mut s, "bgtz", rs, offset),
        Instruction::Blez { rs, offset } => put_branch(&mut s, "blez", rs, offset),
        Instruction::Bltz { rs, offset } => put_branch(&mut s, "bltz", rs, offset),
        Instruction::Bgez { rs, offset } => put_branch(&mut s, "bgez", rs, offset),
        Instruction::J { target } => put_jump(&mut s, "j", target),
        Instruction::Jal { target } => put_jump(&mut s, "jal", target),
        Instruction::AddS { fd, fs, ft } => put_three_fpr(&mut s, "add.s", fd, fs, ft),
        Instruction::SubS { fd, fs, ft } => put_three_fpr(&mut s, "sub.s", fd, fs, ft),
        Instruction::MulS { fd, fs, ft } => put_three_fpr(&mut s, "mul.s", fd, fs, ft),
        Instruction::DivS { fd, fs, ft } => put_three_fpr(&mut s, "div.s", fd, fs, ft),
        Instruction::AbsS { fd, fs } => put_two_fpr(&mut s, "abs.s", fd, fs),
        Instruction::NegS { fd, fs } => put_two_fpr(&mut s, "neg.s", fd, fs),
        Instruction::MovS { fd, fs } => put_two_fpr(&mut s, "mov.s", fd, fs),
        Instruction::CvtSW { fd, fs } => put_two_fpr(&mut s, "cvt.s.w", fd, fs),
        Instruction::CvtWS { fd, fs } => put_two_fpr(&mut s, "cvt.w.s", fd, fs),
        Instruction::CmpS { fs, ft, cond } => put_compare(&mut s, fs, ft, cond),
        Instruction::LwC1 { ft, base, offset } => put_fp_memory(&mut s, "lwc1", ft, offset, base),
        Instruction::SwC1 { ft, base, offset } => put_fp_memory(&mut s, "swc1", ft, offset, base),
        Instruction::BC1T { offset } => put_one_signed(&mut s, "bc1t", offset),
        Instruction::BC1F { offset } => put_one_signed(&mut s, "bc1f", offset),
        Instruction::Nop => s.append("nop"),
        Instruction::InvalidInstruction => {
            s.append("INVALID (0x");
            push_hex_width(&mut s, raw_word, 8);
            s.append(")");
        },
    }
    assert(s@ =~= disassembly(*instruction, raw_word));
    s
}

} // verus!
