//! Lexing one line of assembly: character classes, number and register
//! syntax, and the token stream of a line.
use vstd::prelude::*;
use vstd::string::*;

verus! {

/// The kind of an assembly error.
#[derive(Clone, Copy, Debug, PartialEq, Eq, Structural)]
pub enum Fault {
    Parse,
    Symbol,
    Syntax,
    Register,
    Operand,
    Range,
    Unsupported,
}

/// Whether std classifies `c` as alphanumeric (Unicode `Alphabetic` or
/// `Numeric`).
pub uninterp spec fn alphanumeric(c: char) -> bool;

/// Whether `c` is an ASCII letter or digit.
pub open spec fn ascii_alnum(c: char) -> bool {
    ('a' <= c && c <= 'z') || ('A' <= c && c <= 'Z') || ('0' <= c && c <= '9')
}

/// `char::is_alphanumeric`. Its documentation makes ASCII letters and
/// digits alphanumeric and no other ASCII character; beyond ASCII the
/// result is named, not stated.
#[verifier::external_body]
fn is_alphanumeric(c: char) -> (r: bool)
    ensures
        r == alphanumeric(c),
        (c as u32) < 128 ==> (r <==> ascii_alnum(c)),
{
    c.is_alphanumeric()
}

/// The value of `c` as a digit in `radix` (2, 8, 10 or 16), if it is one.
pub open spec fn digit_of(c: char, radix: nat) -> Option<nat> {
    let v: nat = if '0' <= c && c <= '9' {
        (c as u32 - '0' as u32) as nat
    } else if 'a' <= c && c <= 'f' {
        (c as u32 - 'a' as u32 + 10) as nat
    } else if 'A' <= c && c <= 'F' {
        (c as u32 - 'A' as u32 + 10) as nat
    } else {
        100
    };
    if v < radix {
        Some(v)
    } else {
        None
    }
}

/// Whether `c` is a digit in `radix`.
pub open spec fn is_digit(c: char, radix: nat) -> bool {
    digit_of(c, radix) is Some
}

/// `digit_of`.
fn digit_value(c: char, radix: u32) -> (r: Option<u32>)
    requires
        radix <= 16,
    ensures
        r matches Some(v) ==> digit_of(c, radix as nat) == Some(v as nat),
        r is None ==> digit_of(c, radix as nat) is None,
{
    let v: u32 = if '0' <= c && c <= '9' {
        c as u32 - '0' as u32
    } else if 'a' <= c && c <= 'f' {
        c as u32 - 'a' as u32 + 10
    } else if 'A' <= c && c <= 'F' {
        c as u32 - 'A' as u32 + 10
    } else {
        100
    };
    if v < radix {
        Some(v)
    } else {
        None
    }
}

/// The value of the digit string `ds` in `radix` (non-digits count as 0).
pub open spec fn digits_value(ds: Seq<char>, radix: nat) -> nat
    decreases ds.len(),
{
    if ds.len() == 0 {
        0
    } else {
        digits_value(ds.drop_last(), radix) * radix + match digit_of(ds.last(), radix) {
            Some(d) => d,
            None => 0,
        }
    }
}

/// A longer digit string is worth at least as much as its prefix.
proof fn lemma_digits_value_prefix(ds: Seq<char>, radix: nat, n: int)
    requires
        0 <= n <= ds.len(),
        radix >= 1,
    ensures
        digits_value(ds.subrange(0, n), radix) <= digits_value(ds, radix),
    decreases ds.len() - n,
{
    if n < ds.len() {
        lemma_digits_value_prefix(ds, radix, n + 1);
        let p = ds.subrange(0, n + 1);
        assert(p.drop_last() =~= ds.subrange(0, n));
        let v = digits_value(ds.subrange(0, n), radix);
        assert(v * radix >= v) by (nonlinear_arith)
            requires
                radix >= 1,
        ;
    } else {
        assert(ds.subrange(0, n) =~= ds);
    }
}

/// The end of the run of characters of `class` starting at `i`.
pub open spec fn span_end(line: Seq<char>, i: int, class: spec_fn(char) -> bool) -> int
    decreases line.len() - i,
{
    if 0 <= i < line.len() && class(line[i]) {
        span_end(line, i + 1, class)
    } else {
        i
    }
}

pub proof fn lemma_span_end_bounds(line: Seq<char>, i: int, class: spec_fn(char) -> bool)
    requires
        0 <= i <= line.len(),
    ensures
        i <= span_end(line, i, class) <= line.len(),
        forall|k: int| i <= k < span_end(line, i, class) ==> #[trigger] class(line[k]),
    decreases line.len() - i,
{
    if i < line.len() && class(line[i]) {
        lemma_span_end_bounds(line, i + 1, class);
    }
}

/// A run of digits holds only digits.
proof fn lemma_digit_span(line: Seq<char>, i: int, radix: nat)
    requires
        0 <= i <= line.len(),
    ensures
        i <= span_end(line, i, digit_class(radix)) <= line.len(),
        forall|k: int| i <= k < span_end(line, i, digit_class(radix)) ==> #[trigger] is_digit(line[k], radix),
{
    lemma_span_end_bounds(line, i, digit_class(radix));
    assert forall|k: int| i <= k < span_end(line, i, digit_class(radix)) implies #[trigger] is_digit(line[k], radix) by {
        assert(digit_class(radix)(line[k]));
    }
}

/// Digits of `radix`.
pub open spec fn digit_class(radix: nat) -> spec_fn(char) -> bool {
    |c: char| is_digit(c, radix)
}

/// The characters of a register name.
pub open spec fn alnum_class() -> spec_fn(char) -> bool {
    |c: char| alphanumeric(c)
}

/// The characters of a directive name.
pub open spec fn directive_class() -> spec_fn(char) -> bool {
    |c: char| alphanumeric(c) || c == '_'
}

/// The characters of an instruction name or symbol.
pub open spec fn identifier_class() -> spec_fn(char) -> bool {
    |c: char| alphanumeric(c) || c == '_' || c == '.'
}

/// The end of the run of `radix` digits starting at `i`.
fn digits_end(line: &Vec<char>, i: usize, radix: u32) -> (e: usize)
    requires
        i <= line.len(),
        radix <= 16,
    ensures
        e == span_end(line@, i as int, digit_class(radix as nat)),
{
    let mut k = i;
    while k < line.len() && digit_value(line[k], radix).is_some()
        invariant
            i <= k <= line.len(),
            radix <= 16,
            span_end(line@, i as int, digit_class(radix as nat)) == span_end(
                line@,
                k as int,
                digit_class(radix as nat),
            ),
        decreases line.len() - k,
    {
        k = k + 1;
    }
    k
}

/// Whether `c` belongs to a name: alphanumeric, or `_` when `underscore`,
/// or `.` when `dot`.
fn name_char(c: char, underscore: bool, dot: bool) -> (r: bool)
    ensures
        r == (alphanumeric(c) || (underscore && c == '_') || (dot && c == '.')),
{
    is_alphanumeric(c) || (underscore && c == '_') || (dot && c == '.')
}

/// The end of the run of name characters (see `name_char`) starting at `i`.
fn name_end(line: &Vec<char>, i: usize, underscore: bool, dot: bool) -> (e: usize)
    requires
        i <= line.len(),
    ensures
        !underscore && !dot ==> e == span_end(line@, i as int, alnum_class()),
        underscore && !dot ==> e == span_end(line@, i as int, directive_class()),
        underscore && dot ==> e == span_end(line@, i as int, identifier_class()),
{
    let mut k = i;
    while k < line.len() && name_char(line[k], underscore, dot)
        invariant
            i <= k <= line.len(),
            !underscore && !dot ==> span_end(line@, i as int, alnum_class()) == span_end(
                line@,
                k as int,
                alnum_class(),
            ),
            underscore && !dot ==> span_end(line@, i as int, directive_class()) == span_end(
                line@,
                k as int,
                directive_class(),
            ),
            underscore && dot ==> span_end(line@, i as int, identifier_class()) == span_end(
                line@,
                k as int,
                identifier_class(),
            ),
        decreases line.len() - k,
    {
        k = k + 1;
    }
    k
}

/// The value of `line[start..end]` as a `radix` number when it is at most
/// `limit`.
pub fn digits_up_to(line: &Vec<char>, start: usize, end: usize, radix: u32, limit: u64) -> (r: Option<u64>)
    requires
        start <= end <= line.len(),
        2 <= radix <= 16,
        limit <= u32::MAX as u64 + 1,
        forall|k: int| start <= k < end ==> #[trigger] is_digit(line@[k], radix as nat),
    ensures
        ({
            let v = digits_value(line@.subrange(start as int, end as int), radix as nat);
            &&& r matches Some(x) ==> x == v && v <= limit
            &&& r is None ==> v > limit
        }),
{
    let mut acc: u64 = 0;
    let mut k = start;
    while k < end
        invariant
            start <= k <= end <= line.len(),
            2 <= radix <= 16,
            limit <= u32::MAX as u64 + 1,
            acc <= limit,
            acc == digits_value(line@.subrange(start as int, k as int), radix as nat),
            forall|q: int| start <= q < end ==> #[trigger] is_digit(line@[q], radix as nat),
        decreases end - k,
    {
        assert(is_digit(line@[k as int], radix as nat));
        let d = digit_value(line[k], radix).unwrap();
        proof {
            let s = line@.subrange(start as int, k as int + 1);
            assert(s.drop_last() =~= line@.subrange(start as int, k as int));
            assert(s.last() == line@[k as int]);
        }
        assert(acc * (radix as u64) <= 0x1_0000_0000u64 * 16) by (nonlinear_arith)
            requires
                acc <= 0x1_0000_0000u64,
                radix <= 16,
        ;
        let next = acc * (radix as u64) + (d as u64);
        if next > limit {
            proof {
                lemma_digits_value_prefix(
                    line@.subrange(start as int, end as int),
                    radix as nat,
                    k - start + 1,
                );
                assert(line@.subrange(start as int, end as int).subrange(0, k - start + 1)
                    =~= line@.subrange(start as int, k as int + 1));
            }
            return None;
        }
        acc = next;
        k = k + 1;
    }
    Some(acc)
}


/// Whether `v` holds the characters of `s`.
pub fn eq_str(v: &Vec<char>, s: &str) -> (r: bool)
    ensures
        r == (v@ == s@),
{
    let n = s.unicode_len();
    if v.len() != n {
        return false;
    }
    let mut k: usize = 0;
    while k < n
        invariant
            n == s@.len(),
            v@.len() == n,
            k <= n,
            forall|q: int| 0 <= q < k ==> v@[q] == s@[q],
        decreases n - k,
    {
        if v[k] != s.get_char(k) {
            return false;
        }
        k = k + 1;
    }
    assert(v@ =~= s@);
    true
}

/// What std's lower-casing makes of `s`.
pub uninterp spec fn lowercased(s: Seq<char>) -> Seq<char>;

/// `c` with an ASCII capital letter made small.
pub open spec fn ascii_lower(c: char) -> char {
    if 'A' <= c && c <= 'Z' {
        ((c as u32) + 32) as char
    } else {
        c
    }
}

/// `str::to_lowercase` on the characters of `name`. Its result is named;
/// for an all-ASCII `name` it is `name` with `A`-`Z` made `a`-`z`, as the
/// documentation of ASCII case mapping gives (beyond ASCII it follows
/// Unicode's case tables, which are not stated).
#[verifier::external_body]
fn to_lowercase(name: &Vec<char>) -> (r: Vec<char>)
    ensures
        r@ == lowercased(name@),
        (forall|k: int| 0 <= k < name@.len() ==> (#[trigger] name@[k] as u32) < 128) ==> r@ == name@.map_values(
            |c: char| ascii_lower(c),
        ),
{
    name.iter().collect::<String>().to_lowercase().chars().collect()
}

/// A canonical instruction name.
#[derive(Clone, Copy, Debug, PartialEq, Eq, Structural)]
pub enum Mnemonic {
    Add,
    Sub,
    And,
    Or,
    Xor,
    Nor,
    Slt,
    Sll,
    Srl,
    Sra,
    Addi,
    Slti,
    Andi,
    Ori,
    Xori,
    Lui,
    Lw,
    Sw,
    Lb,
    Lbu,
    Sb,
    Lh,
    Lhu,
    Sh,
    Beq,
    Bne,
    Bgtz,
    Blez,
    Bgez,
    Bltz,
    J,
    Jal,
    Jr,
    Jalr,
    Mult,
    Div,
    Mfhi,
    Mflo,
    Mthi,
    Mtlo,
    Syscall,
    Break,
    Nop,
    Move,
    Li,
    La,
    B,
    AddS,
    SubS,
    MulS,
    DivS,
    AbsS,
    NegS,
    MovS,
    CvtSW,
    CvtWS,
    CEqS,
    CLtS,
    CLeS,
    Lwc1,
    Swc1,
    Bc1t,
    Bc1f,
}

/// The canonical instruction that the lower-cased name `l` stands for.
pub open spec fn mnemonic_of(l: Seq<char>) -> Option<Mnemonic> {
    if l == "add"@ || l == "addu"@ {
        Some(Mnemonic::Add)
    } else if l == "sub"@ || l == "subu"@ {
        Some(Mnemonic::Sub)
    } else if l == "and"@ {
        Some(Mnemonic::And)
    } else if l == "or"@ {
        Some(Mnemonic::Or)
    } else if l == "xor"@ {
        Some(Mnemonic::Xor)
    } else if l == "nor"@ {
        Some(Mnemonic::Nor)
    } else if l == "slt"@ || l == "sltu"@ {
        Some(Mnemonic::Slt)
    } else if l == "sll"@ || l == "sllv"@ {
        Some(Mnemonic::Sll)
    } else if l == "srl"@ || l == "srlv"@ {
        Some(Mnemonic::Srl)
    } else if l == "sra"@ || l == "srav"@ {
        Some(Mnemonic::Sra)
    } else if l == "addi"@ || l == "addiu"@ {
        Some(Mnemonic::Addi)
    } else if l == "slti"@ || l == "sltiu"@ {
        Some(Mnemonic::Slti)
    } else if l == "andi"@ {
        Some(Mnemonic::Andi)
    } else if l == "ori"@ {
        Some(Mnemonic::Ori)
    } else if l == "xori"@ {
        Some(Mnemonic::Xori)
    } else if l == "lui"@ {
        Some(Mnemonic::Lui)
    } else if l == "lw"@ {
        Some(Mnemonic::Lw)
    } else if l == "sw"@ {
        Some(Mnemonic::Sw)
    } else if l == "lb"@ {
        Some(Mnemonic::Lb)
    } else if l == "lbu"@ {
        Some(Mnemonic::Lbu)
    } else if l == "sb"@ {
        Some(Mnemonic::Sb)
    } else if l == "lh"@ {
        Some(Mnemonic::Lh)
    } else if l == "lhu"@ {
        Some(Mnemonic::Lhu)
    } else if l == "sh"@ {
        Some(Mnemonic::Sh)
    } else if l == "beq"@ {
        Some(Mnemonic::Beq)
    } else if l == "bne"@ {
        Some(Mnemonic::Bne)
    } else if l == "bgtz"@ {
        Some(Mnemonic::Bgtz)
    } else if l == "blez"@ {
        Some(Mnemonic::Blez)
    } else if l == "bgez"@ {
        Some(Mnemonic::Bgez)
    } else if l == "bltz"@ {
        Some(Mnemonic::Bltz)
    } else if l == "j"@ {
        Some(Mnemonic::J)
    } else if l == "jal"@ {
        Some(Mnemonic::Jal)
    } else if l == "jr"@ {
        Some(Mnemonic::Jr)
    } else if l == "jalr"@ {
        Some(Mnemonic::Jalr)
    } else if l == "mult"@ || l == "multu"@ {
        Some(Mnemonic::Mult)
    } else if l == "div"@ || l == "divu"@ {
        Some(Mnemonic::Div)
    } else if l == "mfhi"@ {
        Some(Mnemonic::Mfhi)
    } else if l == "mflo"@ {
        Some(Mnemonic::Mflo)
    } else if l == "mthi"@ {
        Some(Mnemonic::Mthi)
    } else if l == "mtlo"@ {
        Some(Mnemonic::Mtlo)
    } else if l == "syscall"@ {
        Some(Mnemonic::Syscall)
    } else if l == "break"@ {
        Some(Mnemonic::Break)
    } else if l == "nop"@ {
        Some(Mnemonic::Nop)
    } else if l == "move"@ {
        Some(Mnemonic::Move)
    } else if l == "li"@ {
        Some(Mnemonic::Li)
    } else if l == "la"@ {
        Some(Mnemonic::La)
    } else if l == "b"@ {
        Some(Mnemonic::B)
    } else if l == "add.s"@ {
        Some(Mnemonic::AddS)
    } else if l == "sub.s"@ {
        Some(Mnemonic::SubS)
    } else if l == "mul.s"@ {
        Some(Mnemonic::MulS)
    } else if l == "div.s"@ {
        Some(Mnemonic::DivS)
    } else if l == "abs.s"@ {
        Some(Mnemonic::AbsS)
    } else if l == "neg.s"@ {
        Some(Mnemonic::NegS)
    } else if l == "mov.s"@ {
        Some(Mnemonic::MovS)
    } else if l == "cvt.s.w"@ {
        Some(Mnemonic::CvtSW)
    } else if l == "cvt.w.s"@ {
        Some(Mnemonic::CvtWS)
    } else if l == "c.eq.s"@ {
        Some(Mnemonic::CEqS)
    } else if l == "c.lt.s"@ {
        Some(Mnemonic::CLtS)
    } else if l == "c.le.s"@ {
        Some(Mnemonic::CLeS)
    } else if l == "lwc1"@ {
        Some(Mnemonic::Lwc1)
    } else if l == "swc1"@ {
        Some(Mnemonic::Swc1)
    } else if l == "bc1t"@ {
        Some(Mnemonic::Bc1t)
    } else if l == "bc1f"@ {
        Some(Mnemonic::Bc1f)
    } else {
        None
    }
}

/// `mnemonic_of`.
fn lookup_mnemonic(l: &Vec<char>) -> (r: Option<Mnemonic>)
    ensures
        r == mnemonic_of(l@),
{
    if eq_str(l, "add") || eq_str(l, "addu") {
        Some(Mnemonic::Add)
    } else if eq_str(l, "sub") || eq_str(l, "subu") {
        Some(Mnemonic::Sub)
    } else if eq_str(l, "and") {
        Some(Mnemonic::And)
    } else if eq_str(l, "or") {
        Some(Mnemonic::Or)
    } else if eq_str(l, "xor") {
        Some(Mnemonic::Xor)
    } else if eq_str(l, "nor") {
        Some(Mnemonic::Nor)
    } else if eq_str(l, "slt") || eq_str(l, "sltu") {
        Some(Mnemonic::Slt)
    } else if eq_str(l, "sll") || eq_str(l, "sllv") {
        Some(Mnemonic::Sll)
    } else if eq_str(l, "srl") || eq_str(l, "srlv") {
        Some(Mnemonic::Srl)
    } else if eq_str(l, "sra") || eq_str(l, "srav") {
        Some(Mnemonic::Sra)
    } else if eq_str(l, "addi") || eq_str(l, "addiu") {
        Some(Mnemonic::Addi)
    } else if eq_str(l, "slti") || eq_str(l, "sltiu") {
        Some(Mnemonic::Slti)
    } else if eq_str(l, "andi") {
        Some(Mnemonic::Andi)
    } else if eq_str(l, "ori") {
        Some(Mnemonic::Ori)
    } else if eq_str(l, "xori") {
        Some(Mnemonic::Xori)
    } else if eq_str(l, "lui") {
        Some(Mnemonic::Lui)
    } else if eq_str(l, "lw") {
        Some(Mnemonic::Lw)
    } else if eq_str(l, "sw") {
        Some(Mnemonic::Sw)
    } else if eq_str(l, "lb") {
        Some(Mnemonic::Lb)
    } else if eq_str(l, "lbu") {
        Some(Mnemonic::Lbu)
    } else if eq_str(l, "sb") {
        Some(Mnemonic::Sb)
    } else if eq_str(l, "lh") {
        Some(Mnemonic::Lh)
    } else if eq_str(l, "lhu") {
        Some(Mnemonic::Lhu)
    } else if eq_str(l, "sh") {
        Some(Mnemonic::Sh)
    } else if eq_str(l, "beq") {
        Some(Mnemonic::Beq)
    } else if eq_str(l, "bne") {
        Some(Mnemonic::Bne)
    } else if eq_str(l, "bgtz") {
        Some(Mnemonic::Bgtz)
    } else if eq_str(l, "blez") {
        Some(Mnemonic::Blez)
    } else if eq_str(l, "bgez") {
        Some(Mnemonic::Bgez)
    } else if eq_str(l, "bltz") {
        Some(Mnemonic::Bltz)
    } else if eq_str(l, "j") {
        Some(Mnemonic::J)
    } else if eq_str(l, "jal") {
        Some(Mnemonic::Jal)
    } else if eq_str(l, "jr") {
        Some(Mnemonic::Jr)
    } else if eq_str(l, "jalr") {
        Some(Mnemonic::Jalr)
    } else if eq_str(l, "mult") || eq_str(l, "multu") {
        Some(Mnemonic::Mult)
    } else if eq_str(l, "div") || eq_str(l, "divu") {
        Some(Mnemonic::Div)
    } else if eq_str(l, "mfhi") {
        Some(Mnemonic::Mfhi)
    } else if eq_str(l, "mflo") {
        Some(Mnemonic::Mflo)
    } else if eq_str(l, "mthi") {
        Some(Mnemonic::Mthi)
    } else if eq_str(l, "mtlo") {
        Some(Mnemonic::Mtlo)
    } else if eq_str(l, "syscall") {
        Some(Mnemonic::Syscall)
    } else if eq_str(l, "break") {
        Some(Mnemonic::Break)
    } else if eq_str(l, "nop") {
        Some(Mnemonic::Nop)
    } else if eq_str(l, "move") {
        Some(Mnemonic::Move)
    } else if eq_str(l, "li") {
        Some(Mnemonic::Li)
    } else if eq_str(l, "la") {
        Some(Mnemonic::La)
    } else if eq_str(l, "b") {
        Some(Mnemonic::B)
    } else if eq_str(l, "add.s") {
        Some(Mnemonic::AddS)
    } else if eq_str(l, "sub.s") {
        Some(Mnemonic::SubS)
    } else if eq_str(l, "mul.s") {
        Some(Mnemonic::MulS)
    } else if eq_str(l, "div.s") {
        Some(Mnemonic::DivS)
    } else if eq_str(l, "abs.s") {
        Some(Mnemonic::AbsS)
    } else if eq_str(l, "neg.s") {
        Some(Mnemonic::NegS)
    } else if eq_str(l, "mov.s") {
        Some(Mnemonic::MovS)
    } else if eq_str(l, "cvt.s.w") {
        Some(Mnemonic::CvtSW)
    } else if eq_str(l, "cvt.w.s") {
        Some(Mnemonic::CvtWS)
    } else if eq_str(l, "c.eq.s") {
        Some(Mnemonic::CEqS)
    } else if eq_str(l, "c.lt.s") {
        Some(Mnemonic::CLtS)
    } else if eq_str(l, "c.le.s") {
        Some(Mnemonic::CLeS)
    } else if eq_str(l, "lwc1") {
        Some(Mnemonic::Lwc1)
    } else if eq_str(l, "swc1") {
        Some(Mnemonic::Swc1)
    } else if eq_str(l, "bc1t") {
        Some(Mnemonic::Bc1t)
    } else if eq_str(l, "bc1f") {
        Some(Mnemonic::Bc1f)
    } else {
        None
    }
}

/// The number of the register named `name` (without its `$`).
pub open spec fn named_register(name: Seq<char>) -> Option<u32> {
    if name == "zero"@ {
        Some(0u32)
    } else if name == "at"@ {
        Some(1u32)
    } else if name == "v0"@ {
        Some(2u32)
    } else if name == "v1"@ {
        Some(3u32)
    } else if name == "a0"@ {
        Some(4u32)
    } else if name == "a1"@ {
        Some(5u32)
    } else if name == "a2"@ {
        Some(6u32)
    } else if name == "a3"@ {
        Some(7u32)
    } else if name == "t0"@ {
        Some(8u32)
    } else if name == "t1"@ {
        Some(9u32)
    } else if name == "t2"@ {
        Some(10u32)
    } else if name == "t3"@ {
        Some(11u32)
    } else if name == "t4"@ {
        Some(12u32)
    } else if name == "t5"@ {
        Some(13u32)
    } else if name == "t6"@ {
        Some(14u32)
    } else if name == "t7"@ {
        Some(15u32)
    } else if name == "s0"@ {
        Some(16u32)
    } else if name == "s1"@ {
        Some(17u32)
    } else if name == "s2"@ {
        Some(18u32)
    } else if name == "s3"@ {
        Some(19u32)
    } else if name == "s4"@ {
        Some(20u32)
    } else if name == "s5"@ {
        Some(21u32)
    } else if name == "s6"@ {
        Some(22u32)
    } else if name == "s7"@ {
        Some(23u32)
    } else if name == "t8"@ {
        Some(24u32)
    } else if name == "t9"@ {
        Some(25u32)
    } else if name == "k0"@ {
        Some(26u32)
    } else if name == "k1"@ {
        Some(27u32)
    } else if name == "gp"@ {
        Some(28u32)
    } else if name == "sp"@ {
        Some(29u32)
    } else if name == "fp"@ {
        Some(30u32)
    } else if name == "ra"@ {
        Some(31u32)
    } else {
        None
    }
}

/// `named_register`.
fn lookup_register(name: &Vec<char>) -> (r: Option<u32>)
    ensures
        r == named_register(name@),
{
    if eq_str(name, "zero") {
        Some(0)
    } else if eq_str(name, "at") {
        Some(1)
    } else if eq_str(name, "v0") {
        Some(2)
    } else if eq_str(name, "v1") {
        Some(3)
    } else if eq_str(name, "a0") {
        Some(4)
    } else if eq_str(name, "a1") {
        Some(5)
    } else if eq_str(name, "a2") {
        Some(6)
    } else if eq_str(name, "a3") {
        Some(7)
    } else if eq_str(name, "t0") {
        Some(8)
    } else if eq_str(name, "t1") {
        Some(9)
    } else if eq_str(name, "t2") {
        Some(10)
    } else if eq_str(name, "t3") {
        Some(11)
    } else if eq_str(name, "t4") {
        Some(12)
    } else if eq_str(name, "t5") {
        Some(13)
    } else if eq_str(name, "t6") {
        Some(14)
    } else if eq_str(name, "t7") {
        Some(15)
    } else if eq_str(name, "s0") {
        Some(16)
    } else if eq_str(name, "s1") {
        Some(17)
    } else if eq_str(name, "s2") {
        Some(18)
    } else if eq_str(name, "s3") {
        Some(19)
    } else if eq_str(name, "s4") {
        Some(20)
    } else if eq_str(name, "s5") {
        Some(21)
    } else if eq_str(name, "s6") {
        Some(22)
    } else if eq_str(name, "s7") {
        Some(23)
    } else if eq_str(name, "t8") {
        Some(24)
    } else if eq_str(name, "t9") {
        Some(25)
    } else if eq_str(name, "k0") {
        Some(26)
    } else if eq_str(name, "k1") {
        Some(27)
    } else if eq_str(name, "gp") {
        Some(28)
    } else if eq_str(name, "sp") {
        Some(29)
    } else if eq_str(name, "fp") {
        Some(30)
    } else if eq_str(name, "ra") {
        Some(31)
    } else {
        None
    }
}

/// A token of a line.
#[derive(Debug)]
pub enum Token {
    Instruction(Mnemonic),
    Register(u32),
    FpRegister(u32),
    Immediate(i32),
    Symbol(Vec<char>),
    Comma,
    LeftParen,
    RightParen,
    Directive(Vec<char>),
    StringLiteral(Vec<char>),
}

/// The value of a token, with its text as a sequence.
pub enum Tok {
    Instruction(Mnemonic),
    Register(u32),
    FpRegister(u32),
    Immediate(i32),
    Symbol(Seq<char>),
    Comma,
    LeftParen,
    RightParen,
    Directive(Seq<char>),
    StringLiteral(Seq<char>),
}

impl View for Token {
    type V = Tok;

    open spec fn view(&self) -> Tok {
        match self {
            Token::Instruction(m) => Tok::Instruction(*m),
            Token::Register(n) => Tok::Register(*n),
            Token::FpRegister(n) => Tok::FpRegister(*n),
            Token::Immediate(v) => Tok::Immediate(*v),
            Token::Symbol(s) => Tok::Symbol(s@),
            Token::Comma => Tok::Comma,
            Token::LeftParen => Tok::LeftParen,
            Token::RightParen => Tok::RightParen,
            Token::Directive(s) => Tok::Directive(s@),
            Token::StringLiteral(s) => Tok::StringLiteral(s@),
        }
    }
}

/// The tokens of `v` as values.
pub open spec fn toks(v: Seq<Token>) -> Seq<Tok> {
    v.map_values(|t: Token| t@)
}

/// Whether the executable lexeme `r` is the lexeme `s`.
pub open spec fn lexeme_is(r: Result<(Token, usize), Fault>, s: Result<(Tok, int), Fault>) -> bool {
    match r {
        Ok((t, e)) => s == Ok::<(Tok, int), Fault>((t@, e as int)),
        Err(f) => s == Err::<(Tok, int), Fault>(f),
    }
}

/// The decimal value of `s` as a `u32`, when `s` is a non-empty run of
/// ASCII digits whose value fits (as `str::parse::<u32>` reads a name
/// that holds no sign).
pub open spec fn parse_u32(s: Seq<char>) -> Option<u32> {
    if s.len() > 0 && (forall|k: int| 0 <= k < s.len() ==> #[trigger] is_digit(s[k], 10))
        && digits_value(s, 10) <= u32::MAX {
        Some(digits_value(s, 10) as u32)
    } else {
        None
    }
}

/// `parse_u32` of `line[start..end]`, which holds only alphanumerics.
fn parse_u32_at(line: &Vec<char>, start: usize, end: usize) -> (r: Option<u32>)
    requires
        start <= end <= line.len(),
    ensures
        r == parse_u32(line@.subrange(start as int, end as int)),
{
    let ghost s = line@.subrange(start as int, end as int);
    if start == end {
        return None;
    }
    let mut k = start;
    while k < end
        invariant
            start <= k <= end <= line.len(),
            s == line@.subrange(start as int, end as int),
            forall|q: int| start <= q < k ==> #[trigger] is_digit(line@[q], 10),
        decreases end - k,
    {
        if digit_value(line[k], 10).is_none() {
            assert(!is_digit(s[k - start], 10));
            return None;
        }
        k = k + 1;
    }
    assert forall|q: int| 0 <= q < s.len() implies #[trigger] is_digit(s[q], 10) by {
        assert(is_digit(line@[start + q], 10));
    }
    match digits_up_to(line, start, end, 10, u32::MAX as u64) {
        Some(v) => Some(v as u32),
        None => None,
    }
}

/// The register token at `i` (a `$`): `$f` and a number below 32 is a
/// floating-point register; a number below 32 or a conventional name is an
/// integer register; anything else is a register error.
pub open spec fn lex_register(line: Seq<char>, i: int) -> Result<(Tok, int), Fault> {
    let e = span_end(line, i + 1, alnum_class());
    let name = line.subrange(i + 1, e);
    if name.len() > 0 && name[0] == 'f' {
        match parse_u32(name.drop_first()) {
            Some(n) => if n < 32 {
                Ok((Tok::FpRegister(n), e))
            } else {
                Err(Fault::Register)
            },
            None => Err(Fault::Register),
        }
    } else {
        match parse_u32(name) {
            Some(n) => if n < 32 {
                Ok((Tok::Register(n), e))
            } else {
                Err(Fault::Register)
            },
            None => match named_register(name) {
                Some(n) => Ok((Tok::Register(n), e)),
                None => Err(Fault::Register),
            },
        }
    }
}

/// The register token at `i`.
fn lex_register_at(line: &Vec<char>, i: usize) -> (r: Result<(Token, usize), Fault>)
    requires
        i < line.len(),
    ensures
        lexeme_is(r, lex_register(line@, i as int)),
        r matches Ok((_, e)) ==> i < e <= line.len(),
{
    let e = name_end(line, i + 1, false, false);
    proof {
        lemma_span_end_bounds(line@, i + 1, alnum_class());
    }
    let ghost name = line@.subrange(i + 1, e as int);
    if e > i + 1 && line[i + 1] == 'f' {
        let n = parse_u32_at(line, i + 2, e);
        assert(line@.subrange(i + 2, e as int) =~= name.drop_first());
        match n {
            Some(n) => if n < 32 {
                Ok((Token::FpRegister(n), e))
            } else {
                Err(Fault::Register)
            },
            None => Err(Fault::Register),
        }
    } else {
        match parse_u32_at(line, i + 1, e) {
            Some(n) => if n < 32 {
                Ok((Token::Register(n), e))
            } else {
                Err(Fault::Register)
            },
            None => {
                let mut v: Vec<char> = Vec::new();
                let mut k = i + 1;
                while k < e
                    invariant
                        i + 1 <= k <= e <= line.len(),
                        v@ == line@.subrange(i + 1, k as int),
                    decreases e - k,
                {
                    v.push(line[k]);
                    k = k + 1;
                    assert(v@ =~= line@.subrange(i + 1, k as int));
                }
                match lookup_register(&v) {
                    Some(n) => Ok((Token::Register(n), e)),
                    None => Err(Fault::Register),
                }
            },
        }
    }
}


/// The value of a run of `radix` digits at `start..end`, as an immediate
/// token ending at `end`, when it is at most `i32::MAX`.
pub open spec fn radix_immediate(line: Seq<char>, start: int, end: int, radix: nat) -> Result<(Tok, int), Fault> {
    let v = digits_value(line.subrange(start, end), radix);
    if v <= i32::MAX {
        Ok((Tok::Immediate(v as i32), end))
    } else {
        Err(Fault::Parse)
    }
}

/// The number token at `i` (a sign or a digit). After an optional sign, a
/// `0` may start a hexadecimal (`0x`), binary (`0b`) or octal number, or
/// stand alone; otherwise the digits are decimal. A sign before `0x` or
/// `0b`, or no digits after them, is a parse error; a sign before an octal
/// number is ignored; a value that does not fit an `i32` is a parse error.
pub open spec fn lex_number(line: Seq<char>, i: int) -> Result<(Tok, int), Fault> {
    let c = line[i];
    let signed = c == '-' || c == '+';
    let p = if signed { i + 1 } else { i };
    let q = p + 1;
    if p < line.len() && line[p] == '0' {
        if q < line.len() && (line[q] == 'x' || line[q] == 'X') {
            let e = span_end(line, q + 1, digit_class(16));
            if signed || e == q + 1 {
                Err(Fault::Parse)
            } else {
                radix_immediate(line, q + 1, e, 16)
            }
        } else if q < line.len() && (line[q] == 'b' || line[q] == 'B') {
            let e = span_end(line, q + 1, digit_class(2));
            if signed || e == q + 1 {
                Err(Fault::Parse)
            } else {
                radix_immediate(line, q + 1, e, 2)
            }
        } else if q < line.len() && '0' <= line[q] && line[q] <= '7' {
            radix_immediate(line, q, span_end(line, q, digit_class(8)), 8)
        } else {
            Ok((Tok::Immediate(0), q))
        }
    } else {
        let e = span_end(line, p, digit_class(10));
        let v = digits_value(line.subrange(p, e), 10);
        if e == p {
            Err(Fault::Parse)
        } else if c == '-' {
            if v <= 0x8000_0000 {
                Ok((Tok::Immediate((-v) as i32), e))
            } else {
                Err(Fault::Parse)
            }
        } else if v <= i32::MAX {
            Ok((Tok::Immediate(v as i32), e))
        } else {
            Err(Fault::Parse)
        }
    }
}

/// `radix_immediate`, for a non-empty run of digits.
fn radix_immediate_at(line: &Vec<char>, start: usize, end: usize, radix: u32) -> (r: Result<(Token, usize), Fault>)
    requires
        start <= end <= line.len(),
        2 <= radix <= 16,
        forall|k: int| start <= k < end ==> #[trigger] is_digit(line@[k], radix as nat),
    ensures
        lexeme_is(r, radix_immediate(line@, start as int, end as int, radix as nat)),
        r matches Ok((_, e)) ==> e == end,
{
    match digits_up_to(line, start, end, radix, i32::MAX as u64) {
        Some(v) => Ok((Token::Immediate(v as i32), end)),
        None => Err(Fault::Parse),
    }
}

/// The number token at `i`.
fn lex_number_at(line: &Vec<char>, i: usize) -> (r: Result<(Token, usize), Fault>)
    requires
        i < line.len(),
    ensures
        lexeme_is(r, lex_number(line@, i as int)),
        r matches Ok((_, e)) ==> i < e <= line.len(),
{
    let c = line[i];
    let signed = c == '-' || c == '+';
    let p = if signed { i + 1 } else { i };
    if p < line.len() && line[p] == '0' {
        let q = p + 1;
        if q < line.len() && (line[q] == 'x' || line[q] == 'X') {
            let e = digits_end(line, q + 1, 16);
            proof {
                lemma_digit_span(line@, q + 1, 16);
            }
            if signed || e == q + 1 {
                Err(Fault::Parse)
            } else {
                radix_immediate_at(line, q + 1, e, 16)
            }
        } else if q < line.len() && (line[q] == 'b' || line[q] == 'B') {
            let e = digits_end(line, q + 1, 2);
            proof {
                lemma_digit_span(line@, q + 1, 2);
            }
            if signed || e == q + 1 {
                Err(Fault::Parse)
            } else {
                radix_immediate_at(line, q + 1, e, 2)
            }
        } else if q < line.len() && '0' <= line[q] && line[q] <= '7' {
            let e = digits_end(line, q, 8);
            proof {
                lemma_digit_span(line@, q as int, 8);
            }
            radix_immediate_at(line, q, e, 8)
        } else {
            Ok((Token::Immediate(0), q))
        }
    } else {
        let e = digits_end(line, p, 10);
        proof {
            lemma_digit_span(line@, p as int, 10);
        }
        if e == p {
            return Err(Fault::Parse);
        }
        if c == '-' {
            match digits_up_to(line, p, e, 10, 0x8000_0000u64) {
                Some(v) => {
                    let n: i64 = 0 - (v as i64);
                    Ok((Token::Immediate(n as i32), e))
                },
                None => Err(Fault::Parse),
            }
        } else {
            match digits_up_to(line, p, e, 10, i32::MAX as u64) {
                Some(v) => Ok((Token::Immediate(v as i32), e)),
                None => Err(Fault::Parse),
            }
        }
    }
}

/// The directive token at `i` (a `.`): the dot and the run of
/// alphanumerics and underscores after it.
pub open spec fn lex_directive(line: Seq<char>, i: int) -> (Tok, int) {
    let e = span_end(line, i + 1, directive_class());
    (Tok::Directive(line.subrange(i, e)), e)
}

/// The characters `line[start..end]`.
fn chars_between(line: &Vec<char>, start: usize, end: usize) -> (v: Vec<char>)
    requires
        start <= end <= line.len(),
    ensures
        v@ == line@.subrange(start as int, end as int),
{
    let mut v: Vec<char> = Vec::new();
    let mut k = start;
    while k < end
        invariant
            start <= k <= end <= line.len(),
            v@ == line@.subrange(start as int, k as int),
        decreases end - k,
    {
        v.push(line[k]);
        k = k + 1;
        assert(v@ =~= line@.subrange(start as int, k as int));
    }
    v
}

/// The directive token at `i`.
fn lex_directive_at(line: &Vec<char>, i: usize) -> (r: (Token, usize))
    requires
        i < line.len(),
    ensures
        (r.0@, r.1 as int) == lex_directive(line@, i as int),
        i < r.1 <= line.len(),
{
    let e = name_end(line, i + 1, true, false);
    proof {
        lemma_span_end_bounds(line@, i + 1, directive_class());
    }
    (Token::Directive(chars_between(line, i, e)), e)
}

/// The identifier token at `i` (an ASCII letter or `_`): the run of
/// alphanumerics, underscores and dots; an instruction when its lower-cased
/// text names one, a symbol otherwise.
pub open spec fn lex_identifier(line: Seq<char>, i: int) -> (Tok, int) {
    let e = span_end(line, i + 1, identifier_class());
    let name = line.subrange(i, e);
    match mnemonic_of(lowercased(name)) {
        Some(m) => (Tok::Instruction(m), e),
        None => (Tok::Symbol(name), e),
    }
}

/// The identifier token at `i`.
fn lex_identifier_at(line: &Vec<char>, i: usize) -> (r: (Token, usize))
    requires
        i < line.len(),
    ensures
        (r.0@, r.1 as int) == lex_identifier(line@, i as int),
        i < r.1 <= line.len(),
{
    let e = name_end(line, i + 1, true, true);
    proof {
        lemma_span_end_bounds(line@, i + 1, identifier_class());
    }
    let name = chars_between(line, i, e);
    let lower = to_lowercase(&name);
    match lookup_mnemonic(&lower) {
        Some(m) => (Token::Instruction(m), e),
        None => (Token::Symbol(name), e),
    }
}

/// The character that the escape `\e` stands for.
pub open spec fn escaped(e: char) -> char {
    if e == 'n' {
        '\n'
    } else if e == 't' {
        '\t'
    } else if e == 'r' {
        '\r'
    } else if e == '0' {
        '\0'
    } else {
        e
    }
}

/// The end of the at most two hexadecimal digits of a `\x` escape that
/// start at `k`.
pub open spec fn hex_escape_end(line: Seq<char>, k: int) -> int {
    if k < line.len() && is_digit(line[k], 16) {
        if k + 1 < line.len() && is_digit(line[k + 1], 16) {
            k + 2
        } else {
            k + 1
        }
    } else {
        k
    }
}

/// The body of a string literal from `j`, with `acc` read so far: up to the
/// closing quote or the end of the line. `\n`, `\t`, `\r`, `\0` and `\xHH`
/// (one or two hexadecimal digits, a Latin-1 character) are escapes; any
/// other escaped character stands for itself. A backslash at the end of the
/// line, or `\x` without digits, is a parse error.
pub open spec fn string_from(line: Seq<char>, j: int, acc: Seq<char>) -> Result<(Seq<char>, int), Fault>
    decreases line.len() - j,
{
    if j < 0 || j >= line.len() {
        Ok((acc, j))
    } else if line[j] == '"' {
        Ok((acc, j + 1))
    } else if line[j] == '\\' {
        if j + 1 >= line.len() {
            Err(Fault::Parse)
        } else if line[j + 1] == 'x' {
            let k = hex_escape_end(line, j + 2);
            if k == j + 2 {
                Err(Fault::Parse)
            } else {
                string_from(line, k, acc.push((digits_value(line.subrange(j + 2, k), 16) as u8) as char))
            }
        } else {
            string_from(line, j + 2, acc.push(escaped(line[j + 1])))
        }
    } else {
        string_from(line, j + 1, acc.push(line[j]))
    }
}

/// The string token at `i` (a `"`).
pub open spec fn lex_string(line: Seq<char>, i: int) -> Result<(Tok, int), Fault> {
    match string_from(line, i + 1, Seq::empty()) {
        Ok((s, e)) => Ok((Tok::StringLiteral(s), e)),
        Err(f) => Err(f),
    }
}

proof fn lemma_string_from_end(line: Seq<char>, j: int, acc: Seq<char>)
    requires
        0 <= j <= line.len(),
    ensures
        string_from(line, j, acc) matches Ok((_, e)) ==> j <= e <= line.len(),
    decreases line.len() - j,
{
    if j < line.len() && line[j] != '"' {
        if line[j] == '\\' {
            if j + 1 < line.len() {
                if line[j + 1] == 'x' {
                    let k = hex_escape_end(line, j + 2);
                    if k != j + 2 {
                        lemma_string_from_end(
                            line,
                            k,
                            acc.push((digits_value(line.subrange(j + 2, k), 16) as u8) as char),
                        );
                    }
                } else {
                    lemma_string_from_end(line, j + 2, acc.push(escaped(line[j + 1])));
                }
            }
        } else {
            lemma_string_from_end(line, j + 1, acc.push(line[j]));
        }
    }
}

/// The string token at `i`.
fn lex_string_at(line: &Vec<char>, i: usize) -> (r: Result<(Token, usize), Fault>)
    requires
        i < line.len(),
    ensures
        lexeme_is(r, lex_string(line@, i as int)),
        r matches Ok((_, e)) ==> i < e <= line.len(),
{
    let mut acc: Vec<char> = Vec::new();
    let mut j = i + 1;
    proof {
        lemma_string_from_end(line@, j as int, acc@);
    }
    while j < line.len()
        invariant
            i < j <= line.len(),
            string_from(line@, i + 1, Seq::empty()) == string_from(line@, j as int, acc@),
        decreases line.len() - j,
    {
        let c = line[j];
        if c == '"' {
            proof {
                lemma_string_from_end(line@, i + 1, Seq::empty());
            }
            return Ok((Token::StringLiteral(acc), j + 1));
        } else if c == '\\' {
            if j + 1 >= line.len() {
                return Err(Fault::Parse);
            }
            let e = line[j + 1];
            if e == 'x' {
                let mut k = j + 2;
                let mut value: u32 = 0;
                let ghost d1: nat = 0;
                let ghost d2: nat = 0;
                if k < line.len() && digit_value(line[k], 16).is_some() {
                    value = digit_value(line[k], 16).unwrap();
                    proof {
                        d1 = value as nat;
                    }
                    k = k + 1;
                    if k < line.len() && digit_value(line[k], 16).is_some() {
                        let d = digit_value(line[k], 16).unwrap();
                        proof {
                            d2 = d as nat;
                        }
                        value = value * 16 + d;
                        k = k + 1;
                    }
                }
                if k == j + 2 {
                    return Err(Fault::Parse);
                }
                proof {
                    let ds = line@.subrange(j + 2, k as int);
                    assert(k == hex_escape_end(line@, j + 2));
                    assert(digit_of(line@[j + 2], 16) == Some(d1));
                    assert(ds[0] == line@[j + 2]);
                    if k == j + 3 {
                        assert(ds.drop_last() =~= Seq::<char>::empty());
                        assert(ds.last() == line@[j + 2]);
                        assert(digits_value(ds.drop_last(), 16) == 0);
                        assert(digits_value(ds, 16) == d1);
                        assert(value == d1);
                    } else {
                        assert(digit_of(line@[j + 3], 16) == Some(d2));
                        assert(ds.drop_last().drop_last() =~= Seq::<char>::empty());
                        assert(ds.drop_last() =~= line@.subrange(j + 2, j + 3));
                        assert(ds.last() == line@[j + 3]);
                        assert(ds.drop_last().last() == line@[j + 2]);
                        assert(digits_value(ds.drop_last().drop_last(), 16) == 0);
                        assert(digits_value(ds.drop_last(), 16) == d1);
                        assert(digits_value(ds, 16) == digits_value(ds.drop_last(), 16) * 16 + d2);
                        assert(value == d1 * 16 + d2);
                    }
                    assert(value == digits_value(ds, 16));
                }
                acc.push((value as u8) as char);
                j = k;
            } else {
                let ch = if e == 'n' {
                    '\n'
                } else if e == 't' {
                    '\t'
                } else if e == 'r' {
                    '\r'
                } else if e == '0' {
                    '\0'
                } else {
                    e
                };
                acc.push(ch);
                j = j + 2;
            }
        } else {
            acc.push(c);
            j = j + 1;
        }
    }
    proof {
        lemma_string_from_end(line@, i + 1, Seq::empty());
    }
    Ok((Token::StringLiteral(acc), j))
}


/// The token that starts at `i` with its end, for a character that starts
/// a register, number, directive, string or identifier; any other character
/// is a syntax error.
pub open spec fn lexeme(line: Seq<char>, i: int) -> Result<(Tok, int), Fault> {
    let c = line[i];
    if c == '$' {
        lex_register(line, i)
    } else if c == '-' || c == '+' || ('0' <= c && c <= '9') {
        lex_number(line, i)
    } else if c == '.' {
        Ok(lex_directive(line, i))
    } else if c == '"' {
        lex_string(line, i)
    } else if ('a' <= c && c <= 'z') || ('A' <= c && c <= 'Z') || c == '_' {
        Ok(lex_identifier(line, i))
    } else {
        Err(Fault::Syntax)
    }
}

/// `t` followed by the tokens of `r`.
pub open spec fn prepend(t: Tok, r: Result<Seq<Tok>, Fault>) -> Result<Seq<Tok>, Fault> {
    match r {
        Ok(s) => Ok(seq![t] + s),
        Err(f) => Err(f),
    }
}

/// The tokens `acc` followed by those of `r`.
pub open spec fn after(acc: Seq<Tok>, r: Result<Seq<Tok>, Fault>) -> Result<Seq<Tok>, Fault> {
    match r {
        Ok(s) => Ok(acc + s),
        Err(f) => Err(f),
    }
}

/// The tokens of `line` from `i`: blanks (space, tab, carriage return,
/// line feed) separate tokens, commas and parentheses are tokens of their
/// own, and `#` ends the line.
pub open spec fn lex_from(line: Seq<char>, i: int) -> Result<Seq<Tok>, Fault>
    decreases line.len() - i,
{
    if i < 0 || i >= line.len() {
        Ok(Seq::empty())
    } else {
        let c = line[i];
        if c == ' ' || c == '\t' || c == '\r' || c == '\n' {
            lex_from(line, i + 1)
        } else if c == ',' {
            prepend(Tok::Comma, lex_from(line, i + 1))
        } else if c == '(' {
            prepend(Tok::LeftParen, lex_from(line, i + 1))
        } else if c == ')' {
            prepend(Tok::RightParen, lex_from(line, i + 1))
        } else if c == '#' {
            Ok(Seq::empty())
        } else {
            match lexeme(line, i) {
                Err(f) => Err(f),
                Ok((t, e)) => if i < e <= line.len() {
                    prepend(t, lex_from(line, e))
                } else {
                    Err(Fault::Syntax)
                },
            }
        }
    }
}

/// The tokens of a line.
pub open spec fn tokens_of(line: Seq<char>) -> Result<Seq<Tok>, Fault> {
    lex_from(line, 0)
}

proof fn lemma_after_prepend(acc: Seq<Tok>, t: Tok, r: Result<Seq<Tok>, Fault>)
    ensures
        after(acc, prepend(t, r)) == after(acc.push(t), r),
{
    if let Ok(s) = r {
        assert(acc + (seq![t] + s) =~= acc.push(t) + s);
    }
}

/// Splits a line into tokens (see `lex_from`).
pub fn tokenize(line: &Vec<char>) -> (r: Result<Vec<Token>, Fault>)
    ensures
        match r {
            Ok(v) => tokens_of(line@) == Ok::<Seq<Tok>, Fault>(toks(v@)),
            Err(f) => tokens_of(line@) == Err::<Seq<Tok>, Fault>(f),
        },
{
    let mut tokens: Vec<Token> = Vec::new();
    let mut i: usize = 0;
    while i < line.len() && line[i] != '#'
        invariant
            i <= line.len(),
            tokens_of(line@) == after(toks(tokens@), lex_from(line@, i as int)),
        decreases line.len() - i,
    {
        let c = line[i];
        let ghost before = toks(tokens@);
        if c == ' ' || c == '\t' || c == '\r' || c == '\n' {
            i = i + 1;
        } else if c == ',' || c == '(' || c == ')' {
            let t = if c == ',' {
                Token::Comma
            } else if c == '(' {
                Token::LeftParen
            } else {
                Token::RightParen
            };
            proof {
                lemma_after_prepend(before, t@, lex_from(line@, i + 1));
            }
            tokens.push(t);
            assert(toks(tokens@) =~= before.push(t@));
            i = i + 1;
        } else {
            let lexed: Result<(Token, usize), Fault> = if c == '$' {
                lex_register_at(line, i)
            } else if c == '-' || c == '+' || ('0' <= c && c <= '9') {
                lex_number_at(line, i)
            } else if c == '.' {
                Ok(lex_directive_at(line, i))
            } else if c == '"' {
                lex_string_at(line, i)
            } else if ('a' <= c && c <= 'z') || ('A' <= c && c <= 'Z') || c == '_' {
                Ok(lex_identifier_at(line, i))
            } else {
                Err(Fault::Syntax)
            };
            assert(lexeme_is(lexed, lexeme(line@, i as int)));
            match lexed {
                Ok((t, e)) => {
                    proof {
                        lemma_after_prepend(before, t@, lex_from(line@, e as int));
                    }
                    tokens.push(t);
                    assert(toks(tokens@) =~= before.push(t@));
                    i = e;
                },
                Err(f) => {
                    return Err(f);
                },
            }
        }
    }
    assert(toks(tokens@) + Seq::<Tok>::empty() =~= toks(tokens@));
    Ok(tokens)
}


/// Whether every register token of `ts` names one of the 32 registers.
pub open spec fn registers_in_range(ts: Seq<Tok>) -> bool {
    forall|k: int|
        0 <= k < ts.len() ==> (#[trigger] ts[k] matches Tok::Register(n) ==> n < 32) && (ts[k] matches Tok::FpRegister(
            n,
        ) ==> n < 32)
}

/// Lexing only gives register tokens for registers 0 to 31.
pub proof fn law_lexed_registers_in_range(line: Seq<char>, i: int)
    ensures
        lex_from(line, i) matches Ok(ts) ==> registers_in_range(ts),
    decreases line.len() - i,
{
    if 0 <= i < line.len() {
        let c = line[i];
        if c == ' ' || c == '\t' || c == '\r' || c == '\n' {
            law_lexed_registers_in_range(line, i + 1);
        } else if c == ',' || c == '(' || c == ')' {
            law_lexed_registers_in_range(line, i + 1);
            let t = if c == ',' {
                Tok::Comma
            } else if c == '(' {
                Tok::LeftParen
            } else {
                Tok::RightParen
            };
            if let Ok(rest) = lex_from(line, i + 1) {
                assert forall|k: int| 0 <= k < (seq![t] + rest).len() implies (#[trigger] (seq![t] + rest)[k] matches Tok::Register(
                    n,
                ) ==> n < 32) && ((seq![t] + rest)[k] matches Tok::FpRegister(n) ==> n < 32) by {
                    if k > 0 {
                        assert((seq![t] + rest)[k] == rest[k - 1]);
                    }
                }
            }
        } else if c != '#' {
            if let Ok((t, e)) = lexeme(line, i) {
                if i < e <= line.len() {
                    law_lexed_registers_in_range(line, e);
                    if let Ok(rest) = lex_from(line, e) {
                        assert(t matches Tok::Register(n) ==> n < 32);
                        assert forall|k: int| 0 <= k < (seq![t] + rest).len() implies (#[trigger] (seq![t] + rest)[k] matches Tok::Register(
                            n,
                        ) ==> n < 32) && ((seq![t] + rest)[k] matches Tok::FpRegister(n) ==> n < 32) by {
                            if k > 0 {
                                assert((seq![t] + rest)[k] == rest[k - 1]);
                            }
                        }
                    }
                }
            }
        }
    }
}

} // verus!
