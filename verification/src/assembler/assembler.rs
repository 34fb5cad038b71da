//! The two-pass assembler: the first pass lays out labels, the second
//! emits the data and text sections, and the image is a header of the two
//! section sizes followed by the sections.
use vstd::prelude::*;
use super::encoding::{assemble_instruction, encoding, find_label, label_seq, label_value, ops_from};
use super::lexer::{Fault, Tok, Token, eq_str, tokenize, tokens_of, toks};
use crate::functional_simulator::memory::le_word;
use crate::functional_simulator::disassembly::{decimal, push_count};
use super::text::{find_char, find_from, lines_of, preprocess_line, preprocessed, push_utf8, split_lines, trim, trimmed, utf8};

verus! {

/// An assembly error, with its message and the line it was found on.
#[derive(Debug)]
pub enum AssemblerError {
    IoError(std::io::Error),
    ParseError(String, usize),
    SymbolError(String, usize),
    SyntaxError(String, usize),
    RegisterError(String, usize),
    OperandError(String, usize),
    RangeError(String, usize),
    UnsupportedError(String, usize),
}

/// The kind and line of an assembly error (none for an I/O error).
pub open spec fn fault_of(e: AssemblerError) -> Option<(Fault, usize)> {
    match e {
        AssemblerError::IoError(_) => None,
        AssemblerError::ParseError(_, l) => Some((Fault::Parse, l)),
        AssemblerError::SymbolError(_, l) => Some((Fault::Symbol, l)),
        AssemblerError::SyntaxError(_, l) => Some((Fault::Syntax, l)),
        AssemblerError::RegisterError(_, l) => Some((Fault::Register, l)),
        AssemblerError::OperandError(_, l) => Some((Fault::Operand, l)),
        AssemblerError::RangeError(_, l) => Some((Fault::Range, l)),
        AssemblerError::UnsupportedError(_, l) => Some((Fault::Unsupported, l)),
    }
}

/// The words that open the message of an error of kind `f`.
pub open spec fn fault_label(f: Fault) -> Seq<char> {
    match f {
        Fault::Parse => "Parse error"@,
        Fault::Symbol => "Symbol error"@,
        Fault::Syntax => "Syntax error"@,
        Fault::Register => "Register error"@,
        Fault::Operand => "Operand error"@,
        Fault::Range => "Range error"@,
        Fault::Unsupported => "Unsupported feature"@,
    }
}

/// The text of an I/O error (`Display` of `std::io::Error`).
#[verifier::external_body]
fn io_error_text(err: &std::io::Error) -> (r: String) {
    format!("{}", err)
}

impl AssemblerError {
    /// The error's message: for an assembly error, its kind, `at line`,
    /// the line and the detail; for an I/O error, `I/O error: ` and the
    /// error's own text.
    pub fn message(&self) -> (r: String)
        ensures
            match *self {
                AssemblerError::IoError(_) => exists|t: Seq<char>| r@ == "I/O error: "@ + t,
                AssemblerError::ParseError(m, l) => r@ == fault_label(Fault::Parse) + " at line "@ + decimal(l as nat) + ": "@ + m@,
                AssemblerError::SymbolError(m, l) => r@ == fault_label(Fault::Symbol) + " at line "@ + decimal(l as nat) + ": "@ + m@,
                AssemblerError::SyntaxError(m, l) => r@ == fault_label(Fault::Syntax) + " at line "@ + decimal(l as nat) + ": "@ + m@,
                AssemblerError::RegisterError(m, l) => r@ == fault_label(Fault::Register) + " at line "@ + decimal(l as nat) + ": "@ + m@,
                AssemblerError::OperandError(m, l) => r@ == fault_label(Fault::Operand) + " at line "@ + decimal(l as nat) + ": "@ + m@,
                AssemblerError::RangeError(m, l) => r@ == fault_label(Fault::Range) + " at line "@ + decimal(l as nat) + ": "@ + m@,
                AssemblerError::UnsupportedError(m, l) => r@ == fault_label(Fault::Unsupported) + " at line "@ + decimal(l as nat) + ": "@ + m@,
            },
    {
        let (label, detail, line): (&str, &String, usize) = match self {
            AssemblerError::IoError(err) => {
                let mut s = String::new();
                s.append("I/O error: ");
                let t = io_error_text(err);
                s.append(t.as_str());
                return s;
            },
            AssemblerError::ParseError(m, l) => ("Parse error", m, *l),
            AssemblerError::SymbolError(m, l) => ("Symbol error", m, *l),
            AssemblerError::SyntaxError(m, l) => ("Syntax error", m, *l),
            AssemblerError::RegisterError(m, l) => ("Register error", m, *l),
            AssemblerError::OperandError(m, l) => ("Operand error", m, *l),
            AssemblerError::RangeError(m, l) => ("Range error", m, *l),
            AssemblerError::UnsupportedError(m, l) => ("Unsupported feature", m, *l),
        };
        let mut s = String::new();
        s.append(label);
        s.append(" at line ");
        push_count(&mut s, line);
        s.append(": ");
        s.append(detail.as_str());
        s
    }
}

/// The error of kind `f` at `line`.
fn error_at(f: Fault, line: usize) -> (e: AssemblerError)
    ensures
        fault_of(e) == Some((f, line)),
{
    match f {
        Fault::Parse => AssemblerError::ParseError("invalid number or escape sequence".to_string(), line),
        Fault::Symbol => AssemblerError::SymbolError("undefined symbol".to_string(), line),
        Fault::Syntax => AssemblerError::SyntaxError("invalid syntax".to_string(), line),
        Fault::Register => AssemblerError::RegisterError("invalid register".to_string(), line),
        Fault::Operand => AssemblerError::OperandError("invalid operand".to_string(), line),
        Fault::Range => AssemblerError::RangeError("value out of range".to_string(), line),
        Fault::Unsupported => AssemblerError::UnsupportedError(
            "unsupported instruction".to_string(),
            line,
        ),
    }
}

/// What the first pass knows after some lines: the labels defined so far
/// (later definitions win), the current address, and the section.
pub struct Layout {
    pub labels: Seq<(Seq<char>, u32)>,
    pub address: u32,
    pub in_data: bool,
}

/// `st` with the address moved on by `n`; a range error past `u32::MAX`.
pub open spec fn with_address(st: Layout, n: int) -> Result<Layout, Fault> {
    if st.address + n > u32::MAX {
        Err(Fault::Range)
    } else {
        Ok(Layout { address: (st.address + n) as u32, ..st })
    }
}

/// The number of tokens of `ts` that are numbers or symbols.
pub open spec fn count_values(ts: Seq<Tok>) -> nat
    decreases ts.len(),
{
    if ts.len() == 0 {
        0
    } else {
        count_values(ts.drop_last()) + if ts.last() is Immediate || ts.last() is Symbol {
            1nat
        } else {
            0
        }
    }
}

/// The number of tokens of `ts` that are numbers.
pub open spec fn count_immediates(ts: Seq<Tok>) -> nat
    decreases ts.len(),
{
    if ts.len() == 0 {
        0
    } else {
        count_immediates(ts.drop_last()) + if ts.last() is Immediate {
            1nat
        } else {
            0
        }
    }
}

/// The bytes that `.align a` adds at `addr` to reach a multiple of `2^a`.
pub open spec fn align_padding(addr: u32, a: i32) -> u32 {
    let alignment = 1u32 << (a as u32);
    let mis = addr % alignment;
    if mis != 0 {
        (alignment - mis) as u32
    } else {
        0
    }
}

/// The first pass over the tokens of a line: section directives switch
/// sections, data directives (only in `.data`) and instructions (only in
/// `.text`) move the address by their size, `.align` pads to its
/// boundary, and other directives are ignored. A line must start with a
/// directive or an instruction.
pub open spec fn first_tokens(st: Layout, ts: Seq<Tok>) -> Result<Layout, Fault> {
    if ts.len() == 0 {
        Ok(st)
    } else {
        match ts[0] {
            Tok::Directive(d) => if d == ".data"@ {
                Ok(Layout { in_data: true, ..st })
            } else if d == ".text"@ {
                Ok(Layout { in_data: false, ..st })
            } else if d == ".word"@ {
                if st.in_data {
                    with_address(st, 4 * count_values(ts) as int)
                } else {
                    Err(Fault::Syntax)
                }
            } else if d == ".byte"@ {
                if st.in_data {
                    with_address(st, count_immediates(ts) as int)
                } else {
                    Err(Fault::Syntax)
                }
            } else if d == ".half"@ {
                if st.in_data {
                    with_address(st, 2 * count_immediates(ts) as int)
                } else {
                    Err(Fault::Syntax)
                }
            } else if d == ".ascii"@ || d == ".asciiz"@ {
                if !st.in_data || ts.len() < 2 {
                    Err(Fault::Syntax)
                } else {
                    match ts[1] {
                        Tok::StringLiteral(s) => with_address(
                            st,
                            utf8(s).len() + if d == ".asciiz"@ {
                                1int
                            } else {
                                0
                            },
                        ),
                        _ => Err(Fault::Syntax),
                    }
                }
            } else if d == ".space"@ {
                if !st.in_data || ts.len() < 2 {
                    Err(Fault::Syntax)
                } else {
                    match ts[1] {
                        Tok::Immediate(n) => if n < 0 {
                            Err(Fault::Range)
                        } else {
                            with_address(st, n as int)
                        },
                        _ => Err(Fault::Syntax),
                    }
                }
            } else if d == ".align"@ {
                if ts.len() < 2 {
                    Err(Fault::Syntax)
                } else {
                    match ts[1] {
                        Tok::Immediate(a) => if a < 0 || a > 31 {
                            Err(Fault::Range)
                        } else {
                            with_address(st, align_padding(st.address, a) as int)
                        },
                        _ => Err(Fault::Syntax),
                    }
                }
            } else {
                Ok(st)
            },
            Tok::Instruction(_) => if !st.in_data {
                with_address(st, 4)
            } else {
                Err(Fault::Syntax)
            },
            _ => Err(Fault::Syntax),
        }
    }
}

/// The first pass over the text of a line without its label.
pub open spec fn first_text(st: Layout, text: Seq<char>) -> Result<Layout, Fault> {
    match tokens_of(text) {
        Ok(ts) => first_tokens(st, ts),
        Err(f) => Err(f),
    }
}

/// The first pass over a source line: a label before the first `:` is
/// defined at the current address, and the rest of the line is laid out.
#[verifier::opaque]
pub open spec fn first_line(st: Layout, line: Seq<char>) -> Result<Layout, Fault> {
    let l = preprocessed(line);
    if l.len() == 0 {
        Ok(st)
    } else {
        match find_from(l, 0, ':') {
            Some(k) => {
                let label = trimmed(l.subrange(0, k));
                let st1 = if label.len() > 0 {
                    Layout { labels: st.labels.push((label, st.address)), ..st }
                } else {
                    st
                };
                let rest = trimmed(l.subrange(k + 1, l.len() as int));
                if rest.len() == 0 {
                    Ok(st1)
                } else {
                    first_text(st1, rest)
                }
            },
            None => first_text(st, l),
        }
    }
}

/// The layout after the first `n` lines, or the first error with its
/// (1-based) line number.
pub open spec fn first_pass(lines: Seq<Seq<char>>, n: nat) -> Result<Layout, (Fault, nat)>
    decreases n,
{
    if n == 0 {
        Ok(Layout { labels: Seq::empty(), address: 0, in_data: false })
    } else {
        match first_pass(lines, (n - 1) as nat) {
            Err(e) => Err(e),
            Ok(st) => match first_line(st, lines[n - 1]) {
                Ok(st2) => Ok(st2),
                Err(f) => Err((f, n)),
            },
        }
    }
}

/// An error on a line ends the first pass.
proof fn lemma_first_pass_stops(lines: Seq<Seq<char>>, m: nat, n: nat)
    requires
        m <= n,
        first_pass(lines, m) is Err,
    ensures
        first_pass(lines, n) == first_pass(lines, m),
    decreases n - m,
{
    if m < n {
        lemma_first_pass_stops(lines, m, (n - 1) as nat);
    }
}

/// What the second pass has emitted after some lines.
pub struct Image {
    pub data: Seq<u8>,
    pub text: Seq<u32>,
    pub address: u32,
    pub in_data: bool,
}

/// The little-endian bytes of `w`.
pub open spec fn le_bytes(w: u32) -> Seq<u8> {
    seq![w as u8, (w >> 8u32) as u8, (w >> 16u32) as u8, (w >> 24u32) as u8]
}

/// `n` zero bytes.
pub open spec fn zeros(n: nat) -> Seq<u8> {
    Seq::new(n, |i: int| 0u8)
}

/// `st` with `bytes` added to the data section and the address moved on by
/// `n`; a range error past `u32::MAX`.
pub open spec fn emit_data(st: Image, bytes: Seq<u8>, n: int) -> Result<Image, Fault> {
    if st.address + n > u32::MAX {
        Err(Fault::Range)
    } else {
        Ok(Image { data: st.data + bytes, address: (st.address + n) as u32, ..st })
    }
}

/// The `.word` values of `ts` from `i`: numbers and label addresses as
/// little-endian words, commas skipped.
pub open spec fn emit_words(st: Image, ts: Seq<Tok>, i: int, labels: Seq<(Seq<char>, u32)>) -> Result<Image, Fault>
    decreases ts.len() - i,
{
    if i < 0 || i >= ts.len() {
        Ok(st)
    } else {
        match ts[i] {
            Tok::Comma => emit_words(st, ts, i + 1, labels),
            Tok::Immediate(v) => match emit_data(st, le_bytes(v as u32), 4) {
                Ok(st2) => emit_words(st2, ts, i + 1, labels),
                Err(f) => Err(f),
            },
            Tok::Symbol(s) => match label_value(labels, s) {
                Some(a) => match emit_data(st, le_bytes(a), 4) {
                    Ok(st2) => emit_words(st2, ts, i + 1, labels),
                    Err(f) => Err(f),
                },
                None => Err(Fault::Symbol),
            },
            _ => Err(Fault::Syntax),
        }
    }
}

/// The `.byte` (`half` false) or `.half` (`half` true) values of `ts`
/// from `i`: numbers in `-128..=255` as bytes, or in `-32768..=65535` as
/// little-endian halfwords, commas skipped.
pub open spec fn emit_small(st: Image, ts: Seq<Tok>, i: int, half: bool) -> Result<Image, Fault>
    decreases ts.len() - i,
{
    if i < 0 || i >= ts.len() {
        Ok(st)
    } else {
        match ts[i] {
            Tok::Comma => emit_small(st, ts, i + 1, half),
            Tok::Immediate(v) => if !half {
                if v < -128 || v > 255 {
                    Err(Fault::Range)
                } else {
                    match emit_data(st, seq![v as u8], 1) {
                        Ok(st2) => emit_small(st2, ts, i + 1, half),
                        Err(f) => Err(f),
                    }
                }
            } else {
                if v < -32768 || v > 65535 {
                    Err(Fault::Range)
                } else {
                    match emit_data(st, seq![(v as u16) as u8, ((v as u16) >> 8u16) as u8], 2) {
                        Ok(st2) => emit_small(st2, ts, i + 1, half),
                        Err(f) => Err(f),
                    }
                }
            },
            _ => Err(Fault::Syntax),
        }
    }
}

/// The second pass over the tokens of a line: data directives emit their
/// values into the data section, instructions their words into the text
/// section, `.align` pads with zero bytes (data) or zero words (text), and
/// every emission moves the address by its size.
pub open spec fn second_tokens(st: Image, ts: Seq<Tok>, labels: Seq<(Seq<char>, u32)>) -> Result<Image, Fault> {
    if ts.len() == 0 {
        Ok(st)
    } else {
        match ts[0] {
            Tok::Directive(d) => if d == ".data"@ {
                Ok(Image { in_data: true, ..st })
            } else if d == ".text"@ {
                Ok(Image { in_data: false, ..st })
            } else if d == ".word"@ {
                if st.in_data {
                    emit_words(st, ts, 1, labels)
                } else {
                    Err(Fault::Syntax)
                }
            } else if d == ".byte"@ {
                if st.in_data {
                    emit_small(st, ts, 1, false)
                } else {
                    Err(Fault::Syntax)
                }
            } else if d == ".half"@ {
                if st.in_data {
                    emit_small(st, ts, 1, true)
                } else {
                    Err(Fault::Syntax)
                }
            } else if d == ".ascii"@ || d == ".asciiz"@ {
                if !st.in_data || ts.len() < 2 {
                    Err(Fault::Syntax)
                } else {
                    match ts[1] {
                        Tok::StringLiteral(s) => if d == ".asciiz"@ {
                            emit_data(st, utf8(s).push(0u8), utf8(s).len() + 1int)
                        } else {
                            emit_data(st, utf8(s), utf8(s).len() as int)
                        },
                        _ => Err(Fault::Syntax),
                    }
                }
            } else if d == ".space"@ {
                if !st.in_data || ts.len() < 2 {
                    Err(Fault::Syntax)
                } else {
                    match ts[1] {
                        Tok::Immediate(n) => if n < 0 {
                            Err(Fault::Range)
                        } else {
                            emit_data(st, zeros(n as nat), n as int)
                        },
                        _ => Err(Fault::Syntax),
                    }
                }
            } else if d == ".align"@ {
                if ts.len() < 2 {
                    Err(Fault::Syntax)
                } else {
                    match ts[1] {
                        Tok::Immediate(a) => if a < 0 || a > 31 {
                            Err(Fault::Range)
                        } else {
                            let pad = align_padding(st.address, a);
                            if pad == 0 {
                                Ok(st)
                            } else if st.address + pad > u32::MAX {
                                Err(Fault::Range)
                            } else if st.in_data {
                                Ok(
                                    Image {
                                        data: st.data + zeros(pad as nat),
                                        address: (st.address + pad) as u32,
                                        ..st
                                    },
                                )
                            } else {
                                Ok(
                                    Image {
                                        text: st.text + Seq::new((pad / 4) as nat, |i: int| 0u32),
                                        address: (st.address + pad) as u32,
                                        ..st
                                    },
                                )
                            }
                        },
                        _ => Err(Fault::Syntax),
                    }
                }
            } else {
                Ok(st)
            },
            Tok::Instruction(m) => if !st.in_data {
                match encoding(m, ts.skip(1), labels, st.address) {
                    Ok(w) => if st.address + 4 > u32::MAX {
                        Err(Fault::Range)
                    } else {
                        Ok(Image { text: st.text.push(w), address: (st.address + 4) as u32, ..st })
                    },
                    Err(f) => Err(f),
                }
            } else {
                Err(Fault::Syntax)
            },
            _ => Err(Fault::Syntax),
        }
    }
}

proof fn lemma_count_values_concat(a: Seq<Tok>, b: Seq<Tok>)
    ensures
        count_values(a + b) == count_values(a) + count_values(b),
        count_immediates(a + b) == count_immediates(a) + count_immediates(b),
    decreases b.len(),
{
    if b.len() == 0 {
        assert(a + b =~= a);
    } else {
        lemma_count_values_concat(a, b.drop_last());
        assert((a + b).drop_last() =~= a + b.drop_last());
    }
}

proof fn lemma_count_split_first(ts: Seq<Tok>, i: int)
    requires
        0 <= i < ts.len(),
    ensures
        count_values(ts.subrange(i, ts.len() as int)) == (if ts[i] is Immediate || ts[i] is Symbol {
            1nat
        } else {
            0
        }) + count_values(ts.subrange(i + 1, ts.len() as int)),
        count_immediates(ts.subrange(i, ts.len() as int)) == (if ts[i] is Immediate {
            1nat
        } else {
            0
        }) + count_immediates(ts.subrange(i + 1, ts.len() as int)),
{
    let one = seq![ts[i]];
    assert(one.drop_last() =~= Seq::<Tok>::empty());
    assert(count_values(one) == count_values(one.drop_last()) + (if one.last() is Immediate || one.last() is Symbol {
        1nat
    } else {
        0
    }));
    assert(count_immediates(one) == count_immediates(one.drop_last()) + (if one.last() is Immediate {
        1nat
    } else {
        0
    }));
    lemma_count_values_concat(one, ts.subrange(i + 1, ts.len() as int));
    assert(one + ts.subrange(i + 1, ts.len() as int) =~= ts.subrange(i, ts.len() as int));
}

proof fn lemma_emit_words_advance(st: Image, ts: Seq<Tok>, i: int, labels: Seq<(Seq<char>, u32)>)
    requires
        1 <= i <= ts.len(),
        emit_words(st, ts, i, labels) is Ok,
    ensures
        emit_words(st, ts, i, labels)->Ok_0.address == st.address + 4 * count_values(ts.subrange(i, ts.len() as int)),
        emit_words(st, ts, i, labels)->Ok_0.in_data == st.in_data,
    decreases ts.len() - i,
{
    if i < ts.len() {
        lemma_count_split_first(ts, i);
        match ts[i] {
            Tok::Comma => lemma_emit_words_advance(st, ts, i + 1, labels),
            Tok::Immediate(v) => {
                let st2 = emit_data(st, le_bytes(v as u32), 4)->Ok_0;
                lemma_emit_words_advance(st2, ts, i + 1, labels);
            },
            Tok::Symbol(sy) => {
                let a = label_value(labels, sy)->Some_0;
                let st2 = emit_data(st, le_bytes(a), 4)->Ok_0;
                lemma_emit_words_advance(st2, ts, i + 1, labels);
            },
            _ => {},
        }
    } else {
        assert(ts.subrange(i, ts.len() as int) =~= Seq::<Tok>::empty());
    }
}

proof fn lemma_emit_small_advance(st: Image, ts: Seq<Tok>, i: int, half: bool)
    requires
        1 <= i <= ts.len(),
        emit_small(st, ts, i, half) is Ok,
    ensures
        emit_small(st, ts, i, half)->Ok_0.address == st.address + (if half { 2int } else { 1int })
            * count_immediates(ts.subrange(i, ts.len() as int)),
        emit_small(st, ts, i, half)->Ok_0.in_data == st.in_data,
    decreases ts.len() - i,
{
    if i < ts.len() {
        lemma_count_split_first(ts, i);
        match ts[i] {
            Tok::Comma => lemma_emit_small_advance(st, ts, i + 1, half),
            Tok::Immediate(v) => {
                let st2 = if !half {
                    emit_data(st, seq![v as u8], 1)->Ok_0
                } else {
                    emit_data(st, seq![(v as u16) as u8, ((v as u16) >> 8u16) as u8], 2)->Ok_0
                };
                lemma_emit_small_advance(st2, ts, i + 1, half);
            },
            _ => {},
        }
    } else {
        assert(ts.subrange(i, ts.len() as int) =~= Seq::<Tok>::empty());
    }
}

/// The two passes lay a line out alike: from the same address and
/// section, when the second pass over a line's tokens succeeds, the first
/// pass succeeds too and moves the address to the same place, in the same
/// section.
pub proof fn law_passes_advance_alike(st: Layout, img: Image, ts: Seq<Tok>, labels: Seq<(Seq<char>, u32)>)
    requires
        st.address == img.address,
        st.in_data == img.in_data,
        second_tokens(img, ts, labels) is Ok,
    ensures
        first_tokens(st, ts) is Ok,
        first_tokens(st, ts)->Ok_0.address == second_tokens(img, ts, labels)->Ok_0.address,
        first_tokens(st, ts)->Ok_0.in_data == second_tokens(img, ts, labels)->Ok_0.in_data,
{
    if ts.len() > 0 {
        assert(ts.subrange(1, ts.len() as int) =~= ts.drop_first());
        lemma_count_split_first(ts, 0);
        assert(ts.subrange(0, ts.len() as int) =~= ts);
        reveal_strlit(".data");
        reveal_strlit(".text");
        reveal_strlit(".word");
        reveal_strlit(".byte");
        reveal_strlit(".half");
        assert(".word"@[1] != ".data"@[1] && ".word"@[1] != ".text"@[1]);
        assert(".byte"@[1] != ".data"@[1] && ".byte"@[1] != ".text"@[1] && ".byte"@[1] != ".word"@[1]);
        assert(".half"@[1] != ".data"@[1] && ".half"@[1] != ".text"@[1] && ".half"@[1] != ".word"@[1]
            && ".half"@[1] != ".byte"@[1]);
        match ts[0] {
            Tok::Directive(d) => {
                if d == ".word"@ {
                    lemma_emit_words_advance(img, ts, 1, labels);
                } else if d == ".byte"@ {
                    lemma_emit_small_advance(img, ts, 1, false);
                } else if d == ".half"@ {
                    lemma_emit_small_advance(img, ts, 1, true);
                }
            },
            _ => {},
        }
    }
}

/// The second pass over the text of a line without its label.
pub open spec fn second_text(st: Image, text: Seq<char>, labels: Seq<(Seq<char>, u32)>) -> Result<Image, Fault> {
    match tokens_of(text) {
        Ok(ts) => second_tokens(st, ts, labels),
        Err(f) => Err(f),
    }
}

/// The second pass over a source line; its label was defined by the first
/// pass.
#[verifier::opaque]
pub open spec fn second_line(st: Image, line: Seq<char>, labels: Seq<(Seq<char>, u32)>) -> Result<Image, Fault> {
    let l = preprocessed(line);
    if l.len() == 0 {
        Ok(st)
    } else {
        match find_from(l, 0, ':') {
            Some(k) => {
                let rest = trimmed(l.subrange(k + 1, l.len() as int));
                if rest.len() == 0 {
                    Ok(st)
                } else {
                    second_text(st, rest, labels)
                }
            },
            None => second_text(st, l, labels),
        }
    }
}

/// The image after the first `n` lines of the second pass, or the first
/// error with its line number.
pub open spec fn second_pass(lines: Seq<Seq<char>>, n: nat, labels: Seq<(Seq<char>, u32)>) -> Result<Image, (Fault, nat)>
    decreases n,
{
    if n == 0 {
        Ok(Image { data: Seq::empty(), text: Seq::empty(), address: 0, in_data: false })
    } else {
        match second_pass(lines, (n - 1) as nat, labels) {
            Err(e) => Err(e),
            Ok(st) => match second_line(st, lines[n - 1], labels) {
                Ok(st2) => Ok(st2),
                Err(f) => Err((f, n)),
            },
        }
    }
}

/// An error on a line ends the second pass.
proof fn lemma_second_pass_stops(lines: Seq<Seq<char>>, m: nat, n: nat, labels: Seq<(Seq<char>, u32)>)
    requires
        m <= n,
        second_pass(lines, m, labels) is Err,
    ensures
        second_pass(lines, n, labels) == second_pass(lines, m, labels),
    decreases n - m,
{
    if m < n {
        lemma_second_pass_stops(lines, m, (n - 1) as nat, labels);
    }
}

/// The little-endian bytes of the words `ws`.
pub open spec fn words_bytes(ws: Seq<u32>) -> Seq<u8>
    decreases ws.len(),
{
    if ws.len() == 0 {
        Seq::empty()
    } else {
        words_bytes(ws.drop_last()) + le_bytes(ws.last())
    }
}

/// The little-endian word at `k` of `bytes`.
pub open spec fn word_at(bytes: Seq<u8>, k: int) -> u32 {
    le_word(bytes[k], bytes[k + 1], bytes[k + 2], bytes[k + 3])
}

proof fn lemma_le_bytes_word(w: u32) by (bit_vector)
    ensures
        le_word(w as u8, (w >> 8u32) as u8, (w >> 16u32) as u8, (w >> 24u32) as u8) == w,
{
}

proof fn lemma_words_bytes_len(ws: Seq<u32>)
    ensures
        words_bytes(ws).len() == 4 * ws.len(),
    decreases ws.len(),
{
    if ws.len() > 0 {
        lemma_words_bytes_len(ws.drop_last());
    }
}

/// The program image: the data section's size and the text section's
/// size in bytes as little-endian words, then the data section, then the
/// text section's words.
pub open spec fn image_bytes(img: Image) -> Seq<u8> {
    le_bytes(img.data.len() as u32) + le_bytes((img.text.len() * 4) as u32) + img.data + words_bytes(img.text)
}

/// The image that `code` assembles to, or the first error with its line.
pub open spec fn assembled(code: Seq<char>) -> Result<Seq<u8>, (Fault, nat)> {
    let lines = lines_of(code);
    match first_pass(lines, lines.len()) {
        Err(e) => Err(e),
        Ok(layout) => match second_pass(lines, lines.len(), layout.labels) {
            Err(e) => Err(e),
            Ok(img) => Ok(image_bytes(img)),
        },
    }
}


/// The assembler: labels, the two sections, and where it is in the source.
pub struct Assembler {
    labels: Vec<(Vec<char>, u32)>,
    data_section: Vec<u8>,
    text_section: Vec<u32>,
    current_address: u32,
    in_data_section: bool,
    current_line: usize,
    current_filename: String,
}

/// The number of number-or-symbol tokens (`values` true) or number tokens
/// (`values` false) among `tokens`.
fn count_tokens(tokens: &Vec<Token>, values: bool) -> (r: usize)
    ensures
        values ==> r == count_values(toks(tokens@)),
        !values ==> r == count_immediates(toks(tokens@)),
{
    let mut n: usize = 0;
    let mut k: usize = 0;
    while k < tokens.len()
        invariant
            k <= tokens.len(),
            n <= k,
            values ==> n == count_values(toks(tokens@).take(k as int)),
            !values ==> n == count_immediates(toks(tokens@).take(k as int)),
        decreases tokens.len() - k,
    {
        proof {
            let t = toks(tokens@);
            assert(t.take(k + 1).drop_last() =~= t.take(k as int));
            assert(t.take(k + 1).last() == tokens@[k as int]@);
        }
        let counted = match &tokens[k] {
            Token::Immediate(_) => true,
            Token::Symbol(_) => values,
            _ => false,
        };
        if counted {
            n = n + 1;
        }
        k = k + 1;
    }
    assert(toks(tokens@).take(k as int) =~= toks(tokens@));
    n
}

/// `align_padding`.
fn padding_for(addr: u32, a: i32) -> (r: u32)
    requires
        0 <= a <= 31,
    ensures
        r == align_padding(addr, a),
        r < 0x8000_0000,
{
    let alignment: u32 = 1u32 << (a as u32);
    assert(1u32 << (a as u32) >= 1 && 1u32 << (a as u32) <= 0x8000_0000u32) by (bit_vector)
        requires
            0 <= a <= 31,
    ;
    let mis = addr % alignment;
    if mis != 0 {
        alignment - mis
    } else {
        0
    }
}

/// The little-endian bytes of `w` appended to `out`.
fn push_word(out: &mut Vec<u8>, w: u32)
    ensures
        final(out)@ == old(out)@ + le_bytes(w),
{
    out.push(w as u8);
    out.push((w >> 8u32) as u8);
    out.push((w >> 16u32) as u8);
    out.push((w >> 24u32) as u8);
    assert(final(out)@ =~= old(out)@ + le_bytes(w));
}

impl Assembler {
    /// What the first pass has laid out.
    pub closed spec fn layout(&self) -> Layout {
        Layout { labels: label_seq(self.labels@), address: self.current_address, in_data: self.in_data_section }
    }

    /// What the second pass has emitted.
    pub closed spec fn image(&self) -> Image {
        Image {
            data: self.data_section@,
            text: self.text_section@,
            address: self.current_address,
            in_data: self.in_data_section,
        }
    }

    /// Whether the sections hold no more bytes than the address has moved.
    pub closed spec fn sections_fit(&self) -> bool {
        self.data_section@.len() + 4 * self.text_section@.len() <= self.current_address
    }

    pub fn new() -> (r: Self)
        ensures
            r.layout() == (Layout { labels: Seq::empty(), address: 0, in_data: false }),
    {
        let r = Self {
            labels: Vec::new(),
            data_section: Vec::new(),
            text_section: Vec::new(),
            current_address: 0,
            in_data_section: false,
            current_line: 0,
            current_filename: String::new(),
        };
        assert(label_seq(r.labels@) =~= Seq::empty());
        r
    }

    /// Moves the address on by `n`; a range error past `u32::MAX`.
    fn advance(&mut self, n: usize) -> (r: Result<(), Fault>)
        ensures
            match with_address(old(self).layout(), n as int) {
                Ok(st) => r is Ok && final(self).layout() == st,
                Err(f) => r == Err::<(), Fault>(f),
            },
            final(self).data_section == old(self).data_section,
            final(self).text_section == old(self).text_section,
            final(self).current_line == old(self).current_line,
            final(self).labels == old(self).labels,
            final(self).in_data_section == old(self).in_data_section,
            r is Ok ==> final(self).current_address == old(self).current_address + n,
    {
        if n > u32::MAX as usize || self.current_address as usize > u32::MAX as usize - n {
            return Err(Fault::Range);
        }
        self.current_address = self.current_address + n as u32;
        Ok(())
    }

    /// The first pass over the tokens of a line (see `first_tokens`).
    fn first_tokens(&mut self, tokens: &Vec<Token>) -> (r: Result<(), Fault>)
        ensures
            match first_tokens(old(self).layout(), toks(tokens@)) {
                Ok(st) => r is Ok && final(self).layout() == st,
                Err(f) => r == Err::<(), Fault>(f),
            },
            final(self).current_line == old(self).current_line,
            final(self).data_section == old(self).data_section,
            final(self).text_section == old(self).text_section,
    {
        let ghost ts = toks(tokens@);
        if tokens.len() == 0 {
            return Ok(());
        }
        assert(ts[0] == tokens@[0]@);
        if tokens.len() >= 2 {
            assert(ts[1] == tokens@[1]@);
        }
        match &tokens[0] {
            Token::Directive(d) => {
                if eq_str(d, ".data") {
                    self.in_data_section = true;
                    Ok(())
                } else if eq_str(d, ".text") {
                    self.in_data_section = false;
                    Ok(())
                } else if eq_str(d, ".word") {
                    if !self.in_data_section {
                        return Err(Fault::Syntax);
                    }
                    let count = count_tokens(tokens, true);
                    if count >= 0x4000_0000 {
                        return Err(Fault::Range);
                    }
                    self.advance(4 * count)
                } else if eq_str(d, ".byte") || eq_str(d, ".half") {
                    if !self.in_data_section {
                        return Err(Fault::Syntax);
                    }
                    let count = count_tokens(tokens, false);
                    if eq_str(d, ".byte") {
                        self.advance(count)
                    } else if count >= 0x8000_0000 {
                        Err(Fault::Range)
                    } else {
                        self.advance(2 * count)
                    }
                } else if eq_str(d, ".ascii") || eq_str(d, ".asciiz") {
                    if !self.in_data_section || tokens.len() < 2 {
                        return Err(Fault::Syntax);
                    }
                    match &tokens[1] {
                        Token::StringLiteral(s) => {
                            let mut bytes: Vec<u8> = Vec::new();
                            push_utf8(&mut bytes, s);
                            assert(bytes@ =~= utf8(s@));
                            let n = bytes.len();
                            if eq_str(d, ".asciiz") {
                                if n == usize::MAX {
                                    return Err(Fault::Range);
                                }
                                self.advance(n + 1)
                            } else {
                                self.advance(n)
                            }
                        },
                        _ => Err(Fault::Syntax),
                    }
                } else if eq_str(d, ".space") {
                    if !self.in_data_section || tokens.len() < 2 {
                        return Err(Fault::Syntax);
                    }
                    match &tokens[1] {
                        Token::Immediate(n) => if *n < 0 {
                            Err(Fault::Range)
                        } else {
                            self.advance(*n as usize)
                        },
                        _ => Err(Fault::Syntax),
                    }
                } else if eq_str(d, ".align") {
                    if tokens.len() < 2 {
                        return Err(Fault::Syntax);
                    }
                    match &tokens[1] {
                        Token::Immediate(a) => if *a < 0 || *a > 31 {
                            Err(Fault::Range)
                        } else {
                            let pad = padding_for(self.current_address, *a);
                            self.advance(pad as usize)
                        },
                        _ => Err(Fault::Syntax),
                    }
                } else {
                    Ok(())
                }
            },
            Token::Instruction(_) => if !self.in_data_section {
                self.advance(4)
            } else {
                Err(Fault::Syntax)
            },
            _ => Err(Fault::Syntax),
        }
    }

    /// The first pass over the text of a line without its label.
    fn process_first_pass_line(&mut self, line: &Vec<char>) -> (r: Result<(), Fault>)
        ensures
            match first_text(old(self).layout(), line@) {
                Ok(st) => r is Ok && final(self).layout() == st,
                Err(f) => r == Err::<(), Fault>(f),
            },
            final(self).current_line == old(self).current_line,
            final(self).data_section == old(self).data_section,
            final(self).text_section == old(self).text_section,
    {
        match tokenize(line) {
            Ok(tokens) => self.first_tokens(&tokens),
            Err(f) => Err(f),
        }
    }

    /// The first pass over the source lines (see `first_pass`).
    fn first_pass(&mut self, lines: &Vec<Vec<char>>) -> (r: Result<(), AssemblerError>)
        ensures
            ({
                let ls = lines@.map_values(|l: Vec<char>| l@);
                match first_pass(ls, ls.len()) {
                    Ok(st) => r is Ok && final(self).layout() == st,
                    Err((f, n)) => r matches Err(e) && fault_of(e) == Some((f, n as usize)),
                }
            }),
            final(self).data_section == old(self).data_section,
            final(self).text_section == old(self).text_section,
    {
        let ghost ls = lines@.map_values(|l: Vec<char>| l@);
        self.current_line = 0;
        self.current_address = 0;
        self.in_data_section = false;
        self.labels = Vec::new();
        assert(label_seq(self.labels@) =~= Seq::empty());
        let mut k: usize = 0;
        while k < lines.len()
            invariant
                k <= lines.len(),
                ls == lines@.map_values(|l: Vec<char>| l@),
                first_pass(ls, k as nat) == Ok::<Layout, (Fault, nat)>(self.layout()),
                self.data_section == old(self).data_section,
                self.text_section == old(self).text_section,
            decreases lines.len() - k,
        {
            self.current_line = k + 1;
            assert(ls[k as int] == lines@[k as int]@);
            match self.first_line(&lines[k]) {
                Ok(()) => {},
                Err(f) => {
                    proof {
                        lemma_first_pass_stops(ls, (k + 1) as nat, ls.len());
                    }
                    return Err(error_at(f, self.current_line));
                },
            }
            k = k + 1;
        }
        Ok(())
    }

    /// The first pass over a source line (see `first_line`).
    fn first_line(&mut self, source: &Vec<char>) -> (r: Result<(), Fault>)
        ensures
            match first_line(old(self).layout(), source@) {
                Ok(st) => r is Ok && final(self).layout() == st,
                Err(f) => r == Err::<(), Fault>(f),
            },
            final(self).current_line == old(self).current_line,
            final(self).data_section == old(self).data_section,
            final(self).text_section == old(self).text_section,
    {
        reveal(first_line);
        let line = preprocess_line(source);
        if line.len() == 0 {
            return Ok(());
        }
        match find_char(&line, 0, ':') {
            Some(idx) => {
                let label = trim(&line, 0, idx);
                if label.len() > 0 {
                    let ghost before = self.labels@;
                    self.labels.push((label, self.current_address));
                    assert(label_seq(self.labels@) =~= label_seq(before).push((label@, self.current_address)));
                }
                let rest = trim(&line, idx + 1, line.len());
                if rest.len() == 0 {
                    Ok(())
                } else {
                    self.process_first_pass_line(&rest)
                }
            },
            None => self.process_first_pass_line(&line),
        }
    }

    /// Adds `bytes` to the data section and moves the address by their
    /// number; a range error past `u32::MAX`.
    fn emit_bytes(&mut self, bytes: &Vec<u8>) -> (r: Result<(), Fault>)
        requires
            old(self).sections_fit(),
        ensures
            match emit_data(old(self).image(), bytes@, bytes@.len() as int) {
                Ok(st) => r is Ok && final(self).image() == st,
                Err(f) => r == Err::<(), Fault>(f),
            },
            final(self).sections_fit(),
            final(self).labels == old(self).labels,
            final(self).current_line == old(self).current_line,
    {
        let n = bytes.len();
        if n > u32::MAX as usize || self.current_address as usize > u32::MAX as usize - n {
            return Err(Fault::Range);
        }
        let mut k: usize = 0;
        let ghost d0 = self.data_section@;
        while k < n
            invariant
                k <= n == bytes@.len(),
                self.data_section@ == d0 + bytes@.take(k as int),
                self.current_address == old(self).current_address,
                self.text_section == old(self).text_section,
                self.in_data_section == old(self).in_data_section,
                self.labels == old(self).labels,
                self.current_line == old(self).current_line,
            decreases n - k,
        {
            self.data_section.push(bytes[k]);
            k = k + 1;
            assert(self.data_section@ =~= d0 + bytes@.take(k as int));
        }
        assert(bytes@.take(n as int) =~= bytes@);
        self.current_address = self.current_address + n as u32;
        Ok(())
    }

    /// The `.word` values from token `i` on (see `emit_words`).
    fn emit_words(&mut self, tokens: &Vec<Token>, i: usize) -> (r: Result<(), Fault>)
        requires
            i <= tokens.len(),
            old(self).sections_fit(),
        ensures
            match emit_words(old(self).image(), toks(tokens@), i as int, label_seq(old(self).labels@)) {
                Ok(st) => r is Ok && final(self).image() == st,
                Err(f) => r == Err::<(), Fault>(f),
            },
            final(self).sections_fit(),
            final(self).labels == old(self).labels,
            final(self).current_line == old(self).current_line,
    {
        let ghost ts = toks(tokens@);
        let ghost labels = label_seq(self.labels@);
        let mut k = i;
        while k < tokens.len()
            invariant
                i <= k <= tokens.len(),
                ts == toks(tokens@),
                labels == label_seq(self.labels@),
                self.labels == old(self).labels,
                self.current_line == old(self).current_line,
                self.sections_fit(),
                emit_words(old(self).image(), ts, i as int, labels) == emit_words(self.image(), ts, k as int, labels),
            decreases tokens.len() - k,
        {
            assert(ts[k as int] == tokens@[k as int]@);
            match &tokens[k] {
                Token::Comma => {},
                Token::Immediate(v) => {
                    let mut bytes: Vec<u8> = Vec::new();
                    push_word(&mut bytes, *v as u32);
                    assert(bytes@ =~= le_bytes(*v as u32));
                    match self.emit_bytes(&bytes) {
                        Ok(()) => {},
                        Err(f) => {
                            return Err(f);
                        },
                    }
                },
                Token::Symbol(s) => match find_label(&self.labels, s) {
                    Some(a) => {
                        let mut bytes: Vec<u8> = Vec::new();
                        push_word(&mut bytes, a);
                        assert(bytes@ =~= le_bytes(a));
                        match self.emit_bytes(&bytes) {
                            Ok(()) => {},
                            Err(f) => {
                                return Err(f);
                            },
                        }
                    },
                    None => {
                        return Err(Fault::Symbol);
                    },
                },
                _ => {
                    return Err(Fault::Syntax);
                },
            }
            k = k + 1;
        }
        Ok(())
    }

    /// The `.byte` or `.half` values from token `i` on (see `emit_small`).
    fn emit_small(&mut self, tokens: &Vec<Token>, i: usize, half: bool) -> (r: Result<(), Fault>)
        requires
            i <= tokens.len(),
            old(self).sections_fit(),
        ensures
            match emit_small(old(self).image(), toks(tokens@), i as int, half) {
                Ok(st) => r is Ok && final(self).image() == st,
                Err(f) => r == Err::<(), Fault>(f),
            },
            final(self).sections_fit(),
            final(self).labels == old(self).labels,
            final(self).current_line == old(self).current_line,
    {
        let ghost ts = toks(tokens@);
        let mut k = i;
        while k < tokens.len()
            invariant
                i <= k <= tokens.len(),
                ts == toks(tokens@),
                self.labels == old(self).labels,
                self.current_line == old(self).current_line,
                self.sections_fit(),
                emit_small(old(self).image(), ts, i as int, half) == emit_small(self.image(), ts, k as int, half),
            decreases tokens.len() - k,
        {
            assert(ts[k as int] == tokens@[k as int]@);
            match &tokens[k] {
                Token::Comma => {},
                Token::Immediate(v) => {
                    let mut bytes: Vec<u8> = Vec::new();
                    if !half {
                        if *v < -128 || *v > 255 {
                            return Err(Fault::Range);
                        }
                        bytes.push(*v as u8);
                        assert(bytes@ =~= seq![*v as u8]);
                    } else {
                        if *v < -32768 || *v > 65535 {
                            return Err(Fault::Range);
                        }
                        let h = *v as u16;
                        bytes.push(h as u8);
                        bytes.push((h >> 8u16) as u8);
                        assert(bytes@ =~= seq![(*v as u16) as u8, ((*v as u16) >> 8u16) as u8]);
                    }
                    match self.emit_bytes(&bytes) {
                        Ok(()) => {},
                        Err(f) => {
                            return Err(f);
                        },
                    }
                },
                _ => {
                    return Err(Fault::Syntax);
                },
            }
            k = k + 1;
        }
        Ok(())
    }

    /// `.align a` in the second pass.
    fn emit_alignment(&mut self, a: i32) -> (r: Result<(), Fault>)
        requires
            0 <= a <= 31,
            old(self).sections_fit(),
        ensures
            ({
                let st = old(self).image();
                let pad = align_padding(st.address, a);
                let expected: Result<Image, Fault> = if pad == 0 {
                    Ok(st)
                } else if st.address + pad > u32::MAX {
                    Err(Fault::Range)
                } else if st.in_data {
                    Ok(Image { data: st.data + zeros(pad as nat), address: (st.address + pad) as u32, ..st })
                } else {
                    Ok(
                        Image {
                            text: st.text + Seq::new((pad / 4) as nat, |i: int| 0u32),
                            address: (st.address + pad) as u32,
                            ..st
                        },
                    )
                };
                match expected {
                    Ok(st2) => r is Ok && final(self).image() == st2,
                    Err(f) => r == Err::<(), Fault>(f),
                }
            }),
            final(self).sections_fit(),
            final(self).labels == old(self).labels,
            final(self).current_line == old(self).current_line,
    {
        let pad = padding_for(self.current_address, a);
        if pad == 0 {
            return Ok(());
        }
        if self.current_address > u32::MAX - pad {
            return Err(Fault::Range);
        }
        if self.in_data_section {
            let ghost d0 = self.data_section@;
            let mut k: u32 = 0;
            while k < pad
                invariant
                    k <= pad,
                    self.data_section@ == d0 + zeros(k as nat),
                    self.current_address == old(self).current_address,
                    self.text_section == old(self).text_section,
                    self.in_data_section == old(self).in_data_section,
                    self.labels == old(self).labels,
                    self.current_line == old(self).current_line,
                decreases pad - k,
            {
                self.data_section.push(0u8);
                k = k + 1;
                assert(self.data_section@ =~= d0 + zeros(k as nat));
            }
        } else {
            let ghost t0 = self.text_section@;
            let mut k: u32 = 0;
            while k < pad / 4
                invariant
                    k <= pad / 4,
                    self.text_section@ == t0 + Seq::new(k as nat, |i: int| 0u32),
                    self.current_address == old(self).current_address,
                    self.data_section == old(self).data_section,
                    self.in_data_section == old(self).in_data_section,
                    self.labels == old(self).labels,
                    self.current_line == old(self).current_line,
                decreases pad / 4 - k,
            {
                self.text_section.push(0u32);
                k = k + 1;
                assert(self.text_section@ =~= t0 + Seq::new(k as nat, |i: int| 0u32));
            }
        }
        self.current_address = self.current_address + pad;
        Ok(())
    }

    /// The second pass over the tokens of a line (see `second_tokens`).
    fn second_tokens(&mut self, tokens: &Vec<Token>) -> (r: Result<(), Fault>)
        requires
            old(self).sections_fit(),
        ensures
            match second_tokens(old(self).image(), toks(tokens@), label_seq(old(self).labels@)) {
                Ok(st) => r is Ok && final(self).image() == st,
                Err(f) => r == Err::<(), Fault>(f),
            },
            final(self).sections_fit(),
            final(self).labels == old(self).labels,
            final(self).current_line == old(self).current_line,
    {
        let ghost ts = toks(tokens@);
        if tokens.len() == 0 {
            return Ok(());
        }
        assert(ts[0] == tokens@[0]@);
        if tokens.len() >= 2 {
            assert(ts[1] == tokens@[1]@);
        }
        match &tokens[0] {
            Token::Directive(d) => {
                if eq_str(d, ".data") {
                    self.in_data_section = true;
                    Ok(())
                } else if eq_str(d, ".text") {
                    self.in_data_section = false;
                    Ok(())
                } else if eq_str(d, ".word") {
                    if self.in_data_section {
                        self.emit_words(tokens, 1)
                    } else {
                        Err(Fault::Syntax)
                    }
                } else if eq_str(d, ".byte") {
                    if self.in_data_section {
                        self.emit_small(tokens, 1, false)
                    } else {
                        Err(Fault::Syntax)
                    }
                } else if eq_str(d, ".half") {
                    if self.in_data_section {
                        self.emit_small(tokens, 1, true)
                    } else {
                        Err(Fault::Syntax)
                    }
                } else if eq_str(d, ".ascii") || eq_str(d, ".asciiz") {
                    if !self.in_data_section || tokens.len() < 2 {
                        return Err(Fault::Syntax);
                    }
                    match &tokens[1] {
                        Token::StringLiteral(s) => {
                            let mut bytes: Vec<u8> = Vec::new();
                            push_utf8(&mut bytes, s);
                            assert(bytes@ =~= utf8(s@));
                            if eq_str(d, ".asciiz") {
                                bytes.push(0u8);
                            }
                            self.emit_bytes(&bytes)
                        },
                        _ => Err(Fault::Syntax),
                    }
                } else if eq_str(d, ".space") {
                    if !self.in_data_section || tokens.len() < 2 {
                        return Err(Fault::Syntax);
                    }
                    match &tokens[1] {
                        Token::Immediate(n) => if *n < 0 {
                            Err(Fault::Range)
                        } else {
                            let n = *n as u32;
                            if self.current_address > u32::MAX - n {
                                return Err(Fault::Range);
                            }
                            let ghost d0 = self.data_section@;
                            let mut k: u32 = 0;
                            while k < n
                                invariant
                                    k <= n,
                                    self.data_section@ == d0 + zeros(k as nat),
                                    self.current_address == old(self).current_address,
                                    self.text_section == old(self).text_section,
                                    self.in_data_section == old(self).in_data_section,
                                    self.labels == old(self).labels,
                                    self.current_line == old(self).current_line,
                                decreases n - k,
                            {
                                self.data_section.push(0u8);
                                k = k + 1;
                                assert(self.data_section@ =~= d0 + zeros(k as nat));
                            }
                            self.current_address = self.current_address + n;
                            Ok(())
                        },
                        _ => Err(Fault::Syntax),
                    }
                } else if eq_str(d, ".align") {
                    if tokens.len() < 2 {
                        return Err(Fault::Syntax);
                    }
                    match &tokens[1] {
                        Token::Immediate(a) => if *a < 0 || *a > 31 {
                            Err(Fault::Range)
                        } else {
                            self.emit_alignment(*a)
                        },
                        _ => Err(Fault::Syntax),
                    }
                } else {
                    Ok(())
                }
            },
            Token::Instruction(m) => if !self.in_data_section {
                assert(ops_from(tokens@, 1) == ts.skip(1));
                match assemble_instruction(*m, tokens, 1, &self.labels, self.current_address) {
                    Ok(w) => if self.current_address > u32::MAX - 4 {
                        Err(Fault::Range)
                    } else {
                        self.text_section.push(w);
                        self.current_address = self.current_address + 4;
                        Ok(())
                    },
                    Err(f) => Err(f),
                }
            } else {
                Err(Fault::Syntax)
            },
            _ => Err(Fault::Syntax),
        }
    }

    /// The second pass over the text of a line without its label.
    fn process_second_pass_line(&mut self, line: &Vec<char>) -> (r: Result<(), Fault>)
        requires
            old(self).sections_fit(),
        ensures
            match second_text(old(self).image(), line@, label_seq(old(self).labels@)) {
                Ok(st) => r is Ok && final(self).image() == st,
                Err(f) => r == Err::<(), Fault>(f),
            },
            final(self).sections_fit(),
            final(self).labels == old(self).labels,
            final(self).current_line == old(self).current_line,
    {
        match tokenize(line) {
            Ok(tokens) => self.second_tokens(&tokens),
            Err(f) => Err(f),
        }
    }

    /// The second pass over the source lines (see `second_pass`).
    fn second_pass(&mut self, lines: &Vec<Vec<char>>) -> (r: Result<(), AssemblerError>)
        ensures
            ({
                let ls = lines@.map_values(|l: Vec<char>| l@);
                match second_pass(ls, ls.len(), label_seq(old(self).labels@)) {
                    Ok(st) => r is Ok && final(self).image() == st,
                    Err((f, n)) => r matches Err(e) && fault_of(e) == Some((f, n as usize)),
                }
            }),
            final(self).sections_fit(),
    {
        let ghost ls = lines@.map_values(|l: Vec<char>| l@);
        let ghost labels = label_seq(self.labels@);
        self.current_line = 0;
        self.current_address = 0;
        self.in_data_section = false;
        self.data_section = Vec::new();
        self.text_section = Vec::new();
        assert(self.data_section@ =~= Seq::<u8>::empty());
        assert(self.text_section@ =~= Seq::<u32>::empty());
        let mut k: usize = 0;
        while k < lines.len()
            invariant
                k <= lines.len(),
                ls == lines@.map_values(|l: Vec<char>| l@),
                labels == label_seq(self.labels@),
                labels == label_seq(old(self).labels@),
                self.sections_fit(),
                second_pass(ls, k as nat, labels) == Ok::<Image, (Fault, nat)>(self.image()),
            decreases lines.len() - k,
        {
            self.current_line = k + 1;
            assert(ls[k as int] == lines@[k as int]@);
            match self.second_line(&lines[k]) {
                Ok(()) => {},
                Err(f) => {
                    proof {
                        lemma_second_pass_stops(ls, (k + 1) as nat, ls.len(), labels);
                    }
                    return Err(error_at(f, self.current_line));
                },
            }
            k = k + 1;
        }
        Ok(())
    }

    /// The second pass over a source line (see `second_line`).
    fn second_line(&mut self, source: &Vec<char>) -> (r: Result<(), Fault>)
        requires
            old(self).sections_fit(),
        ensures
            match second_line(old(self).image(), source@, label_seq(old(self).labels@)) {
                Ok(st) => r is Ok && final(self).image() == st,
                Err(f) => r == Err::<(), Fault>(f),
            },
            final(self).sections_fit(),
            final(self).labels == old(self).labels,
            final(self).current_line == old(self).current_line,
    {
        reveal(second_line);
        let line = preprocess_line(source);
        if line.len() == 0 {
            return Ok(());
        }
        match find_char(&line, 0, ':') {
            Some(idx) => {
                let rest = trim(&line, idx + 1, line.len());
                if rest.len() == 0 {
                    Ok(())
                } else {
                    self.process_second_pass_line(&rest)
                }
            },
            None => self.process_second_pass_line(&line),
        }
    }

    /// The program image of the emitted sections (see `image_bytes`).
    fn image_of(&self) -> (r: Vec<u8>)
        requires
            self.sections_fit(),
        ensures
            r@ == image_bytes(self.image()),
            r@.len() == 8 + word_at(r@, 0) + word_at(r@, 4),
    {
        let mut result: Vec<u8> = Vec::new();
        let data_size = self.data_section.len() as u32;
        push_word(&mut result, data_size);
        let text_size = (self.text_section.len() as u32) * 4;
        push_word(&mut result, text_size);
        let ghost header = result@;
        let mut k: usize = 0;
        while k < self.data_section.len()
            invariant
                k <= self.data_section@.len(),
                result@ == header + self.data_section@.take(k as int),
            decreases self.data_section.len() - k,
        {
            result.push(self.data_section[k]);
            k = k + 1;
            assert(result@ =~= header + self.data_section@.take(k as int));
        }
        assert(self.data_section@.take(k as int) =~= self.data_section@);
        let ghost with_data = result@;
        let mut j: usize = 0;
        while j < self.text_section.len()
            invariant
                j <= self.text_section@.len(),
                result@ == with_data + words_bytes(self.text_section@.take(j as int)),
            decreases self.text_section.len() - j,
        {
            let ghost before = result@;
            push_word(&mut result, self.text_section[j]);
            proof {
                let w = self.text_section@.take(j + 1);
                assert(w.drop_last() =~= self.text_section@.take(j as int));
                assert(w.last() == self.text_section@[j as int]);
            }
            j = j + 1;
            assert(result@ =~= with_data + words_bytes(self.text_section@.take(j as int)));
        }
        assert(self.text_section@.take(j as int) =~= self.text_section@);
        proof {
            lemma_words_bytes_len(self.text_section@);
            lemma_le_bytes_word(data_size);
            lemma_le_bytes_word(text_size);
            assert(result@[0] == data_size as u8 && result@[1] == (data_size >> 8u32) as u8);
            assert(result@[2] == (data_size >> 16u32) as u8 && result@[3] == (data_size >> 24u32) as u8);
            assert(result@[4] == text_size as u8 && result@[5] == (text_size >> 8u32) as u8);
            assert(result@[6] == (text_size >> 16u32) as u8 && result@[7] == (text_size >> 24u32) as u8);
        }
        result
    }

    /// Assembles `code` (see `assembled`): the image, or the first error
    /// with the line it was found on. The image's header gives the sizes of
    /// the sections that follow it.
    pub fn assemble_string(&mut self, code: &str) -> (r: Result<Vec<u8>, AssemblerError>)
        ensures
            match assembled(code@) {
                Ok(bytes) => r matches Ok(v) && v@ == bytes,
                Err((f, n)) => r matches Err(e) && fault_of(e) == Some((f, n as usize)),
            },
            r matches Ok(v) ==> v@.len() == 8 + word_at(v@, 0) + word_at(v@, 4),
    {
        self.current_filename = "<string>".to_string();
        let chars = chars_of(code);
        let lines = split_lines(&chars);
        match self.first_pass(&lines) {
            Ok(()) => {},
            Err(e) => {
                return Err(e);
            },
        }
        self.current_address = 0;
        self.in_data_section = false;
        match self.second_pass(&lines) {
            Ok(()) => {},
            Err(e) => {
                return Err(e);
            },
        }
        Ok(self.image_of())
    }
}

/// The characters of `code` (`str::chars`).
#[verifier::external_body]
fn chars_of(code: &str) -> (r: Vec<char>)
    ensures
        r@ == code@,
{
    code.chars().collect()
}

} // verus!
