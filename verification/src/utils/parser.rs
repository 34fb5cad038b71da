//! Parsing a one-line `add` or `addi` written with space-separated
//! operands.
use vstd::prelude::*;
use crate::assembler::lexer::{digits_up_to, digits_value, is_digit, eq_str, span_end};
use crate::assembler::text::{is_white_space, white_class};
use crate::functional_simulator::instructions::Instruction;

verus! {

/// Characters that are not white space.
pub open spec fn word_class() -> spec_fn(char) -> bool {
    |c: char| !is_white_space(c)
}

/// The white-space separated words of `s` from `i` (`str::split_whitespace`).
pub open spec fn words_from(s: Seq<char>, i: int) -> Seq<Seq<char>>
    decreases s.len() - i,
{
    let a = span_end(s, i, white_class());
    if i < 0 || a >= s.len() || a < i {
        Seq::empty()
    } else {
        let e = span_end(s, a, word_class());
        if e <= a || e > s.len() {
            Seq::empty()
        } else {
            seq![s.subrange(a, e)] + words_from(s, e)
        }
    }
}

/// The number of the register that `w` names: only `$zero`, `$at` and
/// `$v0` are known.
pub open spec fn register_named(w: Seq<char>) -> Option<u32> {
    if w == "$zero"@ {
        Some(0u32)
    } else if w == "$at"@ {
        Some(1u32)
    } else if w == "$v0"@ {
        Some(2u32)
    } else {
        None
    }
}

/// Whether `ds` holds only ASCII digits.
pub open spec fn all_digits(ds: Seq<char>) -> bool {
    forall|k: int| 0 <= k < ds.len() ==> #[trigger] is_digit(ds[k], 10)
}

/// Whether `w` starts with a sign.
pub open spec fn has_sign(w: Seq<char>) -> bool {
    w.len() > 0 && (w[0] == '-' || w[0] == '+')
}

/// `w` without its sign.
pub open spec fn magnitude_text(w: Seq<char>) -> Seq<char> {
    if has_sign(w) {
        w.drop_first()
    } else {
        w
    }
}

/// `w` read as an `i16` (`str::parse::<i16>`): an optional sign and at
/// least one ASCII digit, the value in range.
pub open spec fn parsed_i16(w: Seq<char>) -> Option<i16> {
    let ds = magnitude_text(w);
    let v = digits_value(ds, 10);
    if ds.len() == 0 || !all_digits(ds) {
        None
    } else if has_sign(w) && w[0] == '-' {
        if v <= 32768 {
            Some((-v) as i16)
        } else {
            None
        }
    } else if v <= 32767 {
        Some(v as i16)
    } else {
        None
    }
}

/// Whether `s` is an `add rd rs rt` or `addi rt rs imm` that parses: known
/// registers and an `i16` immediate.
pub open spec fn parsable(s: Seq<char>) -> bool {
    let w = words_from(s, 0);
    &&& w.len() >= 4
    &&& w[0] == "add"@ || w[0] == "addi"@
    &&& register_named(w[1]) is Some
    &&& register_named(w[2]) is Some
    &&& w[0] == "add"@ ==> register_named(w[3]) is Some
    &&& w[0] == "addi"@ ==> parsed_i16(w[3]) is Some
}

/// The instruction that a parsable `s` writes.
pub open spec fn parsed_instruction(s: Seq<char>) -> Instruction {
    let w = words_from(s, 0);
    if w[0] == "add"@ {
        Instruction::Add {
            rd: register_named(w[1]).unwrap(),
            rs: register_named(w[2]).unwrap(),
            rt: register_named(w[3]).unwrap(),
        }
    } else {
        Instruction::Addi {
            rt: register_named(w[1]).unwrap(),
            rs: register_named(w[2]).unwrap(),
            imm: parsed_i16(w[3]).unwrap(),
        }
    }
}

/// The characters of `s` (`str::chars`).
#[verifier::external_body]
fn chars_of(s: &str) -> (r: Vec<char>)
    ensures
        r@ == s@,
{
    s.chars().collect()
}

/// Whether `c` is white space.
fn white(c: char) -> (r: bool)
    ensures
        r == is_white_space(c),
{
    let v = c as u32;
    (0x09 <= v && v <= 0x0D) || v == 0x20 || v == 0x85 || v == 0xA0 || v == 0x1680 || (0x2000 <= v
        && v <= 0x200A) || v == 0x2028 || v == 0x2029 || v == 0x202F || v == 0x205F || v == 0x3000
}

/// The words of `s` (see `words_from`).
fn split_words(s: &Vec<char>) -> (r: Vec<Vec<char>>)
    ensures
        r@.map_values(|w: Vec<char>| w@) == words_from(s@, 0),
{
    let mut words: Vec<Vec<char>> = Vec::new();
    let mut i: usize = 0;
    while i < s.len()
        invariant
            i <= s.len(),
            words_from(s@, 0) == words@.map_values(|w: Vec<char>| w@) + words_from(s@, i as int),
        decreases s.len() - i,
    {
        let mut a = i;
        while a < s.len() && white(s[a])
            invariant
                i <= a <= s.len(),
                span_end(s@, i as int, white_class()) == span_end(s@, a as int, white_class()),
            decreases s.len() - a,
        {
            assert(white_class()(s@[a as int]));
            a = a + 1;
        }
        if a >= s.len() {
            assert(words_from(s@, i as int) =~= Seq::<Seq<char>>::empty());
            i = s.len();
        } else {
            assert(!white_class()(s@[a as int]));
            assert(span_end(s@, a as int, white_class()) == a);
            let mut e = a;
            let mut w: Vec<char> = Vec::new();
            while e < s.len() && !white(s[e])
                invariant
                    a <= e <= s.len(),
                    w@ == s@.subrange(a as int, e as int),
                    span_end(s@, a as int, word_class()) == span_end(s@, e as int, word_class()),
                decreases s.len() - e,
            {
                assert(word_class()(s@[e as int]));
                w.push(s[e]);
                e = e + 1;
                assert(w@ =~= s@.subrange(a as int, e as int));
            }
            assert(e > a) by {
                assert(word_class()(s@[a as int]));
            }
            let ghost before = words@.map_values(|x: Vec<char>| x@);
            words.push(w);
            assert(words@.map_values(|x: Vec<char>| x@) =~= before.push(s@.subrange(a as int, e as int)));
            assert(before + words_from(s@, i as int) =~= before.push(s@.subrange(a as int, e as int))
                + words_from(s@, e as int));
            i = e;
        }
    }
    assert(words@.map_values(|w: Vec<char>| w@) + words_from(s@, i as int) =~= words@.map_values(
        |w: Vec<char>| w@,
    ));
    words
}

/// `register_named`.
fn parse_register(w: &Vec<char>) -> (r: Option<u32>)
    ensures
        r == register_named(w@),
{
    if eq_str(w, "$zero") {
        Some(0)
    } else if eq_str(w, "$at") {
        Some(1)
    } else if eq_str(w, "$v0") {
        Some(2)
    } else {
        None
    }
}

/// `parsed_i16`.
fn parse_i16(w: &Vec<char>) -> (r: Option<i16>)
    ensures
        r == parsed_i16(w@),
{
    let signed = w.len() > 0 && (w[0] == '-' || w[0] == '+');
    let start: usize = if signed { 1 } else { 0 };
    let ghost ds = magnitude_text(w@);
    assert(ds =~= w@.subrange(start as int, w@.len() as int));
    if start == w.len() {
        return None;
    }
    let mut k = start;
    while k < w.len()
        invariant
            start <= k <= w@.len(),
            ds == w@.subrange(start as int, w@.len() as int),
            ds == magnitude_text(w@),
            forall|q: int| start <= q < k ==> #[trigger] is_digit(w@[q], 10),
        decreases w.len() - k,
    {
        if w[k] < '0' || w[k] > '9' {
            assert(ds[k - start] == w@[k as int]);
            assert(!is_digit(ds[k - start], 10));
            assert(!all_digits(ds));
            return None;
        }
        k = k + 1;
    }
    assert forall|q: int| 0 <= q < ds.len() implies #[trigger] is_digit(ds[q], 10) by {
        assert(is_digit(w@[start + q], 10));
    }
    assert(all_digits(ds));
    if signed && w[0] == '-' {
        match digits_up_to(w, start, w.len(), 10, 32768) {
            Some(v) => Some((0 - (v as i32)) as i16),
            None => None,
        }
    } else {
        match digits_up_to(w, start, w.len(), 10, 32767) {
            Some(v) => Some(v as i16),
            None => None,
        }
    }
}

/// Parses `add rd rs rt` or `addi rt rs imm` (see `parsed_instruction`).
pub fn parse_instruction(instruction_str: &str) -> (r: Instruction)
    requires
        parsable(instruction_str@),
    ensures
        r == parsed_instruction(instruction_str@),
{
    let chars = chars_of(instruction_str);
    let parts = split_words(&chars);
    assert(parts@[0]@ == words_from(instruction_str@, 0)[0]);
    assert(parts@[1]@ == words_from(instruction_str@, 0)[1]);
    assert(parts@[2]@ == words_from(instruction_str@, 0)[2]);
    assert(parts@[3]@ == words_from(instruction_str@, 0)[3]);
    if eq_str(&parts[0], "add") {
        let rd = parse_register(&parts[1]).unwrap();
        let rs = parse_register(&parts[2]).unwrap();
        let rt = parse_register(&parts[3]).unwrap();
        Instruction::Add { rd, rs, rt }
    } else {
        let rt = parse_register(&parts[1]).unwrap();
        let rs = parse_register(&parts[2]).unwrap();
        let imm = parse_i16(&parts[3]).unwrap();
        Instruction::Addi { rt, rs, imm }
    }
}

} // verus!
