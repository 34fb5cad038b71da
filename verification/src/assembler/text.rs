//! Source text handling: lines, comments, white space and UTF-8.
use vstd::prelude::*;
use super::lexer::span_end;

verus! {

/// Unicode `White_Space`, as `char::is_whitespace` classifies it.
pub open spec fn is_white_space(c: char) -> bool {
    let v = c as u32;
    (0x09 <= v && v <= 0x0D) || v == 0x20 || v == 0x85 || v == 0xA0 || v == 0x1680 || (0x2000 <= v
        && v <= 0x200A) || v == 0x2028 || v == 0x2029 || v == 0x202F || v == 0x205F || v == 0x3000
}

/// `is_white_space`.
fn white_space(c: char) -> (r: bool)
    ensures
        r == is_white_space(c),
{
    let v = c as u32;
    (0x09 <= v && v <= 0x0D) || v == 0x20 || v == 0x85 || v == 0xA0 || v == 0x1680 || (0x2000 <= v
        && v <= 0x200A) || v == 0x2028 || v == 0x2029 || v == 0x202F || v == 0x205F || v == 0x3000
}

/// White space.
pub open spec fn white_class() -> spec_fn(char) -> bool {
    |c: char| is_white_space(c)
}

/// The end of `s[..e]` without its trailing white space.
pub open spec fn trail_end(s: Seq<char>, e: int) -> int
    decreases e,
{
    if 0 < e <= s.len() && is_white_space(s[e - 1]) {
        trail_end(s, e - 1)
    } else {
        e
    }
}

/// `s` without leading and trailing white space (`str::trim`).
pub open spec fn trimmed(s: Seq<char>) -> Seq<char> {
    let lead = span_end(s, 0, white_class());
    if lead >= s.len() {
        Seq::empty()
    } else {
        s.subrange(lead, trail_end(s, s.len() as int))
    }
}

proof fn lemma_trail_end_le(s: Seq<char>, e: int)
    requires
        0 <= e,
    ensures
        trail_end(s, e) <= e,
    decreases e,
{
    if 0 < e <= s.len() && is_white_space(s[e - 1]) {
        lemma_trail_end_le(s, e - 1);
    }
}

proof fn lemma_trail_end(s: Seq<char>, e: int, lead: int)
    requires
        0 <= lead < e <= s.len(),
        !is_white_space(s[lead]),
    ensures
        lead < trail_end(s, e) <= e,
    decreases e,
{
    if 0 < e <= s.len() && is_white_space(s[e - 1]) {
        lemma_trail_end(s, e - 1, lead);
    }
}

/// `trimmed` of `s[start..end]`.
pub fn trim(s: &Vec<char>, start: usize, end: usize) -> (r: Vec<char>)
    requires
        start <= end <= s.len(),
    ensures
        r@ == trimmed(s@.subrange(start as int, end as int)),
{
    let ghost t = s@.subrange(start as int, end as int);
    let mut lead = start;
    while lead < end && white_space(s[lead])
        invariant
            start <= lead <= end <= s.len(),
            t == s@.subrange(start as int, end as int),
            span_end(t, 0, white_class()) == span_end(t, lead - start, white_class()),
        decreases end - lead,
    {
        assert(white_class()(t[lead - start]));
        lead = lead + 1;
    }
    if lead >= end {
        return Vec::new();
    }
    assert(span_end(t, lead - start, white_class()) == lead - start) by {
        assert(!white_class()(t[lead - start]));
    }
    let mut trail = end;
    proof {
        lemma_trail_end(t, t.len() as int, lead - start);
    }
    while trail > lead && white_space(s[trail - 1])
        invariant
            start <= lead < end <= s.len(),
            lead <= trail <= end,
            t == s@.subrange(start as int, end as int),
            !is_white_space(t[lead - start]),
            trail_end(t, t.len() as int) == trail_end(t, trail - start),
        decreases trail,
    {
        trail = trail - 1;
    }
    proof {
        lemma_trail_end_le(t, trail - start);
        assert(trail_end(t, t.len() as int) == trail - start);
    }
    let mut r: Vec<char> = Vec::new();
    let mut k = lead;
    while k < trail
        invariant
            lead <= k <= trail <= end <= s.len(),
            r@ == s@.subrange(lead as int, k as int),
        decreases trail - k,
    {
        r.push(s[k]);
        k = k + 1;
        assert(r@ =~= s@.subrange(lead as int, k as int));
    }
    assert(r@ =~= t.subrange(lead - start, trail - start));
    r
}

/// Where a line's comment starts: the first `#` outside a string literal
/// (a backslash inside a string escapes the next character), or the end.
pub open spec fn comment_start(line: Seq<char>, i: int, in_string: bool, escape: bool) -> int
    decreases line.len() - i,
{
    if i < 0 || i >= line.len() {
        i
    } else {
        let c = line[i];
        if in_string {
            if escape {
                comment_start(line, i + 1, true, false)
            } else if c == '\\' {
                comment_start(line, i + 1, true, true)
            } else if c == '"' {
                comment_start(line, i + 1, false, false)
            } else {
                comment_start(line, i + 1, true, false)
            }
        } else if c == '"' {
            comment_start(line, i + 1, true, false)
        } else if c == '#' {
            i
        } else {
            comment_start(line, i + 1, false, false)
        }
    }
}

proof fn lemma_comment_start_bounds(line: Seq<char>, i: int, in_string: bool, escape: bool)
    requires
        0 <= i <= line.len(),
    ensures
        i <= comment_start(line, i, in_string, escape) <= line.len(),
    decreases line.len() - i,
{
    if i < line.len() {
        let c = line[i];
        if in_string {
            if escape {
                lemma_comment_start_bounds(line, i + 1, true, false);
            } else if c == '\\' {
                lemma_comment_start_bounds(line, i + 1, true, true);
            } else if c == '"' {
                lemma_comment_start_bounds(line, i + 1, false, false);
            } else {
                lemma_comment_start_bounds(line, i + 1, true, false);
            }
        } else if c == '"' {
            lemma_comment_start_bounds(line, i + 1, true, false);
        } else if c != '#' {
            lemma_comment_start_bounds(line, i + 1, false, false);
        }
    }
}

/// A line without its comment and surrounding white space.
pub open spec fn preprocessed(line: Seq<char>) -> Seq<char> {
    trimmed(line.subrange(0, comment_start(line, 0, false, false)))
}

/// Removes a line's comment and trims it (see `preprocessed`).
pub fn preprocess_line(line: &Vec<char>) -> (r: Vec<char>)
    ensures
        r@ == preprocessed(line@),
{
    let mut in_string = false;
    let mut escape = false;
    let mut k: usize = 0;
    while k < line.len() && (in_string || line[k] != '#')
        invariant
            k <= line.len(),
            !in_string ==> !escape,
            comment_start(line@, 0, false, false) == comment_start(line@, k as int, in_string, escape),
        decreases line.len() - k,
    {
        let c = line[k];
        if in_string {
            if escape {
                escape = false;
            } else if c == '\\' {
                escape = true;
            } else if c == '"' {
                in_string = false;
            }
        } else if c == '"' {
            in_string = true;
        }
        k = k + 1;
    }
    proof {
        lemma_comment_start_bounds(line@, 0, false, false);
    }
    trim(line, 0, k)
}

/// The index of the first `c` in `s` from `i`, if any.
pub open spec fn find_from(s: Seq<char>, i: int, c: char) -> Option<int>
    decreases s.len() - i,
{
    if i < 0 || i >= s.len() {
        None
    } else if s[i] == c {
        Some(i)
    } else {
        find_from(s, i + 1, c)
    }
}

proof fn lemma_find_from(s: Seq<char>, i: int, c: char)
    requires
        0 <= i <= s.len(),
    ensures
        find_from(s, i, c) matches Some(k) ==> i <= k < s.len() && s[k] == c,
        find_from(s, i, c) is None ==> forall|k: int| i <= k < s.len() ==> s[k] != c,
    decreases s.len() - i,
{
    if i < s.len() && s[i] != c {
        lemma_find_from(s, i + 1, c);
    }
}

/// `find_from`.
pub fn find_char(s: &Vec<char>, i: usize, c: char) -> (r: Option<usize>)
    requires
        i <= s.len(),
    ensures
        r matches Some(k) ==> find_from(s@, i as int, c) == Some(k as int) && i <= k < s.len() && s@[k as int]
            == c,
        r is None ==> find_from(s@, i as int, c) is None,
{
    let mut k = i;
    while k < s.len()
        invariant
            i <= k <= s.len(),
            find_from(s@, i as int, c) == find_from(s@, k as int, c),
        decreases s.len() - k,
    {
        if s[k] == c {
            return Some(k);
        }
        k = k + 1;
    }
    None
}

/// The lines of `code` from `start`, as `BufRead::lines` yields them: split
/// at each line feed, a carriage return before a line feed dropped, and no
/// empty line after a final line feed.
pub open spec fn lines_from(code: Seq<char>, start: int) -> Seq<Seq<char>>
    decreases code.len() - start,
{
    if start < 0 || start >= code.len() {
        Seq::empty()
    } else {
        let e = match find_from(code, start, '\n') {
            Some(k) => k,
            None => code.len() as int,
        };
        let raw = code.subrange(start, e);
        let line = if e < code.len() && raw.len() > 0 && raw.last() == '\r' {
            raw.drop_last()
        } else {
            raw
        };
        if e < start {
            Seq::empty()
        } else if e >= code.len() {
            seq![line]
        } else {
            seq![line] + lines_from(code, e + 1)
        }
    }
}

/// The lines of `code`.
pub open spec fn lines_of(code: Seq<char>) -> Seq<Seq<char>> {
    lines_from(code, 0)
}

/// Splits `code` into its lines (see `lines_from`).
pub fn split_lines(code: &Vec<char>) -> (r: Vec<Vec<char>>)
    ensures
        r@.map_values(|l: Vec<char>| l@) == lines_of(code@),
{
    let mut lines: Vec<Vec<char>> = Vec::new();
    let mut start: usize = 0;
    while start < code.len()
        invariant
            start <= code.len(),
            lines_of(code@) == lines@.map_values(|l: Vec<char>| l@) + lines_from(code@, start as int),
        decreases code.len() - start,
    {
        let e = match find_char(code, start, '\n') {
            Some(k) => k,
            None => code.len(),
        };
        proof {
            lemma_find_from(code@, start as int, '\n');
        }
        let cut = if e < code.len() && e > start && code[e - 1] == '\r' {
            e - 1
        } else {
            e
        };
        let mut line: Vec<char> = Vec::new();
        let mut k = start;
        while k < cut
            invariant
                start <= k <= cut <= e <= code.len(),
                line@ == code@.subrange(start as int, k as int),
            decreases cut - k,
        {
            line.push(code[k]);
            k = k + 1;
            assert(line@ =~= code@.subrange(start as int, k as int));
        }
        let ghost before = lines@.map_values(|l: Vec<char>| l@);
        proof {
            let raw = code@.subrange(start as int, e as int);
            if cut < e {
                assert(raw.drop_last() =~= code@.subrange(start as int, cut as int));
            } else {
                assert(raw =~= code@.subrange(start as int, cut as int));
            }
        }
        lines.push(line);
        assert(lines@.map_values(|l: Vec<char>| l@) =~= before.push(code@.subrange(start as int, cut as int)));
        if e < code.len() {
            proof {
                let ghost next = lines_from(code@, e + 1);
                assert(before + lines_from(code@, start as int) =~= before.push(
                    code@.subrange(start as int, cut as int),
                ) + next);
            }
            start = e + 1;
        } else {
            proof {
                assert(before + lines_from(code@, start as int) =~= before.push(
                    code@.subrange(start as int, cut as int),
                ) + lines_from(code@, code@.len() as int));
            }
            start = code.len();
        }
    }
    assert(lines@.map_values(|l: Vec<char>| l@) + Seq::<Seq<char>>::empty() =~= lines@.map_values(
        |l: Vec<char>| l@,
    ));
    lines
}

/// The UTF-8 encoding of `c`.
pub open spec fn utf8_char(c: char) -> Seq<u8> {
    let v = c as u32;
    if v < 0x80 {
        seq![v as u8]
    } else if v < 0x800 {
        seq![(0xC0 | (v >> 6u32)) as u8, (0x80 | (v & 0x3F)) as u8]
    } else if v < 0x10000 {
        seq![(0xE0 | (v >> 12u32)) as u8, (0x80 | ((v >> 6u32) & 0x3F)) as u8, (0x80 | (v & 0x3F)) as u8]
    } else {
        seq![
            (0xF0 | (v >> 18u32)) as u8,
            (0x80 | ((v >> 12u32) & 0x3F)) as u8,
            (0x80 | ((v >> 6u32) & 0x3F)) as u8,
            (0x80 | (v & 0x3F)) as u8,
        ]
    }
}

/// The UTF-8 encoding of `s`.
pub open spec fn utf8(s: Seq<char>) -> Seq<u8>
    decreases s.len(),
{
    if s.len() == 0 {
        Seq::empty()
    } else {
        utf8(s.drop_last()) + utf8_char(s.last())
    }
}

/// Appends the UTF-8 encoding of `s` to `out`.
pub fn push_utf8(out: &mut Vec<u8>, s: &Vec<char>)
    ensures
        final(out)@ == old(out)@ + utf8(s@),
{
    let mut k: usize = 0;
    while k < s.len()
        invariant
            k <= s.len(),
            out@ == old(out)@ + utf8(s@.subrange(0, k as int)),
        decreases s.len() - k,
    {
        let c = s[k];
        let v = c as u32;
        let ghost before = out@;
        if v < 0x80 {
            out.push(v as u8);
        } else if v < 0x800 {
            out.push((0xC0 | (v >> 6u32)) as u8);
            out.push((0x80 | (v & 0x3F)) as u8);
        } else if v < 0x10000 {
            out.push((0xE0 | (v >> 12u32)) as u8);
            out.push((0x80 | ((v >> 6u32) & 0x3F)) as u8);
            out.push((0x80 | (v & 0x3F)) as u8);
        } else {
            out.push((0xF0 | (v >> 18u32)) as u8);
            out.push((0x80 | ((v >> 12u32) & 0x3F)) as u8);
            out.push((0x80 | ((v >> 6u32) & 0x3F)) as u8);
            out.push((0x80 | (v & 0x3F)) as u8);
        }
        proof {
            let p = s@.subrange(0, k as int + 1);
            assert(p.drop_last() =~= s@.subrange(0, k as int));
            assert(p.last() == c);
            assert(out@ =~= before + utf8_char(c));
            assert(old(out)@ + utf8(p) =~= old(out)@ + utf8(s@.subrange(0, k as int)) + utf8_char(c));
        }
        k = k + 1;
    }
    assert(s@.subrange(0, s@.len() as int) =~= s@);
}

/// The number of UTF-8 bytes of `s`.
pub fn utf8_len(s: &Vec<char>) -> (r: usize)
    requires
        s@.len() <= 0x1000_0000,
    ensures
        r == utf8(s@).len(),
{
    let mut n: usize = 0;
    let mut k: usize = 0;
    while k < s.len()
        invariant
            k <= s.len() <= 0x1000_0000,
            n == utf8(s@.subrange(0, k as int)).len(),
            n <= 4 * k,
        decreases s.len() - k,
    {
        let v = s[k] as u32;
        proof {
            let p = s@.subrange(0, k as int + 1);
            assert(p.drop_last() =~= s@.subrange(0, k as int));
        }
        n = n + if v < 0x80 {
            1
        } else if v < 0x800 {
            2
        } else if v < 0x10000 {
            3
        } else {
            4
        };
        k = k + 1;
    }
    assert(s@.subrange(0, s@.len() as int) =~= s@);
    n
}

} // verus!
