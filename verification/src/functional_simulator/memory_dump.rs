//! A hex dump of the backing store: sixteen bytes to a line, in lower-case
//! hexadecimal, followed by their printable characters.
use vstd::prelude::*;

verus! {

/// The lower-case hexadecimal digit of `d` (below 16).
pub open spec fn lower_digit(d: nat) -> Seq<char> {
    if d == 0 { "0"@ }
    else if d == 1 { "1"@ }
    else if d == 2 { "2"@ }
    else if d == 3 { "3"@ }
    else if d == 4 { "4"@ }
    else if d == 5 { "5"@ }
    else if d == 6 { "6"@ }
    else if d == 7 { "7"@ }
    else if d == 8 { "8"@ }
    else if d == 9 { "9"@ }
    else if d == 10 { "a"@ }
    else if d == 11 { "b"@ }
    else if d == 12 { "c"@ }
    else if d == 13 { "d"@ }
    else if d == 14 { "e"@ }
    else { "f"@ }
}

/// The last `w` lower-case hexadecimal digits of `n`, with leading zeros.
pub open spec fn lower_hex(n: nat, w: nat) -> Seq<char>
    decreases w,
{
    if w == 0 {
        Seq::empty()
    } else {
        lower_hex(n / 16, (w - 1) as nat) + lower_digit(n % 16)
    }
}

/// How byte `b` shows in the character column: itself when printable
/// (32 to 126), otherwise `.`.
pub open spec fn shown(b: u8) -> char {
    if 32 <= b <= 126 {
        b as char
    } else {
        '.'
    }
}

/// The first `k` of the sixteen hexadecimal cells of the line at `i`
/// (bytes at or past `end` are blank; an extra space follows the eighth).
pub open spec fn hex_cells(data: Seq<u8>, i: nat, end: nat, k: nat) -> Seq<char>
    decreases k,
{
    if k == 0 {
        Seq::empty()
    } else {
        let j = (k - 1) as nat;
        hex_cells(data, i, end, j) + (if i + j < end {
            lower_hex(data[(i + j) as int] as nat, 2) + " "@
        } else {
            "   "@
        }) + (if j == 7 {
            " "@
        } else {
            Seq::empty()
        })
    }
}

/// The first `k` of the sixteen characters of the line at `i`.
pub open spec fn char_cells(data: Seq<u8>, i: nat, end: nat, k: nat) -> Seq<char>
    decreases k,
{
    if k == 0 {
        Seq::empty()
    } else {
        let j = (k - 1) as nat;
        char_cells(data, i, end, j).push(if i + j < end {
            shown(data[(i + j) as int])
        } else {
            ' '
        })
    }
}

/// The dump line of the bytes from `i`.
pub open spec fn dump_line(data: Seq<u8>, i: nat, end: nat) -> Seq<char> {
    lower_hex(i, 8) + ":  "@ + hex_cells(data, i, end, 16) + " |"@ + char_cells(data, i, end, 16) + "|\n"@
}

/// The first `k` lines of the dump of `data` from `start` up to `end`.
pub open spec fn dump_lines(data: Seq<u8>, start: nat, end: nat, k: nat) -> Seq<char>
    decreases k,
{
    if k == 0 {
        Seq::empty()
    } else {
        dump_lines(data, start, end, (k - 1) as nat) + dump_line(data, (start + 16 * (k - 1)) as nat, end)
    }
}

/// The hex dump of `length` bytes of `data` from `start`, cut at the end
/// of `data`: one line for every sixteen bytes.
pub open spec fn hex_dump(data: Seq<u8>, start: nat, length: nat) -> Seq<char> {
    let end = if start + length < data.len() { start + length } else { data.len() };
    if start < end {
        dump_lines(data, start, end, ((end - start + 15) / 16) as nat)
    } else {
        Seq::empty()
    }
}

/// Appends `c` to `s` (`String::push`).
#[verifier::external_body]
fn push_char(s: &mut String, c: char)
    ensures
        final(s)@ == old(s)@.push(c),
{
    s.push(c);
}

fn push_lower_digit(s: &mut String, d: usize)
    requires
        d < 16,
    ensures
        final(s)@ == old(s)@ + lower_digit(d as nat),
{
    if d == 0 { s.append("0"); }
    else if d == 1 { s.append("1"); }
    else if d == 2 { s.append("2"); }
    else if d == 3 { s.append("3"); }
    else if d == 4 { s.append("4"); }
    else if d == 5 { s.append("5"); }
    else if d == 6 { s.append("6"); }
    else if d == 7 { s.append("7"); }
    else if d == 8 { s.append("8"); }
    else if d == 9 { s.append("9"); }
    else if d == 10 { s.append("a"); }
    else if d == 11 { s.append("b"); }
    else if d == 12 { s.append("c"); }
    else if d == 13 { s.append("d"); }
    else if d == 14 { s.append("e"); }
    else { s.append("f"); }
}

fn push_lower_hex(s: &mut String, n: usize, w: usize)
    ensures
        final(s)@ == old(s)@ + lower_hex(n as nat, w as nat),
    decreases w,
{
    if w > 0 {
        push_lower_hex(s, n / 16, w - 1);
        push_lower_digit(s, n % 16);
    }
    assert(final(s)@ =~= old(s)@ + lower_hex(n as nat, w as nat));
}

pub fn push_dump_line(s: &mut String, data: &Vec<u8>, i: usize, end: usize)
    requires
        i < end <= data@.len(),
    ensures
        final(s)@ == old(s)@ + dump_line(data@, i as nat, end as nat),
{
    let ghost s0 = s@;
    push_lower_hex(s, i, 8);
    s.append(":  ");
    let ghost s1 = s@;
    let mut j: usize = 0;
    while j < 16
        invariant
            j <= 16,
            i < end <= data@.len(),
            s@ == s1 + hex_cells(data@, i as nat, end as nat, j as nat),
        decreases 16 - j,
    {
        if j < end - i {
            push_lower_hex(s, data[i + j] as usize, 2);
            s.append(" ");
        } else {
            s.append("   ");
        }
        if j == 7 {
            s.append(" ");
        }
        j = j + 1;
        assert(s@ =~= s1 + hex_cells(data@, i as nat, end as nat, j as nat));
    }
    s.append(" |");
    let ghost s2 = s@;
    let mut j: usize = 0;
    while j < 16
        invariant
            j <= 16,
            i < end <= data@.len(),
            s@ == s2 + char_cells(data@, i as nat, end as nat, j as nat),
        decreases 16 - j,
    {
        if j < end - i {
            let c = data[i + j];
            if 32 <= c && c <= 126 {
                push_char(s, c as char);
            } else {
                push_char(s, '.');
            }
        } else {
            push_char(s, ' ');
        }
        j = j + 1;
        assert(s@ =~= s2 + char_cells(data@, i as nat, end as nat, j as nat));
    }
    s.append("|\n");
    assert(s@ =~= s0 + dump_line(data@, i as nat, end as nat));
}

} // verus!
