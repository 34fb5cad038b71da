//! System calls: what a `syscall` asks of the host, the effects that need
//! no host, and the completion of the calls that read input.
use vstd::prelude::*;
use crate::functional_simulator::memory::Memory;
use crate::functional_simulator::registers::{Registers, RegistersModel};

verus! {

/// What a system call leaves to the host.
#[derive(Debug)]
pub enum SyscallAction {
    /// Nothing: the call's effect is complete.
    Done,
    /// Print the signed integer.
    PrintInt(i32),
    /// Print floating-point register 12.
    PrintFloat,
    /// Print the bytes, each as the character of its value.
    PrintString(Vec<u8>),
    /// Read an integer line (finish with `complete_read_int`).
    ReadInt,
    /// Read a floating-point line into floating-point register 0.
    ReadFloat,
    /// Read a line into memory (finish with `complete_read_string`).
    ReadString { address: usize, max_length: usize },
    /// Stop the program.
    Exit,
    /// Print the character of the byte.
    PrintChar(u8),
    /// Read one byte (finish with `complete_read_char`).
    ReadChar,
    /// Write the bytes to standard output.
    Write(Vec<u8>),
    /// Stop the program, reporting the exit code.
    ExitWithCode(u32),
    /// Give the time in milliseconds (finish with `complete_time`).
    Time,
    /// Sleep for the milliseconds.
    Sleep(u32),
    /// Print the value in hexadecimal.
    PrintHex(u32),
    /// Print the value in binary.
    PrintBinary(u32),
    /// Print the value unsigned.
    PrintUnsigned(u32),
    /// The call number is not implemented.
    Unimplemented(u32),
}

/// The byte a read at `a` gives, in a memory without devices (see
/// `plain_memory`).
pub open spec fn read_at(m: &Memory, a: int) -> Option<u8> {
    if 0 <= a <= usize::MAX && m.readable(a as usize, 1) {
        Some(m.byte(m.phys(a as usize) as int))
    } else {
        None
    }
}

/// The NUL-terminated string at `a`: its bytes up to the terminator or an
/// unreadable address.
pub open spec fn c_string(m: &Memory, a: int) -> Seq<u8>
    decreases usize::MAX - a,
{
    if a < 0 || a >= usize::MAX {
        Seq::empty()
    } else {
        match read_at(m, a) {
            Some(b) => if b == 0 {
                Seq::empty()
            } else {
                seq![b] + c_string(m, a + 1)
            },
            None => Seq::empty(),
        }
    }
}

/// The readable bytes among the `n` at `a`, `a + 1`, ...
pub open spec fn readable_bytes(m: &Memory, a: int, n: int) -> Seq<u8>
    decreases n,
{
    if n <= 0 {
        Seq::empty()
    } else {
        readable_bytes(m, a, n - 1) + match read_at(m, a + n - 1) {
            Some(b) => seq![b],
            None => Seq::empty(),
        }
    }
}

/// A memory without mapped devices: what a read from it gives is known.
pub open spec fn plain_memory(m: &Memory) -> bool {
    m.device_bases().len() == 0
}

/// A memory whose bytes can be read and written at any address: well
/// formed, and no address makes translation underflow.
pub open spec fn workable(m: &Memory) -> bool {
    m.wf() && m.translation_safe()
}

/// Whether system call `n` reads or writes memory.
pub open spec fn touches_memory(n: u32) -> bool {
    n == 4 || n == 14 || n == 15
}

/// What system call `n` with arguments `a0`, `a1`, `a2` needs so that no
/// address computation overflows: the bytes that `read` (14) writes and
/// that `write` (15) reads to standard output must end below the top of
/// the address space.
pub open spec fn syscall_fits(n: u32, a0: u32, a1: u32, a2: u32) -> bool {
    &&& n == 14 ==> a1 + (if a2 < 128 { a2 as int } else { 128 }) <= usize::MAX
    &&& n == 15 && (a0 == 1 || a0 == 2) ==> a1 + a2 <= usize::MAX
}

/// The placeholder bytes that reading a file gives: `0, 1, 2, ...`.
pub open spec fn placeholder(n: nat) -> Seq<u8> {
    Seq::new(n, |i: int| i as u8)
}

/// The new heap end and `$v0` of `sbrk` of `amount` with heap end `heap`
/// in a memory of `size` bytes: the heap grows when it stays below the
/// size, and `$v0` is the old end; otherwise `$v0` is 0.
pub open spec fn sbrk_result(heap: usize, amount: u32, size: usize) -> (usize, u32) {
    if heap + amount < size {
        ((heap + amount) as usize, heap as u32)
    } else {
        (heap, 0u32)
    }
}

/// The string at `a` (see `c_string`).
fn read_c_string(memory: &Memory, a: usize) -> (r: Vec<u8>)
    requires
        workable(memory),
    ensures
        plain_memory(memory) ==> r@ == c_string(memory, a as int),
{
    let mut out: Vec<u8> = Vec::new();
    let mut current = a;
    let mut done = false;
    while !done && current < usize::MAX
        invariant
            a <= current,
            workable(memory),
            plain_memory(memory) ==> c_string(memory, a as int) == out@ + c_string(memory, current as int),
            plain_memory(memory) && done ==> c_string(memory, current as int) == Seq::<u8>::empty(),
        decreases usize::MAX - current, if done { 0int } else { 1int },
    {
        match memory.read_byte(current) {
            Some(b) => {
                if b == 0 {
                    done = true;
                } else {
                    let ghost before = out@;
                    out.push(b);
                    proof {
                        if plain_memory(memory) {
                            assert(before + c_string(memory, current as int) =~= out@ + c_string(
                                memory,
                                current + 1,
                            ));
                        }
                    }
                    current = current + 1;
                }
            },
            None => {
                done = true;
            },
        }
    }
    assert(out@ + Seq::<u8>::empty() =~= out@);
    out
}

/// The readable bytes among `count` at `a` (see `readable_bytes`).
fn read_bytes(memory: &Memory, a: usize, count: usize) -> (r: Vec<u8>)
    requires
        workable(memory),
        a + count <= usize::MAX,
    ensures
        plain_memory(memory) ==> r@ == readable_bytes(memory, a as int, count as int),
{
    let mut out: Vec<u8> = Vec::new();
    let mut i: usize = 0;
    while i < count
        invariant
            i <= count,
            a + count <= usize::MAX,
            workable(memory),
            plain_memory(memory) ==> out@ == readable_bytes(memory, a as int, i as int),
        decreases count - i,
    {
        let ghost before = out@;
        match memory.read_byte(a + i) {
            Some(b) => {
                out.push(b);
            },
            None => {},
        }
        proof {
            if plain_memory(memory) {
                assert(out@ =~= readable_bytes(memory, a as int, i + 1));
            }
        }
        i = i + 1;
    }
    out
}

/// Writes `bytes` at `a`, `a + 1`, ... through the memory's checks.
fn store_bytes(memory: &mut Memory, a: usize, bytes: &Vec<u8>)
    requires
        workable(old(memory)),
        a + bytes@.len() <= usize::MAX,
    ensures
        workable(final(memory)),
        final(memory).same_layout(old(memory)),
        final(memory).contents() == old(memory).bytes_loaded(old(memory).contents(), a, bytes@),
{
    let ghost m0 = *memory;
    let mut i: usize = 0;
    while i < bytes.len()
        invariant
            i <= bytes@.len(),
            a + bytes@.len() <= usize::MAX,
            m0 == *old(memory),
            workable(&m0),
            workable(memory),
            memory.same_layout(&m0),
            memory.contents() == m0.bytes_loaded(m0.contents(), a, bytes@.take(i as int)),
        decreases bytes.len() - i,
    {
        let ghost before = *memory;
        memory.write_byte(a + i, bytes[i]);
        proof {
            let t = bytes@.take(i + 1);
            assert(t.drop_last() =~= bytes@.take(i as int));
            assert(m0.byte_written(before.contents(), (a + i) as usize, bytes@[i as int])
                == memory.contents());
        }
        i = i + 1;
    }
    assert(bytes@.take(i as int) =~= bytes@);
}

/// Carries out the part of the system call in `$v0` that needs no host
/// and says what is left to the host. Calls 9 (`sbrk`, see
/// `sbrk_result`), 13 (open: `$v0` becomes 3), 14 (read: up to 128
/// placeholder bytes written at `$a1`, their number in `$v0`) and 16
/// (close: `$v0` becomes 0) complete here; 15 (write) reads its bytes for
/// file descriptors 1 and 2 and sets `$v0` to the count; the others leave
/// registers and memory alone.
pub fn syscall_request(registers: &mut Registers, memory: &mut Memory) -> (r: SyscallAction)
    requires
        old(memory).wf(),
        touches_memory(old(registers)@.reg(2)) ==> old(memory).translation_safe(),
        syscall_fits(old(registers)@.reg(2), old(registers)@.reg(4), old(registers)@.reg(5), old(registers)@.reg(6)),
    ensures
        final(memory).wf(),
        final(memory).same_layout(old(memory)) || (old(registers)@.reg(2) == 9 && final(memory).contents()
            == old(memory).contents()),
        ({
            let r0 = old(registers)@;
            let m0 = old(memory);
            let n = r0.reg(2);
            let a0 = r0.reg(4);
            let a1 = r0.reg(5);
            let a2 = r0.reg(6);
            let unchanged = final(registers)@ == r0 && *final(memory) == *m0;
            &&& n == 1 ==> r == SyscallAction::PrintInt(a0 as i32) && unchanged
            &&& (n == 2 || n == 3) ==> r == SyscallAction::PrintFloat && unchanged
            &&& n == 4 ==> (r matches SyscallAction::PrintString(s) && (plain_memory(m0) ==> s@ == c_string(
                m0,
                a0 as int,
            ))) && unchanged
            &&& n == 5 ==> r == SyscallAction::ReadInt && unchanged
            &&& (n == 6 || n == 7) ==> r == SyscallAction::ReadFloat && unchanged
            &&& n == 8 ==> r == (SyscallAction::ReadString { address: a0 as usize, max_length: a1 as usize })
                && unchanged
            &&& n == 9 ==> r == SyscallAction::Done && final(memory).contents() == m0.contents() && ({
                let (heap, v0) = sbrk_result(m0.heap(), a0, m0.msize());
                &&& final(registers)@ == r0.written(2, v0)
                &&& final(memory).heap() == heap
            })
            &&& n == 10 ==> r == SyscallAction::Exit && unchanged
            &&& n == 11 ==> r == SyscallAction::PrintChar(a0 as u8) && unchanged
            &&& n == 12 ==> r == SyscallAction::ReadChar && unchanged
            &&& n == 13 ==> r == SyscallAction::Done && final(registers)@ == r0.written(2, 3) && *final(memory)
                == *m0
            &&& n == 14 ==> r == SyscallAction::Done && ({
                let count: nat = if a2 < 128 { a2 as nat } else { 128 };
                &&& final(registers)@ == r0.written(2, count as u32)
                &&& final(memory).contents() == m0.bytes_loaded(m0.contents(), a1 as usize, placeholder(count))
            })
            &&& n == 15 ==> final(registers)@ == r0.written(2, a2) && *final(memory) == *m0 && if a0 == 1
                || a0 == 2 {
                r matches SyscallAction::Write(bytes) && (plain_memory(m0) ==> bytes@ == readable_bytes(
                    m0,
                    a1 as int,
                    a2 as int,
                ))
            } else {
                r == SyscallAction::Done
            }
            &&& n == 16 ==> r == SyscallAction::Done && final(registers)@ == r0.written(2, 0) && *final(memory)
                == *m0
            &&& n == 17 ==> r == SyscallAction::ExitWithCode(a0) && unchanged
            &&& n == 30 ==> r == SyscallAction::Time && unchanged
            &&& n == 31 ==> r == SyscallAction::Sleep(a0) && unchanged
            &&& n == 34 ==> r == SyscallAction::PrintHex(a0) && unchanged
            &&& n == 35 ==> r == SyscallAction::PrintBinary(a0) && unchanged
            &&& n == 36 ==> r == SyscallAction::PrintUnsigned(a0) && unchanged
            &&& !(1 <= n <= 17 || n == 30 || n == 31 || 34 <= n <= 36) ==> r == SyscallAction::Unimplemented(n)
                && unchanged
        }),
{
    let syscall_num = registers.read(2);
    match syscall_num {
        1 => SyscallAction::PrintInt(registers.read(4) as i32),
        2 | 3 => SyscallAction::PrintFloat,
        4 => {
            let addr = registers.read(4) as usize;
            SyscallAction::PrintString(read_c_string(memory, addr))
        },
        5 => SyscallAction::ReadInt,
        6 | 7 => SyscallAction::ReadFloat,
        8 => SyscallAction::ReadString {
            address: registers.read(4) as usize,
            max_length: registers.read(5) as usize,
        },
        9 => {
            let amount = registers.read(4) as usize;
            let current_heap_end = memory.heap_end();
            if current_heap_end < memory.get_size() && amount < memory.get_size() - current_heap_end {
                let new_heap_end = current_heap_end + amount;
                memory.set_heap_end(new_heap_end);
                registers.write(2, current_heap_end as u32);
            } else {
                registers.write(2, 0);
            }
            SyscallAction::Done
        },
        10 => SyscallAction::Exit,
        11 => SyscallAction::PrintChar(registers.read(4) as u8),
        12 => SyscallAction::ReadChar,
        13 => {
            registers.write(2, 3);
            SyscallAction::Done
        },
        14 => {
            let buffer_addr = registers.read(5) as usize;
            let count = registers.read(6) as usize;
            let bytes_read = if count < 128 {
                count
            } else {
                128
            };
            let mut bytes: Vec<u8> = Vec::new();
            let mut i: usize = 0;
            while i < bytes_read
                invariant
                    i <= bytes_read <= 128,
                    bytes@ == placeholder(i as nat),
                decreases bytes_read - i,
            {
                bytes.push(i as u8);
                i = i + 1;
                assert(bytes@ =~= placeholder(i as nat));
            }
            store_bytes(memory, buffer_addr, &bytes);
            registers.write(2, bytes_read as u32);
            SyscallAction::Done
        },
        15 => {
            let fd = registers.read(4);
            let buffer_addr = registers.read(5) as usize;
            let count = registers.read(6);
            let action = if fd == 1 || fd == 2 {
                SyscallAction::Write(read_bytes(memory, buffer_addr, count as usize))
            } else {
                SyscallAction::Done
            };
            registers.write(2, count);
            action
        },
        16 => {
            registers.write(2, 0);
            SyscallAction::Done
        },
        17 => SyscallAction::ExitWithCode(registers.read(4)),
        30 => SyscallAction::Time,
        31 => SyscallAction::Sleep(registers.read(4)),
        34 => SyscallAction::PrintHex(registers.read(4)),
        35 => SyscallAction::PrintBinary(registers.read(4)),
        36 => SyscallAction::PrintUnsigned(registers.read(4)),
        _ => SyscallAction::Unimplemented(syscall_num),
    }
}

/// The value of a trimmed line read as an `i32`, or 0 when it is not one.
pub open spec fn int_or_zero(parsed: Option<i32>) -> u32 {
    match parsed {
        Some(v) => v as u32,
        None => 0,
    }
}

/// Finishes `read_int` with the value parsed from the input line (`None`
/// when it did not parse): `$v0` holds it, or 0.
pub fn complete_read_int(registers: &mut Registers, parsed: Option<i32>)
    ensures
        final(registers)@ == old(registers)@.written(2, int_or_zero(parsed)),
{
    let value = match parsed {
        Some(v) => v,
        None => 0,
    };
    registers.write(2, value as u32);
}

/// The bytes of a line that `read_string` keeps with room `max_length`:
/// at most `max_length - 1` of them.
pub open spec fn kept_input(input: Seq<u8>, max_length: nat) -> Seq<u8> {
    if input.len() > max_length - 1 {
        input.take(max_length - 1)
    } else {
        input
    }
}

/// Finishes `read_string`: the line's bytes (at most `max_length - 1`)
/// then a terminating zero are written from `address`.
pub fn complete_read_string(memory: &mut Memory, address: usize, max_length: usize, input: &Vec<u8>)
    requires
        workable(old(memory)),
        max_length >= 1,
        address + max_length <= usize::MAX,
    ensures
        workable(final(memory)),
        final(memory).same_layout(old(memory)),
        final(memory).contents() == old(memory).bytes_loaded(
            old(memory).contents(),
            address,
            kept_input(input@, max_length as nat).push(0u8),
        ),
{
    let limit = max_length - 1;
    let n = if input.len() > limit {
        limit
    } else {
        input.len()
    };
    let mut bytes: Vec<u8> = Vec::new();
    let mut i: usize = 0;
    while i < n
        invariant
            i <= n <= input@.len(),
            bytes@ == input@.take(i as int),
        decreases n - i,
    {
        bytes.push(input[i]);
        i = i + 1;
        assert(bytes@ =~= input@.take(i as int));
    }
    bytes.push(0u8);
    assert(bytes@ =~= kept_input(input@, max_length as nat).push(0u8));
    store_bytes(memory, address, &bytes);
}

/// Finishes `read_char`: `$v0` holds the byte read, or 0 when none was.
pub fn complete_read_char(registers: &mut Registers, byte: Option<u8>)
    ensures
        final(registers)@ == old(registers)@.written(
            2,
            match byte {
                Some(b) => b as u32,
                None => 0u32,
            },
        ),
{
    let value: u32 = match byte {
        Some(b) => b as u32,
        None => 0,
    };
    registers.write(2, value);
}

/// Finishes the time call: `$v0` holds the milliseconds, cut to 32 bits.
pub fn complete_time(registers: &mut Registers, millis: u128)
    ensures
        final(registers)@ == old(registers)@.written(2, millis as u32),
{
    registers.write(2, millis as u32);
}

} // verus!
