//! Reading 32-bit little-endian MIPS ELF executables and loading their
//! segments into memory.
use vstd::prelude::*;
use crate::functional_simulator::memory::{Memory, compose_word, le_word};

verus! {

/// The ELF file header (52 bytes).
#[derive(Debug)]
pub struct ElfHeader {
    pub e_ident: [u8; 16],
    pub e_type: u16,
    pub e_machine: u16,
    pub e_version: u32,
    pub e_entry: u32,
    pub e_phoff: u32,
    pub e_shoff: u32,
    pub e_flags: u32,
    pub e_ehsize: u16,
    pub e_phentsize: u16,
    pub e_phnum: u16,
    pub e_shentsize: u16,
    pub e_shnum: u16,
    pub e_shstrndx: u16,
}

/// A program header (32 bytes).
#[derive(Debug, Clone, Copy, PartialEq, Eq, Structural)]
pub struct ProgramHeader {
    pub p_type: u32,
    pub p_offset: u32,
    pub p_vaddr: u32,
    pub p_paddr: u32,
    pub p_filesz: u32,
    pub p_memsz: u32,
    pub p_flags: u32,
    pub p_align: u32,
}

/// The size of an ELF header.
pub const ELF_HEADER_SIZE: usize = 52;

/// The size of a program header.
pub const PROGRAM_HEADER_SIZE: usize = 32;

/// The MIPS machine number.
pub const EM_MIPS: u16 = 8;

/// A loadable segment.
pub const PT_LOAD: u32 = 1;

/// Why an ELF file cannot be used.
#[derive(Debug)]
pub enum ElfError {
    IoError(std::io::Error),
    InvalidMagic,
    UnsupportedArchitecture,
    InvalidFormat,
    MemoryError,
}

/// The little-endian halfword at `k`.
pub open spec fn le16(d: Seq<u8>, k: int) -> u16 {
    (d[k] as u16) | ((d[k + 1] as u16) << 8u16)
}

/// The little-endian word at `k`.
pub open spec fn le32(d: Seq<u8>, k: int) -> u32 {
    le_word(d[k], d[k + 1], d[k + 2], d[k + 3])
}

/// Whether `d` starts with the ELF magic number.
pub open spec fn has_elf_magic(d: Seq<u8>) -> bool {
    d[0] == 0x7f && d[1] == 0x45 && d[2] == 0x4c && d[3] == 0x46
}

/// The program header at offset `k` of `d`.
pub open spec fn program_header_at(d: Seq<u8>, k: int) -> ProgramHeader {
    ProgramHeader {
        p_type: le32(d, k),
        p_offset: le32(d, k + 4),
        p_vaddr: le32(d, k + 8),
        p_paddr: le32(d, k + 12),
        p_filesz: le32(d, k + 16),
        p_memsz: le32(d, k + 20),
        p_flags: le32(d, k + 24),
        p_align: le32(d, k + 28),
    }
}

/// The offset of the `i`-th program header of `d`.
pub open spec fn ph_offset(d: Seq<u8>, i: int) -> int {
    le32(d, 28) + i * le16(d, 42)
}

/// Whether all `e_phnum` program headers of `d` lie inside it.
pub open spec fn headers_inside(d: Seq<u8>) -> bool {
    forall|i: int| 0 <= i < le16(d, 44) ==> #[trigger] ph_offset(d, i) + 32 <= d.len()
}

/// The program headers of `d`.
pub open spec fn program_headers_of(d: Seq<u8>) -> Seq<ProgramHeader> {
    Seq::new(le16(d, 44) as nat, |i: int| program_header_at(d, ph_offset(d, i)))
}

/// The loadable segments among `phs`, as (address, size in memory, flags).
pub open spec fn load_segments(phs: Seq<ProgramHeader>) -> Seq<(u32, u32, u32)>
    decreases phs.len(),
{
    if phs.len() == 0 {
        Seq::empty()
    } else {
        let rest = load_segments(phs.drop_last());
        let ph = phs.last();
        if ph.p_type == PT_LOAD {
            rest.push((ph.p_vaddr, ph.p_memsz, ph.p_flags))
        } else {
            rest
        }
    }
}

/// The words of a segment of `size` bytes at `off` of `d`, little-endian,
/// the last one padded with zero bytes.
pub open spec fn segment_words(d: Seq<u8>, off: int, size: int) -> Seq<u32> {
    Seq::new(
        ((size + 3) / 4) as nat,
        |i: int|
            le_word(
                if 4 * i < size { d[off + 4 * i] } else { 0 },
                if 4 * i + 1 < size { d[off + 4 * i + 1] } else { 0 },
                if 4 * i + 2 < size { d[off + 4 * i + 2] } else { 0 },
                if 4 * i + 3 < size { d[off + 4 * i + 3] } else { 0 },
            ),
    )
}

/// Whether a word write at `a` into `m` fails.
pub open spec fn write_fails(m: &Memory, a: int) -> bool {
    a + 3 > usize::MAX || (m.device_at(a as usize) is None && !m.writable(a as usize, 4))
}

/// The index of the first of `n` word writes at `base`, `base + 4`, ...
/// that fails, from `i` on.
pub open spec fn first_failing(m: &Memory, base: int, i: int, n: int) -> Option<int>
    decreases n - i,
{
    if i >= n {
        None
    } else if write_fails(m, base + 4 * i) {
        Some(i)
    } else {
        first_failing(m, base, i + 1, n)
    }
}

/// How loading went wrong.
#[derive(Clone, Copy, Debug, PartialEq, Eq, Structural)]
pub enum LoadFailure {
    InvalidFormat,
    MemoryError,
}

/// Loading the segments of `d` described by `phs` from the `k`-th on into
/// memory `m` with backing store `contents`: each loadable segment with
/// file bytes must lie inside `d`, and its words are written one by one;
/// the first failing write stops the load. Gives the failure, if any, and
/// the backing store afterwards.
pub open spec fn loaded_from(
    m: &Memory,
    contents: Seq<u8>,
    d: Seq<u8>,
    phs: Seq<ProgramHeader>,
    k: int,
) -> (Option<LoadFailure>, Seq<u8>)
    decreases phs.len() - k,
{
    if k < 0 || k >= phs.len() {
        (None, contents)
    } else {
        let ph = phs[k];
        if ph.p_type == PT_LOAD && ph.p_filesz > 0 {
            let off = ph.p_offset as int;
            let size = ph.p_filesz as int;
            if off + size > d.len() {
                (Some(LoadFailure::InvalidFormat), contents)
            } else {
                let ws = segment_words(d, off, size);
                match first_failing(m, ph.p_vaddr as int, 0, ws.len() as int) {
                    Some(j) => (
                        Some(LoadFailure::MemoryError),
                        m.words_loaded(contents, ph.p_vaddr as usize, ws.take(j)),
                    ),
                    None => loaded_from(
                        m,
                        m.words_loaded(contents, ph.p_vaddr as usize, ws),
                        d,
                        phs,
                        k + 1,
                    ),
                }
            }
        } else {
            loaded_from(m, contents, d, phs, k + 1)
        }
    }
}

/// An ELF file with its header and program headers read.
pub struct ElfLoader {
    data: Vec<u8>,
    header: ElfHeader,
    program_headers: Vec<ProgramHeader>,
}

/// The little-endian halfword at `k`.
fn read_u16(d: &Vec<u8>, k: usize) -> (r: u16)
    requires
        k + 2 <= d.len(),
    ensures
        r == le16(d@, k as int),
{
    (d[k] as u16) | ((d[k + 1] as u16) << 8u16)
}

/// The little-endian word at `k`.
fn read_u32(d: &Vec<u8>, k: usize) -> (r: u32)
    requires
        k + 4 <= d.len(),
    ensures
        r == le32(d@, k as int),
{
    compose_word(d[k], d[k + 1], d[k + 2], d[k + 3])
}

/// The program header at `k`.
fn read_program_header(d: &Vec<u8>, k: usize) -> (r: ProgramHeader)
    requires
        k + 32 <= d.len(),
    ensures
        r == program_header_at(d@, k as int),
{
    ProgramHeader {
        p_type: read_u32(d, k),
        p_offset: read_u32(d, k + 4),
        p_vaddr: read_u32(d, k + 8),
        p_paddr: read_u32(d, k + 12),
        p_filesz: read_u32(d, k + 16),
        p_memsz: read_u32(d, k + 20),
        p_flags: read_u32(d, k + 24),
        p_align: read_u32(d, k + 28),
    }
}

impl ElfLoader {
    /// The bytes of the file.
    pub closed spec fn bytes(&self) -> Seq<u8> {
        self.data@
    }

    /// The entry point that the header gives.
    pub closed spec fn entry(&self) -> u32 {
        self.header.e_entry
    }

    /// The program headers read.
    pub closed spec fn headers(&self) -> Seq<ProgramHeader> {
        self.program_headers@
    }

    /// Reads an ELF file from its bytes. Fewer bytes than a header is a
    /// format error; then the magic number and the MIPS machine are
    /// checked, and a program header that does not lie inside the file is
    /// a format error. Fields are read little-endian.
    pub fn load_from_bytes(data: Vec<u8>) -> (r: Result<Self, ElfError>)
        ensures
            ({
                let d = data@;
                &&& d.len() < 52 ==> (r matches Err(ElfError::InvalidFormat))
                &&& d.len() >= 52 && !has_elf_magic(d) ==> (r matches Err(ElfError::InvalidMagic))
                &&& d.len() >= 52 && has_elf_magic(d) && le16(d, 18) != EM_MIPS ==> (r matches Err(
                    ElfError::UnsupportedArchitecture,
                ))
                &&& d.len() >= 52 && has_elf_magic(d) && le16(d, 18) == EM_MIPS && !headers_inside(d)
                    ==> (r matches Err(ElfError::InvalidFormat))
                &&& d.len() >= 52 && has_elf_magic(d) && le16(d, 18) == EM_MIPS && headers_inside(d)
                    ==> (r matches Ok(l) && l.bytes() == d && l.entry() == le32(d, 24) && l.headers()
                    == program_headers_of(d))
            }),
    {
        if data.len() < ELF_HEADER_SIZE {
            return Err(ElfError::InvalidFormat);
        }
        let mut e_ident = [0u8; 16];
        let mut k: usize = 0;
        while k < 16
            invariant
                k <= 16,
                data@.len() >= 52,
                forall|q: int| 0 <= q < k ==> e_ident[q] == data@[q],
            decreases 16 - k,
        {
            e_ident[k] = data[k];
            k = k + 1;
        }
        let header = ElfHeader {
            e_ident,
            e_type: read_u16(&data, 16),
            e_machine: read_u16(&data, 18),
            e_version: read_u32(&data, 20),
            e_entry: read_u32(&data, 24),
            e_phoff: read_u32(&data, 28),
            e_shoff: read_u32(&data, 32),
            e_flags: read_u32(&data, 36),
            e_ehsize: read_u16(&data, 40),
            e_phentsize: read_u16(&data, 42),
            e_phnum: read_u16(&data, 44),
            e_shentsize: read_u16(&data, 46),
            e_shnum: read_u16(&data, 48),
            e_shstrndx: read_u16(&data, 50),
        };
        if !(data[0] == 0x7f && data[1] == 0x45 && data[2] == 0x4c && data[3] == 0x46) {
            return Err(ElfError::InvalidMagic);
        }
        if header.e_machine != EM_MIPS {
            return Err(ElfError::UnsupportedArchitecture);
        }
        let ph_base = header.e_phoff as u64;
        let ph_size = header.e_phentsize as u64;
        let ph_count = header.e_phnum as usize;
        let mut program_headers: Vec<ProgramHeader> = Vec::new();
        let mut i: usize = 0;
        while i < ph_count
            invariant
                i <= ph_count,
                ph_count == le16(data@, 44),
                ph_count <= 0xFFFF,
                ph_base <= 0xFFFF_FFFF,
                ph_size <= 0xFFFF,
                ph_base == le32(data@, 28),
                ph_size == le16(data@, 42),
                data@.len() >= 52,
                has_elf_magic(data@),
                le16(data@, 18) == EM_MIPS,
                program_headers@.len() == i,
                forall|q: int| 0 <= q < i ==> #[trigger] ph_offset(data@, q) + 32 <= data@.len(),
                forall|q: int|
                    0 <= q < i ==> #[trigger] program_headers@[q] == program_header_at(data@, ph_offset(data@, q)),
            decreases ph_count - i,
        {
            assert((i as u64) * ph_size <= 0xFFFF * 0xFFFF) by (nonlinear_arith)
                requires
                    i < 0xFFFF,
                    ph_size <= 0xFFFF,
            ;
            let offset = ph_base + (i as u64) * ph_size;
            assert(offset == ph_offset(data@, i as int));
            if offset + 32 > data.len() as u64 {
                assert(!(ph_offset(data@, i as int) + 32 <= data@.len()));
                assert(!headers_inside(data@));
                return Err(ElfError::InvalidFormat);
            }
            let ph = read_program_header(&data, offset as usize);
            program_headers.push(ph);
            i = i + 1;
        }
        assert(program_headers@ =~= program_headers_of(data@));
        Ok(ElfLoader { data, header, program_headers })
    }

    /// The entry point address.
    pub fn entry_point(&self) -> (r: u32)
        ensures
            r == self.entry(),
    {
        self.header.e_entry
    }

    /// Writes the loadable segments into `memory` (see `loaded_from`).
    pub fn load_into_memory(&self, memory: &mut Memory) -> (r: Result<(), ElfError>)
        requires
            old(memory).wf(),
            old(memory).translation_safe(),
        ensures
            final(memory).wf(),
            final(memory).same_layout(old(memory)),
            ({
                let (failure, contents) = loaded_from(
                    old(memory),
                    old(memory).contents(),
                    self.bytes(),
                    self.headers(),
                    0,
                );
                &&& final(memory).contents() == contents
                &&& failure is None ==> r is Ok
                &&& failure == Some(LoadFailure::InvalidFormat) ==> (r matches Err(ElfError::InvalidFormat))
                &&& failure == Some(LoadFailure::MemoryError) ==> (r matches Err(ElfError::MemoryError))
            }),
    {
        let ghost m0 = *memory;
        let mut k: usize = 0;
        while k < self.program_headers.len()
            invariant
                k <= self.program_headers@.len(),
                m0 == *old(memory),
                m0.wf(),
                m0.translation_safe(),
                memory.wf(),
                memory.same_layout(&m0),
                loaded_from(&m0, m0.contents(), self.data@, self.program_headers@, 0) == loaded_from(
                    &m0,
                    memory.contents(),
                    self.data@,
                    self.program_headers@,
                    k as int,
                ),
            decreases self.program_headers.len() - k,
        {
            let ph = self.program_headers[k];
            if ph.p_type == PT_LOAD && ph.p_filesz > 0 {
                let file_offset = ph.p_offset as u64;
                let size = ph.p_filesz as u64;
                if file_offset + size > self.data.len() as u64 {
                    return Err(ElfError::InvalidFormat);
                }
                match self.load_segment(memory, ph.p_offset as usize, ph.p_filesz as usize, ph.p_vaddr, Ghost(m0)) {
                    Ok(()) => {},
                    Err(e) => {
                        return Err(e);
                    },
                }
            }
            k = k + 1;
        }
        Ok(())
    }

    /// Writes the words of the segment at `off..off + size` of the file at
    /// `vaddr`, `vaddr + 4`, ... stopping at the first failing write.
    fn load_segment(&self, memory: &mut Memory, off: usize, size: usize, vaddr: u32, Ghost(m0): Ghost<Memory>) -> (r: Result<(), ElfError>)
        requires
            off + size <= self.data@.len(),
            0 < size <= u32::MAX,
            m0.wf(),
            m0.translation_safe(),
            old(memory).wf(),
            old(memory).same_layout(&m0),
        ensures
            final(memory).wf(),
            final(memory).same_layout(&m0),
            ({
                let ws = segment_words(self.data@, off as int, size as int);
                match first_failing(&m0, vaddr as int, 0, ws.len() as int) {
                    Some(j) => r matches Err(ElfError::MemoryError) && final(memory).contents() == m0.words_loaded(
                        old(memory).contents(),
                        vaddr as usize,
                        ws.take(j),
                    ),
                    None => r is Ok && final(memory).contents() == m0.words_loaded(
                        old(memory).contents(),
                        vaddr as usize,
                        ws,
                    ),
                }
            }),
    {
        let ghost ws = segment_words(self.data@, off as int, size as int);
        let ghost c0 = memory.contents();
        let n = size / 4 + if size % 4 != 0 {
            1usize
        } else {
            0
        };
        assert(n == ws.len());
        let mut i: usize = 0;
        while i < n
            invariant
                i <= n == ws.len(),
                n <= size / 4 + 1,
                0 < size <= u32::MAX,
                ws == segment_words(self.data@, off as int, size as int),
                c0 == old(memory).contents(),
                off + size <= self.data@.len(),
                m0.wf(),
                m0.translation_safe(),
                memory.wf(),
                memory.same_layout(&m0),
                first_failing(&m0, vaddr as int, 0, n as int) == first_failing(&m0, vaddr as int, i as int, n as int),
                memory.contents() == m0.words_loaded(c0, vaddr as usize, ws.take(i as int)),
            decreases n - i,
        {
            let mut bytes: [u8; 4] = [0u8; 4];
            let mut j: usize = 0;
            while j < 4
                invariant
                    j <= 4,
                    i < n,
                    n <= size / 4 + 1,
                    0 < size <= u32::MAX,
                    off + size <= self.data@.len(),
                    forall|q: int| 0 <= q < j ==> bytes[q] == if 4 * i + q < size {
                        self.data@[off + 4 * i + q]
                    } else {
                        0u8
                    },
                    forall|q: int| j <= q < 4 ==> bytes[q] == 0u8,
                decreases 4 - j,
            {
                let q: u64 = 4 * (i as u64) + (j as u64);
                if q < size as u64 {
                    let qi = q as usize;
                    assert(qi == 4 * i + j && qi < size);
                    assert(off + qi < self.data.len());
                    bytes[j] = self.data[off + qi];
                }
                j = j + 1;
            }
            let word = compose_word(bytes[0], bytes[1], bytes[2], bytes[3]);
            assert(word == ws[i as int]);
            let addr = vaddr as u64 + 4 * (i as u64);
            if addr > usize::MAX as u64 - 3 {
                assert(write_fails(&m0, vaddr as int + 4 * i));
                assert(first_failing(&m0, vaddr as int, i as int, n as int) == Some(i as int));
                return Err(ElfError::MemoryError);
            }
            let ghost before = *memory;
            let ok = memory.write_word(addr as usize, word);
            proof {
                assert(m0.device_at(addr as usize) == before.device_at(addr as usize));
                assert(m0.writable(addr as usize, 4) == before.writable(addr as usize, 4));
                let ghost w = ws.take(i + 1);
                assert(w.drop_last() =~= ws.take(i as int));
                assert(w.last() == word);
            }
            if !ok {
                assert(write_fails(&m0, vaddr as int + 4 * i));
                assert(first_failing(&m0, vaddr as int, i as int, n as int) == Some(i as int));
                assert(memory.contents() == before.contents());
                return Err(ElfError::MemoryError);
            }
            proof {
                assert(m0.word_written(before.contents(), addr as usize, word) == memory.contents());
            }
            i = i + 1;
        }
        assert(ws.take(n as int) =~= ws);
        Ok(())
    }

    /// The loadable segments, as (address, size in memory, flags).
    pub fn get_segments(&self) -> (r: Vec<(u32, u32, u32)>)
        ensures
            r@ == load_segments(self.headers()),
    {
        let mut r: Vec<(u32, u32, u32)> = Vec::new();
        let mut k: usize = 0;
        while k < self.program_headers.len()
            invariant
                k <= self.program_headers@.len(),
                r@ == load_segments(self.program_headers@.take(k as int)),
            decreases self.program_headers.len() - k,
        {
            let ph = self.program_headers[k];
            proof {
                let t = self.program_headers@.take(k + 1);
                assert(t.drop_last() =~= self.program_headers@.take(k as int));
                assert(t.last() == ph);
            }
            if ph.p_type == PT_LOAD {
                r.push((ph.p_vaddr, ph.p_memsz, ph.p_flags));
            }
            k = k + 1;
        }
        assert(self.program_headers@.take(k as int) =~= self.program_headers@);
        r
    }
}

} // verus!
