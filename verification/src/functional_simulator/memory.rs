//! Byte-addressed little-endian memory with address translation, prioritised
//! permission regions and memory-mapped devices.
use vstd::prelude::*;
use super::memory_dump::{hex_dump, dump_lines, push_dump_line};

verus! {

/// Configuration options for memory behavior.
#[derive(Clone, Copy, Debug)]
pub struct MemoryConfig {
    /// Enforce strict alignment checks.
    pub strict_alignment: bool,
    /// Print detailed error messages.
    pub verbose_errors: bool,
    /// Enable memory region permissions.
    pub enable_permissions: bool,
    /// Enable virtual address translation.
    pub enable_translation: bool,
}

impl Default for MemoryConfig {
    fn default() -> (r: Self)
        ensures
            !r.strict_alignment,
            !r.verbose_errors,
            r.enable_permissions,
            r.enable_translation,
    {
        Self {
            strict_alignment: false,
            verbose_errors: false,
            enable_permissions: true,
            enable_translation: true,
        }
    }
}

/// A device whose registers are mapped into a 4 KiB window of the address
/// space.
pub trait MemoryMappedDevice: Send + Sync {
    fn read_byte(&self, offset: usize) -> u8;

    fn write_byte(&mut self, offset: usize, value: u8);

    fn read_word(&self, offset: usize) -> u32;

    fn write_word(&mut self, offset: usize, value: u32);
}

/// Size of the address window of a mapped device.
pub const DEVICE_WINDOW: usize = 4096;

/// A region of memory with access permissions; regions of higher priority
/// are consulted first.
#[derive(Clone, Copy, Debug, PartialEq, Eq, Structural)]
pub struct MemoryRegion {
    pub start: usize,
    pub end: usize,
    pub readable: bool,
    pub writable: bool,
    pub executable: bool,
    pub priority: u8,
}

impl MemoryRegion {
    pub open spec fn contains(self, address: usize) -> bool {
        self.start <= address && address < self.end
    }

    pub open spec fn permits(self, read: bool, write: bool, execute: bool) -> bool {
        (!read || self.readable) && (!write || self.writable) && (!execute || self.executable)
    }
}

/// The regions of `s` with priority `p`, in their order in `s`.
pub open spec fn priority_bucket(s: Seq<MemoryRegion>, p: int) -> Seq<MemoryRegion>
    decreases s.len(),
{
    if s.len() == 0 {
        Seq::empty()
    } else if s.last().priority == p {
        priority_bucket(s.drop_last(), p).push(s.last())
    } else {
        priority_bucket(s.drop_last(), p)
    }
}

/// The regions of `s` with priority at least `p`, highest priority first and
/// in their order in `s` among equal priorities.
pub open spec fn priority_order_from(s: Seq<MemoryRegion>, p: int) -> Seq<MemoryRegion>
    decreases 256 - p,
{
    if p > 255 || p < 0 {
        Seq::empty()
    } else {
        priority_order_from(s, p + 1) + priority_bucket(s, p)
    }
}

/// `s` stably sorted by descending priority.
pub open spec fn sorted_by_priority(s: Seq<MemoryRegion>) -> Seq<MemoryRegion> {
    priority_order_from(s, 0)
}

/// Whether every region of `s` permits reads and writes.
pub open spec fn all_read_write(s: Seq<MemoryRegion>) -> bool {
    forall|k: int| 0 <= k < s.len() ==> (#[trigger] s[k]).readable && s[k].writable
}

proof fn lemma_bucket_read_write(s: Seq<MemoryRegion>, p: int)
    requires
        all_read_write(s),
    ensures
        all_read_write(priority_bucket(s, p)),
    decreases s.len(),
{
    if s.len() > 0 {
        assert forall|k: int| 0 <= k < s.drop_last().len() implies (#[trigger] s.drop_last()[k]).readable
            && s.drop_last()[k].writable by {
            assert(s.drop_last()[k] == s[k]);
        }
        lemma_bucket_read_write(s.drop_last(), p);
        assert(s.last() == s[s.len() - 1]);
    }
}

proof fn lemma_order_read_write(s: Seq<MemoryRegion>, p: int)
    requires
        all_read_write(s),
    ensures
        all_read_write(priority_order_from(s, p)),
    decreases 256 - p,
{
    if 0 <= p <= 255 {
        lemma_order_read_write(s, p + 1);
        lemma_bucket_read_write(s, p);
        let a = priority_order_from(s, p + 1);
        let b = priority_bucket(s, p);
        assert forall|k: int| 0 <= k < (a + b).len() implies (#[trigger] (a + b)[k]).readable && (a
            + b)[k].writable by {
            if k < a.len() {
                assert((a + b)[k] == a[k]);
            } else {
                assert((a + b)[k] == b[k - a.len()]);
            }
        }
    }
}

proof fn lemma_permitted_read_write(s: Seq<MemoryRegion>, i: int, address: usize, read: bool, write: bool)
    requires
        all_read_write(s),
    ensures
        permitted_from(s, i, address, read, write, false),
    decreases s.len() - i,
{
    if 0 <= i < s.len() {
        assert(s[i].readable && s[i].writable);
        if !s[i].contains(address) {
            lemma_permitted_read_write(s, i + 1, address, read, write);
        }
    }
}

/// The number of regions of `s` with priority at least `p`.
pub open spec fn count_at_least(s: Seq<MemoryRegion>, p: int) -> nat
    decreases s.len(),
{
    if s.len() == 0 {
        0
    } else {
        count_at_least(s.drop_last(), p) + (if s.last().priority >= p { 1nat } else { 0nat })
    }
}

proof fn lemma_count_split(s: Seq<MemoryRegion>, p: int)
    ensures
        count_at_least(s, p) == count_at_least(s, p + 1) + priority_bucket(s, p).len(),
    decreases s.len(),
{
    if s.len() > 0 {
        lemma_count_split(s.drop_last(), p);
    }
}

proof fn lemma_count_all(s: Seq<MemoryRegion>)
    ensures
        count_at_least(s, 0) == s.len(),
    decreases s.len(),
{
    if s.len() > 0 {
        lemma_count_all(s.drop_last());
    }
}

proof fn lemma_count_none(s: Seq<MemoryRegion>)
    ensures
        count_at_least(s, 256) == 0,
    decreases s.len(),
{
    if s.len() > 0 {
        lemma_count_none(s.drop_last());
    }
}

proof fn lemma_order_len(s: Seq<MemoryRegion>, p: int)
    requires
        0 <= p <= 256,
    ensures
        priority_order_from(s, p).len() == count_at_least(s, p),
    decreases 256 - p,
{
    if p > 255 {
        lemma_count_none(s);
    } else {
        lemma_order_len(s, p + 1);
        lemma_count_split(s, p);
    }
}

/// Sorting regions by priority keeps every region: the sorted sequence is
/// as long as the original.
pub proof fn law_sorted_regions_keep_length(s: Seq<MemoryRegion>)
    ensures
        sorted_by_priority(s).len() == s.len(),
{
    lemma_order_len(s, 0);
    lemma_count_all(s);
}

/// Whether the first region of `regions` at or after index `i` that contains
/// `address` permits the access; an address that no region contains is
/// permitted.
pub open spec fn permitted_from(
    regions: Seq<MemoryRegion>,
    i: int,
    address: usize,
    read: bool,
    write: bool,
    execute: bool,
) -> bool
    decreases regions.len() - i,
{
    if i < 0 || i >= regions.len() {
        true
    } else if regions[i].contains(address) {
        regions[i].permits(read, write, execute)
    } else {
        permitted_from(regions, i + 1, address, read, write, execute)
    }
}

/// The index of the first mapped device, at or after index `i`, whose window
/// contains `address`.
pub open spec fn device_from(bases: Seq<usize>, i: int, address: usize) -> Option<int>
    decreases bases.len() - i,
{
    if i < 0 || i >= bases.len() {
        None
    } else if bases[i] <= address && address < bases[i] + DEVICE_WINDOW {
        Some(i)
    } else {
        device_from(bases, i + 1, address)
    }
}

/// Little-endian composition of a 32-bit word from four bytes.
pub open spec fn le_word(b0: u8, b1: u8, b2: u8, b3: u8) -> u32 {
    (b0 as u32) | ((b1 as u32) << 8u32) | ((b2 as u32) << 16u32) | ((b3 as u32) << 24u32)
}

/// Little-endian composition of a 16-bit halfword from two bytes.
pub open spec fn le_half(b0: u8, b1: u8) -> u16 {
    (b0 as u16) | ((b1 as u16) << 8u16)
}

/// Byte `k` (0 = least significant) of a word.
pub open spec fn word_byte(v: u32, k: u32) -> u8 {
    if k == 0 {
        (v & 0xff) as u8
    } else if k == 1 {
        ((v >> 8u32) & 0xff) as u8
    } else if k == 2 {
        ((v >> 16u32) & 0xff) as u8
    } else {
        ((v >> 24u32) & 0xff) as u8
    }
}

/// Splitting a word into bytes and composing them again gives the word back.
pub proof fn lemma_le_word_bytes(v: u32)
    ensures
        le_word(word_byte(v, 0), word_byte(v, 1), word_byte(v, 2), word_byte(v, 3)) == v,
{
    assert(((v & 0xff) as u8 as u32) | ((((v >> 8) & 0xff) as u8 as u32) << 8u32) | ((((v >> 16)
        & 0xff) as u8 as u32) << 16u32) | ((((v >> 24) & 0xff) as u8 as u32) << 24u32) == v)
        by (bit_vector);
}

/// Splitting a halfword into bytes and composing them again gives it back.
pub proof fn lemma_le_half_bytes(v: u16)
    ensures
        le_half((v & 0xff) as u8, ((v >> 8u16) & 0xff) as u8) == v,
{
    assert(((v & 0xff) as u8 as u16) | ((((v >> 8u16) & 0xff) as u8 as u16) << 8u16) == v)
        by (bit_vector);
}

/// Composes a little-endian 32-bit word from four bytes.
pub fn compose_word(b0: u8, b1: u8, b2: u8, b3: u8) -> (r: u32)
    ensures
        r == le_word(b0, b1, b2, b3),
{
    (b0 as u32) | ((b1 as u32) << 8u32) | ((b2 as u32) << 16u32) | ((b3 as u32) << 24u32)
}

fn split_word(v: u32) -> (r: (u8, u8, u8, u8))
    ensures
        r.0 == word_byte(v, 0),
        r.1 == word_byte(v, 1),
        r.2 == word_byte(v, 2),
        r.3 == word_byte(v, 3),
{
    ((v & 0xff) as u8, ((v >> 8u32) & 0xff) as u8, ((v >> 16u32) & 0xff) as u8, ((v >> 24u32)
        & 0xff) as u8)
}

/// Memory statistics.
#[derive(Debug, Clone)]
pub struct MemoryStatistics {
    pub total_size: usize,
    pub heap_top: usize,
    pub num_regions: usize,
    pub num_mapped_devices: usize,
}

/// A device held by the memory.
struct MappedDevice {
    device: Box<dyn MemoryMappedDevice>,
}

fn replace_slot(v: &mut Vec<MappedDevice>, i: usize, slot: MappedDevice)
    requires
        i < old(v).len(),
    ensures
        final(v)@ == old(v)@.update(i as int, slot),
        final(v).len() == old(v).len(),
{
    v.set(i, slot);
}

fn append_slot(v: &mut Vec<MappedDevice>, slot: MappedDevice)
    ensures
        final(v).len() == old(v).len() + 1,
{
    v.push(slot);
}

/// Simulated memory.
pub struct Memory {
    pub data: Vec<u8>,
    pub size: usize,
    heap_top: usize,
    memory_regions: Vec<MemoryRegion>,
    device_base_list: Vec<usize>,
    mapped_devices: Vec<MappedDevice>,
    config: MemoryConfig,
}

impl Clone for Memory {
    /// Clones the memory contents, regions and configuration; mapped devices
    /// are not carried over.
    fn clone(&self) -> (r: Self)
        ensures
            r.contents() == self.contents(),
            r.msize() == self.msize(),
            r.heap() == self.heap(),
            r.regions() == self.regions(),
            r.device_bases() == Seq::<usize>::empty(),
            r.cfg() == self.cfg(),
            self.wf() ==> r.wf(),
    {
        let mut data: Vec<u8> = Vec::new();
        let mut i: usize = 0;
        while i < self.data.len()
            invariant
                i <= self.data.len(),
                data@ == self.contents().take(i as int),
            decreases self.data.len() - i,
        {
            data.push(self.data[i]);
            i = i + 1;
            proof {
                assert(data@ == self.contents().take(i as int));
            }
        }
        proof {
            assert(self.contents().take(self.data.len() as int) == self.contents());
        }
        let regions = copy_regions(&self.memory_regions);
        let devices: Vec<MappedDevice> = Vec::new();
        let bases: Vec<usize> = Vec::new();
        Self {
            data,
            size: self.size,
            heap_top: self.heap_top,
            memory_regions: regions,
            device_base_list: bases,
            mapped_devices: devices,
            config: self.config,
        }
    }
}

fn copy_regions(v: &Vec<MemoryRegion>) -> (r: Vec<MemoryRegion>)
    ensures
        r@ == v@,
{
    let mut out: Vec<MemoryRegion> = Vec::new();
    let mut i: usize = 0;
    while i < v.len()
        invariant
            i <= v.len(),
            out@ == v@.take(i as int),
        decreases v.len() - i,
    {
        out.push(v[i]);
        i = i + 1;
        proof {
            assert(out@ == v@.take(i as int));
        }
    }
    proof {
        assert(v@.take(v.len() as int) == v@);
    }
    out
}

/// Stably sorts regions by descending priority.
pub fn sort_regions_by_priority(regions: &Vec<MemoryRegion>) -> (r: Vec<MemoryRegion>)
    ensures
        r@ == sorted_by_priority(regions@),
{
    let mut out: Vec<MemoryRegion> = Vec::new();
    let mut p: u16 = 256;
    while p > 0
        invariant
            p <= 256,
            out@ == priority_order_from(regions@, p as int),
        decreases p,
    {
        p = p - 1;
        let ghost before = out@;
        let mut i: usize = 0;
        while i < regions.len()
            invariant
                i <= regions.len(),
                p < 256,
                out@ == before + priority_bucket(regions@.take(i as int), p as int),
            decreases regions.len() - i,
        {
            let r = regions[i];
            proof {
                assert(regions@.take(i + 1).drop_last() == regions@.take(i as int));
            }
            if r.priority as u16 == p {
                out.push(r);
            }
            i = i + 1;
        }
        proof {
            assert(regions@.take(regions.len() as int) == regions@);
        }
    }
    out
}

impl Memory {
    // ------------------------------------------------------------------
    // Abstract state
    // ------------------------------------------------------------------
    /// The bytes of the backing store.
    pub closed spec fn contents(&self) -> Seq<u8> {
        self.data@
    }

    /// The size of the memory in bytes.
    pub closed spec fn msize(&self) -> usize {
        self.size
    }

    /// Top of the heap.
    pub closed spec fn heap(&self) -> usize {
        self.heap_top
    }

    /// The permission regions, in the order in which they are consulted.
    pub closed spec fn regions(&self) -> Seq<MemoryRegion> {
        self.memory_regions@
    }

    /// Base addresses of the mapped devices, in lookup order.
    pub closed spec fn device_bases(&self) -> Seq<usize> {
        self.device_base_list@
    }

    /// The configuration.
    pub closed spec fn cfg(&self) -> MemoryConfig {
        self.config
    }

    /// The backing store has `size` bytes, and every device window lies
    /// inside the address space.
    pub open spec fn wf(&self) -> bool {
        &&& self.contents().len() == self.msize()
        &&& self.msize() <= isize::MAX
        &&& forall|i: int|
            0 <= i < self.device_bases().len() ==> #[trigger] self.device_bases()[i]
                <= usize::MAX - DEVICE_WINDOW
        &&& self.device_bases().no_duplicates()
        &&& self.device_count_matches()
    }

    /// There is one device per base address.
    pub closed spec fn device_count_matches(&self) -> bool {
        self.mapped_devices.len() == self.device_base_list.len()
    }

    /// Address translation cannot underflow: high addresses are only
    /// translated when the memory is not empty.
    pub open spec fn translatable(&self, address: usize) -> bool {
        !(self.cfg().enable_translation && address >= 0x10000000 && self.msize() == 0)
    }

    /// No address can make translation underflow.
    pub open spec fn translation_safe(&self) -> bool {
        self.msize() > 0 || !self.cfg().enable_translation
    }

    /// The backing store `data` after a byte write of `value` at `address`
    /// through this memory's checks (a write to a device leaves it as is).
    pub open spec fn byte_written(&self, data: Seq<u8>, address: usize, value: u8) -> Seq<u8> {
        if self.device_at(address) is None && self.writable(address, 1) {
            data.update(self.phys(address) as int, value)
        } else {
            data
        }
    }

    /// The backing store `data` after a word write of `value` at `address`
    /// through this memory's checks (a write to a device leaves it as is).
    pub open spec fn word_written(&self, data: Seq<u8>, address: usize, value: u32) -> Seq<u8> {
        if self.device_at(address) is None && self.writable(address, 4) {
            let p = self.phys(address) as int;
            data.update(p, word_byte(value, 0)).update(p + 1, word_byte(value, 1)).update(
                p + 2,
                word_byte(value, 2),
            ).update(p + 3, word_byte(value, 3))
        } else {
            data
        }
    }

    /// The backing store `data` after writing `bytes` one by one at
    /// `base`, `base + 1`, ... through this memory's checks.
    pub open spec fn bytes_loaded(&self, data: Seq<u8>, base: usize, bytes: Seq<u8>) -> Seq<u8>
        decreases bytes.len(),
    {
        if bytes.len() == 0 {
            data
        } else {
            self.byte_written(
                self.bytes_loaded(data, base, bytes.drop_last()),
                (base + bytes.len() - 1) as usize,
                bytes.last(),
            )
        }
    }

    /// The backing store `data` after writing `words` one by one at
    /// `base`, `base + 4`, ... through this memory's checks.
    pub open spec fn words_loaded(&self, data: Seq<u8>, base: usize, words: Seq<u32>) -> Seq<u8>
        decreases words.len(),
    {
        if words.len() == 0 {
            data
        } else {
            self.word_written(
                self.words_loaded(data, base, words.drop_last()),
                (base + 4 * (words.len() - 1)) as usize,
                words.last(),
            )
        }
    }

    /// The byte a checked read at `address` yields from the backing store,
    /// or 0 when the read fails.
    pub open spec fn byte_or_zero(&self, address: usize) -> u8 {
        if self.readable(address, 1) {
            self.byte(self.phys(address) as int)
        } else {
            0
        }
    }

    /// The physical address that `address` translates to.
    pub open spec fn phys(&self, address: usize) -> usize {
        if !self.cfg().enable_translation {
            address
        } else if address >= 0x10000000 {
            let m: usize = (self.msize() - 1) as usize;
            address & (if m >= 0xFFFFF { m } else { 0xFFFFF })
        } else {
            address
        }
    }

    /// Whether an access of `size` bytes at `address` is in bounds (after
    /// translation) and sufficiently aligned.
    pub open spec fn valid_access(&self, address: usize, size: usize) -> bool {
        let p = self.phys(address);
        &&& p < self.msize()
        &&& p + size <= self.msize()
        &&& if !self.cfg().enable_permissions || self.cfg().strict_alignment {
            if size == 1 {
                true
            } else if size == 2 {
                address % 2 == 0
            } else if size == 4 {
                address % 4 == 0
            } else {
                false
            }
        } else {
            true
        }
    }

    /// Whether `size` bytes from `address` lie inside the memory.
    pub open spec fn in_bounds(&self, address: usize, size: usize) -> bool {
        let p = self.phys(address);
        p < self.msize() && p + size <= self.msize()
    }

    /// Whether the region that governs `address` permits the access.
    pub open spec fn permits(&self, address: usize, read: bool, write: bool, execute: bool) -> bool {
        permitted_from(self.regions(), 0, address, read, write, execute)
    }

    /// The index of the device mapped at `address`, if any.
    pub open spec fn device_at(&self, address: usize) -> Option<int> {
        device_from(self.device_bases(), 0, address)
    }

    /// Whether a checked read of `n` bytes at `address` (`n` of 1, 2 or 4)
    /// succeeds on the backing store.
    pub open spec fn readable(&self, address: usize, n: usize) -> bool {
        &&& self.valid_access(address, n)
        &&& (self.cfg().enable_permissions ==> self.permits(address, true, false, false) && (n
            > 1 ==> self.permits((address + n - 1) as usize, true, false, false)))
    }

    /// Whether a checked write of `n` bytes at `address` succeeds on the
    /// backing store.
    pub open spec fn writable(&self, address: usize, n: usize) -> bool {
        &&& self.valid_access(address, n)
        &&& (self.cfg().enable_permissions ==> self.permits(address, false, true, false) && (n
            > 1 ==> self.permits((address + n - 1) as usize, false, true, false)))
    }

    /// The byte at physical address `p`.
    pub open spec fn byte(&self, p: int) -> u8 {
        self.contents()[p]
    }

    /// The little-endian word stored at the physical address `p`.
    pub open spec fn word(&self, p: int) -> u32 {
        le_word(self.contents()[p], self.contents()[p + 1], self.contents()[p + 2], self.contents()[p + 3])
    }

    /// The little-endian halfword stored at the physical address `p`.
    pub open spec fn half(&self, p: int) -> u16 {
        le_half(self.contents()[p], self.contents()[p + 1])
    }

    /// The size of the memory in bytes.
    pub fn get_size(&self) -> (r: usize)
        ensures
            r == self.msize(),
    {
        self.size
    }

    /// Everything but the backing store is unchanged from `other`.
    pub open spec fn same_layout(&self, other: &Memory) -> bool {
        &&& self.msize() == other.msize()
        &&& self.heap() == other.heap()
        &&& self.regions() == other.regions()
        &&& self.device_bases() == other.device_bases()
        &&& self.cfg() == other.cfg()
    }

    /// The backing store after writing the bytes of `v` at physical `p`.
    pub open spec fn data_with_word(&self, p: int, v: u32) -> Seq<u8> {
        self.contents().update(p, word_byte(v, 0)).update(p + 1, word_byte(v, 1)).update(
            p + 2,
            word_byte(v, 2),
        ).update(p + 3, word_byte(v, 3))
    }

    /// The backing store after writing the bytes of `v` at physical `p`.
    pub open spec fn data_with_half(&self, p: int, v: u16) -> Seq<u8> {
        self.contents().update(p, (v & 0xff) as u8).update(p + 1, ((v >> 8u16) & 0xff) as u8)
    }

    // ------------------------------------------------------------------
    // Construction
    // ------------------------------------------------------------------
    /// Create a new memory instance with default configuration.
    pub fn new(size: usize) -> (r: Self)
        requires
            size <= isize::MAX,
        ensures
            r.wf(),
            r.msize() == size,
            r.contents() == Seq::new(size as nat, |i: int| 0u8),
            r.cfg() == (MemoryConfig {
                strict_alignment: false,
                verbose_errors: false,
                enable_permissions: true,
                enable_translation: true,
            }),
            r.regions() == sorted_by_priority(default_regions(size)),
            r.heap() == (if size / 2 < 0x00200000 { size / 2 } else { 0x00200000 }),
            r.device_bases().len() == 0,
            forall|a: usize, n: usize|
                0 < n && a < 0x1000_0000 && a + n <= size ==> #[trigger] r.writable(a, n) && r.readable(a, n),
    {
        let r = Self::with_config(size, MemoryConfig::default());
        proof {
            let d = default_regions(size);
            assert(all_read_write(d)) by {
                assert forall|k: int| 0 <= k < d.len() implies (#[trigger] d[k]).readable && d[k].writable by {}
            }
            lemma_order_read_write(d, 0);
            assert forall|a: usize, n: usize| 0 < n && a < 0x1000_0000 && a + n <= size implies #[trigger] r.writable(
                a,
                n,
            ) && r.readable(a, n) by {
                lemma_permitted_read_write(r.regions(), 0, a, false, true);
                lemma_permitted_read_write(r.regions(), 0, a, true, false);
                lemma_permitted_read_write(r.regions(), 0, (a + n - 1) as usize, false, true);
                lemma_permitted_read_write(r.regions(), 0, (a + n - 1) as usize, true, false);
            }
        }
        r
    }

    /// Create a new memory instance with custom configuration.
    pub fn with_config(size: usize, config: MemoryConfig) -> (r: Self)
        requires
            size <= isize::MAX,
        ensures
            r.wf(),
            r.msize() == size,
            r.contents() == Seq::new(size as nat, |i: int| 0u8),
            r.cfg() == config,
            r.regions() == sorted_by_priority(default_regions(size)),
            r.heap() == (if size / 2 < 0x00200000 { size / 2 } else { 0x00200000 }),
            r.device_bases().len() == 0,
    {
        let regions = Self::create_default_regions(size);
        let memory_regions = sort_regions_by_priority(&regions);
        let data = zeroed(size);
        let heap_top = if size / 2 < 0x00200000 { size / 2 } else { 0x00200000 };
        let devices: Vec<MappedDevice> = Vec::new();
        let bases: Vec<usize> = Vec::new();
        let r = Self {
            data,
            size,
            heap_top,
            memory_regions,
            device_base_list: bases,
            mapped_devices: devices,
            config,
        };
        proof {
            assert(r.device_bases() =~= Seq::<usize>::empty());
        }
        r
    }

    /// Create a simple memory instance: one region covering everything, no
    /// permission checks, no translation.
    pub fn new_simple(size: usize) -> (r: Self)
        requires
            size <= isize::MAX,
        ensures
            r.wf(),
            r.msize() == size,
            r.contents() == Seq::new(size as nat, |i: int| 0u8),
            r.cfg() == (MemoryConfig {
                strict_alignment: false,
                verbose_errors: false,
                enable_permissions: false,
                enable_translation: false,
            }),
            r.regions() == seq![
                MemoryRegion {
                    start: 0,
                    end: size,
                    readable: true,
                    writable: true,
                    executable: true,
                    priority: 255,
                },
            ],
            r.heap() == size / 2,
            r.device_bases().len() == 0,
    {
        let mut regions: Vec<MemoryRegion> = Vec::new();
        regions.push(
            MemoryRegion {
                start: 0x00000000,
                end: size,
                readable: true,
                writable: true,
                executable: true,
                priority: 255,
            },
        );
        let devices: Vec<MappedDevice> = Vec::new();
        let bases: Vec<usize> = Vec::new();
        let r = Self {
            data: zeroed(size),
            size,
            heap_top: size / 2,
            memory_regions: regions,
            device_base_list: bases,
            mapped_devices: devices,
            config: MemoryConfig {
                strict_alignment: false,
                verbose_errors: false,
                enable_permissions: false,
                enable_translation: false,
            },
        };
        proof {
            assert(r.device_bases() =~= Seq::<usize>::empty());
        }
        r
    }

    /// Create default memory regions based on memory size.
    fn create_default_regions(size: usize) -> (r: Vec<MemoryRegion>)
        ensures
            r@ == default_regions(size),
    {
        let mut regions: Vec<MemoryRegion> = Vec::new();
        regions.push(
            MemoryRegion {
                start: 0x00000000,
                end: size,
                readable: true,
                writable: true,
                executable: true,
                priority: 0,
            },
        );
        if size >= 0x10000 {
            regions.push(
                MemoryRegion {
                    start: 0x00000000,
                    end: 0x00010000,
                    readable: true,
                    writable: true,
                    executable: true,
                    priority: 10,
                },
            );
        }
        if size >= 0x100000 {
            regions.push(
                MemoryRegion {
                    start: 0x00010000,
                    end: if 0x00100000 < size { 0x00100000 } else { size },
                    readable: true,
                    writable: true,
                    executable: false,
                    priority: 5,
                },
            );
        }
        if size >= 0x400000 {
            regions.push(
                MemoryRegion {
                    start: 0x00100000,
                    end: if 0x00400000 < size { 0x00400000 } else { size },
                    readable: true,
                    writable: true,
                    executable: false,
                    priority: 3,
                },
            );
        }
        regions
    }

    // ------------------------------------------------------------------
    // Checks
    // ------------------------------------------------------------------
    /// Address translation function to map virtual addresses to physical
    /// addresses.
    pub fn translate_address(&self, address: usize) -> (r: usize)
        requires
            self.translatable(address),
        ensures
            r == self.phys(address),
    {
        if !self.config.enable_translation {
            return address;
        }
        if address >= 0x10000000 {
            let m = self.size - 1;
            address & (if m >= 0xFFFFF { m } else { 0xFFFFF })
        } else {
            address
        }
    }

    /// Check if an address is valid for the given operation.
    fn is_in_bounds(&self, address: usize, size: usize) -> (r: bool)
        requires
            self.wf(),
            self.translatable(address),
        ensures
            r == self.in_bounds(address, size),
    {
        let physical_addr = self.translate_address(address);
        physical_addr < self.size && size <= self.size - physical_addr
    }

    fn is_valid_access(&self, address: usize, size: usize) -> (r: bool)
        requires
            self.wf(),
            self.translatable(address),
        ensures
            r == self.valid_access(address, size),
    {
        let physical_addr = self.translate_address(address);
        if physical_addr >= self.size || size > self.size - physical_addr {
            return false;
        }
        if !self.config.enable_permissions || self.config.strict_alignment {
            if size == 1 {
                true
            } else if size == 2 {
                address % 2 == 0
            } else if size == 4 {
                address % 4 == 0
            } else {
                false
            }
        } else {
            true
        }
    }

    /// Check memory access permissions: the first region (highest priority)
    /// that contains `address` decides; no region means allowed.
    fn check_permission(&self, address: usize, read: bool, write: bool, execute: bool) -> (r: bool)
        ensures
            r == self.permits(address, read, write, execute),
    {
        let mut i: usize = 0;
        while i < self.memory_regions.len()
            invariant
                i <= self.memory_regions.len(),
                permitted_from(self.regions(), 0, address, read, write, execute)
                    == permitted_from(self.regions(), i as int, address, read, write, execute),
            decreases self.memory_regions.len() - i,
        {
            let region = self.memory_regions[i];
            if address >= region.start && address < region.end {
                return (!read || region.readable) && (!write || region.writable) && (!execute
                    || region.executable);
            }
            i = i + 1;
        }
        true
    }

    /// The index of the device mapped at `address`.
    fn find_device(&self, address: usize) -> (r: Option<usize>)
        requires
            self.wf(),
        ensures
            r matches Some(i) ==> self.device_at(address) == Some(i as int) && i
                < self.mapped_devices.len() && i < self.device_base_list.len()
                && self.device_bases()[i as int] <= address
                && self.device_base_list@[i as int] == self.device_bases()[i as int],
            r is None ==> self.device_at(address) is None,
    {
        let mut i: usize = 0;
        while i < self.mapped_devices.len()
            invariant
                self.wf(),
                i <= self.mapped_devices.len(),
                device_from(self.device_bases(), 0, address) == device_from(
                    self.device_bases(),
                    i as int,
                    address,
                ),
            decreases self.mapped_devices.len() - i,
        {
            let base = self.device_base_list[i];
            if address >= base && address < base + DEVICE_WINDOW {
                return Some(i);
            }
            i = i + 1;
        }
        None
    }

    // ------------------------------------------------------------------
    // Initialization writes
    // ------------------------------------------------------------------
    /// Direct write method that bypasses permission checks.
    pub fn write_word_init(&mut self, address: usize, value: u32) -> (r: bool)
        requires
            old(self).wf(),
            old(self).translatable(address),
        ensures
            final(self).wf(),
            final(self).same_layout(old(self)),
            r == old(self).valid_access(address, 4),
            final(self).contents() == if r {
                old(self).data_with_word(old(self).phys(address) as int, value)
            } else {
                old(self).contents()
            },
    {
        if !self.is_valid_access(address, 4) {
            return false;
        }
        let p = self.translate_address(address);
        self.store_word(p, value);
        true
    }

    /// Direct byte write method.
    pub fn write_byte_init(&mut self, address: usize, value: u8) -> (r: bool)
        requires
            old(self).wf(),
            old(self).translatable(address),
        ensures
            final(self).wf(),
            final(self).same_layout(old(self)),
            r == old(self).valid_access(address, 1),
            final(self).contents() == if r {
                old(self).contents().update(old(self).phys(address) as int, value)
            } else {
                old(self).contents()
            },
    {
        if !self.is_valid_access(address, 1) {
            return false;
        }
        let p = self.translate_address(address);
        let ghost before = self.device_bases();
        self.data.set(p, value);
        assert(self.device_bases() == before);
        true
    }

    fn store_word(&mut self, p: usize, value: u32)
        requires
            old(self).wf(),
            p + 4 <= old(self).msize(),
        ensures
            final(self).wf(),
            final(self).same_layout(old(self)),
            final(self).contents() == old(self).data_with_word(p as int, value),
    {
        let ghost before = self.device_bases();
        let (b0, b1, b2, b3) = split_word(value);
        self.data.set(p, b0);
        self.data.set(p + 1, b1);
        self.data.set(p + 2, b2);
        self.data.set(p + 3, b3);
        assert(self.device_bases() == before);
    }

    fn store_half(&mut self, p: usize, value: u16)
        requires
            old(self).wf(),
            p + 2 <= old(self).msize(),
        ensures
            final(self).wf(),
            final(self).same_layout(old(self)),
            final(self).contents() == old(self).data_with_half(p as int, value),
    {
        let ghost before = self.device_bases();
        self.data.set(p, (value & 0xff) as u8);
        self.data.set(p + 1, ((value >> 8u16) & 0xff) as u8);
        assert(self.device_bases() == before);
    }

    // ------------------------------------------------------------------
    // Checked accesses
    // ------------------------------------------------------------------
    /// Read a single byte from memory.
    pub fn read_byte(&self, address: usize) -> (r: Option<u8>)
        requires
            self.wf(),
            self.translatable(address),
        ensures
            self.device_at(address) is Some ==> r is Some,
            self.device_at(address) is None ==> r == if self.readable(address, 1) {
                Some(self.byte(self.phys(address) as int))
            } else {
                None
            },
    {
        if let Some(i) = self.find_device(address) {
            let base = self.device_base_list[i];
            return Some(self.mapped_devices[i].device.read_byte(address - base));
        }
        if !self.is_valid_access(address, 1) {
            return None;
        }
        if self.config.enable_permissions && !self.check_permission(address, true, false, false) {
            return None;
        }
        let p = self.translate_address(address);
        Some(self.data[p])
    }

    /// Write a single byte to memory.
    pub fn write_byte(&mut self, address: usize, value: u8) -> (r: bool)
        requires
            old(self).wf(),
            old(self).translatable(address),
        ensures
            final(self).wf(),
            final(self).same_layout(old(self)),
            old(self).device_at(address) is Some ==> r && final(self).contents() == old(self).contents(),
            old(self).device_at(address) is None ==> r == old(self).writable(address, 1),
            old(self).device_at(address) is None ==> final(self).contents() == if r {
                old(self).contents().update(old(self).phys(address) as int, value)
            } else {
                old(self).contents()
            },
    {
        if let Some(i) = self.find_device(address) {
            self.device_write_byte(i, address, value);
            return true;
        }
        if !self.is_valid_access(address, 1) {
            return false;
        }
        if self.config.enable_permissions && !self.check_permission(address, false, true, false) {
            return false;
        }
        let p = self.translate_address(address);
        self.data.set(p, value);
        true
    }

    /// Hands a byte write to device `i`.
    fn device_write_byte(&mut self, i: usize, address: usize, value: u8)
        requires
            old(self).wf(),
            i < old(self).mapped_devices.len(),
            old(self).device_bases()[i as int] <= address,
        ensures
            final(self).wf(),
            final(self).same_layout(old(self)),
            final(self).contents() == old(self).contents(),
            exists|d: MappedDevice| final(self).mapped_devices@ == old(self).mapped_devices@.update(i as int, d),
            final(self).device_base_list == old(self).device_base_list,
    {
        let ghost bases = self.device_bases();
        let base = self.device_base_list[i];
        let mut dev = self.mapped_devices.remove(i);
        dev.device.write_byte(address - base, value);
        self.mapped_devices.insert(i, dev);
        assert(self.mapped_devices@ =~= old(self).mapped_devices@.update(i as int, dev));
        assert(self.mapped_devices.len() == self.device_base_list.len());
        assert(self.device_bases() == bases);
    }

    /// Hands a word write to device `i`.
    fn device_write_word(&mut self, i: usize, address: usize, value: u32)
        requires
            old(self).wf(),
            i < old(self).mapped_devices.len(),
            old(self).device_bases()[i as int] <= address,
        ensures
            final(self).wf(),
            final(self).same_layout(old(self)),
            final(self).contents() == old(self).contents(),
            exists|d: MappedDevice| final(self).mapped_devices@ == old(self).mapped_devices@.update(i as int, d),
            final(self).device_base_list == old(self).device_base_list,
    {
        let ghost bases = self.device_bases();
        let base = self.device_base_list[i];
        let mut dev = self.mapped_devices.remove(i);
        dev.device.write_word(address - base, value);
        self.mapped_devices.insert(i, dev);
        assert(self.mapped_devices@ =~= old(self).mapped_devices@.update(i as int, dev));
        assert(self.mapped_devices.len() == self.device_base_list.len());
        assert(self.device_bases() == bases);
    }

    /// Read a 32-bit little-endian word from memory.
    pub fn read_word(&self, address: usize) -> (r: Option<u32>)
        requires
            self.wf(),
            self.translatable(address),
            self.cfg().enable_translation && self.cfg().enable_permissions ==> address <= usize::MAX - 3,
        ensures
            self.device_at(address) is Some ==> r is Some,
            self.device_at(address) is None ==> r == if self.readable(address, 4) {
                Some(self.word(self.phys(address) as int))
            } else {
                None
            },
    {
        if let Some(i) = self.find_device(address) {
            let base = self.device_base_list[i];
            return Some(self.mapped_devices[i].device.read_word(address - base));
        }
        if !self.is_valid_access(address, 4) {
            return None;
        }
        if self.config.enable_permissions && (!self.check_permission(address, true, false, false)
            || !self.check_permission(address + 3, true, false, false)) {
            return None;
        }
        let p = self.translate_address(address);
        Some(compose_word(self.data[p], self.data[p + 1], self.data[p + 2], self.data[p + 3]))
    }

    /// Write a 32-bit little-endian word to memory.
    pub fn write_word(&mut self, address: usize, value: u32) -> (r: bool)
        requires
            old(self).wf(),
            old(self).translatable(address),
            old(self).cfg().enable_translation && old(self).cfg().enable_permissions ==> address <= usize::MAX - 3,
        ensures
            final(self).wf(),
            final(self).same_layout(old(self)),
            old(self).device_at(address) is Some ==> r && final(self).contents() == old(self).contents(),
            old(self).device_at(address) is None ==> r == old(self).writable(address, 4),
            old(self).device_at(address) is None ==> final(self).contents() == if r {
                old(self).data_with_word(old(self).phys(address) as int, value)
            } else {
                old(self).contents()
            },
    {
        if let Some(i) = self.find_device(address) {
            self.device_write_word(i, address, value);
            return true;
        }
        if !self.is_valid_access(address, 4) {
            return false;
        }
        if self.config.enable_permissions && (!self.check_permission(address, false, true, false)
            || !self.check_permission(address + 3, false, true, false)) {
            return false;
        }
        let p = self.translate_address(address);
        self.store_word(p, value);
        true
    }

    /// Read a 16-bit little-endian halfword from memory.
    pub fn read_halfword(&self, address: usize) -> (r: Option<u16>)
        requires
            self.wf(),
            self.translatable(address),
            self.cfg().enable_translation && self.cfg().enable_permissions ==> address <= usize::MAX - 1,
        ensures
            self.device_at(address) is Some ==> r is Some,
            self.device_at(address) is None ==> r == if self.readable(address, 2) {
                Some(self.half(self.phys(address) as int))
            } else {
                None
            },
    {
        if let Some(i) = self.find_device(address) {
            let base = self.device_base_list[i];
            return Some((self.mapped_devices[i].device.read_word(address - base) & 0xFFFF) as u16);
        }
        if !self.is_valid_access(address, 2) {
            return None;
        }
        if self.config.enable_permissions && (!self.check_permission(address, true, false, false)
            || !self.check_permission(address + 1, true, false, false)) {
            return None;
        }
        let p = self.translate_address(address);
        Some((self.data[p] as u16) | ((self.data[p + 1] as u16) << 8u16))
    }

    /// Write a 16-bit little-endian halfword to memory.
    pub fn write_halfword(&mut self, address: usize, value: u16) -> (r: bool)
        requires
            old(self).wf(),
            old(self).translatable(address),
            old(self).cfg().enable_translation && old(self).cfg().enable_permissions ==> address <= usize::MAX - 1,
        ensures
            final(self).wf(),
            final(self).same_layout(old(self)),
            old(self).device_at(address) is Some ==> r && final(self).contents() == old(self).contents(),
            old(self).device_at(address) is None ==> r == old(self).writable(address, 2),
            old(self).device_at(address) is None ==> final(self).contents() == if r {
                old(self).data_with_half(old(self).phys(address) as int, value)
            } else {
                old(self).contents()
            },
    {
        if let Some(i) = self.find_device(address) {
            self.device_write_word(i, address, value as u32);
            return true;
        }
        if !self.is_valid_access(address, 2) {
            return false;
        }
        if self.config.enable_permissions && (!self.check_permission(address, false, true, false)
            || !self.check_permission(address + 1, false, true, false)) {
            return false;
        }
        let p = self.translate_address(address);
        self.store_half(p, value);
        true
    }

    // ------------------------------------------------------------------
    // Devices and regions
    // ------------------------------------------------------------------
    /// Maps `device` at `base_address`, replacing a device already mapped
    /// there.
    pub fn map_device(&mut self, base_address: usize, device: Box<dyn MemoryMappedDevice>)
        requires
            old(self).wf(),
            base_address <= usize::MAX - DEVICE_WINDOW,
        ensures
            final(self).wf(),
            final(self).contents() == old(self).contents(),
            final(self).msize() == old(self).msize(),
            final(self).heap() == old(self).heap(),
            final(self).regions() == old(self).regions(),
            final(self).cfg() == old(self).cfg(),
            final(self).device_bases() == if old(self).device_bases().contains(base_address) {
                old(self).device_bases()
            } else {
                old(self).device_bases().push(base_address)
            },
    {
        let ghost bases = self.device_bases();
        let mut i: usize = 0;
        while i < self.device_base_list.len()
            invariant
                i <= self.device_base_list.len(),
                bases == self.device_bases(),
                bases == old(self).device_bases(),
                old(self).wf(),
                self.data == old(self).data,
                self.size == old(self).size,
                self.heap_top == old(self).heap_top,
                self.memory_regions == old(self).memory_regions,
                self.config == old(self).config,
                self.mapped_devices.len() == self.device_base_list.len(),
                forall|k: int| 0 <= k < i ==> bases[k] != base_address,
            decreases self.device_base_list.len() - i,
        {
            if self.device_base_list[i] == base_address {
                let slot = MappedDevice { device };
                replace_slot(&mut self.mapped_devices, i, slot);
                assert(self.mapped_devices.len() == self.device_base_list.len());
                assert(self.device_bases() == bases);
                return;
            }
            i = i + 1;
        }
        self.device_base_list.push(base_address);
        let slot = MappedDevice { device };
        append_slot(&mut self.mapped_devices, slot);
        assert(self.mapped_devices.len() == self.device_base_list.len());
        proof {
            assert(!bases.contains(base_address));
            let nb = self.device_bases();
            assert(nb == bases.push(base_address));
            assert forall|a: int, b: int|
                0 <= a < nb.len() && 0 <= b < nb.len() && a != b implies nb[a] != nb[b] by {
                if a < bases.len() && b < bases.len() {
                    assert(nb[a] == bases[a] && nb[b] == bases[b]);
                } else if a < bases.len() {
                    assert(nb[a] == bases[a]);
                } else if b < bases.len() {
                    assert(nb[b] == bases[b]);
                }
            }
            assert forall|k: int| 0 <= k < nb.len() implies #[trigger] nb[k] <= usize::MAX
                - DEVICE_WINDOW by {
                if k < bases.len() {
                    assert(nb[k] == bases[k]);
                }
            }
        }
    }

    /// Removes the device mapped at `base_address`, if any.
    pub fn unmap_device(&mut self, base_address: usize)
        requires
            old(self).wf(),
        ensures
            final(self).wf(),
            final(self).contents() == old(self).contents(),
            final(self).msize() == old(self).msize(),
            final(self).heap() == old(self).heap(),
            final(self).regions() == old(self).regions(),
            final(self).cfg() == old(self).cfg(),
            !final(self).device_bases().contains(base_address),
            old(self).device_bases().contains(base_address) ==> exists|i: int|
                0 <= i < old(self).device_bases().len() && old(self).device_bases()[i]
                    == base_address && final(self).device_bases() == old(
                    self,
                ).device_bases().remove(i),
            !old(self).device_bases().contains(base_address) ==> final(self).device_bases()
                == old(self).device_bases(),
    {
        let ghost bases = self.device_bases();
        let mut i: usize = 0;
        while i < self.device_base_list.len()
            invariant
                i <= self.device_base_list.len(),
                bases == self.device_bases(),
                bases == old(self).device_bases(),
                old(self).wf(),
                self.data == old(self).data,
                self.size == old(self).size,
                self.heap_top == old(self).heap_top,
                self.memory_regions == old(self).memory_regions,
                self.config == old(self).config,
                self.mapped_devices.len() == self.device_base_list.len(),
                forall|k: int| 0 <= k < i ==> bases[k] != base_address,
            decreases self.device_base_list.len() - i,
        {
            if self.device_base_list[i] == base_address {
                let _removed_base = self.device_base_list.remove(i);
                let _removed = self.mapped_devices.remove(i);
                proof {
                    assert(self.device_bases() == bases.remove(i as int));
                    assert forall|a: int, b: int|
                        0 <= a < self.device_bases().len() && 0 <= b < self.device_bases().len()
                            && a != b implies self.device_bases()[a]
                        != self.device_bases()[b] by {
                        let a2 = if a < i { a } else { a + 1 };
                        let b2 = if b < i { b } else { b + 1 };
                        assert(self.device_bases()[a] == bases[a2]);
                        assert(self.device_bases()[b] == bases[b2]);
                    }
                    assert forall|k: int|
                        0 <= k < self.device_bases().len() implies self.device_bases()[k]
                        != base_address by {
                        let k2 = if k < i { k } else { k + 1 };
                        assert(self.device_bases()[k] == bases[k2]);
                    }
                    assert forall|k: int|
                        0 <= k < self.device_bases().len() implies #[trigger] self.device_bases()[k]
                        <= usize::MAX - DEVICE_WINDOW by {
                        let k2 = if k < i { k } else { k + 1 };
                        assert(self.device_bases()[k] == bases[k2]);
                    }
                }
                return;
            }
            i = i + 1;
        }
    }

    /// Adds a permission region and re-sorts the regions by priority.
    pub fn add_memory_region(&mut self, region: MemoryRegion)
        requires
            old(self).wf(),
        ensures
            final(self).wf(),
            final(self).contents() == old(self).contents(),
            final(self).msize() == old(self).msize(),
            final(self).heap() == old(self).heap(),
            final(self).device_bases() == old(self).device_bases(),
            final(self).cfg() == old(self).cfg(),
            final(self).regions() == sorted_by_priority(old(self).regions().push(region)),
    {
        let ghost bases = self.device_bases();
        self.memory_regions.push(region);
        let sorted = sort_regions_by_priority(&self.memory_regions);
        self.memory_regions = sorted;
        assert(self.device_bases() == bases);
    }

    /// Replaces all permission regions, sorted by priority.
    pub fn set_memory_regions(&mut self, regions: Vec<MemoryRegion>)
        requires
            old(self).wf(),
        ensures
            final(self).wf(),
            final(self).contents() == old(self).contents(),
            final(self).msize() == old(self).msize(),
            final(self).heap() == old(self).heap(),
            final(self).device_bases() == old(self).device_bases(),
            final(self).cfg() == old(self).cfg(),
            final(self).regions() == sorted_by_priority(regions@),
            final(self).regions().len() == regions@.len(),
    {
        let ghost bases = self.device_bases();
        self.memory_regions = sort_regions_by_priority(&regions);
        assert(self.device_bases() == bases);
        proof {
            law_sorted_regions_keep_length(regions@);
        }
    }

    /// Whether the whole range `[start, start + length)` may be written: it
    /// must lie inside the memory and, with permissions on, every byte of it
    /// must be writable.
    pub fn is_range_writable(&self, start: usize, length: usize) -> (r: bool)
        requires
            self.wf(),
            self.translatable(start),
            self.cfg().enable_permissions ==> start + length <= usize::MAX,
        ensures
            !self.cfg().enable_permissions ==> r == self.in_bounds(start, length),
            self.cfg().enable_permissions ==> r == (self.in_bounds(start, length) && forall|a: usize|
                start <= a < start + length ==> #[trigger] self.permits(a, false, true, false)),
    {
        if !self.is_in_bounds(start, length) {
            return false;
        }
        if !self.config.enable_permissions {
            return true;
        }
        let end = start + length;
        let mut addr = start;
        while addr < end
            invariant
                self.cfg().enable_permissions,
                start <= addr <= end,
                end == start + length,
                forall|a: usize| start <= a < addr ==> #[trigger] self.permits(a, false, true, false),
            decreases end - addr,
        {
            if !self.check_permission(addr, false, true, false) {
                return false;
            }
            addr = addr + 1;
        }
        true
    }

    // ------------------------------------------------------------------
    // Heap and configuration
    // ------------------------------------------------------------------
    pub fn heap_end(&self) -> (r: usize)
        ensures
            r == self.heap(),
    {
        self.heap_top
    }

    /// Moves the heap top; an end beyond the memory is ignored.
    pub fn set_heap_end(&mut self, new_end: usize)
        requires
            old(self).wf(),
        ensures
            final(self).wf(),
            final(self).contents() == old(self).contents(),
            final(self).msize() == old(self).msize(),
            final(self).regions() == old(self).regions(),
            final(self).device_bases() == old(self).device_bases(),
            final(self).cfg() == old(self).cfg(),
            final(self).heap() == if new_end < old(self).msize() {
                new_end
            } else {
                old(self).heap()
            },
    {
        if new_end < self.size {
            let ghost bases = self.device_bases();
            self.heap_top = new_end;
            assert(self.device_bases() == bases);
        }
    }

    /// Whether a mapped device answers at `address`.
    pub fn is_device_address(&self, address: usize) -> (r: bool)
        requires
            self.wf(),
        ensures
            r == self.device_at(address) is Some,
    {
        self.find_device(address).is_some()
    }

    pub fn get_config(&self) -> (r: MemoryConfig)
        ensures
            r == self.cfg(),
    {
        self.config
    }

    pub fn set_config(&mut self, config: MemoryConfig)
        requires
            old(self).wf(),
        ensures
            final(self).wf(),
            final(self).contents() == old(self).contents(),
            final(self).msize() == old(self).msize(),
            final(self).heap() == old(self).heap(),
            final(self).regions() == old(self).regions(),
            final(self).device_bases() == old(self).device_bases(),
            final(self).cfg() == config,
    {
        let ghost bases = self.device_bases();
        self.config = config;
        assert(self.device_bases() == bases);
    }

    /// Enable or disable verbose error messages.
    pub fn set_verbose_errors(&mut self, verbose: bool)
        requires
            old(self).wf(),
        ensures
            final(self).wf(),
            final(self).contents() == old(self).contents(),
            final(self).msize() == old(self).msize(),
            final(self).heap() == old(self).heap(),
            final(self).regions() == old(self).regions(),
            final(self).device_bases() == old(self).device_bases(),
            final(self).cfg() == (MemoryConfig { verbose_errors: verbose, ..old(self).cfg() }),
    {
        let c = MemoryConfig { verbose_errors: verbose, ..self.config };
        self.set_config(c);
    }

    /// Enable or disable strict alignment checking.
    pub fn set_strict_alignment(&mut self, strict: bool)
        requires
            old(self).wf(),
        ensures
            final(self).wf(),
            final(self).contents() == old(self).contents(),
            final(self).msize() == old(self).msize(),
            final(self).heap() == old(self).heap(),
            final(self).regions() == old(self).regions(),
            final(self).device_bases() == old(self).device_bases(),
            final(self).cfg() == (MemoryConfig { strict_alignment: strict, ..old(self).cfg() }),
    {
        let c = MemoryConfig { strict_alignment: strict, ..self.config };
        self.set_config(c);
    }

    /// Enable or disable memory permissions.
    pub fn set_permissions_enabled(&mut self, enabled: bool)
        requires
            old(self).wf(),
        ensures
            final(self).wf(),
            final(self).contents() == old(self).contents(),
            final(self).msize() == old(self).msize(),
            final(self).heap() == old(self).heap(),
            final(self).regions() == old(self).regions(),
            final(self).device_bases() == old(self).device_bases(),
            final(self).cfg() == (MemoryConfig { enable_permissions: enabled, ..old(self).cfg() }),
    {
        let c = MemoryConfig { enable_permissions: enabled, ..self.config };
        self.set_config(c);
    }

    /// Enable or disable address translation.
    pub fn set_translation_enabled(&mut self, enabled: bool)
        requires
            old(self).wf(),
        ensures
            final(self).wf(),
            final(self).contents() == old(self).contents(),
            final(self).msize() == old(self).msize(),
            final(self).heap() == old(self).heap(),
            final(self).regions() == old(self).regions(),
            final(self).device_bases() == old(self).device_bases(),
            final(self).cfg() == (MemoryConfig { enable_translation: enabled, ..old(self).cfg() }),
    {
        let c = MemoryConfig { enable_translation: enabled, ..self.config };
        self.set_config(c);
    }

    /// Get memory statistics.
    /// The access regions, highest priority first.
    pub fn get_memory_regions(&self) -> (r: Vec<MemoryRegion>)
        ensures
            r@ == self.regions(),
    {
        copy_regions(&self.memory_regions)
    }

    pub fn get_statistics(&self) -> (r: MemoryStatistics)
        ensures
            r.total_size == self.msize(),
            r.heap_top == self.heap(),
            r.num_regions == self.regions().len(),
            r.num_mapped_devices == self.device_bases().len(),
    {
        MemoryStatistics {
            total_size: self.size,
            heap_top: self.heap_top,
            num_regions: self.memory_regions.len(),
            num_mapped_devices: self.device_base_list.len(),
        }
    }

    // ------------------------------------------------------------------
    // Bulk operations
    // ------------------------------------------------------------------
    /// Clear all memory (set to zero).
    pub fn clear(&mut self)
        requires
            old(self).wf(),
        ensures
            final(self).wf(),
            final(self).same_layout(old(self)),
            final(self).contents() == Seq::new(old(self).msize() as nat, |i: int| 0u8),
    {
        let ghost bases = self.device_bases();
        let mut i: usize = 0;
        while i < self.data.len()
            invariant
                i <= self.data.len(),
                self.data.len() == old(self).size,
                self.size == old(self).size,
                self.heap_top == old(self).heap_top,
                self.memory_regions == old(self).memory_regions,
                self.config == old(self).config,
                self.device_bases() == bases,
                bases == old(self).device_bases(),
                self.device_count_matches(),
                forall|k: int| 0 <= k < i ==> self.data@[k] == 0u8,
            decreases self.data.len() - i,
        {
            self.data.set(i, 0);
            assert(self.device_bases() == bases);
            i = i + 1;
        }
        assert(self.contents() =~= Seq::new(old(self).msize() as nat, |i: int| 0u8));
    }

    /// Fills the range of `length` bytes from `start` with `value`; a range
    /// that does not lie inside the memory is refused.
    pub fn fill_range(&mut self, start: usize, length: usize, value: u8) -> (r: bool)
        requires
            old(self).wf(),
            old(self).translatable(start),
        ensures
            final(self).wf(),
            final(self).same_layout(old(self)),
            r == old(self).in_bounds(start, length),
            final(self).contents() == if r {
                Seq::new(
                    old(self).msize() as nat,
                    |i: int|
                        if old(self).phys(start) <= i < old(self).phys(start) + length {
                            value
                        } else {
                            old(self).contents()[i]
                        },
                )
            } else {
                old(self).contents()
            },
    {
        if !self.is_in_bounds(start, length) {
            return false;
        }
        let physical_start = self.translate_address(start);
        let end = physical_start + length;
        let ghost bases = self.device_bases();
        let mut i = physical_start;
        while i < end
            invariant
                physical_start <= i <= end,
                end == physical_start + length,
                end <= self.size,
                self.data.len() == old(self).size,
                self.size == old(self).size,
                self.heap_top == old(self).heap_top,
                self.memory_regions == old(self).memory_regions,
                self.config == old(self).config,
                self.device_bases() == bases,
                bases == old(self).device_bases(),
                self.device_count_matches(),
                forall|k: int|
                    0 <= k < self.data.len() ==> self.data@[k] == if physical_start <= k < i {
                        value
                    } else {
                        old(self).data@[k]
                    },
            decreases end - i,
        {
            self.data.set(i, value);
            assert(self.device_bases() == bases);
            i = i + 1;
        }
        assert(self.contents() =~= Seq::new(
            old(self).msize() as nat,
            |i: int|
                if old(self).phys(start) <= i < old(self).phys(start) + length {
                    value
                } else {
                    old(self).contents()[i]
                },
        ));
        true
    }

    /// Copy `length` bytes from `src` to `dst` (overlapping ranges allowed).
    pub fn copy_range(&mut self, src: usize, dst: usize, length: usize) -> (r: bool)
        requires
            old(self).wf(),
            old(self).translatable(src),
            old(self).translatable(dst),
        ensures
            final(self).wf(),
            final(self).same_layout(old(self)),
            r == (old(self).in_bounds(src, length) && old(self).in_bounds(dst, length)),
            final(self).contents() == if r {
                Seq::new(
                    old(self).msize() as nat,
                    |i: int|
                        if old(self).phys(dst) <= i < old(self).phys(dst) + length {
                            old(self).contents()[old(self).phys(src) + (i - old(self).phys(dst))]
                        } else {
                            old(self).contents()[i]
                        },
                )
            } else {
                old(self).contents()
            },
    {
        if !self.is_in_bounds(src, length) || !self.is_in_bounds(dst, length) {
            return false;
        }
        let ps = self.translate_address(src);
        let pd = self.translate_address(dst);
        let mut temp: Vec<u8> = Vec::new();
        let mut k: usize = 0;
        while k < length
            invariant
                k <= length,
                ps + length <= self.size,
                self.data.len() == self.size,
                temp@ == self.data@.subrange(ps as int, ps + k),
            decreases length - k,
        {
            temp.push(self.data[ps + k]);
            k = k + 1;
            assert(temp@ == self.data@.subrange(ps as int, ps + k));
        }
        let ghost bases = self.device_bases();
        let mut j: usize = 0;
        while j < length
            invariant
                j <= length,
                pd + length <= self.size,
                ps + length <= old(self).size,
                old(self).wf(),
                temp.len() == length,
                temp@ == old(self).data@.subrange(ps as int, ps + length),
                self.data.len() == old(self).size,
                self.size == old(self).size,
                self.heap_top == old(self).heap_top,
                self.memory_regions == old(self).memory_regions,
                self.config == old(self).config,
                self.device_bases() == bases,
                bases == old(self).device_bases(),
                self.device_count_matches(),
                forall|i: int|
                    0 <= i < self.data.len() ==> self.data@[i] == if pd <= i < pd + j {
                        old(self).data@[ps + (i - pd)]
                    } else {
                        old(self).data@[i]
                    },
            decreases length - j,
        {
            self.data.set(pd + j, temp[j]);
            assert(self.device_bases() == bases);
            j = j + 1;
        }
        assert(self.contents() =~= Seq::new(
            old(self).msize() as nat,
            |i: int|
                if old(self).phys(dst) <= i < old(self).phys(dst) + length {
                    old(self).contents()[old(self).phys(src) + (i - old(self).phys(dst))]
                } else {
                    old(self).contents()[i]
                },
        ));
        true
    }

    /// Copies `image` into the backing store from physical address 0,
    /// bypassing translation, permissions and devices.
    pub fn load_raw_image(&mut self, image: &[u8])
        requires
            old(self).wf(),
            image@.len() <= old(self).msize(),
        ensures
            final(self).wf(),
            final(self).same_layout(old(self)),
            final(self).contents() == image@ + old(self).contents().skip(image@.len() as int),
    {
        let ghost bases = self.device_bases();
        let mut i: usize = 0;
        while i < image.len()
            invariant
                i <= image@.len() <= old(self).msize(),
                old(self).wf(),
                self.data.len() == old(self).size,
                self.size == old(self).size,
                self.heap_top == old(self).heap_top,
                self.memory_regions == old(self).memory_regions,
                self.config == old(self).config,
                self.device_bases() == bases,
                bases == old(self).device_bases(),
                self.device_count_matches(),
                self.data@ == image@.take(i as int) + old(self).data@.skip(i as int),
            decreases image@.len() - i,
        {
            self.data.set(i, image[i]);
            assert(self.device_bases() == bases);
            i = i + 1;
            assert(self.data@ =~= image@.take(i as int) + old(self).data@.skip(i as int));
        }
        assert(image@.take(image@.len() as int) =~= image@);
    }
}

/// A read of a word gives back the word last written at the same address,
/// and a word write leaves every byte outside its four bytes unchanged.
pub proof fn law_word_read_after_write(m: Memory, m2: Memory, address: usize, value: u32, p: int)
    requires
        m.wf(),
        m.valid_access(address, 4),
        m2.same_layout(&m),
        m2.contents() == m.data_with_word(m.phys(address) as int, value),
    ensures
        m2.word(m.phys(address) as int) == value,
        0 <= p < m.msize() && !(m.phys(address) <= p < m.phys(address) + 4) ==> m2.byte(p)
            == m.byte(p),
{
    lemma_le_word_bytes(value);
}

/// A read of a halfword gives back the halfword last written there.
pub proof fn law_half_read_after_write(m: Memory, m2: Memory, address: usize, value: u16)
    requires
        m.wf(),
        m.valid_access(address, 2),
        m2.same_layout(&m),
        m2.contents() == m.data_with_half(m.phys(address) as int, value),
    ensures
        m2.half(m.phys(address) as int) == value,
{
    lemma_le_half_bytes(value);
}

/// `size` zero bytes.
fn zeroed(size: usize) -> (r: Vec<u8>)
    ensures
        r@ == Seq::new(size as nat, |i: int| 0u8),
{
    let mut v: Vec<u8> = Vec::new();
    let mut i: usize = 0;
    while i < size
        invariant
            i <= size,
            v@ == Seq::new(i as nat, |k: int| 0u8),
        decreases size - i,
    {
        v.push(0);
        i = i + 1;
    }
    v
}

/// The regions a memory of `size` bytes starts with: a fallback region
/// covering everything, then a text segment, a data segment and an extended
/// data segment as far as the memory is large enough for them.
pub open spec fn default_regions(size: usize) -> Seq<MemoryRegion> {
    let base = seq![
        MemoryRegion {
            start: 0,
            end: size,
            readable: true,
            writable: true,
            executable: true,
            priority: 0,
        },
    ];
    let text = if size >= 0x10000 {
        base.push(
            MemoryRegion {
                start: 0,
                end: 0x10000,
                readable: true,
                writable: true,
                executable: true,
                priority: 10,
            },
        )
    } else {
        base
    };
    let data = if size >= 0x100000 {
        text.push(
            MemoryRegion {
                start: 0x10000,
                end: if 0x100000 < size { 0x100000 } else { size },
                readable: true,
                writable: true,
                executable: false,
                priority: 5,
            },
        )
    } else {
        text
    };
    if size >= 0x400000 {
        data.push(
            MemoryRegion {
                start: 0x100000,
                end: if 0x400000 < size { 0x400000 } else { size },
                readable: true,
                writable: true,
                executable: false,
                priority: 3,
            },
        )
    } else {
        data
    }
}

/// On a memory with permission checks and address translation off, a word
/// read or write succeeds exactly when the address is a multiple of 4 and
/// the word lies inside the memory.
pub proof fn law_plain_word_access(m: Memory, address: usize)
    requires
        !m.cfg().enable_permissions,
        !m.cfg().enable_translation,
    ensures
        m.readable(address, 4) <==> (address % 4 == 0 && address + 4 <= m.msize()),
        m.writable(address, 4) <==> (address % 4 == 0 && address + 4 <= m.msize()),
{
}

impl Memory {
    /// A hex dump of `length` bytes of the backing store from `start`,
    /// sixteen to a line, with their printable characters.
    pub fn dump_memory(&self, start: usize, length: usize) -> (r: String)
        requires
            self.wf(),
            start + length <= usize::MAX,
        ensures
            r@ == hex_dump(self.contents(), start as nat, length as nat),
    {
        let mut s = String::new();
        let end = if start + length < self.size {
            start + length
        } else {
            self.size
        };
        if start >= end {
            return s;
        }
        let lines = (end - start + 15) / 16;
        let mut k: usize = 0;
        while k < lines
            invariant
                start < end <= self.data@.len() == self.contents().len(),
                end <= isize::MAX,
                k <= lines,
                lines == (end - start + 15) / 16,
                s@ == dump_lines(self.data@, start as nat, end as nat, k as nat),
            decreases lines - k,
        {
            assert(16 * k < end - start) by (nonlinear_arith)
                requires
                    k < lines,
                    lines == (end - start + 15) / 16,
                    start < end,
            ;
            let i = start + 16 * k;
            push_dump_line(&mut s, &self.data, i, end);
            k = k + 1;
        }
        assert(self.data@ == self.contents());
        s
    }
}


} // verus!
