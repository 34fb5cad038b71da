//! Caches for the timing simulator: lines, sets with their replacement
//! policies, prefetchers, a cache level with write-back/write-through and
//! (no-)write-allocate policies, and the L1 cache hierarchy.
use vstd::prelude::*;
use std::collections::VecDeque;
use rand::Rng;
use super::config::{CacheConfig, PrefetchStrategy, ReplacementPolicy};
use crate::functional_simulator::memory::Memory;

verus! {

/// A uniformly drawn index below `len`, from the thread's random number
/// generator.
#[verifier::external_body]
fn random_index(len: usize) -> (r: usize)
    requires
        len > 0,
    ensures
        r < len,
{
    rand::thread_rng().gen_range(0..len)
}

/// One cache line.
#[derive(Clone)]
pub struct CacheLine {
    pub valid: bool,
    pub dirty: bool,
    pub tag: usize,
    pub data: Vec<u8>,
    pub access_count: usize,
}

impl CacheLine {
    /// An invalid, clean line of `block_size` zero bytes.
    pub fn new(block_size: usize) -> (r: Self)
        ensures
            !r.valid,
            !r.dirty,
            r.tag == 0,
            r.data@ == Seq::new(block_size as nat, |i: int| 0u8),
            r.access_count == 0,
    {
        let mut data: Vec<u8> = Vec::new();
        let mut i: usize = 0;
        while i < block_size
            invariant
                i <= block_size,
                data@ == Seq::new(i as nat, |k: int| 0u8),
            decreases block_size - i,
        {
            data.push(0);
            i = i + 1;
        }
        Self { valid: false, dirty: false, tag: 0, data, access_count: 0 }
    }
}

/// The position of the first occurrence of `x` in `q` (meaningful when `q`
/// contains `x`).
pub open spec fn first_pos(q: Seq<usize>, x: usize) -> int {
    choose|p: int| 0 <= p < q.len() && q[p] == x && forall|j: int| 0 <= j < p ==> q[j] != x
}

/// `q` with the first occurrence of `x` (if any) moved to the back, or `x`
/// appended when it does not occur.
pub open spec fn moved_to_back(q: Seq<usize>, x: usize) -> Seq<usize> {
    if q.contains(x) {
        q.remove(first_pos(q, x)).push(x)
    } else {
        q.push(x)
    }
}

/// Whether `q` orders the line indices `0..n`: each exactly once.
pub open spec fn orders_lines(q: Seq<usize>, n: nat) -> bool {
    &&& q.len() == n
    &&& q.no_duplicates()
    &&& forall|k: int| 0 <= k < q.len() ==> (#[trigger] q[k]) < n
    &&& forall|x: usize| x < n ==> #[trigger] q.contains(x)
}

/// The replacement queue of a fresh set of `n` lines orders its lines.
pub proof fn law_fresh_queue_orders_lines(n: nat)
    requires
        n <= usize::MAX + 1,
    ensures
        orders_lines(Seq::new(n, |i: int| i as usize), n),
{
    let f = Seq::new(n, |i: int| i as usize);
    assert forall|y: usize| y < n implies #[trigger] f.contains(y) by {
        assert(f[y as int] == y);
    }
}

/// Recording an access to a line keeps the replacement queue an ordering
/// of the lines.
pub proof fn law_access_keeps_queue_ordering(q: Seq<usize>, n: nat, x: usize)
    requires
        orders_lines(q, n),
        x < n,
    ensures
        orders_lines(moved_to_back(q, x), n),
{
    assert(q.contains(x));
    let p = first_pos(q, x);
    assert(0 <= p < q.len() && q[p] == x);
    let r = q.remove(p);
    let m = r.push(x);
    assert(m == moved_to_back(q, x));
    assert(!r.contains(x)) by {
        if r.contains(x) {
            let j = choose|j: int| 0 <= j < r.len() && r[j] == x;
            if j < p {
                assert(q[j] == x);
            } else {
                assert(q[j + 1] == x);
            }
        }
    }
    assert(m.no_duplicates()) by {
        assert forall|a: int, b: int| 0 <= a < m.len() && 0 <= b < m.len() && a != b implies m[a] != m[b] by {
            if a < r.len() && b < r.len() {
                let qa = if a < p { a } else { a + 1 };
                let qb = if b < p { b } else { b + 1 };
                assert(m[a] == q[qa] && m[b] == q[qb]);
            } else if a < r.len() {
                assert(m[b] == x);
                assert(r[a] == m[a]);
            } else if b < r.len() {
                assert(m[a] == x);
                assert(r[b] == m[b]);
            }
        }
    }
    assert forall|y: usize| y < n implies #[trigger] m.contains(y) by {
        if y == x {
            assert(m[m.len() - 1] == x);
        } else {
            assert(q.contains(y));
            let j = choose|j: int| 0 <= j < q.len() && q[j] == y;
            if j < p {
                assert(m[j] == y);
            } else {
                assert(j != p);
                assert(m[j - 1] == y);
            }
        }
    }
    assert forall|k: int| 0 <= k < m.len() implies (#[trigger] m[k]) < n by {
        if k < r.len() {
            let qk = if k < p { k } else { k + 1 };
            assert(m[k] == q[qk]);
        }
    }
}

/// Whether line `i` of `lines` is valid and holds `tag`.
pub open spec fn holds(lines: Seq<CacheLine>, i: int, tag: usize) -> bool {
    lines[i].valid && lines[i].tag == tag
}

/// One set of an associative cache.
#[derive(Clone)]
pub struct CacheSet {
    pub lines: Vec<CacheLine>,
    pub replacement_policy: ReplacementPolicy,
    /// Line indices, least recently used (or first filled) first.
    pub lru_queue: VecDeque<usize>,
}

impl CacheSet {
    /// Every index in the replacement queue names a line.
    pub open spec fn wf(&self) -> bool {
        forall|k: int| 0 <= k < self.lru_queue@.len() ==> #[trigger] self.lru_queue@[k]
            < self.lines@.len()
    }

    /// `associativity` fresh lines of `block_size` bytes, queued in order.
    pub fn new(associativity: usize, block_size: usize, policy: ReplacementPolicy) -> (r: Self)
        ensures
            r.wf(),
            r.lines@.len() == associativity,
            forall|i: int| 0 <= i < associativity ==> {
                let l = #[trigger] r.lines@[i];
                !l.valid && !l.dirty && l.tag == 0 && l.access_count == 0 && l.data@ == Seq::new(
                    block_size as nat,
                    |k: int| 0u8,
                )
            },
            r.replacement_policy == policy,
            r.lru_queue@ == Seq::new(associativity as nat, |i: int| i as usize),
    {
        let mut lines: Vec<CacheLine> = Vec::new();
        let mut lru_queue: VecDeque<usize> = VecDeque::new();
        let mut i: usize = 0;
        while i < associativity
            invariant
                i <= associativity,
                lines@.len() == i,
                forall|j: int| 0 <= j < i ==> {
                    let l = #[trigger] lines@[j];
                    !l.valid && !l.dirty && l.tag == 0 && l.access_count == 0 && l.data@
                        == Seq::new(block_size as nat, |k: int| 0u8)
                },
                lru_queue@ == Seq::new(i as nat, |j: int| j as usize),
            decreases associativity - i,
        {
            lines.push(CacheLine::new(block_size));
            lru_queue.push_back(i);
            i = i + 1;
            assert(lru_queue@ =~= Seq::new(i as nat, |j: int| j as usize));
        }
        Self { lines, replacement_policy: policy, lru_queue }
    }

    /// The first valid line holding `tag`.
    pub fn find_line(&self, tag: usize) -> (r: Option<usize>)
        ensures
            r matches Some(i) ==> i < self.lines@.len() && holds(self.lines@, i as int, tag)
                && forall|j: int| 0 <= j < i ==> !holds(self.lines@, j, tag),
            r is None ==> forall|j: int| 0 <= j < self.lines@.len() ==> !holds(self.lines@, j, tag),
    {
        let mut i: usize = 0;
        while i < self.lines.len()
            invariant
                i <= self.lines@.len(),
                forall|j: int| 0 <= j < i ==> !holds(self.lines@, j, tag),
            decreases self.lines@.len() - i,
        {
            if self.lines[i].valid && self.lines[i].tag == tag {
                return Some(i);
            }
            i = i + 1;
        }
        None
    }

    /// Records an access to line `line_idx`: its access count grows by one
    /// and it moves to the back of the replacement queue.
    pub fn update_access(&mut self, line_idx: usize)
        requires
            line_idx < old(self).lines@.len(),
            old(self).lines@[line_idx as int].access_count < usize::MAX,
        ensures
            final(self).lines@ == old(self).lines@.update(
                line_idx as int,
                CacheLine {
                    access_count: (old(self).lines@[line_idx as int].access_count + 1) as usize,
                    ..old(self).lines@[line_idx as int]
                },
            ),
            final(self).replacement_policy == old(self).replacement_policy,
            final(self).lru_queue@ == moved_to_back(old(self).lru_queue@, line_idx),
            old(self).wf() ==> final(self).wf(),
    {
        self.lines[line_idx].access_count = self.lines[line_idx].access_count + 1;
        let mut pos: usize = 0;
        let n = self.lru_queue.len();
        while pos < n
            invariant
                n == self.lru_queue@.len(),
                self.lru_queue@ == old(self).lru_queue@,
                pos <= n,
                forall|j: int| 0 <= j < pos ==> self.lru_queue@[j] != line_idx,
            ensures
                self.lru_queue@ == old(self).lru_queue@,
                pos <= n,
                forall|j: int| 0 <= j < pos ==> self.lru_queue@[j] != line_idx,
                pos < n ==> self.lru_queue@[pos as int] == line_idx,
            decreases n - pos,
        {
            if self.lru_queue[pos] == line_idx {
                break;
            }
            pos = pos + 1;
        }
        let ghost q = old(self).lru_queue@;
        if pos < n {
            proof {
                assert(q.contains(line_idx));
                let p0 = first_pos(q, line_idx);
                assert(0 <= p0 < q.len() && q[p0] == line_idx && forall|j: int|
                    0 <= j < p0 ==> q[j] != line_idx);
                if p0 < pos {
                    assert(q[p0] != line_idx);
                }
                if pos < p0 {
                    assert(q[pos as int] != line_idx);
                }
            }
            self.lru_queue.remove(pos);
        } else {
            proof {
                if q.contains(line_idx) {
                    let p = choose|p: int| 0 <= p < q.len() && q[p] == line_idx;
                    assert(q[p] != line_idx);
                }
            }
        }
        self.lru_queue.push_back(line_idx);
    }

    /// The line to evict: the front of the queue for LRU and FIFO (0 when
    /// the queue is empty), a random line for Random, and the first line
    /// with the smallest access count for LFU (0 when the set is empty).
    pub fn find_victim(&self) -> (r: usize)
        requires
            self.replacement_policy == ReplacementPolicy::Random ==> self.lines@.len() > 0,
        ensures
            (self.replacement_policy == ReplacementPolicy::LRU || self.replacement_policy
                == ReplacementPolicy::FIFO) ==> r == (if self.lru_queue@.len() > 0 {
                self.lru_queue@[0]
            } else {
                0
            }),
            self.replacement_policy == ReplacementPolicy::Random ==> r < self.lines@.len(),
            self.replacement_policy == ReplacementPolicy::LFU ==> if self.lines@.len() == 0 {
                r == 0
            } else {
                &&& r < self.lines@.len()
                &&& forall|j: int|
                    0 <= j < self.lines@.len() ==> self.lines@[r as int].access_count
                        <= #[trigger] self.lines@[j].access_count
                &&& forall|j: int|
                    0 <= j < r ==> self.lines@[r as int].access_count
                        < #[trigger] self.lines@[j].access_count
            },
    {
        match self.replacement_policy {
            ReplacementPolicy::LRU | ReplacementPolicy::FIFO => {
                if self.lru_queue.len() > 0 {
                    self.lru_queue[0]
                } else {
                    0
                }
            },
            ReplacementPolicy::Random => random_index(self.lines.len()),
            ReplacementPolicy::LFU => {
                if self.lines.len() == 0 {
                    return 0;
                }
                let mut best: usize = 0;
                let mut i: usize = 1;
                while i < self.lines.len()
                    invariant
                        1 <= i <= self.lines@.len(),
                        best < i,
                        forall|j: int|
                            0 <= j < i ==> self.lines@[best as int].access_count
                                <= #[trigger] self.lines@[j].access_count,
                        forall|j: int|
                            0 <= j < best ==> self.lines@[best as int].access_count
                                < #[trigger] self.lines@[j].access_count,
                    decreases self.lines@.len() - i,
                {
                    if self.lines[i].access_count < self.lines[best].access_count {
                        best = i;
                    }
                    i = i + 1;
                }
                best
            },
        }
    }

    /// The first invalid line, if any.
    pub fn find_invalid_line(&self) -> (r: Option<usize>)
        ensures
            r matches Some(i) ==> i < self.lines@.len() && !self.lines@[i as int].valid && forall|
                j: int,
            | 0 <= j < i ==> self.lines@[j].valid,
            r is None ==> forall|j: int| 0 <= j < self.lines@.len() ==> self.lines@[j].valid,
    {
        let mut i: usize = 0;
        while i < self.lines.len()
            invariant
                i <= self.lines@.len(),
                forall|j: int| 0 <= j < i ==> self.lines@[j].valid,
            decreases self.lines@.len() - i,
        {
            if !self.lines[i].valid {
                return Some(i);
            }
            i = i + 1;
        }
        None
    }
}


/// Cache statistics, counted in accesses and cycles.
#[derive(Debug, Clone, Copy, PartialEq, Eq, Structural)]
pub struct CacheStatistics {
    pub accesses: usize,
    pub hits: usize,
    pub misses: usize,
    pub read_accesses: usize,
    pub read_hits: usize,
    pub write_accesses: usize,
    pub write_hits: usize,
    pub evictions: usize,
    pub writebacks: usize,
    /// Accumulated access latency.
    pub total_access_time: u128,
}

impl CacheStatistics {
    /// All counters at zero.
    pub open spec fn zeroed() -> Self {
        CacheStatistics {
            accesses: 0,
            hits: 0,
            misses: 0,
            read_accesses: 0,
            read_hits: 0,
            write_accesses: 0,
            write_hits: 0,
            evictions: 0,
            writebacks: 0,
            total_access_time: 0,
        }
    }

    /// All counters at zero.
    pub fn new() -> (r: Self)
        ensures
            r == (CacheStatistics {
                accesses: 0,
                hits: 0,
                misses: 0,
                read_accesses: 0,
                read_hits: 0,
                write_accesses: 0,
                write_hits: 0,
                evictions: 0,
                writebacks: 0,
                total_access_time: 0,
            }),
    {
        CacheStatistics {
            accesses: 0,
            hits: 0,
            misses: 0,
            read_accesses: 0,
            read_hits: 0,
            write_accesses: 0,
            write_hits: 0,
            evictions: 0,
            writebacks: 0,
            total_access_time: 0,
        }
    }

    /// Every counter can take one more access.
    pub open spec fn room(&self) -> bool {
        &&& self.accesses < usize::MAX
        &&& self.hits < usize::MAX
        &&& self.misses < usize::MAX
        &&& self.read_accesses < usize::MAX
        &&& self.read_hits < usize::MAX
        &&& self.write_accesses < usize::MAX
        &&& self.write_hits < usize::MAX
        &&& self.evictions < usize::MAX
        &&& self.writebacks < usize::MAX
        &&& self.total_access_time + 2 * 0x1_0000_0000_0000_0000 <= u128::MAX
    }
}

#[derive(Clone, Copy, Debug, PartialEq, Eq, Structural)]
pub enum WritePolicy {
    WriteThrough,
    WriteBack,
}

#[derive(Clone, Copy, Debug, PartialEq, Eq, Structural)]
pub enum AllocationPolicy {
    WriteAllocate,
    NoWriteAllocate,
}

/// A prefetch strategy that the user supplies.
pub trait CustomPrefetcher {
    /// The addresses this strategy asks for after a miss on the block at
    /// `address`.
    spec fn prefetches(&self, address: usize, block_size: usize) -> Seq<usize>;

    /// The addresses to prefetch after a miss on the block at `address`.
    fn get_prefetch_addresses(&self, address: usize, block_size: usize) -> (r: Vec<usize>)
        ensures
            r@ == self.prefetches(address, block_size),
    ;
}

/// How a cache chooses the blocks to prefetch.
pub enum ComponentPrefetchStrategy {
    /// The next N blocks.
    NextNBlocks(usize),
    /// Blocks N sets away on either side.
    AdjacentSets(usize),
    /// Blocks at a stride (in blocks).
    Stride(isize),
    /// A strategy of the user's.
    Custom(Box<dyn CustomPrefetcher>),
}

/// A prefetcher: a strategy and a distance.
pub struct Prefetcher {
    strategy: ComponentPrefetchStrategy,
    prefetch_distance: usize,
}

/// The addresses the built-in strategies prefetch after a miss on the
/// block at `address` with blocks of `block_size` bytes and the given
/// distance.
pub open spec fn prefetch_addresses(
    strategy: ComponentPrefetchStrategy,
    distance: usize,
    address: usize,
    block_size: usize,
) -> Seq<usize> {
    match strategy {
        ComponentPrefetchStrategy::NextNBlocks(n) => Seq::new(
            n as nat,
            |i: int| (address + block_size * (i + 1)) as usize,
        ),
        ComponentPrefetchStrategy::AdjacentSets(n) => adjacent_addresses(
            n as nat,
            address,
            block_size,
            distance,
        ),
        ComponentPrefetchStrategy::Stride(stride) => stride_addresses(
            distance as nat,
            address,
            stride * block_size,
        ),
        ComponentPrefetchStrategy::Custom(_) => Seq::empty(),
    }
}

/// For `i` from 1 to `n`: the address `i * block_size * distance` above
/// `address`, then the one as far below it when that is not negative.
pub open spec fn adjacent_addresses(n: nat, address: usize, block_size: usize, distance: usize) -> Seq<
    usize,
>
    decreases n,
{
    if n == 0 {
        Seq::empty()
    } else {
        let d = block_size * n * distance;
        let prev = adjacent_addresses((n - 1) as nat, address, block_size, distance);
        if address >= d {
            prev.push((address + d) as usize).push((address - d) as usize)
        } else {
            prev.push((address + d) as usize)
        }
    }
}

/// For `i` from 1 to `n`: `address + i * stride_bytes` when not negative.
pub open spec fn stride_addresses(n: nat, address: usize, stride_bytes: int) -> Seq<usize>
    decreases n,
{
    if n == 0 {
        Seq::empty()
    } else {
        let prev = stride_addresses((n - 1) as nat, address, stride_bytes);
        let a = address + stride_bytes * n;
        if a >= 0 {
            prev.push(a as usize)
        } else {
            prev
        }
    }
}

impl Prefetcher {
    pub closed spec fn strategy(&self) -> ComponentPrefetchStrategy {
        self.strategy
    }

    pub closed spec fn distance(&self) -> usize {
        self.prefetch_distance
    }

    /// A prefetcher with distance 1.
    pub fn new(strategy: ComponentPrefetchStrategy) -> (r: Self)
        ensures
            r.strategy() == strategy,
            r.distance() == 1,
    {
        Self { strategy, prefetch_distance: 1 }
    }

    pub fn set_prefetch_distance(&mut self, distance: usize)
        ensures
            final(self).distance() == distance,
            final(self).strategy() == old(self).strategy(),
    {
        self.prefetch_distance = distance;
    }

    /// Whether computing the addresses for a miss at `address` stays within
    /// the machine's integers.
    pub open spec fn fits(&self, address: usize, block_size: usize) -> bool {
        match self.strategy() {
            ComponentPrefetchStrategy::NextNBlocks(n) => address + block_size * n <= usize::MAX,
            ComponentPrefetchStrategy::AdjacentSets(n) => address + block_size * n
                * self.distance() <= usize::MAX && block_size * n <= usize::MAX,
            ComponentPrefetchStrategy::Stride(stride) => {
                &&& block_size <= isize::MAX
                &&& address <= isize::MAX
                &&& self.distance() <= isize::MAX
                &&& isize::MIN <= stride * block_size <= isize::MAX
                &&& isize::MIN <= address + stride * block_size * self.distance() <= isize::MAX
                &&& isize::MIN <= stride * block_size * self.distance() <= isize::MAX
            },
            ComponentPrefetchStrategy::Custom(_) => true,
        }
    }

    /// The addresses to prefetch after a miss on the block at `address`.
    /// A user strategy's answer is passed on as it is.
    pub fn get_prefetch_addresses(&self, address: usize, block_size: usize) -> (r: Vec<usize>)
        requires
            self.fits(address, block_size),
        ensures
            self.strategy() matches ComponentPrefetchStrategy::Custom(f) ==> r@ == f.prefetches(address, block_size),
            !(self.strategy() is Custom) ==> r@ == prefetch_addresses(
                self.strategy(),
                self.distance(),
                address,
                block_size,
            ),
    {
        match &self.strategy {
            ComponentPrefetchStrategy::NextNBlocks(n) => {
                let n = *n;
                let mut addresses: Vec<usize> = Vec::new();
                let mut i: usize = 0;
                while i < n
                    invariant
                        i <= n,
                        address + block_size * n <= usize::MAX,
                        addresses@ == Seq::new(
                            i as nat,
                            |k: int| (address + block_size * (k + 1)) as usize,
                        ),
                    decreases n - i,
                {
                    let k = i + 1;
                    assert(block_size * k <= block_size * n) by (nonlinear_arith)
                        requires
                            k <= n,
                    ;
                    addresses.push(address + block_size * k);
                    i = k;
                    assert(addresses@ =~= Seq::new(
                        i as nat,
                        |k: int| (address + block_size * (k + 1)) as usize,
                    ));
                }
                addresses
            },
            ComponentPrefetchStrategy::AdjacentSets(n) => {
                let n = *n;
                let distance = self.prefetch_distance;
                let mut addresses: Vec<usize> = Vec::new();
                let mut i: usize = 0;
                while i < n
                    invariant
                        i <= n,
                        address + block_size * n * distance <= usize::MAX,
                        block_size * n <= usize::MAX,
                        addresses@ == adjacent_addresses(i as nat, address, block_size, distance),
                    decreases n - i,
                {
                    let k = i + 1;
                    assert(block_size * k * distance <= block_size * n * distance && block_size * k
                        <= block_size * n) by (nonlinear_arith)
                        requires
                            k <= n,
                    ;
                    let d = block_size * k * distance;
                    addresses.push(address + d);
                    if address >= d {
                        addresses.push(address - d);
                    }
                    i = k;
                }
                addresses
            },
            ComponentPrefetchStrategy::Stride(stride) => {
                let stride = *stride;
                let distance = self.prefetch_distance;
                let stride_bytes = stride * (block_size as isize);
                let mut addresses: Vec<usize> = Vec::new();
                let mut i: usize = 0;
                while i < distance
                    invariant
                        i <= distance,
                        distance <= isize::MAX,
                        stride_bytes == stride * block_size,
                        address <= isize::MAX,
                        isize::MIN <= address + stride_bytes * distance <= isize::MAX,
                        isize::MIN <= stride_bytes * distance <= isize::MAX,
                        addresses@ == stride_addresses(i as nat, address, stride_bytes as int),
                    decreases distance - i,
                {
                    let k = i + 1;
                    assert(isize::MIN <= stride_bytes * k <= isize::MAX && isize::MIN <= address
                        + stride_bytes * k <= isize::MAX) by (nonlinear_arith)
                        requires
                            1 <= k <= distance,
                            0 <= address <= isize::MAX,
                            isize::MIN <= address + stride_bytes * distance <= isize::MAX,
                            isize::MIN <= stride_bytes * distance <= isize::MAX,
                    ;
                    let next_addr = address as isize + stride_bytes * (k as isize);
                    if next_addr >= 0 {
                        addresses.push(next_addr as usize);
                    }
                    i = k;
                }
                addresses
            },
            ComponentPrefetchStrategy::Custom(func) => func.get_prefetch_addresses(address, block_size),
        }
    }
}

/// The prefetcher a cache configuration asks for: none when prefetching is
/// off or the strategy is `Custom`.
pub fn create_prefetcher(config: &CacheConfig) -> (r: Option<Prefetcher>)
    ensures
        !config.prefetch_enabled ==> r is None,
        config.prefetch_enabled ==> match config.prefetch_strategy {
            PrefetchStrategy::NextNBlocks(n) => r matches Some(p) && p.strategy()
                == ComponentPrefetchStrategy::NextNBlocks(n) && p.distance() == 1,
            PrefetchStrategy::AdjacentSets(n) => r matches Some(p) && p.strategy()
                == ComponentPrefetchStrategy::AdjacentSets(n) && p.distance() == 1,
            PrefetchStrategy::Stride(s) => r matches Some(p) && p.strategy()
                == ComponentPrefetchStrategy::Stride(s) && p.distance() == 1,
            PrefetchStrategy::Custom => r is None,
        },
{
    if config.prefetch_enabled {
        match config.prefetch_strategy {
            PrefetchStrategy::NextNBlocks(n) => Some(
                Prefetcher::new(ComponentPrefetchStrategy::NextNBlocks(n)),
            ),
            PrefetchStrategy::AdjacentSets(n) => Some(
                Prefetcher::new(ComponentPrefetchStrategy::AdjacentSets(n)),
            ),
            PrefetchStrategy::Stride(s) => Some(Prefetcher::new(ComponentPrefetchStrategy::Stride(s))),
            PrefetchStrategy::Custom => None,
        }
    } else {
        None
    }
}


/// The floor of the base-2 logarithm of `x` (0 for 0 and 1).
pub open spec fn log2_floor(x: nat) -> nat
    decreases x,
{
    if x <= 1 {
        0
    } else {
        1 + log2_floor(x / 2)
    }
}

/// 2 to the power `k`.
pub open spec fn two_to(k: nat) -> nat
    decreases k,
{
    if k == 0 {
        1
    } else {
        2 * two_to((k - 1) as nat)
    }
}

proof fn lemma_two_to_pos(k: nat)
    ensures
        two_to(k) >= 1,
    decreases k,
{
    if k > 0 {
        lemma_two_to_pos((k - 1) as nat);
    }
}

proof fn lemma_two_to_add(a: nat, b: nat)
    ensures
        two_to(a + b) == two_to(a) * two_to(b),
    decreases a,
{
    if a > 0 {
        let a1 = (a - 1) as nat;
        lemma_two_to_add(a1, b);
        assert((a1 + b + 1) as nat == a + b);
        assert(two_to(a + b) == 2 * two_to(a1 + b));
        assert(two_to(a) == 2 * two_to(a1));
        let x = two_to(a1);
        let y = two_to(b);
        assert(2 * (x * y) == (2 * x) * y) by (nonlinear_arith);
        assert(two_to(a) * two_to(b) == (2 * x) * y);
    } else {
        assert(a + b == b);
        assert(two_to(a) == 1);
        assert(1 * two_to(b) == two_to(b));
    }
}

proof fn lemma_two_to_mono(a: nat, b: nat)
    requires
        a <= b,
    ensures
        two_to(a) <= two_to(b),
    decreases b,
{
    if a < b {
        lemma_two_to_mono(a, (b - 1) as nat);
        lemma_two_to_pos((b - 1) as nat);
    }
}

/// `2^log2_floor(x)` does not exceed `x`.
proof fn lemma_log2_floor_pow(x: nat)
    requires
        x >= 1,
    ensures
        two_to(log2_floor(x)) <= x,
    decreases x,
{
    if x > 1 {
        lemma_log2_floor_pow(x / 2);
    }
}

/// Two logarithms of factors of a machine integer add up to less than the
/// machine word width.
proof fn lemma_log2_sum_fits(a: nat, b: nat)
    requires
        1 <= a <= usize::MAX,
        a * b <= usize::MAX,
    ensures
        log2_floor(a) + log2_floor(b) < usize::BITS,
{
    let la = log2_floor(a);
    let lb = log2_floor(b);
    let n = la + lb;
    lemma_log2_floor_pow(a);
    lemma_two_to_add(la, lb);
    lemma_two_to_pos(la);
    lemma_two_to_pos(lb);
    assert(two_to(n) <= usize::MAX) by {
        if b >= 1 {
            lemma_log2_floor_pow(b);
            assert(two_to(la) * two_to(lb) <= a * b) by (nonlinear_arith)
                requires
                    two_to(la) <= a,
                    two_to(lb) <= b,
            ;
        } else {
            assert(two_to(lb) == 1);
            assert(two_to(la) * 1 == two_to(la));
        }
    }
    if n >= usize::BITS {
        lemma_two_to_mono(usize::BITS as nat, n);
        lemma_two_to_word();
    }
}

/// The machine word's range ends below `2^BITS`.
proof fn lemma_two_to_word()
    ensures
        two_to(usize::BITS as nat) > usize::MAX,
{
    lemma_two_to_32();
    if usize::BITS == 64 {
        lemma_two_to_add(32, 32);
        assert(two_to(32) * two_to(32) == 0x1_0000_0000_0000_0000) by (nonlinear_arith)
            requires
                two_to(32) == 0x1_0000_0000,
        ;
    }
}

proof fn lemma_two_to_32()
    ensures
        two_to(32) == 0x1_0000_0000,
{
    reveal_with_fuel(two_to, 33);
}

/// The floor of the base-2 logarithm of `x`.
fn ilog2(x: usize) -> (r: usize)
    ensures
        r == log2_floor(x as nat),
{
    let mut v = x;
    let mut r: usize = 0;
    while v > 1
        invariant
            r + log2_floor(v as nat) == log2_floor(x as nat),
            r <= x,
            v <= x,
            r + v <= x + 1,
        decreases v,
    {
        v = v / 2;
        r = r + 1;
    }
    r
}

/// The tag, set index and byte offset of `address` for `ob` offset bits and
/// `ib` index bits.
pub open spec fn decode(address: usize, ob: usize, ib: usize) -> (usize, usize, usize) {
    let offset_mask = ((1usize << ob) - 1) as usize;
    let index_mask = ((((1usize << ib) - 1) as usize) << ob) as usize;
    let tag_mask = !offset_mask & !index_mask;
    (
        (address & tag_mask) >> ((ob + ib) as usize),
        (address & index_mask) >> ob,
        address & offset_mask,
    )
}

/// The address of the block that set `set_idx` holds under `tag`.
pub open spec fn block_address(tag: usize, set_idx: usize, ob: usize, ib: usize) -> usize {
    ((tag << ((ib + ob) as usize)) | (set_idx << ob)) as usize
}

/// The `n` bytes of the block at `block_addr` as a load reads them from a
/// memory laid out as `m` and holding `data` (0 past its end or where a
/// read fails).
pub open spec fn fetched(m: &Memory, data: Seq<u8>, block_addr: int, n: nat) -> Seq<u8> {
    Seq::new(
        n,
        |i: int|
            if block_addr + i < m.msize() && m.readable((block_addr + i) as usize, 1) {
                data[m.phys((block_addr + i) as usize) as int]
            } else {
                0
            },
    )
}

/// How many of the `n` bytes from `block_addr` lie in a memory of `size`
/// bytes.
pub open spec fn in_memory(block_addr: int, n: nat, size: nat) -> nat {
    if block_addr >= size {
        0
    } else if block_addr + n <= size {
        n
    } else {
        (size - block_addr) as nat
    }
}

/// Whether a set has `ways` lines of `block_size` bytes, a well-formed
/// queue, and valid lines whose blocks lie below the top of the address
/// space.
pub open spec fn set_ok(set: CacheSet, ways: usize, block_size: usize, set_idx: int, ob: usize, ib: usize) -> bool {
    &&& set.wf()
    &&& set.lines@.len() == ways
    &&& forall|j: int|
        0 <= j < ways ==> (#[trigger] set.lines@[j]).data@.len() == block_size && (
        set.lines@[j].valid ==> block_address(set.lines@[j].tag, set_idx as usize, ob, ib) + block_size
            <= usize::MAX)
}

/// A cache level.
pub struct Cache {
    pub config: CacheConfig,
    pub sets: Vec<CacheSet>,
    pub memory: Memory,
    pub stats: CacheStatistics,
    pub write_policy: WritePolicy,
    pub allocation_policy: AllocationPolicy,
    pub prefetcher: Option<Prefetcher>,
    pub next_level: Option<Box<Cache>>,
}


impl Cache {
    /// Offset bits of an address.
    pub open spec fn ob(&self) -> usize {
        log2_floor(self.config.block_size as nat) as usize
    }

    /// Set-index bits of an address.
    pub open spec fn ib(&self) -> usize {
        log2_floor(self.sets@.len()) as usize
    }

    /// The level's invariant, and that of the levels below it.
    pub open spec fn wf(&self) -> bool
        decreases self,
    {
        &&& self.memory.wf()
        &&& self.memory.translation_safe()
        &&& self.memory.device_bases().len() == 0
        &&& self.config.block_size > 0
        &&& self.config.associativity > 0
        &&& log2_floor(self.config.block_size as nat) + log2_floor(self.sets@.len())
            < usize::BITS
        &&& forall|i: int|
            0 <= i < self.sets@.len() ==> #[trigger] set_ok(
                self.sets@[i],
                self.config.associativity,
                self.config.block_size,
                i,
                self.ob(),
                self.ib(),
            )
        &&& match self.next_level {
            Some(n) => n.wf(),
            None => true,
        }
    }

    /// Room in every counter of this level and the levels below for one
    /// more access.
    pub open spec fn room(&self) -> bool
        decreases self,
    {
        &&& self.stats.room()
        &&& forall|i: int, j: int|
            0 <= i < self.sets@.len() && 0 <= j < self.sets@[i].lines@.len() ==> (
            #[trigger] self.sets@[i].lines@[j]).access_count < usize::MAX
        &&& match self.next_level {
            Some(n) => n.room(),
            None => true,
        }
    }

    /// The tag, set index and offset of `address` in this level.
    pub open spec fn decoded(&self, address: usize) -> (usize, usize, usize) {
        decode(address, self.ob(), self.ib())
    }

    /// A level of `config.size / (associativity * block_size)` fresh sets
    /// over `memory`, write-back and write-allocate, with the prefetcher the
    /// configuration asks for, above `next_level`.
    pub fn new_with_next_level(config: CacheConfig, memory: Memory, next_level: Option<Box<Cache>>) -> (r: Self)
        requires
            CacheConfig::valid_geometry(config.size, config.associativity, config.block_size),
            memory.wf(),
            memory.translation_safe(),
            memory.device_bases().len() == 0,
            next_level matches Some(n) ==> n.wf(),
        ensures
            r.wf(),
            r.config == config,
            r.memory == memory,
            r.stats == CacheStatistics::zeroed(),
            r.write_policy == WritePolicy::WriteBack,
            r.allocation_policy == AllocationPolicy::WriteAllocate,
            r.next_level == next_level,
            r.sets@.len() == config.size / ((config.associativity * config.block_size) as usize),
            forall|i: int, j: int|
                0 <= i < r.sets@.len() && 0 <= j < config.associativity ==> !(
                #[trigger] r.sets@[i].lines@[j]).valid && r.sets@[i].lines@[j].access_count == 0,
    {
        assert(config.associativity * config.block_size > 0) by (nonlinear_arith)
            requires
                config.associativity > 0,
                config.block_size > 0,
        ;
        let way_bytes = config.associativity * config.block_size;
        let num_sets = config.size / way_bytes;
        proof {
            assert(num_sets * way_bytes <= config.size) by (nonlinear_arith)
                requires
                    num_sets == config.size / way_bytes,
                    way_bytes > 0,
            ;
            assert(config.block_size * num_sets <= num_sets * way_bytes) by (nonlinear_arith)
                requires
                    way_bytes == config.associativity * config.block_size,
                    config.associativity >= 1,
            ;
            lemma_log2_sum_fits(config.block_size as nat, num_sets as nat);
        }
        let mut sets: Vec<CacheSet> = Vec::new();
        let mut i: usize = 0;
        while i < num_sets
            invariant
                i <= num_sets,
                sets@.len() == i,
                forall|k: int, j: int|
                    0 <= k < i && 0 <= j < config.associativity ==> !(
                    #[trigger] sets@[k].lines@[j]).valid && sets@[k].lines@[j].access_count == 0,
                forall|k: int|
                    0 <= k < i ==> #[trigger] set_ok(
                        sets@[k],
                        config.associativity,
                        config.block_size,
                        k,
                        log2_floor(config.block_size as nat) as usize,
                        log2_floor(num_sets as nat) as usize,
                    ),
            decreases num_sets - i,
        {
            let set = CacheSet::new(config.associativity, config.block_size, config.replacement_policy);
            sets.push(set);
            i = i + 1;
        }
        let prefetcher = create_prefetcher(&config);
        Self {
            config,
            sets,
            memory,
            stats: CacheStatistics::new(),
            write_policy: WritePolicy::WriteBack,
            allocation_policy: AllocationPolicy::WriteAllocate,
            prefetcher,
            next_level,
        }
    }

    /// A level over `memory` with nothing below it.
    pub fn new(config: CacheConfig, memory: Memory) -> (r: Self)
        requires
            CacheConfig::valid_geometry(config.size, config.associativity, config.block_size),
            memory.wf(),
            memory.translation_safe(),
            memory.device_bases().len() == 0,
        ensures
            r.wf(),
            r.config == config,
            r.memory == memory,
            r.stats == CacheStatistics::zeroed(),
            r.write_policy == WritePolicy::WriteBack,
            r.allocation_policy == AllocationPolicy::WriteAllocate,
            r.next_level is None,
            r.sets@.len() == config.size / ((config.associativity * config.block_size) as usize),
    {
        Self::new_with_next_level(config, memory, None)
    }

    /// Splits `address` into tag, set index and byte offset.
    fn decode_address(&self, address: usize) -> (r: (usize, usize, usize))
        requires
            self.wf(),
        ensures
            r == self.decoded(address),
    {
        let offset_bits = ilog2(self.config.block_size);
        let index_bits = ilog2(self.sets.len());
        assert((1usize << offset_bits) >= 1 && (1usize << index_bits) >= 1) by (bit_vector)
            requires
                offset_bits < usize::BITS,
                index_bits < usize::BITS,
        ;
        let offset_mask: usize = (1usize << offset_bits) - 1;
        let index_mask: usize = ((1usize << index_bits) - 1) << offset_bits;
        let tag_mask: usize = !offset_mask & !index_mask;
        let offset = address & offset_mask;
        let set_idx = (address & index_mask) >> offset_bits;
        let tag = (address & tag_mask) >> (offset_bits + index_bits);
        (tag, set_idx, offset)
    }
}


impl Cache {
    /// Whether `sets2` is `self.sets` with line `li` of set `si` replaced by
    /// a line that `keep` relates to the old one, the rest (queues and
    /// policies included) unchanged.
    pub open spec fn line_changed(
        &self,
        sets2: Seq<CacheSet>,
        si: int,
        li: int,
        line2: CacheLine,
    ) -> bool {
        &&& sets2.len() == self.sets@.len()
        &&& forall|k: int| 0 <= k < sets2.len() && k != si ==> #[trigger] sets2[k] == self.sets@[k]
        &&& sets2[si].lru_queue@ == self.sets@[si].lru_queue@
        &&& sets2[si].replacement_policy == self.sets@[si].replacement_policy
        &&& sets2[si].lines@ == self.sets@[si].lines@.update(li, line2)
    }

    /// Loads the block at `block_addr` from memory into line `line_idx` of
    /// set `set_idx` under `tag`: the line becomes valid and clean.
    fn load_block(&mut self, block_addr: usize, set_idx: usize, line_idx: usize, tag: usize)
        requires
            old(self).wf(),
            set_idx < old(self).sets@.len(),
            line_idx < old(self).config.associativity,
            block_addr + old(self).config.block_size <= usize::MAX,
            block_address(tag, set_idx, old(self).ob(), old(self).ib()) + old(self).config.block_size
                <= usize::MAX,
        ensures
            final(self).wf(),
            final(self).config == old(self).config,
            final(self).memory == old(self).memory,
            final(self).stats == old(self).stats,
            final(self).next_level == old(self).next_level,
            final(self).prefetcher == old(self).prefetcher,
            final(self).write_policy == old(self).write_policy,
            final(self).allocation_policy == old(self).allocation_policy,
            exists|line2: CacheLine|
                {
                    &&& old(self).line_changed(final(self).sets@, set_idx as int, line_idx as int, line2)
                    &&& line2.valid
                    &&& !line2.dirty
                    &&& line2.tag == tag
                    &&& line2.access_count == old(self).sets@[set_idx as int].lines@[line_idx as int].access_count
                    &&& line2.data@ == fetched(
                        &old(self).memory,
                        old(self).memory.contents(),
                        block_addr as int,
                        old(self).config.block_size as nat,
                    )
                },
    {
        let bs = self.config.block_size;
        let size = self.memory.get_size();
        let mut data: Vec<u8> = Vec::new();
        let mut i: usize = 0;
        while i < bs
            invariant
                i <= bs,
                *self == *old(self),
                old(self).wf(),
                bs == self.config.block_size,
                size == self.memory.msize(),
                block_addr + bs <= usize::MAX,
                self.memory.wf(),
                self.memory.translation_safe(),
                self.memory.device_bases().len() == 0,
                data@ == fetched(&self.memory, self.memory.contents(), block_addr as int, bs as nat).take(
                    i as int,
                ),
            decreases bs - i,
        {
            let mem_addr = block_addr + i;
            let b = if mem_addr < size {
                match self.memory.read_byte(mem_addr) {
                    Some(v) => v,
                    None => 0,
                }
            } else {
                0
            };
            data.push(b);
            i = i + 1;
            assert(data@ =~= fetched(&self.memory, self.memory.contents(), block_addr as int, bs as nat).take(
                i as int,
            ));
        }
        assert(data@ =~= fetched(&self.memory, self.memory.contents(), block_addr as int, bs as nat));
        let ghost old_sets = self.sets@;
        assert(old(self).wf());
        assert(forall|k: int| 0 <= k < old(self).sets@.len() ==> #[trigger] set_ok(
                old(self).sets@[k],
                old(self).config.associativity,
                old(self).config.block_size,
                k,
                old(self).ob(),
                old(self).ib(),
            ));
        assert(set_ok(old_sets[set_idx as int], self.config.associativity, self.config.block_size, set_idx as int, self.ob(), self.ib()));
        let access_count = self.sets[set_idx].lines[line_idx].access_count;
        self.sets[set_idx].lines[line_idx] = CacheLine { valid: true, dirty: false, tag, data, access_count };
        proof {
            let line2 = self.sets@[set_idx as int].lines@[line_idx as int];
            assert(old(self).line_changed(self.sets@, set_idx as int, line_idx as int, line2));
            assert forall|k: int| 0 <= k < self.sets@.len() implies #[trigger] set_ok(
                self.sets@[k],
                self.config.associativity,
                self.config.block_size,
                k,
                self.ob(),
                self.ib(),
            ) by {
                if k != set_idx {
                    assert(set_ok(old_sets[k], self.config.associativity, self.config.block_size, k, self.ob(), self.ib()));
                } else {
                    assert(set_ok(old_sets[k], self.config.associativity, self.config.block_size, k, self.ob(), self.ib()));
                    assert(self.sets@[k].wf());
                }
            }
        }
    }
}


/// Byte stores through memories of the same layout agree.
proof fn lemma_layout_bytes(m1: &Memory, m2: &Memory, d: Seq<u8>, base: usize, bytes: Seq<u8>)
    requires
        m2.same_layout(m1),
    ensures
        m2.bytes_loaded(d, base, bytes) == m1.bytes_loaded(d, base, bytes),
    decreases bytes.len(),
{
    if bytes.len() > 0 {
        lemma_layout_bytes(m1, m2, d, base, bytes.drop_last());
    }
}

impl Cache {
    /// The backing store after the block that line `li` of set `si` holds
    /// under `tag` is written back.
    pub open spec fn written_back(&self, si: int, li: int, tag: usize) -> Seq<u8> {
        let ba = block_address(tag, si as usize, self.ob(), self.ib());
        let n = in_memory(ba as int, self.config.block_size as nat, self.memory.msize() as nat);
        self.memory.bytes_loaded(self.memory.contents(), ba, self.sets@[si].lines@[li].data@.take(n as int))
    }

    /// Writes line `line_idx` of set `set_idx` back to memory as the block
    /// it holds under `tag` (the bytes that fall inside memory), and marks
    /// it clean.
    pub fn write_back_line(&mut self, set_idx: usize, line_idx: usize, tag: usize)
        requires
            old(self).wf(),
            set_idx < old(self).sets@.len(),
            line_idx < old(self).config.associativity,
            block_address(tag, set_idx, old(self).ob(), old(self).ib()) + old(self).config.block_size
                <= usize::MAX,
        ensures
            final(self).wf(),
            final(self).config == old(self).config,
            final(self).stats == old(self).stats,
            final(self).next_level == old(self).next_level,
            final(self).write_policy == old(self).write_policy,
            final(self).allocation_policy == old(self).allocation_policy,
            final(self).prefetcher == old(self).prefetcher,
            final(self).memory.wf(),
            final(self).memory.same_layout(&old(self).memory),
            final(self).memory.device_bases() == old(self).memory.device_bases(),
            final(self).memory.contents() == old(self).written_back(set_idx as int, line_idx as int, tag),
            old(self).line_changed(
                final(self).sets@,
                set_idx as int,
                line_idx as int,
                CacheLine { dirty: false, ..old(self).sets@[set_idx as int].lines@[line_idx as int] },
            ),
    {
        let bs = self.config.block_size;
        let bits_per_block = ilog2(bs);
        let bits_per_set = ilog2(self.sets.len());
        let block_addr: usize = (tag << (bits_per_set + bits_per_block)) | (set_idx << bits_per_block);
        let size = self.memory.get_size();
        let ghost m0 = self.memory;
        let ghost n = in_memory(block_addr as int, bs as nat, size as nat);
        assert(set_ok(self.sets@[set_idx as int], self.config.associativity, bs, set_idx as int, self.ob(), self.ib()));
        let ghost d = self.sets@[set_idx as int].lines@[line_idx as int].data@;
        let mut i: usize = 0;
        while i < bs
            invariant
                i <= bs,
                bs == self.config.block_size,
                self.sets@ == old(self).sets@,
                self.config == old(self).config,
                self.stats == old(self).stats,
                self.next_level == old(self).next_level,
                self.write_policy == old(self).write_policy,
                self.allocation_policy == old(self).allocation_policy,
                self.prefetcher == old(self).prefetcher,
                old(self).wf(),
                m0 == old(self).memory,
                set_idx < self.sets@.len(),
                line_idx < self.sets@[set_idx as int].lines@.len(),
                d == self.sets@[set_idx as int].lines@[line_idx as int].data@,
                d.len() == bs,
                size == m0.msize(),
                block_addr + bs <= usize::MAX,
                n == in_memory(block_addr as int, bs as nat, size as nat),
                m0.wf(),
                m0.translation_safe(),
                self.memory.wf(),
                self.memory.same_layout(&m0),
                self.memory.device_bases() == m0.device_bases(),
                self.memory.contents() == m0.bytes_loaded(
                    m0.contents(),
                    block_addr,
                    d.take(if i < n { i as int } else { n as int }),
                ),
            decreases bs - i,
        {
            let mem_addr = block_addr + i;
            if mem_addr < size {
                let b = self.sets[set_idx].lines[line_idx].data[i];
                let ghost before = self.memory;
                self.memory.write_byte(mem_addr, b);
                proof {
                    assert(i < n);
                    let t1 = d.take(i + 1);
                    assert(t1.drop_last() =~= d.take(i as int));
                    lemma_layout_bytes(&m0, &before, m0.contents(), block_addr, t1);
                    assert(before.byte_written(before.contents(), mem_addr, b) == m0.byte_written(before.contents(), mem_addr, b));
                }
            } else {
                assert(i >= n);
            }
            i = i + 1;
        }
        let ghost old_sets = self.sets@;
        self.sets[set_idx].lines[line_idx].dirty = false;
        proof {
            assert forall|k: int| 0 <= k < self.sets@.len() implies #[trigger] set_ok(
                self.sets@[k],
                self.config.associativity,
                self.config.block_size,
                k,
                self.ob(),
                self.ib(),
            ) by {
                assert(set_ok(old_sets[k], self.config.associativity, self.config.block_size, k, self.ob(), self.ib()));
            }
        }
    }
}


/// Loading bytes through one memory gives the same backing store as
/// through another with the same layout.
proof fn lemma_bytes_loaded_same_layout(m1: &Memory, m2: &Memory, d: Seq<u8>, base: usize, bytes: Seq<u8>)
    requires
        m2.same_layout(m1),
    ensures
        m2.bytes_loaded(d, base, bytes) == m1.bytes_loaded(d, base, bytes),
    decreases bytes.len(),
{
    if bytes.len() > 0 {
        lemma_bytes_loaded_same_layout(m1, m2, d, base, bytes.drop_last());
    }
}

impl Cache {
    /// The backing store after the valid dirty lines of the sets before
    /// `si`, and the first `li` lines of set `si`, are written back in
    /// order.
    pub open spec fn flushed_through(&self, si: int, li: int) -> Seq<u8>
        decreases si, li,
    {
        if si <= 0 && li <= 0 {
            self.memory.contents()
        } else if li <= 0 {
            self.flushed_through(si - 1, self.config.associativity as int)
        } else {
            let before = self.flushed_through(si, li - 1);
            let line = self.sets@[si].lines@[li - 1];
            if line.valid && line.dirty {
                let ba = block_address(line.tag, si as usize, self.ob(), self.ib());
                let n = in_memory(ba as int, self.config.block_size as nat, self.memory.msize() as nat);
                self.memory.bytes_loaded(before, ba, line.data@.take(n as int))
            } else {
                before
            }
        }
    }

    /// Writes every valid dirty line back (see `flushed_through`) and
    /// invalidates every line.
    pub fn flush(&mut self)
        requires
            old(self).wf(),
        ensures
            final(self).wf(),
            final(self).config == old(self).config,
            final(self).stats == old(self).stats,
            final(self).next_level == old(self).next_level,
            final(self).write_policy == old(self).write_policy,
            final(self).allocation_policy == old(self).allocation_policy,
            final(self).memory.same_layout(&old(self).memory),
            final(self).memory.contents() == old(self).flushed_through(old(self).sets@.len() as int, 0),
            final(self).sets@.len() == old(self).sets@.len(),
            forall|i: int, j: int|
                0 <= i < final(self).sets@.len() && 0 <= j < final(self).sets@[i].lines@.len() ==> !(
                #[trigger] final(self).sets@[i].lines@[j]).valid && !final(self).sets@[i].lines@[j].dirty,
    {
        let n = self.sets.len();
        let mut si: usize = 0;
        while si < n
            invariant
                si <= n,
                n == self.sets@.len(),
                n == old(self).sets@.len(),
                self.wf(),
                self.config == old(self).config,
                self.stats == old(self).stats,
                self.next_level == old(self).next_level,
                self.write_policy == old(self).write_policy,
                self.allocation_policy == old(self).allocation_policy,
                self.memory.same_layout(&old(self).memory),
                self.memory.contents() == old(self).flushed_through(si as int, 0),
                forall|i: int, j: int|
                    si <= i < n && 0 <= j < self.sets@[i].lines@.len() ==> #[trigger] self.sets@[i].lines@[j]
                        == old(self).sets@[i].lines@[j],
                forall|i: int, j: int|
                    0 <= i < si && 0 <= j < self.sets@[i].lines@.len() ==> !(
                    #[trigger] self.sets@[i].lines@[j]).valid && !self.sets@[i].lines@[j].dirty,
            decreases n - si,
        {
            assert(set_ok(self.sets@[si as int], self.config.associativity, self.config.block_size, si as int, self.ob(), self.ib()));
            let ways = self.sets[si].lines.len();
            let mut li: usize = 0;
            while li < ways
                invariant
                    si < n,
                    li <= ways,
                    n == self.sets@.len(),
                    n == old(self).sets@.len(),
                    ways == self.sets@[si as int].lines@.len(),
                    ways == self.config.associativity,
                    self.wf(),
                    self.config == old(self).config,
                    self.stats == old(self).stats,
                    self.next_level == old(self).next_level,
                    self.write_policy == old(self).write_policy,
                    self.allocation_policy == old(self).allocation_policy,
                    self.memory.same_layout(&old(self).memory),
                    self.memory.contents() == old(self).flushed_through(si as int, li as int),
                    forall|i: int, j: int|
                        si < i < n && 0 <= j < self.sets@[i].lines@.len() ==> #[trigger] self.sets@[i].lines@[j]
                            == old(self).sets@[i].lines@[j],
                    forall|j: int|
                        li <= j < ways ==> #[trigger] self.sets@[si as int].lines@[j]
                            == old(self).sets@[si as int].lines@[j],
                    forall|i: int, j: int|
                        0 <= i < si && 0 <= j < self.sets@[i].lines@.len() ==> !(
                        #[trigger] self.sets@[i].lines@[j]).valid && !self.sets@[i].lines@[j].dirty,
                    forall|j: int|
                        0 <= j < li ==> !(#[trigger] self.sets@[si as int].lines@[j]).valid
                            && !self.sets@[si as int].lines@[j].dirty,
                decreases ways - li,
            {
                let ghost s0 = self.sets@;
                assert(set_ok(s0[si as int], self.config.associativity, self.config.block_size, si as int, self.ob(), self.ib()));
                let valid = self.sets[si].lines[li].valid;
                let dirty = self.sets[si].lines[li].dirty;
                let tag = self.sets[si].lines[li].tag;
                if valid && dirty {
                    assert(s0[si as int].lines@[li as int].valid);
                    let ghost before = self.memory;
                    self.write_back_line(si, li, tag);
                    proof {
                        let line = s0[si as int].lines@[li as int];
                        let ba = block_address(line.tag, si, self.ob(), self.ib());
                        let k = in_memory(ba as int, self.config.block_size as nat, before.msize() as nat);
                        lemma_bytes_loaded_same_layout(&old(self).memory, &before, before.contents(), ba, line.data@.take(k as int));
                    }
                }
                let ghost s1 = self.sets@;
                assert(forall|k: int| 0 <= k < n ==> #[trigger] set_ok(s1[k], self.config.associativity, self.config.block_size, k, self.ob(), self.ib()));
                self.sets[si].lines[li].valid = false;
                self.sets[si].lines[li].dirty = false;
                proof {
                    assert forall|k: int| 0 <= k < self.sets@.len() implies #[trigger] set_ok(
                        self.sets@[k],
                        self.config.associativity,
                        self.config.block_size,
                        k,
                        self.ob(),
                        self.ib(),
                    ) by {
                        assert(set_ok(s1[k], self.config.associativity, self.config.block_size, k, self.ob(), self.ib()));
                    }
                }
                li = li + 1;
            }
            si = si + 1;
        }
    }

    /// The level's statistics.
    pub fn get_statistics(&self) -> (r: &CacheStatistics)
        ensures
            *r == self.stats,
    {
        &self.stats
    }

    /// Clears the level's statistics.
    pub fn reset_statistics(&mut self)
        requires
            old(self).wf(),
        ensures
            final(self).wf(),
            final(self).stats == CacheStatistics::zeroed(),
            final(self).sets == old(self).sets,
            final(self).memory == old(self).memory,
            final(self).config == old(self).config,
            final(self).next_level == old(self).next_level,
    {
        self.stats = CacheStatistics::new();
        proof {
            assert forall|k: int| 0 <= k < self.sets@.len() implies #[trigger] set_ok(
                self.sets@[k],
                self.config.associativity,
                self.config.block_size,
                k,
                self.ob(),
                self.ib(),
            ) by {
                assert(set_ok(old(self).sets@[k], self.config.associativity, self.config.block_size, k, old(self).ob(), old(self).ib()));
            }
        }
    }
}


/// The block address that a decoded address's tag and set index give back
/// lies at or below the address.
#[verifier::rlimit(40)]
proof fn lemma_block_address_below(address: usize, ob: usize, ib: usize)
    requires
        ob + ib < usize::BITS,
    ensures
        block_address(decode(address, ob, ib).0, decode(address, ob, ib).1, ob, ib) <= address,
        decode(address, ob, ib).2 <= address,
{
    let offset_mask = ((1usize << ob) - 1) as usize;
    let index_mask = ((((1usize << ib) - 1) as usize) << ob) as usize;
    let tag_mask = !offset_mask & !index_mask;
    let t = (address & tag_mask) >> ((ob + ib) as usize);
    let i = (address & index_mask) >> ob;
    assert(address & offset_mask <= address) by (bit_vector);
    assert(((t << ((ib + ob) as usize)) | (i << ob)) <= address) by (bit_vector)
        requires
            ob + ib < usize::BITS,
            offset_mask == ((1usize << ob) - 1) as usize,
            index_mask == ((((1usize << ib) - 1) as usize) << ob) as usize,
            tag_mask == !offset_mask & !index_mask,
            t == (address & tag_mask) >> ((ob + ib) as usize),
            i == (address & index_mask) >> ob,
    ;
}

/// Whether line `li` is the first valid line of `lines` holding `tag`.
pub open spec fn first_holding(lines: Seq<CacheLine>, li: int, tag: usize) -> bool {
    0 <= li < lines.len() && holds(lines, li, tag) && forall|j: int| 0 <= j < li ==> !holds(lines, j, tag)
}

impl Cache {
    /// What `read` of `address` gives and leaves in `c1`: for an
    /// out-of-range set, for a hit (the line's four bytes at the hit
    /// latency), and for a miss: the next level, when there is one, is read
    /// first and what it gives comes back with this level's hit latency
    /// added; otherwise (or when it gives nothing) a victim line takes the
    /// block and the bytes come from it at the miss penalty.
    pub open spec fn read_answer(&self, address: usize, c1: Cache, r: Option<(Vec<u8>, usize)>) -> bool
        decreases self,
    {
        let (tag, si, off) = self.decoded(address);
        let bs = self.config.block_size;
        &&& si >= self.sets@.len() ==> r is None && c1.sets == self.sets
            && c1.memory == self.memory
            && c1.stats.hits == self.stats.hits
            && c1.stats.misses == self.stats.misses
            && c1.stats.total_access_time == self.stats.total_access_time
        &&& forall|li: int|
            si < self.sets@.len() && first_holding(self.sets@[si as int].lines@, li, tag)
            ==> {
                let line = self.sets@[si as int].lines@[li];
                &&& (r is Some <==> off + 4 <= bs)
                &&& (r matches Some((d, lat)) ==> d@ == line.data@.subrange(off as int, off + 4)
                    && lat == self.config.hit_latency)
                &&& c1.stats.hits == self.stats.hits + (if r is Some { 1int } else { 0 })
                &&& c1.stats.read_hits == self.stats.read_hits + (if r is Some { 1int } else { 0 })
                &&& c1.stats.misses == self.stats.misses
                &&& c1.stats.total_access_time == self.stats.total_access_time
                    + (if r is Some { self.config.hit_latency as int } else { 0 })
                &&& c1.memory == self.memory
            }
        &&& si < self.sets@.len() && (forall|li: int|
            0 <= li < self.sets@[si as int].lines@.len() ==> !holds(
                self.sets@[si as int].lines@,
                li,
                tag,
            )) ==> {
                &&& c1.stats.misses == self.stats.misses + 1
                &&& c1.stats.hits == self.stats.hits
                &&& c1.stats.read_hits == self.stats.read_hits
                &&& self.next_level is None ==> {
                    &&& (r is Some <==> off + 4 <= bs)
                    &&& r matches Some((d, lat)) ==> lat == self.config.miss_penalty
                        && exists|v: int|
                        self.victim_ok(si as int, v) && d@ == self.filled(
                            si as int,
                            v,
                            (address - off) as usize,
                        ).subrange(off as int, off + 4)
                }
                &&& self.next_level matches Some(n) ==> c1.next_level matches Some(n1) && {
                    ||| r matches Some((d, lat)) && {
                        &&& lat >= self.config.hit_latency
                        &&& n.read_answer(address, *n1, Some((d, (lat - self.config.hit_latency) as usize)))
                        &&& c1.sets == self.sets
                        &&& c1.memory == self.memory
                        &&& c1.stats.total_access_time == self.stats.total_access_time
                    }
                    ||| n.read_answer(address, *n1, None) && {
                        &&& (r is Some <==> off + 4 <= bs)
                        &&& r matches Some((d, lat)) ==> lat == self.config.miss_penalty
                            && exists|v: int|
                            self.victim_ok(si as int, v) && d@ == self.filled(
                                si as int,
                                v,
                                (address - off) as usize,
                            ).subrange(off as int, off + 4)
                    }
                }
            }
    }

    /// What `write` of `value` at `address` costs and leaves in `c1`: for
    /// an out-of-range set, for a hit, and for a miss (without allocation,
    /// with allocation through the next level, or with allocation and no
    /// next level).
    pub open spec fn write_answer(&self, address: usize, value: Seq<u8>, c1: Cache, r: usize) -> bool
        decreases self,
    {
        let (tag, si, off) = self.decoded(address);
        let bs = self.config.block_size;
        let through = self.write_policy == WritePolicy::WriteThrough;
        let fits = off + value.len() <= bs;
        &&& si >= self.sets@.len() ==> r == self.config.miss_penalty && c1.sets
            == self.sets && c1.memory == self.memory
            && c1.stats.hits == self.stats.hits
            && c1.stats.misses == self.stats.misses
        &&& forall|li: int|
            si < self.sets@.len() && first_holding(self.sets@[si as int].lines@, li, tag)
            ==> {
                let line = self.sets@[si as int].lines@[li];
                let lat = if fits { self.config.hit_latency } else { self.config.miss_penalty };
                &&& r == lat
                &&& c1.stats.hits == self.stats.hits + 1
                &&& c1.stats.write_hits == self.stats.write_hits + 1
                &&& c1.stats.misses == self.stats.misses
                &&& c1.stats.total_access_time == self.stats.total_access_time + lat
                &&& fits ==> c1.sets@[si as int].lines@[li].data@ == spliced(
                    line.data@,
                    off as int,
                    value,
                ) && c1.sets@[si as int].lines@[li].dirty == !through
                &&& c1.memory.contents() == if fits && through {
                    self.memory.bytes_loaded(self.memory.contents(), address, value)
                } else {
                    self.memory.contents()
                }
            }
        &&& si < self.sets@.len() && (forall|li: int|
            0 <= li < self.sets@[si as int].lines@.len() ==> !holds(
                self.sets@[si as int].lines@,
                li,
                tag,
            )) ==> {
                &&& c1.stats.misses == self.stats.misses + 1
                &&& c1.stats.hits == self.stats.hits
                &&& c1.stats.write_hits == self.stats.write_hits
                &&& (self.next_level is None || self.allocation_policy
                    == AllocationPolicy::NoWriteAllocate) ==> r == self.config.miss_penalty
                    && c1.stats.total_access_time == self.stats.total_access_time
                    + self.config.miss_penalty
                &&& self.allocation_policy == AllocationPolicy::NoWriteAllocate ==> c1.sets
                    == self.sets && c1.memory.contents()
                    == self.memory.bytes_loaded(self.memory.contents(), address, value)
                &&& self.allocation_policy == AllocationPolicy::WriteAllocate ==> (self.next_level matches Some(n)
                    ==> c1.next_level matches Some(n1) && {
                    &&& r >= self.config.hit_latency
                    &&& n.write_answer(address, value, *n1, (r - self.config.hit_latency) as usize)
                    &&& c1.sets == self.sets
                    &&& c1.memory == self.memory
                    &&& c1.stats.total_access_time == self.stats.total_access_time
                })
                &&& self.allocation_policy == AllocationPolicy::WriteAllocate
                    && self.next_level is None ==> exists|v: int|
                    {
                        let l2 = #[trigger] c1.sets@[si as int].lines@[v];
                        let wb = self.after_write_back(si as int, v);
                        &&& self.victim_ok(si as int, v)
                        &&& l2.valid
                        &&& l2.tag == tag
                        &&& fits ==> l2.data@ == spliced(
                            self.filled(si as int, v, (address - off) as usize),
                            off as int,
                            value,
                        ) && l2.dirty == !through
                        &&& c1.memory.contents() == if fits && through {
                            self.memory.bytes_loaded(wb, address, value)
                        } else {
                            wb
                        }
                    }
            }
    }
}

impl Cache {
    /// The effect of bringing the block at `block_addr` into set `si` under
    /// `tag` (see `prefetch_single_block`): nothing when the set index is out
    /// of range or a line already holds the tag; otherwise a victim line
    /// takes the fetched block, clean, after its old block is written back
    /// when dirty. Configuration, statistics and the other sets stay.
    pub open spec fn block_prefetched(&self, block_addr: usize, si: usize, tag: usize, c1: Cache) -> bool {
        &&& c1.config == self.config
        &&& c1.stats == self.stats
        &&& c1.next_level == self.next_level
        &&& c1.prefetcher == self.prefetcher
        &&& c1.write_policy == self.write_policy
        &&& c1.allocation_policy == self.allocation_policy
        &&& c1.memory.same_layout(&self.memory)
        &&& c1.sets@.len() == self.sets@.len()
        &&& si >= self.sets@.len() || (exists|j: int|
            0 <= j < self.sets@[si as int].lines@.len() && holds(self.sets@[si as int].lines@, j, tag))
            ==> c1 == *self
        &&& si < self.sets@.len() && (forall|j: int|
            0 <= j < self.sets@[si as int].lines@.len() ==> !holds(self.sets@[si as int].lines@, j, tag))
            ==> exists|v: int|
            {
                let line = #[trigger] c1.sets@[si as int].lines@[v];
                &&& self.victim_ok(si as int, v)
                &&& line.valid && !line.dirty && line.tag == tag
                &&& line.data@ == self.filled(si as int, v, block_addr)
                &&& c1.memory.contents() == self.after_write_back(si as int, v)
                &&& forall|k: int|
                    0 <= k < self.sets@.len() && k != si ==> #[trigger] c1.sets@[k] == self.sets@[k]
            }
    }

    /// The effect of prefetching `address` (see `prefetch_after_miss`):
    /// nothing when a whole block at it would pass the top of the address
    /// space, otherwise `block_prefetched` for its block, set and tag.
    pub open spec fn address_prefetched(&self, address: usize, c1: Cache) -> bool {
        let bs = self.config.block_size;
        if address > usize::MAX - bs {
            c1 == *self
        } else {
            let (tag, si, _) = self.decoded(address);
            self.block_prefetched((address - address % bs) as usize, si, tag, c1)
        }
    }
}

/// Whether `trace` lists the levels after prefetching each of `addresses`
/// in turn, from `trace[0]`.
pub open spec fn prefetch_trace(addresses: Seq<usize>, trace: Seq<Cache>) -> bool {
    &&& trace.len() == addresses.len() + 1
    &&& forall|k: int|
        0 <= k < addresses.len() ==> (#[trigger] trace[k]).address_prefetched(addresses[k], trace[k + 1])
}

impl Cache {
    /// Whether addresses from `address` up to a block beyond it stay below
    /// the top of the address space at this level and those below it.
    pub open spec fn fits(&self, address: usize) -> bool
        decreases self,
    {
        &&& address + self.config.block_size <= usize::MAX
        &&& match self.next_level {
            Some(n) => n.fits(address),
            None => true,
        }
    }

    /// Whether the prefetchers of this level and those below it can compute
    /// their addresses after a miss at `address`.
    pub open spec fn prefetch_fits(&self, address: usize) -> bool
        decreases self,
    {
        &&& (self.prefetcher matches Some(p) ==> p.fits(
            (address - self.decoded(address).2) as usize,
            self.config.block_size,
        ))
        &&& match self.next_level {
            Some(n) => n.prefetch_fits(address),
            None => true,
        }
    }

    /// Whether line `v` of set `si` may take a new block: the first invalid
    /// line if there is one, else the replacement policy's victim.
    pub open spec fn victim_ok(&self, si: int, v: int) -> bool {
        let set = self.sets@[si];
        let lines = set.lines@;
        &&& 0 <= v < lines.len()
        &&& if exists|j: int| 0 <= j < lines.len() && !(#[trigger] lines[j]).valid {
            !lines[v].valid && forall|j: int| 0 <= j < v ==> (#[trigger] lines[j]).valid
        } else {
            match set.replacement_policy {
                ReplacementPolicy::LRU => v == (if set.lru_queue@.len() > 0 {
                    set.lru_queue@[0] as int
                } else {
                    0
                }),
                ReplacementPolicy::FIFO => v == (if set.lru_queue@.len() > 0 {
                    set.lru_queue@[0] as int
                } else {
                    0
                }),
                ReplacementPolicy::Random => true,
                ReplacementPolicy::LFU => (forall|j: int|
                    0 <= j < lines.len() ==> lines[v].access_count <= (#[trigger] lines[j]).access_count)
                    && (forall|j: int|
                    0 <= j < v ==> lines[v].access_count < (#[trigger] lines[j]).access_count),
            }
        }
    }

    /// The bytes a miss loads into line `v` of set `si` for the block at
    /// `block_addr`: read from memory after the line's old block, when
    /// valid and dirty, has been written back.
    pub open spec fn filled(&self, si: int, v: int, block_addr: usize) -> Seq<u8> {
        let line = self.sets@[si].lines@[v];
        let data = if line.valid && line.dirty {
            self.written_back(si, v, line.tag)
        } else {
            self.memory.contents()
        };
        fetched(&self.memory, data, block_addr as int, self.config.block_size as nat)
    }

    /// Chooses the line of set `set_idx` that takes a new block.
    fn choose_line(&self, set_idx: usize) -> (r: usize)
        requires
            self.wf(),
            set_idx < self.sets@.len(),
        ensures
            self.victim_ok(set_idx as int, r as int),
            r < self.config.associativity,
    {
        assert(set_ok(self.sets@[set_idx as int], self.config.associativity, self.config.block_size, set_idx as int, self.ob(), self.ib()));
        match self.sets[set_idx].find_invalid_line() {
            Some(i) => i,
            None => self.sets[set_idx].find_victim(),
        }
    }

    /// The largest latency an access to this level can report.
    pub open spec fn max_latency(&self) -> int
        decreases self,
    {
        let own = if self.config.hit_latency >= self.config.miss_penalty {
            self.config.hit_latency as int
        } else {
            self.config.miss_penalty as int
        };
        match self.next_level {
            Some(n) => {
                let through = self.config.hit_latency + n.max_latency();
                if through >= own {
                    through
                } else {
                    own
                }
            },
            None => own,
        }
    }

    /// A level that differs from a well-formed one in its statistics only
    /// is well formed.
    proof fn lemma_wf_stats(new: &Cache, old: &Cache)
        requires
            old.wf(),
            *new == (Cache { stats: new.stats, ..*old }),
        ensures
            new.wf(),
    {
        assert forall|k: int| 0 <= k < new.sets@.len() implies #[trigger] set_ok(
            new.sets@[k],
            new.config.associativity,
            new.config.block_size,
            k,
            new.ob(),
            new.ib(),
        ) by {
            assert(set_ok(old.sets@[k], old.config.associativity, old.config.block_size, k, old.ob(), old.ib()));
        }
    }

    /// After one line of set `si` changed in a way that keeps the set's
    /// shape, the level is still well formed.
    proof fn lemma_wf_from(new: &Cache, old: &Cache, si: int)
        requires
            old.wf(),
            new.config == old.config,
            new.memory.wf(),
            new.memory.translation_safe(),
            new.memory.device_bases().len() == 0,
            match new.next_level {
                Some(n) => n.wf(),
                None => true,
            },
            new.sets@.len() == old.sets@.len(),
            0 <= si < old.sets@.len(),
            forall|k: int| 0 <= k < new.sets@.len() && k != si ==> #[trigger] new.sets@[k] == old.sets@[k],
            set_ok(new.sets@[si], old.config.associativity, old.config.block_size, si, old.ob(), old.ib()),
        ensures
            new.wf(),
    {
        assert forall|k: int| 0 <= k < new.sets@.len() implies #[trigger] set_ok(
            new.sets@[k],
            new.config.associativity,
            new.config.block_size,
            k,
            new.ob(),
            new.ib(),
        ) by {
            if k != si {
                assert(set_ok(old.sets@[k], old.config.associativity, old.config.block_size, k, old.ob(), old.ib()));
            }
        }
    }

    /// Records an access to line `li` of set `si`.
    fn touch(&mut self, si: usize, li: usize)
        requires
            old(self).wf(),
            si < old(self).sets@.len(),
            li < old(self).config.associativity,
            old(self).sets@[si as int].lines@[li as int].access_count < usize::MAX,
        ensures
            final(self).wf(),
            final(self).config == old(self).config,
            final(self).memory == old(self).memory,
            final(self).stats == old(self).stats,
            final(self).next_level == old(self).next_level,
            final(self).prefetcher == old(self).prefetcher,
            final(self).write_policy == old(self).write_policy,
            final(self).allocation_policy == old(self).allocation_policy,
            final(self).sets@.len() == old(self).sets@.len(),
            forall|k: int| 0 <= k < final(self).sets@.len() && k != si ==> #[trigger] final(self).sets@[k] == old(self).sets@[k],
            final(self).sets@[si as int].lines@.len() == old(self).sets@[si as int].lines@.len(),
            forall|j: int|
                0 <= j < final(self).sets@[si as int].lines@.len() ==> {
                    let a = #[trigger] final(self).sets@[si as int].lines@[j];
                    let b = old(self).sets@[si as int].lines@[j];
                    &&& a.valid == b.valid
                    &&& a.dirty == b.dirty
                    &&& a.tag == b.tag
                    &&& a.data == b.data
                    &&& a.access_count == if j == li { b.access_count + 1 } else { b.access_count as int }
                },
    {
        assert(set_ok(self.sets@[si as int], self.config.associativity, self.config.block_size, si as int, self.ob(), self.ib()));
        let ghost p = self.prefetcher;
        self.sets[si].update_access(li);
        assert(self.prefetcher == p);
        proof {
            Self::lemma_wf_from(self, old(self), si as int);
        }
    }

    /// Brings the block at `block_addr` into set `set_idx` under `tag`
    /// unless it is there already, writing back the line it replaces when
    /// that line is dirty.
    fn prefetch_single_block(&mut self, block_addr: usize, set_idx: usize, tag: usize)
        requires
            old(self).wf(),
            block_addr + old(self).config.block_size <= usize::MAX,
            block_address(tag, set_idx, old(self).ob(), old(self).ib()) + old(self).config.block_size
                <= usize::MAX,
        ensures
            final(self).wf(),
            old(self).block_prefetched(block_addr, set_idx, tag, *final(self)),
    {
        if set_idx >= self.sets.len() {
            return;
        }
        if self.sets[set_idx].find_line(tag).is_some() {
            return;
        }
        let victim_idx = self.choose_line(set_idx);
        assert(set_ok(self.sets@[set_idx as int], self.config.associativity, self.config.block_size, set_idx as int, self.ob(), self.ib()));
        let need_writeback = self.sets[set_idx].lines[victim_idx].valid
            && self.sets[set_idx].lines[victim_idx].dirty;
        let dirty_tag = self.sets[set_idx].lines[victim_idx].tag;
        if need_writeback {
            self.write_back_line(set_idx, victim_idx, dirty_tag);
        }
        let ghost m_pre = self.memory;
        let ghost s_pre = self.sets@;
        self.load_block(block_addr, set_idx, victim_idx, tag);
        proof {
            let bs = self.config.block_size;
            assert(fetched(&m_pre, m_pre.contents(), block_addr as int, bs as nat) =~= fetched(
                &old(self).memory,
                m_pre.contents(),
                block_addr as int,
                bs as nat,
            ));
            assert(m_pre.contents() == old(self).after_write_back(set_idx as int, victim_idx as int));
            assert(forall|k: int|
                0 <= k < old(self).sets@.len() && k != set_idx ==> #[trigger] s_pre[k] == old(self).sets@[k]);
            let line = self.sets@[set_idx as int].lines@[victim_idx as int];
            assert(line.data@ == old(self).filled(set_idx as int, victim_idx as int, block_addr));
        }
    }

    /// Reads the word at `address`: its four bytes and the access latency,
    /// or `None` when the set index is out of range or the word runs past
    /// the end of its block. A hit costs the hit latency; a miss goes to
    /// the next level when there is one and it answers (adding this level's
    /// hit latency), otherwise it loads the block into a line (writing that
    /// line's old block back first when it is dirty), costs the miss
    /// penalty, and prefetches.
    #[verifier::spinoff_prover]
    #[verifier::rlimit(40)]
    pub fn read(&mut self, address: usize) -> (r: Option<(Vec<u8>, usize)>)
        requires
            old(self).wf(),
            old(self).room(),
            old(self).fits(address),
            old(self).max_latency() <= usize::MAX,
            old(self).prefetch_fits(address),
        ensures
            final(self).wf(),
            final(self).config == old(self).config,
            final(self).write_policy == old(self).write_policy,
            final(self).allocation_policy == old(self).allocation_policy,
            final(self).stats.accesses == old(self).stats.accesses + 1,
            final(self).stats.read_accesses == old(self).stats.read_accesses + 1,
            final(self).stats.write_accesses == old(self).stats.write_accesses,
            final(self).stats.write_hits == old(self).stats.write_hits,
            final(self).stats.evictions == old(self).stats.evictions,
            r matches Some((d, lat)) ==> d@.len() == 4 && lat <= old(self).max_latency(),
            old(self).read_answer(address, *final(self), r),
        decreases *old(self),
    {
        let ghost entry = *self;
        self.stats.accesses = self.stats.accesses + 1;
        self.stats.read_accesses = self.stats.read_accesses + 1;
        proof {
            Self::lemma_wf_stats(self, &entry);
        }
        let (tag, set_idx, offset) = self.decode_address(address);
        proof {
            lemma_block_address_below(address, self.ob(), self.ib());
        }
        let block_addr = address - offset;
        if set_idx >= self.sets.len() {
            return None;
        }
        let bs = self.config.block_size;
        assert(set_ok(self.sets@[set_idx as int], self.config.associativity, bs, set_idx as int, self.ob(), self.ib()));
        let hit_index = self.sets[set_idx].find_line(tag);
        if let Some(line_idx) = hit_index {
            let ghost s0 = *self;
            self.touch(set_idx, line_idx);
            if offset > usize::MAX - 4 || offset + 4 > self.sets[set_idx].lines[line_idx].data.len() {
                return None;
            }
            let mut data: Vec<u8> = Vec::new();
            data.push(self.sets[set_idx].lines[line_idx].data[offset]);
            data.push(self.sets[set_idx].lines[line_idx].data[offset + 1]);
            data.push(self.sets[set_idx].lines[line_idx].data[offset + 2]);
            data.push(self.sets[set_idx].lines[line_idx].data[offset + 3]);
            let ghost s2 = *self;
            self.stats.hits = self.stats.hits + 1;
            self.stats.read_hits = self.stats.read_hits + 1;
            let latency = self.config.hit_latency;
            self.stats.total_access_time = self.stats.total_access_time + latency as u128;
            proof {
                assert(set_ok(s2.sets@[set_idx as int], s2.config.associativity, s2.config.block_size, set_idx as int, s2.ob(), s2.ib()));
                Self::lemma_wf_from(self, &s2, set_idx as int);
            }
            assert(data@ =~= s0.sets@[set_idx as int].lines@[line_idx as int].data@.subrange(
                offset as int,
                offset + 4,
            ));
            return Some((data, latency));
        }
        self.stats.misses = self.stats.misses + 1;
        let ghost s1 = *self;
        let ghost mut below: Cache = s1;
        let ghost mut below_answer: Option<(Vec<u8>, usize)> = None;
        if self.next_level.is_some() {
            let mut next = self.next_level.take().unwrap();
            let answer = next.read(address);
            proof {
                below = *next;
                below_answer = answer;
            }
            self.next_level = Some(next);
            proof {
                Self::lemma_wf_from(self, &s1, set_idx as int);
            }
            if let Some((data, next_latency)) = answer {
                let r = Some((data, self.config.hit_latency + next_latency));
                proof {
                    let n = old(self).next_level->0;
                    assert(n.read_answer(address, below, below_answer));
                    assert(self.next_level == Some(Box::new(below)));
                }
                return r;
            }
        }
        let victim_idx = self.choose_line(set_idx);
        let need_writeback = self.sets[set_idx].lines[victim_idx].valid
            && self.sets[set_idx].lines[victim_idx].dirty;
        let dirty_tag = self.sets[set_idx].lines[victim_idx].tag;
        if need_writeback {
            self.write_back_line(set_idx, victim_idx, dirty_tag);
            let ghost s4 = *self;
            self.stats.writebacks = self.stats.writebacks + 1;
            proof {
                assert(set_ok(s4.sets@[set_idx as int], s4.config.associativity, s4.config.block_size, set_idx as int, s4.ob(), s4.ib()));
                Self::lemma_wf_from(self, &s4, set_idx as int);
            }
        }
        let ghost m_pre = self.memory;
        proof {
            assert(m_pre.contents() == (if need_writeback {
                old(self).written_back(set_idx as int, victim_idx as int, dirty_tag)
            } else {
                old(self).memory.contents()
            }));
        }
        self.load_block(block_addr, set_idx, victim_idx, tag);
        proof {
            let line = self.sets@[set_idx as int].lines@[victim_idx as int];
            assert(fetched(&m_pre, m_pre.contents(), block_addr as int, bs as nat) =~= fetched(
                &old(self).memory,
                m_pre.contents(),
                block_addr as int,
                bs as nat,
            ));
            assert(line.data@ == old(self).filled(set_idx as int, victim_idx as int, block_addr));
        }
        let ghost filled_line = self.sets@[set_idx as int].lines@[victim_idx as int].data@;
        self.touch(set_idx, victim_idx);
        if offset > usize::MAX - 4 || offset + 4 > self.sets[set_idx].lines[victim_idx].data.len() {
            proof {
                if old(self).next_level is Some {
                    let n = old(self).next_level->0;
                    assert(n.read_answer(address, below, below_answer));
                    assert(self.next_level == Some(Box::new(below)));
                }
            }
            return None;
        }
        let mut data: Vec<u8> = Vec::new();
        data.push(self.sets[set_idx].lines[victim_idx].data[offset]);
        data.push(self.sets[set_idx].lines[victim_idx].data[offset + 1]);
        data.push(self.sets[set_idx].lines[victim_idx].data[offset + 2]);
        data.push(self.sets[set_idx].lines[victim_idx].data[offset + 3]);
        let ghost s3 = *self;
        let access_time = self.config.miss_penalty;
        self.stats.total_access_time = self.stats.total_access_time + access_time as u128;
        proof {
            assert(set_ok(s3.sets@[set_idx as int], s3.config.associativity, s3.config.block_size, set_idx as int, s3.ob(), s3.ib()));
            Self::lemma_wf_from(self, &s3, set_idx as int);
        }
        assert(data@ =~= filled_line.subrange(offset as int, offset + 4));
        assert(old(self).victim_ok(set_idx as int, victim_idx as int));
        self.prefetch_after_miss(block_addr);
        proof {
            if old(self).next_level is Some {
                let n = old(self).next_level->0;
                assert(n.read_answer(address, below, below_answer));
                assert(self.next_level == Some(Box::new(below)));
            }
        }
        Some((data, access_time))
    }

    /// Prefetches what the prefetcher asks for after a miss on the block
    /// at `block_addr`; addresses too close to the top of the address space
    /// for a whole block are skipped.
    fn prefetch_after_miss(&mut self, block_addr: usize)
        requires
            old(self).wf(),
            old(self).prefetcher matches Some(p) ==> p.fits(block_addr, old(self).config.block_size),
        ensures
            final(self).wf(),
            final(self).config == old(self).config,
            final(self).stats == old(self).stats,
            final(self).next_level == old(self).next_level,
            final(self).prefetcher == old(self).prefetcher,
            final(self).write_policy == old(self).write_policy,
            final(self).allocation_policy == old(self).allocation_policy,
            final(self).memory.same_layout(&old(self).memory),
            final(self).sets@.len() == old(self).sets@.len(),
            exists|addresses: Seq<usize>, trace: Seq<Cache>|
                {
                    &&& #[trigger] prefetch_trace(addresses, trace)
                    &&& trace[0] == *old(self)
                    &&& trace.last() == *final(self)
                    &&& match old(self).prefetcher {
                        None => addresses.len() == 0,
                        Some(p) => !(p.strategy() is Custom) ==> addresses == prefetch_addresses(
                            p.strategy(),
                            p.distance(),
                            block_addr,
                            old(self).config.block_size,
                        ),
                    }
                },
    {
        let addresses = match &self.prefetcher {
            Some(prefetcher) => prefetcher.get_prefetch_addresses(block_addr, self.config.block_size),
            None => Vec::new(),
        };
        let bs = self.config.block_size;
        let mut k: usize = 0;
        let ghost mut trace: Seq<Cache> = seq![*self];
        assert(addresses@.take(0) =~= Seq::<usize>::empty());
        while k < addresses.len()
            invariant
                k <= addresses@.len(),
                bs == self.config.block_size,
                self.wf(),
                self.config == old(self).config,
                self.stats == old(self).stats,
                self.next_level == old(self).next_level,
                self.prefetcher == old(self).prefetcher,
                self.write_policy == old(self).write_policy,
                self.allocation_policy == old(self).allocation_policy,
                self.memory.same_layout(&old(self).memory),
                self.sets@.len() == old(self).sets@.len(),
                prefetch_trace(addresses@.take(k as int), trace),
                trace[0] == *old(self),
                trace.last() == *self,
            decreases addresses@.len() - k,
        {
            let ghost before = *self;
            let prefetch_addr = addresses[k];
            if prefetch_addr <= usize::MAX - bs {
                let (p_tag, p_set_idx, _) = self.decode_address(prefetch_addr);
                proof {
                    lemma_block_address_below(prefetch_addr, self.ob(), self.ib());
                }
                assert(prefetch_addr % bs <= prefetch_addr) by (nonlinear_arith)
                    requires
                        bs > 0,
                ;
                let p_block_addr = prefetch_addr - (prefetch_addr % bs);
                self.prefetch_single_block(p_block_addr, p_set_idx, p_tag);
            }
            proof {
                assert(before.address_prefetched(prefetch_addr, *self));
                let t0 = trace;
                trace = trace.push(*self);
                assert forall|j: int| 0 <= j < k + 1 implies (#[trigger] trace[j]).address_prefetched(
                    addresses@.take(k + 1)[j],
                    trace[j + 1],
                ) by {
                    if j < k {
                        assert(trace[j] == t0[j] && trace[j + 1] == t0[j + 1]);
                        assert(addresses@.take(k + 1)[j] == addresses@.take(k as int)[j]);
                    }
                }
            }
            k = k + 1;
        }
        assert(addresses@.take(k as int) =~= addresses@);
        assert(prefetch_trace(addresses@, trace));
    }
}


/// `data` with `value` written over it from position `off`.
pub open spec fn spliced(data: Seq<u8>, off: int, value: Seq<u8>) -> Seq<u8> {
    data.subrange(0, off) + value + data.subrange(off + value.len(), data.len() as int)
}

/// Writes `value` byte by byte at `address`, `address + 1`, ... through the
/// memory's checks.
fn store_bytes(memory: &mut Memory, address: usize, value: &[u8])
    requires
        old(memory).wf(),
        old(memory).translation_safe(),
        address + value@.len() <= usize::MAX,
    ensures
        final(memory).wf(),
        final(memory).same_layout(old(memory)),
        final(memory).device_bases() == old(memory).device_bases(),
        final(memory).contents() == old(memory).bytes_loaded(old(memory).contents(), address, value@),
{
    let ghost m0 = *old(memory);
    let n = value.len();
    let mut i: usize = 0;
    while i < n
        invariant
            i <= n,
            n == value@.len(),
            address + n <= usize::MAX,
            m0.wf(),
            m0.translation_safe(),
            memory.wf(),
            memory.same_layout(&m0),
            memory.device_bases() == m0.device_bases(),
            memory.contents() == m0.bytes_loaded(m0.contents(), address, value@.take(i as int)),
        decreases n - i,
    {
        let ghost before = *memory;
        memory.write_byte(address + i, value[i]);
        proof {
            let t1 = value@.take(i + 1);
            assert(t1.drop_last() =~= value@.take(i as int));
            lemma_layout_bytes(&m0, &before, m0.contents(), address, t1.drop_last());
            assert(before.byte_written(before.contents(), (address + i) as usize, value@[i as int])
                == m0.byte_written(before.contents(), (address + i) as usize, value@[i as int]));
        }
        i = i + 1;
    }
    assert(value@.take(n as int) =~= value@);
}

impl Cache {
    /// Writes `value` to memory byte by byte from `address`.
    fn write_memory(&mut self, address: usize, value: &[u8])
        requires
            old(self).wf(),
            address + value@.len() <= usize::MAX,
        ensures
            final(self).wf(),
            final(self).config == old(self).config,
            final(self).sets == old(self).sets,
            final(self).stats == old(self).stats,
            final(self).next_level == old(self).next_level,
            final(self).prefetcher == old(self).prefetcher,
            final(self).write_policy == old(self).write_policy,
            final(self).allocation_policy == old(self).allocation_policy,
            final(self).memory.same_layout(&old(self).memory),
            final(self).memory.contents() == old(self).memory.bytes_loaded(
                old(self).memory.contents(),
                address,
                value@,
            ),
    {
        let ghost s0 = *self;
        store_bytes(&mut self.memory, address, value);
        proof {
            if s0.sets@.len() > 0 {
                assert(set_ok(s0.sets@[0], s0.config.associativity, s0.config.block_size, 0, s0.ob(), s0.ib()));
                Self::lemma_wf_from(self, &s0, 0);
            } else {
                assert(self.sets@.len() == 0);
            }
        }
    }

    /// Writes `value` into line `li` of set `si` from byte `off` and sets
    /// the line's dirty bit to `dirty`.
    fn write_into_line(&mut self, si: usize, li: usize, off: usize, value: &[u8], dirty: bool)
        requires
            old(self).wf(),
            si < old(self).sets@.len(),
            li < old(self).config.associativity,
            off + value@.len() <= old(self).config.block_size,
        ensures
            final(self).wf(),
            final(self).config == old(self).config,
            final(self).memory == old(self).memory,
            final(self).stats == old(self).stats,
            final(self).next_level == old(self).next_level,
            final(self).prefetcher == old(self).prefetcher,
            final(self).write_policy == old(self).write_policy,
            final(self).allocation_policy == old(self).allocation_policy,
            exists|line2: CacheLine|
                {
                    let line = old(self).sets@[si as int].lines@[li as int];
                    &&& #[trigger] old(self).line_changed(final(self).sets@, si as int, li as int, line2)
                    &&& line2.valid == line.valid
                    &&& line2.dirty == dirty
                    &&& line2.tag == line.tag
                    &&& line2.access_count == line.access_count
                    &&& line2.data@ == spliced(line.data@, off as int, value@)
                },
    {
        assert(set_ok(self.sets@[si as int], self.config.associativity, self.config.block_size, si as int, self.ob(), self.ib()));
        let bs = self.config.block_size;
        let ghost old_data = self.sets@[si as int].lines@[li as int].data@;
        let mut data: Vec<u8> = Vec::new();
        let mut j: usize = 0;
        while j < bs
            invariant
                j <= bs,
                *self == *old(self),
                old(self).wf(),
                si < self.sets@.len(),
                li < self.sets@[si as int].lines@.len(),
                bs == self.config.block_size,
                old_data == self.sets@[si as int].lines@[li as int].data@,
                old_data.len() == bs,
                off + value@.len() <= bs,
                data@ == spliced(old_data, off as int, value@).take(j as int),
            decreases bs - j,
        {
            let b = if off <= j && j < off + value.len() {
                value[j - off]
            } else {
                self.sets[si].lines[li].data[j]
            };
            data.push(b);
            j = j + 1;
            assert(data@ =~= spliced(old_data, off as int, value@).take(j as int));
        }
        assert(data@ =~= spliced(old_data, off as int, value@));
        let valid = self.sets[si].lines[li].valid;
        let tag = self.sets[si].lines[li].tag;
        let access_count = self.sets[si].lines[li].access_count;
        let ghost s0 = *self;
        self.sets[si].lines[li] = CacheLine { valid, dirty, tag, data, access_count };
        proof {
            Self::lemma_wf_from(self, &s0, si as int);
            let line2 = self.sets@[si as int].lines@[li as int];
            assert(old(self).line_changed(self.sets@, si as int, li as int, line2));
        }
    }

    /// The backing store once line `v` of set `si` has been written back
    /// (when it is valid and dirty).
    pub open spec fn after_write_back(&self, si: int, v: int) -> Seq<u8> {
        let line = self.sets@[si].lines@[v];
        if line.valid && line.dirty {
            self.written_back(si, v, line.tag)
        } else {
            self.memory.contents()
        }
    }

    /// Writes `value` at `address` and returns the access latency. A hit
    /// updates the line (and, write-through, memory) and costs the hit
    /// latency, or the miss penalty when the value runs past the block. A
    /// miss goes to the next level when there is one and the level
    /// allocates on writes (adding this level's hit latency); otherwise a
    /// write-allocate level brings the block into a line first (counting an
    /// eviction when no line is free) and writes there, and a
    /// no-write-allocate level writes memory directly; either costs the
    /// miss penalty. An out-of-range set index also costs the miss penalty.
    pub fn write(&mut self, address: usize, value: &[u8]) -> (r: usize)
        requires
            old(self).wf(),
            old(self).room(),
            old(self).fits(address),
            address + value@.len() <= usize::MAX,
            old(self).max_latency() <= usize::MAX,
        ensures
            final(self).wf(),
            final(self).config == old(self).config,
            final(self).write_policy == old(self).write_policy,
            final(self).allocation_policy == old(self).allocation_policy,
            final(self).stats.accesses == old(self).stats.accesses + 1,
            final(self).stats.write_accesses == old(self).stats.write_accesses + 1,
            final(self).stats.read_accesses == old(self).stats.read_accesses,
            final(self).stats.read_hits == old(self).stats.read_hits,
            r <= old(self).max_latency(),
            old(self).write_answer(address, value@, *final(self), r),
        decreases *old(self),
    {
        let ghost entry = *self;
        self.stats.accesses = self.stats.accesses + 1;
        self.stats.write_accesses = self.stats.write_accesses + 1;
        proof {
            Self::lemma_wf_stats(self, &entry);
        }
        let (tag, set_idx, offset) = self.decode_address(address);
        proof {
            lemma_block_address_below(address, self.ob(), self.ib());
        }
        let block_addr = address - offset;
        if set_idx >= self.sets.len() {
            return self.config.miss_penalty;
        }
        let bs = self.config.block_size;
        let through = self.write_policy == WritePolicy::WriteThrough;
        assert(set_ok(self.sets@[set_idx as int], self.config.associativity, bs, set_idx as int, self.ob(), self.ib()));
        let hit_index = self.sets[set_idx].find_line(tag);
        if let Some(line_idx) = hit_index {
            self.touch(set_idx, line_idx);
            let result = if offset <= usize::MAX - value.len() && offset + value.len()
                <= self.sets[set_idx].lines[line_idx].data.len() {
                self.write_into_line(set_idx, line_idx, offset, value, !through);
                if through {
                    self.write_memory(address, value);
                }
                self.config.hit_latency
            } else {
                self.config.miss_penalty
            };
            let ghost s2 = *self;
            self.stats.hits = self.stats.hits + 1;
            self.stats.write_hits = self.stats.write_hits + 1;
            self.stats.total_access_time = self.stats.total_access_time + result as u128;
            proof {
                assert(set_ok(s2.sets@[set_idx as int], s2.config.associativity, s2.config.block_size, set_idx as int, s2.ob(), s2.ib()));
                Self::lemma_wf_from(self, &s2, set_idx as int);
            }
            return result;
        }
        self.stats.misses = self.stats.misses + 1;
        let ghost s1 = *self;
        if self.next_level.is_some() && self.allocation_policy == AllocationPolicy::WriteAllocate {
            let mut next = self.next_level.take().unwrap();
            let next_latency = next.write(address, value);
            let ghost below = *next;
            self.next_level = Some(next);
            proof {
                Self::lemma_wf_from(self, &s1, set_idx as int);
                let n = old(self).next_level->0;
                assert(n.write_answer(address, value@, below, next_latency));
                assert(self.next_level == Some(Box::new(below)));
            }
            return self.config.hit_latency + next_latency;
        }
        let ghost mut chosen: int = 0;
        match self.allocation_policy {
            AllocationPolicy::WriteAllocate => {
                let victim_idx = self.choose_line(set_idx);
                proof {
                    chosen = victim_idx as int;
                }
                if self.sets[set_idx].find_invalid_line().is_none() {
                    let ghost s5 = *self;
                    self.stats.evictions = self.stats.evictions + 1;
                    proof {
                        assert(set_ok(s5.sets@[set_idx as int], s5.config.associativity, s5.config.block_size, set_idx as int, s5.ob(), s5.ib()));
                        Self::lemma_wf_from(self, &s5, set_idx as int);
                    }
                }
                let need_writeback = self.sets[set_idx].lines[victim_idx].valid
                    && self.sets[set_idx].lines[victim_idx].dirty;
                let dirty_tag = self.sets[set_idx].lines[victim_idx].tag;
                if need_writeback {
                    self.write_back_line(set_idx, victim_idx, dirty_tag);
                    let ghost s4 = *self;
                    self.stats.writebacks = self.stats.writebacks + 1;
                    proof {
                        assert(set_ok(s4.sets@[set_idx as int], s4.config.associativity, s4.config.block_size, set_idx as int, s4.ob(), s4.ib()));
                        Self::lemma_wf_from(self, &s4, set_idx as int);
                    }
                }
                let ghost m_pre = self.memory;
                proof {
                    assert(m_pre.contents() == old(self).after_write_back(set_idx as int, victim_idx as int));
                }
                self.load_block(block_addr, set_idx, victim_idx, tag);
                proof {
                    let line = self.sets@[set_idx as int].lines@[victim_idx as int];
                    assert(fetched(&m_pre, m_pre.contents(), block_addr as int, bs as nat) =~= fetched(
                        &old(self).memory,
                        m_pre.contents(),
                        block_addr as int,
                        bs as nat,
                    ));
                    assert(line.data@ == old(self).filled(set_idx as int, victim_idx as int, block_addr));
                }
                let ghost loaded = self.sets@[set_idx as int].lines@[victim_idx as int];
                self.touch(set_idx, victim_idx);
                assert(self.sets@[set_idx as int].lines@[victim_idx as int].data == loaded.data);
                if offset <= usize::MAX - value.len() && offset + value.len()
                    <= self.sets[set_idx].lines[victim_idx].data.len() {
                    self.write_into_line(set_idx, victim_idx, offset, value, !through);
                    if through {
                        let ghost m_mid = self.memory;
                        self.write_memory(address, value);
                        proof {
                            lemma_layout_bytes(&old(self).memory, &m_mid, m_pre.contents(), address, value@);
                        }
                    }
                }
                assert(old(self).victim_ok(set_idx as int, victim_idx as int));
            },
            AllocationPolicy::NoWriteAllocate => {
                self.write_memory(address, value);
            },
        }
        let ghost s3 = *self;
        let access_time = self.config.miss_penalty;
        self.stats.total_access_time = self.stats.total_access_time + access_time as u128;
        proof {
            assert(set_ok(s3.sets@[set_idx as int], s3.config.associativity, s3.config.block_size, set_idx as int, s3.ob(), s3.ib()));
            Self::lemma_wf_from(self, &s3, set_idx as int);
            if old(self).allocation_policy == AllocationPolicy::WriteAllocate {
                let l2 = self.sets@[set_idx as int].lines@[chosen];
                assert(l2.valid && l2.tag == tag);
            }
        }
        access_time
    }
}


/// Statistics of a cache hierarchy, summed over its L1 caches.
#[derive(Debug, Clone, Copy, PartialEq, Eq, Structural)]
pub struct CacheHierarchyStats {
    /// Miss penalty of the L1 data cache.
    pub miss_latency: usize,
    /// Hit latency of the L1 data cache.
    pub hit_latency: usize,
    /// Accumulated access latency of both L1 caches.
    pub total_access_time: u128,
    /// Accesses to both L1 caches.
    pub total_accesses: usize,
}

/// L1 data and instruction caches, the data cache optionally backed by an
/// L2 cache.
pub struct CacheHierarchy {
    pub l1_data_cache: Cache,
    pub l1_instr_cache: Cache,
    pub stats: CacheHierarchyStats,
}

impl CacheHierarchy {
    pub open spec fn wf(&self) -> bool {
        self.l1_data_cache.wf() && self.l1_instr_cache.wf()
    }

    /// Caches over copies of `memory`: an L1 data cache (above an L2 cache
    /// when `l2_config` is given) and an L1 instruction cache.
    pub fn new(
        memory: Memory,
        l1d_config: CacheConfig,
        l1i_config: CacheConfig,
        l2_config: Option<CacheConfig>,
    ) -> (r: Self)
        requires
            memory.wf(),
            memory.translation_safe(),
            memory.device_bases().len() == 0,
            CacheConfig::valid_geometry(l1d_config.size, l1d_config.associativity, l1d_config.block_size),
            CacheConfig::valid_geometry(l1i_config.size, l1i_config.associativity, l1i_config.block_size),
            l2_config matches Some(c) ==> CacheConfig::valid_geometry(c.size, c.associativity, c.block_size),
        ensures
            r.wf(),
            r.l1_data_cache.config == l1d_config,
            r.l1_instr_cache.config == l1i_config,
            r.l1_instr_cache.next_level is None,
            l2_config is None ==> r.l1_data_cache.next_level is None,
            l2_config matches Some(c) ==> r.l1_data_cache.next_level matches Some(n) && n.config == c,
            r.l1_data_cache.memory.contents() == memory.contents(),
            r.l1_instr_cache.memory == memory,
            r.stats == (CacheHierarchyStats { miss_latency: 0, hit_latency: 0, total_access_time: 0, total_accesses: 0 }),
    {
        let l2_cache = match l2_config {
            Some(config) => Some(Box::new(Cache::new(config, memory.clone()))),
            None => None,
        };
        let l1_data_cache = Cache::new_with_next_level(l1d_config, memory.clone(), l2_cache);
        let l1_instr_cache = Cache::new(l1i_config, memory);
        Self {
            l1_data_cache,
            l1_instr_cache,
            stats: CacheHierarchyStats { miss_latency: 0, hit_latency: 0, total_access_time: 0, total_accesses: 0 },
        }
    }

    /// Reads a data word through the L1 data cache.
    pub fn read_data(&mut self, address: usize) -> (r: Option<(Vec<u8>, usize)>)
        requires
            old(self).wf(),
            old(self).l1_data_cache.room(),
            old(self).l1_data_cache.fits(address),
            old(self).l1_data_cache.max_latency() <= usize::MAX,
            old(self).l1_data_cache.prefetch_fits(address),
        ensures
            final(self).wf(),
            final(self).l1_instr_cache == old(self).l1_instr_cache,
            final(self).stats == old(self).stats,
            old(self).l1_data_cache.read_answer(address, final(self).l1_data_cache, r),
            r matches Some((d, lat)) ==> d@.len() == 4 && lat <= old(self).l1_data_cache.max_latency(),
    {
        self.l1_data_cache.read(address)
    }

    /// Writes data through the L1 data cache.
    pub fn write_data(&mut self, address: usize, value: &[u8]) -> (r: usize)
        requires
            old(self).wf(),
            old(self).l1_data_cache.room(),
            old(self).l1_data_cache.fits(address),
            address + value@.len() <= usize::MAX,
            old(self).l1_data_cache.max_latency() <= usize::MAX,
        ensures
            final(self).wf(),
            final(self).l1_instr_cache == old(self).l1_instr_cache,
            final(self).stats == old(self).stats,
            old(self).l1_data_cache.write_answer(address, value@, final(self).l1_data_cache, r),
            r <= old(self).l1_data_cache.max_latency(),
    {
        self.l1_data_cache.write(address, value)
    }

    /// Reads an instruction word through the L1 instruction cache.
    pub fn read_instruction(&mut self, address: usize) -> (r: Option<(Vec<u8>, usize)>)
        requires
            old(self).wf(),
            old(self).l1_instr_cache.room(),
            old(self).l1_instr_cache.fits(address),
            old(self).l1_instr_cache.max_latency() <= usize::MAX,
            old(self).l1_instr_cache.prefetch_fits(address),
        ensures
            final(self).wf(),
            final(self).l1_data_cache == old(self).l1_data_cache,
            final(self).stats == old(self).stats,
            old(self).l1_instr_cache.read_answer(address, final(self).l1_instr_cache, r),
            r matches Some((d, lat)) ==> d@.len() == 4 && lat <= old(self).l1_instr_cache.max_latency(),
    {
        self.l1_instr_cache.read(address)
    }

    /// Flushes both L1 caches (see `Cache::flush`).
    pub fn flush(&mut self)
        requires
            old(self).wf(),
        ensures
            final(self).wf(),
            final(self).stats == old(self).stats,
            final(self).l1_data_cache.memory.contents() == old(self).l1_data_cache.flushed_through(
                old(self).l1_data_cache.sets@.len() as int,
                0,
            ),
            final(self).l1_instr_cache.memory.contents() == old(self).l1_instr_cache.flushed_through(
                old(self).l1_instr_cache.sets@.len() as int,
                0,
            ),
            forall|i: int, j: int|
                0 <= i < final(self).l1_data_cache.sets@.len() && 0 <= j
                    < final(self).l1_data_cache.sets@[i].lines@.len() ==> !(
                #[trigger] final(self).l1_data_cache.sets@[i].lines@[j]).valid,
            forall|i: int, j: int|
                0 <= i < final(self).l1_instr_cache.sets@.len() && 0 <= j
                    < final(self).l1_instr_cache.sets@[i].lines@.len() ==> !(
                #[trigger] final(self).l1_instr_cache.sets@[i].lines@[j]).valid,
    {
        self.l1_data_cache.flush();
        self.l1_instr_cache.flush();
    }

    /// Recomputes the hierarchy's statistics from its L1 caches.
    pub fn update_stats(&mut self)
        ensures
            final(self).l1_data_cache == old(self).l1_data_cache,
            final(self).l1_instr_cache == old(self).l1_instr_cache,
            final(self).stats.hit_latency == old(self).l1_data_cache.config.hit_latency,
            final(self).stats.miss_latency == old(self).l1_data_cache.config.miss_penalty,
            ({
                let d = old(self).l1_data_cache.stats;
                let i = old(self).l1_instr_cache.stats;
                &&& d.accesses + i.accesses <= usize::MAX && d.total_access_time + i.total_access_time
                    <= u128::MAX ==> final(self).stats.total_accesses == d.accesses + i.accesses
                    && final(self).stats.total_access_time == d.total_access_time + i.total_access_time
                &&& !(d.accesses + i.accesses <= usize::MAX && d.total_access_time
                    + i.total_access_time <= u128::MAX) ==> final(self).stats.total_accesses
                    == old(self).stats.total_accesses && final(self).stats.total_access_time
                    == old(self).stats.total_access_time
            }),
    {
        let d = self.l1_data_cache.get_statistics();
        let i = self.l1_instr_cache.get_statistics();
        let d_accesses = d.accesses;
        let i_accesses = i.accesses;
        let d_time = d.total_access_time;
        let i_time = i.total_access_time;
        if d_accesses <= usize::MAX - i_accesses && d_time <= u128::MAX - i_time {
            self.stats.total_accesses = d_accesses + i_accesses;
            self.stats.total_access_time = d_time + i_time;
        }
        self.stats.hit_latency = self.l1_data_cache.config.hit_latency;
        self.stats.miss_latency = self.l1_data_cache.config.miss_penalty;
    }
}

} // verus!
