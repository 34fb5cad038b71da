//! Register usage analysis: which registers a program uses and when, an
//! allocation of the shortest-lived ones to `$t0`..`$t7` with the rest
//! spilled to memory, and advice drawn from the usage.
use vstd::prelude::*;
use std::collections::{HashMap, HashSet};
use super::disassembly::{decimal, push_count};

verus! {

/// Register usage: the registers used, their first and last use (in order
/// of first use), and the registers spilled to memory.
pub struct RegisterAllocator {
    pub used_registers: HashSet<u32>,
    pub register_values: HashMap<u32, u32>,
    pub register_lifetimes: Vec<(u32, (u32, u32))>,
    pub spilled_registers: HashMap<u32, u32>,
}

/// The first index of register `reg` in `v`, from `i` on.
pub open spec fn lifetime_index(v: Seq<(u32, (u32, u32))>, reg: u32, i: int) -> Option<int>
    decreases v.len() - i,
{
    if i < 0 || i >= v.len() {
        None
    } else if v[i].0 == reg {
        Some(i)
    } else {
        lifetime_index(v, reg, i + 1)
    }
}

/// `v` after a use of `reg` at `pc`: a known register's last use moves to
/// `pc`, a new one starts and ends at `pc`; `$zero` is not tracked.
pub open spec fn with_use(v: Seq<(u32, (u32, u32))>, reg: u32, pc: u32) -> Seq<(u32, (u32, u32))> {
    if reg == 0 {
        v
    } else {
        match lifetime_index(v, reg, 0) {
            Some(k) => v.update(k, (reg, (v[k].1.0, pc))),
            None => v.push((reg, (pc, pc))),
        }
    }
}

/// `v` after the instruction word `w` at `pc`: an R-type word uses its
/// rs, rt and rd fields, any other its rs and rt fields.
pub open spec fn after_word(v: Seq<(u32, (u32, u32))>, w: u32, pc: u32) -> Seq<(u32, (u32, u32))> {
    let rs = (w >> 21u32) & 0x1F;
    let rt = (w >> 16u32) & 0x1F;
    let rd = (w >> 11u32) & 0x1F;
    if (w >> 26u32) == 0 {
        with_use(with_use(with_use(v, rs, pc), rt, pc), rd, pc)
    } else {
        with_use(with_use(v, rs, pc), rt, pc)
    }
}

/// The lifetimes after the first `n` words of `ws`, the `i`-th at `4 * i`.
pub open spec fn usage(ws: Seq<u32>, n: nat) -> Seq<(u32, (u32, u32))>
    decreases n,
{
    if n == 0 {
        Seq::empty()
    } else {
        after_word(usage(ws, (n - 1) as nat), ws[n - 1], (4 * (n - 1)) as u32)
    }
}

/// The registers of `v`.
pub open spec fn registers_of(v: Seq<(u32, (u32, u32))>) -> Set<u32> {
    Set::new(|reg: u32| exists|k: int| 0 <= k < v.len() && #[trigger] v[k].0 == reg)
}

/// Lifetimes that name each register once and start no later than they
/// end, all at or before `pc`.
pub open spec fn lifetimes_ok(v: Seq<(u32, (u32, u32))>, pc: int) -> bool {
    &&& forall|i: int, j: int| 0 <= i < j < v.len() ==> #[trigger] v[i].0 != #[trigger] v[j].0
    &&& forall|i: int| 0 <= i < v.len() ==> (#[trigger] v[i]).1.0 <= v[i].1.1 <= pc
}

/// Whether entry `j` of `v` comes before entry `k` when sorted by the
/// length of the lifetime, ties kept in order.
pub open spec fn sorts_before(v: Seq<(u32, (u32, u32))>, j: int, k: int) -> bool {
    let sj = v[j].1.1 - v[j].1.0;
    let sk = v[k].1.1 - v[k].1.0;
    sj < sk || (sj == sk && j < k)
}

/// The number of entries among the first `n` of `v` that sort before `k`.
pub open spec fn count_before(v: Seq<(u32, (u32, u32))>, k: int, n: int) -> nat
    decreases n,
{
    if n <= 0 {
        0
    } else {
        count_before(v, k, n - 1) + if sorts_before(v, n - 1, k) {
            1nat
        } else {
            0
        }
    }
}

/// The place of entry `k` of `v` in the order of lifetime length.
pub open spec fn rank(v: Seq<(u32, (u32, u32))>, k: int) -> nat {
    count_before(v, k, v.len() as int)
}

proof fn lemma_count_before_mono(v: Seq<(u32, (u32, u32))>, j: int, k: int, n: int)
    requires
        0 <= j < v.len(),
        0 <= k < v.len(),
        sorts_before(v, j, k),
    ensures
        count_before(v, j, n) <= count_before(v, k, n),
        n > j ==> count_before(v, j, n) < count_before(v, k, n),
    decreases n,
{
    if n > 0 {
        lemma_count_before_mono(v, j, k, n - 1);
    }
}

/// Different entries have different ranks, so no two registers share a
/// temporary register or a spill slot.
pub proof fn law_ranks_distinct(v: Seq<(u32, (u32, u32))>, k1: int, k2: int)
    requires
        0 <= k1 < v.len(),
        0 <= k2 < v.len(),
        k1 != k2,
    ensures
        rank(v, k1) != rank(v, k2),
{
    if sorts_before(v, k1, k2) {
        lemma_count_before_mono(v, k1, k2, v.len() as int);
    } else {
        assert(sorts_before(v, k2, k1));
        lemma_count_before_mono(v, k2, k1, v.len() as int);
    }
}

/// The allocation of the first `n` entries: the eight first in rank go to
/// `$t0`..`$t7`.
pub open spec fn allocation_of(v: Seq<(u32, (u32, u32))>, n: int) -> Map<u32, u32>
    decreases n,
{
    if n <= 0 {
        Map::empty()
    } else if rank(v, n - 1) < 8 {
        allocation_of(v, n - 1).insert(v[n - 1].0, (8 + rank(v, n - 1)) as u32)
    } else {
        allocation_of(v, n - 1)
    }
}

/// `spilled` after the first `n` entries: the ones past the eighth in rank
/// are spilled to consecutive words from 0x7000.
pub open spec fn spills_of(v: Seq<(u32, (u32, u32))>, n: int, spilled: Map<u32, u32>) -> Map<u32, u32>
    decreases n,
{
    if n <= 0 {
        spilled
    } else if rank(v, n - 1) >= 8 {
        spills_of(v, n - 1, spilled).insert(v[n - 1].0, (0x7000 + 4 * (rank(v, n - 1) - 8)) as u32)
    } else {
        spills_of(v, n - 1, spilled)
    }
}

/// Whether two lifetimes overlap.
pub open spec fn overlap(a: (u32, u32), b: (u32, u32)) -> bool {
    a.0 <= b.1 && b.0 <= a.1
}

/// The number of entries `j` in `i + 1..n` of `v` whose lifetime overlaps
/// entry `i`'s.
pub open spec fn overlaps_of(v: Seq<(u32, (u32, u32))>, i: int, n: int) -> nat
    decreases n,
{
    if n <= i + 1 || n <= 0 {
        0
    } else {
        overlaps_of(v, i, n - 1) + if overlap(v[i].1, v[n - 1].1) {
            1nat
        } else {
            0
        }
    }
}

/// The number of overlapping pairs among the first `n` entries of `v`.
pub open spec fn overlapping_pairs(v: Seq<(u32, (u32, u32))>, n: int) -> nat
    decreases n,
{
    if n <= 0 {
        0
    } else {
        overlapping_pairs(v, n - 1) + overlaps_of(v, n - 1, v.len() as int)
    }
}

/// The message about `count` spilled registers.
pub open spec fn spill_note(count: usize) -> Seq<char> {
    "Register spilling detected for "@ + decimal(count as nat) + " registers. Consider code restructuring."@
}

/// The spilling message with `count`.
fn spilling_note(count: usize) -> (r: String)
    ensures
        r@ == spill_note(count),
{
    let mut s = String::new();
    s.append("Register spilling detected for ");
    push_count(&mut s, count);
    s.append(" registers. Consider code restructuring.");
    s
}

/// The advice for a usage: high register pressure (twenty or more of the
/// 24 allocatable registers used, over 80%), spilled registers, and more
/// than ten overlapping lifetimes.
pub open spec fn advice(used: nat, spilled: nat, overlapping: nat) -> Seq<Seq<char>> {
    let a: Seq<Seq<char>> = if used >= 20 {
        seq!["High register pressure detected. Consider reducing variable scope."@]
    } else {
        Seq::empty()
    };
    let b: Seq<Seq<char>> = if spilled > 0 {
        a.push(spill_note(spilled as usize))
    } else {
        a
    };
    if overlapping > 10 {
        b.push("Many overlapping register lifetimes detected. Consider reordering operations."@)
    } else {
        b
    }
}

impl RegisterAllocator {
    pub fn new() -> (r: Self)
        ensures
            r.used_registers@ == Set::<u32>::empty(),
            r.register_values@ == Map::<u32, u32>::empty(),
            r.register_lifetimes@.len() == 0,
            r.spilled_registers@ == Map::<u32, u32>::empty(),
    {
        Self {
            used_registers: HashSet::new(),
            register_values: HashMap::new(),
            register_lifetimes: Vec::new(),
            spilled_registers: HashMap::new(),
        }
    }

    /// Records a use of `reg` at `pc` (see `with_use`).
    fn record_register_usage(&mut self, reg: u32, pc: u32)
        requires
            old(self).used_registers@ == registers_of(old(self).register_lifetimes@),
            lifetimes_ok(old(self).register_lifetimes@, pc as int),
        ensures
            final(self).register_lifetimes@ == with_use(old(self).register_lifetimes@, reg, pc),
            final(self).used_registers@ == registers_of(final(self).register_lifetimes@),
            lifetimes_ok(final(self).register_lifetimes@, pc as int),
            final(self).spilled_registers == old(self).spilled_registers,
            final(self).register_values == old(self).register_values,
    {
        broadcast use vstd::std_specs::hash::group_hash_axioms;

        if reg == 0 {
            return;
        }
        let ghost v = self.register_lifetimes@;
        self.used_registers.insert(reg);
        let mut k: usize = 0;
        while k < self.register_lifetimes.len()
            invariant
                k <= self.register_lifetimes@.len(),
                reg != 0,
                self.register_lifetimes@ == v,
                v == old(self).register_lifetimes@,
                lifetimes_ok(v, pc as int),
                self.used_registers@ == registers_of(v).insert(reg),
                self.spilled_registers == old(self).spilled_registers,
                self.register_values == old(self).register_values,
                lifetime_index(v, reg, 0) == lifetime_index(v, reg, k as int),
            decreases self.register_lifetimes.len() - k,
        {
            if self.register_lifetimes[k].0 == reg {
                let first = self.register_lifetimes[k].1.0;
                self.register_lifetimes.set(k, (reg, (first, pc)));
                proof {
                    let nv = self.register_lifetimes@;
                    assert(registers_of(v).contains(reg));
                    assert(registers_of(v).insert(reg) =~= registers_of(v));
                    assert(registers_of(nv) =~= registers_of(v)) by {
                        assert forall|r: u32| registers_of(v).contains(r) implies registers_of(nv).contains(r) by {
                            let q = choose|q: int| 0 <= q < v.len() && #[trigger] v[q].0 == r;
                            assert(nv[q].0 == r);
                        }
                        assert forall|r: u32| registers_of(nv).contains(r) implies registers_of(v).contains(r) by {
                            let q = choose|q: int| 0 <= q < nv.len() && #[trigger] nv[q].0 == r;
                            assert(v[q].0 == r);
                        }
                    }
                    assert forall|i: int, j: int| 0 <= i < j < nv.len() implies #[trigger] nv[i].0 != #[trigger] nv[j].0 by {
                        assert(nv[i].0 == v[i].0 && nv[j].0 == v[j].0);
                    }
                    assert forall|i: int| 0 <= i < nv.len() implies (#[trigger] nv[i]).1.0 <= nv[i].1.1 <= pc by {
                        assert(v[i].1.0 <= v[i].1.1 <= pc);
                    }
                }
                return;
            }
            k = k + 1;
        }
        self.register_lifetimes.push((reg, (pc, pc)));
        proof {
            let nv = self.register_lifetimes@;
            assert(nv[v.len() as int].0 == reg);
            assert(registers_of(nv) =~= registers_of(v).insert(reg)) by {
                assert forall|r: u32| registers_of(v).insert(reg).contains(r) implies registers_of(nv).contains(r) by {
                    if r != reg {
                        let q = choose|q: int| 0 <= q < v.len() && #[trigger] v[q].0 == r;
                        assert(nv[q].0 == r);
                    }
                }
                assert forall|r: u32| registers_of(nv).contains(r) implies registers_of(v).insert(reg).contains(r) by {
                    let q = choose|q: int| 0 <= q < nv.len() && #[trigger] nv[q].0 == r;
                    if q < v.len() {
                        assert(v[q].0 == r);
                    }
                }
            }
            assert forall|i: int, j: int| 0 <= i < j < nv.len() implies #[trigger] nv[i].0 != #[trigger] nv[j].0 by {
                if j == v.len() {
                    if nv[i].0 == reg {
                        assert(v[i].0 == reg);
                        lemma_index_found(v, reg, 0, i);
                    }
                } else {
                    assert(nv[i].0 == v[i].0 && nv[j].0 == v[j].0);
                }
            }
            assert forall|i: int| 0 <= i < nv.len() implies (#[trigger] nv[i]).1.0 <= nv[i].1.1 <= pc by {
                if i < v.len() {
                    assert(v[i].1.0 <= v[i].1.1 <= pc);
                }
            }
        }
    }

    /// Records the register usage of `instructions`, the `i`-th at address
    /// `4 * i`, from scratch (see `usage`).
    pub fn analyze_register_usage(&mut self, instructions: &[u32])
        requires
            instructions@.len() <= 0x4000_0000,
        ensures
            final(self).register_lifetimes@ == usage(instructions@, instructions@.len()),
            final(self).used_registers@ == registers_of(final(self).register_lifetimes@),
            lifetimes_ok(final(self).register_lifetimes@, 4 * instructions@.len() as int),
            final(self).spilled_registers == old(self).spilled_registers,
            final(self).register_values == old(self).register_values,
    {
        self.used_registers.clear();
        self.register_lifetimes = Vec::new();
        assert(registers_of(self.register_lifetimes@) =~= Set::<u32>::empty());
        let mut i: usize = 0;
        while i < instructions.len()
            invariant
                i <= instructions@.len() <= 0x4000_0000,
                self.register_lifetimes@ == usage(instructions@, i as nat),
                self.used_registers@ == registers_of(self.register_lifetimes@),
                lifetimes_ok(self.register_lifetimes@, 4 * i),
                self.spilled_registers == old(self).spilled_registers,
                self.register_values == old(self).register_values,
            decreases instructions.len() - i,
        {
            let instruction = instructions[i];
            let pc = (i as u32) * 4;
            let rs = (instruction >> 21u32) & 0x1F;
            let rt = (instruction >> 16u32) & 0x1F;
            self.record_register_usage(rs, pc);
            self.record_register_usage(rt, pc);
            if (instruction >> 26u32) == 0 {
                let rd = (instruction >> 11u32) & 0x1F;
                self.record_register_usage(rd, pc);
            }
            i = i + 1;
            proof {
                lemma_lifetimes_ok_grow(self.register_lifetimes@, 4 * (i - 1), 4 * i);
            }
        }
    }

    /// The rank of entry `k` (see `rank`).
    fn rank_of(&self, k: usize) -> (r: usize)
        requires
            k < self.register_lifetimes@.len(),
            lifetimes_ok(self.register_lifetimes@, u32::MAX as int),
        ensures
            r == rank(self.register_lifetimes@, k as int),
            r <= self.register_lifetimes@.len(),
    {
        let ghost v = self.register_lifetimes@;
        let span_k = self.register_lifetimes[k].1.1 - self.register_lifetimes[k].1.0;
        let mut n: usize = 0;
        let mut j: usize = 0;
        while j < self.register_lifetimes.len()
            invariant
                j <= v.len(),
                v == self.register_lifetimes@,
                k < v.len(),
                lifetimes_ok(v, u32::MAX as int),
                span_k == v[k as int].1.1 - v[k as int].1.0,
                n == count_before(v, k as int, j as int),
                n <= j,
            decreases v.len() - j,
        {
            assert(v[j as int].1.0 <= v[j as int].1.1);
            let span_j = self.register_lifetimes[j].1.1 - self.register_lifetimes[j].1.0;
            if span_j < span_k || (span_j == span_k && j < k) {
                n = n + 1;
            }
            j = j + 1;
        }
        n
    }

    /// Allocates `$t0`..`$t7` to the eight registers with the shortest
    /// lifetimes (ties in order of first use) and spills the others to
    /// consecutive words from 0x7000 (see `allocation_of`, `spills_of`).
    pub fn allocate_registers(&mut self) -> (r: HashMap<u32, u32>)
        requires
            lifetimes_ok(old(self).register_lifetimes@, u32::MAX as int),
            old(self).register_lifetimes@.len() <= 0x1000_0000,
        ensures
            r@ == allocation_of(old(self).register_lifetimes@, old(self).register_lifetimes@.len() as int),
            final(self).spilled_registers@ == spills_of(
                old(self).register_lifetimes@,
                old(self).register_lifetimes@.len() as int,
                old(self).spilled_registers@,
            ),
            final(self).register_lifetimes == old(self).register_lifetimes,
            final(self).used_registers == old(self).used_registers,
    {
        broadcast use vstd::std_specs::hash::group_hash_axioms;

        let ghost v = self.register_lifetimes@;
        let mut allocation: HashMap<u32, u32> = HashMap::new();
        let mut k: usize = 0;
        while k < self.register_lifetimes.len()
            invariant
                k <= v.len() <= 0x1000_0000,
                v == self.register_lifetimes@,
                lifetimes_ok(v, u32::MAX as int),
                allocation@ == allocation_of(v, k as int),
                self.spilled_registers@ == spills_of(v, k as int, old(self).spilled_registers@),
                self.register_lifetimes == old(self).register_lifetimes,
                self.used_registers == old(self).used_registers,
            decreases v.len() - k,
        {
            let i = self.rank_of(k);
            let reg = self.register_lifetimes[k].0;
            if i < 8 {
                allocation.insert(reg, 8 + i as u32);
            } else {
                let memory_addr = 0x7000 + (i as u32 - 8) * 4;
                self.spilled_registers.insert(reg, memory_addr);
            }
            k = k + 1;
        }
        allocation
    }

    /// Advice on the usage (see `advice`).
    pub fn suggest_optimizations(&self) -> (r: Vec<String>)
        requires
            self.register_lifetimes@.len() <= 0x1000_0000,
        ensures
            r@.map_values(|s: String| s@) == advice(
                self.used_registers@.len(),
                self.spilled_registers@.len(),
                overlapping_pairs(self.register_lifetimes@, self.register_lifetimes@.len() as int),
            ),
    {
        broadcast use vstd::std_specs::hash::group_hash_axioms;
        broadcast use vstd::string::group_string_axioms;

        let ghost v = self.register_lifetimes@;
        let mut suggestions: Vec<String> = Vec::new();
        if self.used_registers.len() >= 20 {
            suggestions.push("High register pressure detected. Consider reducing variable scope.".to_string());
        }
        let spilled = self.spilled_registers.len();
        if spilled > 0 {
            suggestions.push(spilling_note(spilled));
        }
        let n = self.register_lifetimes.len();
        let mut overlapping: u64 = 0;
        let mut i: usize = 0;
        while i < n
            invariant
                i <= n == v.len() <= 0x1000_0000,
                v == self.register_lifetimes@,
                overlapping == overlapping_pairs(v, i as int),
                overlapping <= i * n,
            decreases n - i,
        {
            assert(i * n <= 0x1000_0000 * 0x1000_0000) by (nonlinear_arith)
                requires
                    i < n <= 0x1000_0000,
            ;
            let mut j: usize = i + 1;
            let ghost before = overlapping;
            while j < n
                invariant
                    i < n == v.len() <= 0x1000_0000,
                    i + 1 <= j <= n,
                    v == self.register_lifetimes@,
                    overlapping == before + overlaps_of(v, i as int, j as int),
                    before <= i * n,
                    i * n <= 0x1000_0000 * 0x1000_0000,
                    overlapping <= before + j,
                decreases n - j,
            {
                let (s1, e1) = self.register_lifetimes[i].1;
                let (s2, e2) = self.register_lifetimes[j].1;
                if s1 <= e2 && s2 <= e1 {
                    overlapping = overlapping + 1;
                }
                j = j + 1;
            }
            assert((i + 1) * n == i * n + n) by (nonlinear_arith);
            i = i + 1;
        }
        if overlapping > 10 {
            suggestions.push(
                "Many overlapping register lifetimes detected. Consider reordering operations.".to_string(),
            );
        }
        proof {
            let a: Seq<Seq<char>> = if self.used_registers@.len() >= 20 {
                seq!["High register pressure detected. Consider reducing variable scope."@]
            } else {
                Seq::empty()
            };
            assert(suggestions@.map_values(|s: String| s@) =~= advice(
                self.used_registers@.len(),
                self.spilled_registers@.len(),
                overlapping_pairs(v, v.len() as int),
            ));
        }
        suggestions
    }
}

/// A register found from `i` is at its first index.
proof fn lemma_index_found(v: Seq<(u32, (u32, u32))>, reg: u32, i: int, k: int)
    requires
        0 <= i <= k < v.len(),
        v[k].0 == reg,
    ensures
        lifetime_index(v, reg, i) is Some,
    decreases k - i,
{
    if v[i].0 != reg {
        lemma_index_found(v, reg, i + 1, k);
    }
}

proof fn lemma_lifetimes_ok_grow(v: Seq<(u32, (u32, u32))>, a: int, b: int)
    requires
        lifetimes_ok(v, a),
        a <= b,
    ensures
        lifetimes_ok(v, b),
{
}

impl Default for RegisterAllocator {
    fn default() -> (r: Self)
        ensures
            r.used_registers@ == Set::<u32>::empty(),
            r.register_values@ == Map::<u32, u32>::empty(),
            r.register_lifetimes@.len() == 0,
            r.spilled_registers@ == Map::<u32, u32>::empty(),
    {
        Self::new()
    }
}

} // verus!
