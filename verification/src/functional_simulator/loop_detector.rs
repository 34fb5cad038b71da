//! Recognising counting loops from decrements and backward branches, and
//! a short history of each branch.
use vstd::prelude::*;
use std::collections::HashMap;

verus! {

/// What is known of a loop.
#[derive(Debug, Clone, Copy, PartialEq, Eq, Structural)]
pub struct LoopInfo {
    pub start_pc: u32,
    pub end_pc: u32,
    pub counter_register: u32,
    pub limit_value: u32,
    pub iteration_count: u32,
}

/// How an instruction was optimized.
#[derive(Debug, Clone, Copy, PartialEq, Eq, Structural)]
pub enum OptimizationType {
    Unrolled,
    Eliminated,
    Reordered,
    NoChange,
}

/// An instruction of an optimized loop.
#[derive(Debug, Clone, Copy, PartialEq, Eq, Structural)]
pub struct OptimizedInstruction {
    pub original_pc: u32,
    pub instruction: u32,
    pub optimization_type: OptimizationType,
}

/// Loops found, branch histories, and candidate loop starts keyed by the
/// address of their counter decrement.
pub struct LoopDetector {
    pub loop_stack: Vec<LoopInfo>,
    pub branch_history: HashMap<u32, u32>,
    pub potential_loops: Vec<(u32, LoopInfo)>,
}

/// The first index of key `pc` in `v`, from `i` on.
pub open spec fn key_index(v: Seq<(u32, LoopInfo)>, pc: u32, i: int) -> Option<int>
    decreases v.len() - i,
{
    if i < 0 || i >= v.len() {
        None
    } else if v[i].0 == pc {
        Some(i)
    } else {
        key_index(v, pc, i + 1)
    }
}

/// `v` with `info` stored under `pc`, replacing the entry for `pc` if any.
pub open spec fn with_candidate(v: Seq<(u32, LoopInfo)>, pc: u32, info: LoopInfo) -> Seq<(u32, LoopInfo)> {
    match key_index(v, pc, 0) {
        Some(k) => v.update(k, (pc, info)),
        None => v.push((pc, info)),
    }
}

/// Whether `w` is a counter decrement: `addiu r, r, -1`.
pub open spec fn is_decrement(w: u32) -> bool {
    (w >> 26u32) == 0x09 && ((w >> 21u32) & 0x1F) == ((w >> 16u32) & 0x1F) && (w & 0xFFFF) == 0xFFFF
}

/// Whether `w` is a conditional branch (`beq`, `bne`, `blez`, `bgtz`).
pub open spec fn is_loop_branch(w: u32) -> bool {
    0x04 <= (w >> 26u32) <= 0x07
}

/// The target of the branch `w` at `pc`.
pub open spec fn loop_branch_target(pc: u32, w: u32) -> u32 {
    pc.wrapping_add(4).wrapping_add((((w & 0xFFFF) as i16) as i32 * 4) as u32)
}

/// The loop that a backward branch `w` at `pc` closes over a candidate
/// `info`: it ends at `pc`, and a `beq`/`bne` against `$zero` names the
/// compared register as the counter.
pub open spec fn closed_loop(info: LoopInfo, pc: u32, w: u32) -> LoopInfo {
    let opcode = w >> 26u32;
    let rs = (w >> 21u32) & 0x1F;
    let rt = (w >> 16u32) & 0x1F;
    LoopInfo {
        end_pc: pc,
        counter_register: if (opcode == 0x04 || opcode == 0x05) && rt == 0 {
            rs
        } else {
            info.counter_register
        },
        ..info
    }
}

/// Whether candidate `c` lies between `target` and `pc`.
pub open spec fn spans(c: (u32, LoopInfo), target: u32, pc: u32) -> bool {
    target <= c.0 < pc
}

impl LoopDetector {
    pub fn new() -> (r: Self)
        ensures
            r.loop_stack@.len() == 0,
            r.branch_history@ == Map::<u32, u32>::empty(),
            r.potential_loops@.len() == 0,
    {
        Self { loop_stack: Vec::new(), branch_history: HashMap::new(), potential_loops: Vec::new() }
    }

    /// Stores `info` as the candidate at `pc`.
    fn insert_candidate(&mut self, pc: u32, info: LoopInfo)
        ensures
            final(self).potential_loops@ == with_candidate(old(self).potential_loops@, pc, info),
            final(self).loop_stack == old(self).loop_stack,
            final(self).branch_history == old(self).branch_history,
    {
        let mut k: usize = 0;
        while k < self.potential_loops.len()
            invariant
                k <= self.potential_loops@.len(),
                self.potential_loops == old(self).potential_loops,
                self.loop_stack == old(self).loop_stack,
                self.branch_history == old(self).branch_history,
                key_index(self.potential_loops@, pc, 0) == key_index(self.potential_loops@, pc, k as int),
            decreases self.potential_loops.len() - k,
        {
            if self.potential_loops[k].0 == pc {
                self.potential_loops.set(k, (pc, info));
                return;
            }
            k = k + 1;
        }
        self.potential_loops.push((pc, info));
    }

    /// Looks at the instruction word `instruction` at `pc`. A counter
    /// decrement records a candidate loop starting at `pc` and gives
    /// nothing. A backward conditional branch (target at or before `pc`)
    /// closes some candidate that starts between the target and `pc`, pushes
    /// the loop (see `closed_loop`) and gives it; with no such candidate, or
    /// for any other instruction, nothing changes and nothing is given.
    pub fn detect_loop_pattern(&mut self, pc: u32, instruction: u32) -> (r: Option<LoopInfo>)
        ensures
            final(self).branch_history == old(self).branch_history,
            is_decrement(instruction) ==> r is None && final(self).potential_loops@ == with_candidate(
                old(self).potential_loops@,
                pc,
                LoopInfo {
                    start_pc: pc,
                    end_pc: 0,
                    counter_register: (instruction >> 16u32) & 0x1F,
                    limit_value: 0,
                    iteration_count: 0,
                },
            ) && final(self).loop_stack == old(self).loop_stack,
            !is_decrement(instruction) ==> final(self).potential_loops == old(self).potential_loops,
            !is_decrement(instruction) && !(is_loop_branch(instruction) && loop_branch_target(pc, instruction)
                <= pc) ==> r is None && final(self).loop_stack == old(self).loop_stack,
            !is_decrement(instruction) && is_loop_branch(instruction) && loop_branch_target(pc, instruction)
                <= pc ==> {
                let t = loop_branch_target(pc, instruction);
                let pl = old(self).potential_loops@;
                &&& r is None <==> !exists|k: int| 0 <= k < pl.len() && #[trigger] spans(pl[k], t, pc)
                &&& r is None ==> final(self).loop_stack == old(self).loop_stack
                &&& r matches Some(info) ==> (exists|k: int|
                    0 <= k < pl.len() && #[trigger] spans(pl[k], t, pc) && info == closed_loop(pl[k].1, pc, instruction))
                    && final(self).loop_stack@ == old(self).loop_stack@.push(info)
            },
    {
        let opcode = instruction >> 26u32;
        if opcode == 0x09 {
            let rs = (instruction >> 21u32) & 0x1F;
            let rt = (instruction >> 16u32) & 0x1F;
            let immediate = (instruction & 0xFFFF) as i16;
            if rs == rt && immediate == -1 {
                assert((instruction & 0xFFFF) as i16 == -1 ==> (instruction & 0xFFFF) == 0xFFFF) by (bit_vector);
                let info = LoopInfo { start_pc: pc, end_pc: 0, counter_register: rt, limit_value: 0, iteration_count: 0 };
                self.insert_candidate(pc, info);
                return None;
            }
            assert((instruction & 0xFFFF) == 0xFFFF ==> (instruction & 0xFFFF) as i16 == -1) by (bit_vector);
        }
        if 0x04 <= opcode && opcode <= 0x07 {
            let rs = (instruction >> 21u32) & 0x1F;
            let rt = (instruction >> 16u32) & 0x1F;
            let offset = (instruction & 0xFFFF) as i16;
            let pc_plus_4 = pc.wrapping_add(4);
            let target = pc_plus_4.wrapping_add((offset as i32 * 4) as u32);
            if target <= pc {
                let ghost pl = self.potential_loops@;
                let mut k: usize = 0;
                while k < self.potential_loops.len()
                    invariant
                        k <= self.potential_loops@.len(),
                        pl == self.potential_loops@,
                        self.loop_stack == old(self).loop_stack,
                        self.potential_loops == old(self).potential_loops,
                        self.branch_history == old(self).branch_history,
                        target == loop_branch_target(pc, instruction),
                        target <= pc,
                        opcode == instruction >> 26u32,
                        0x04 <= opcode <= 0x07,
                        rs == (instruction >> 21u32) & 0x1F,
                        rt == (instruction >> 16u32) & 0x1F,
                        forall|q: int| 0 <= q < k ==> !#[trigger] spans(pl[q], target, pc),
                    decreases self.potential_loops.len() - k,
                {
                    let (start_pc, start_info) = self.potential_loops[k];
                    if start_pc >= target && start_pc < pc {
                        let mut info = start_info;
                        info.end_pc = pc;
                        if (opcode == 0x04 || opcode == 0x05) && rt == 0 {
                            info.counter_register = rs;
                        }
                        assert(spans(pl[k as int], target, pc));
                        self.loop_stack.push(info);
                        return Some(info);
                    }
                    k = k + 1;
                }
            }
        }
        None
    }

    /// No optimization is made: gives no instructions.
    pub fn optimize_loop_execution(&self, _loop_info: &LoopInfo) -> (r: Vec<OptimizedInstruction>)
        ensures
            r@.len() == 0,
    {
        Vec::new()
    }

    /// Shifts the outcome of the branch at `pc` into its eight-bit history
    /// (a new branch starts from an empty history).
    pub fn record_branch(&mut self, pc: u32, taken: bool)
        ensures
            final(self).branch_history@ == old(self).branch_history@.insert(
                pc,
                (((if old(self).branch_history@.contains_key(pc) {
                    old(self).branch_history@[pc]
                } else {
                    0u32
                }) << 1u32) | (if taken { 1u32 } else { 0u32 })) & 0xFFu32,
            ),
            final(self).loop_stack == old(self).loop_stack,
            final(self).potential_loops == old(self).potential_loops,
    {
        broadcast use vstd::std_specs::hash::group_hash_axioms;

        let entry: u32 = match self.branch_history.get(&pc) {
            Some(v) => *v,
            None => 0,
        };
        let updated = (entry << 1u32) | (if taken {
            1u32
        } else {
            0u32
        });
        self.branch_history.insert(pc, updated & 0xFFu32);
    }

    /// A loop with a counter register is guessed to run ten times; without
    /// one nothing is guessed.
    pub fn predict_loop_iterations(&self, loop_info: &LoopInfo) -> (r: Option<u32>)
        ensures
            r == if loop_info.counter_register != 0 {
                Some(10u32)
            } else {
                None
            },
    {
        if loop_info.counter_register != 0 {
            Some(10)
        } else {
            None
        }
    }
}

impl Default for LoopDetector {
    fn default() -> (r: Self)
        ensures
            r.loop_stack@.len() == 0,
            r.branch_history@ == Map::<u32, u32>::empty(),
            r.potential_loops@.len() == 0,
    {
        Self::new()
    }
}

} // verus!
