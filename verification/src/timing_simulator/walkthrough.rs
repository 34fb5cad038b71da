//! The step-by-step walk through a program that the command line offers on
//! the timing simulator: each cycle fetches the word at the program
//! counter, moves the pipeline diagram on, and executes the instruction
//! directly on registers and memory (additions, word loads and stores,
//! multiplication into LO, `mflo`, `beq`, `bne`, `j` and `jr`; other
//! instructions only advance the program counter).
use vstd::prelude::*;
use super::pipeline::{Pipeline, PipelineStage, PipelineStageStatus};
use super::simulator::{ExecutionMode, Simulator, timing_memory};
use crate::functional_simulator::instructions::{Instruction, effective_address, signed_product};
use crate::functional_simulator::memory::Memory;
use crate::functional_simulator::registers::RegistersModel;
use crate::functional_simulator::simulator::{decode_instruction, decoded};

verus! {

/// What one cycle of the walk did.
#[derive(Debug, Clone, Copy, PartialEq, Eq, Structural)]
pub enum WalkStep {
    /// The word at the program counter cannot be read: the walk ends.
    FetchFailed,
    /// A zero word after the fifth cycle: the walk ends.
    ReachedNop,
    /// The word encodes no instruction: the walk ends.
    Invalid(u32),
    /// The load or store of `instruction` at `address` failed: the walk
    /// ends.
    MemoryFault { word: u32, instruction: Instruction, address: u32 },
    /// `instruction` ran. `value` is the sum, product, word loaded or
    /// stored, LO, or the new program counter of a taken branch or jump
    /// (`jumped`), and 0 otherwise.
    Executed { word: u32, instruction: Instruction, value: u32, jumped: bool },
}

/// Stage `k` of the diagram after `i` at `pc` enters it: the first stage
/// takes `i`; a later stage whose predecessor holds an instruction takes
/// that instruction and its address over; both become busy.
pub open spec fn shifted_at(old: Seq<PipelineStage>, k: int, i: Instruction, pc: u32) -> PipelineStage {
    if k == 0 {
        PipelineStage { instruction: Some(i), pc: pc, status: PipelineStageStatus::Busy, ..old[0] }
    } else if old[k - 1].instruction is Some {
        PipelineStage {
            instruction: old[k - 1].instruction,
            pc: old[k - 1].pc,
            status: PipelineStageStatus::Busy,
            ..old[k]
        }
    } else {
        old[k]
    }
}

/// The diagram after `i` at `pc` enters it.
pub open spec fn shifted(old: Seq<PipelineStage>, i: Instruction, pc: u32) -> Seq<PipelineStage> {
    Seq::new(old.len(), |k: int| shifted_at(old, k, i, pc))
}

/// Whether `step` reports that the instruction ran with `value` and
/// `jumped`.
pub open spec fn ran(step: WalkStep, value: u32, jumped: bool) -> bool {
    step matches WalkStep::Executed { value: v, jumped: j, .. } && v == value && j == jumped
}

/// Whether `step` reports a failed access at `address`.
pub open spec fn faulted(step: WalkStep, address: u32) -> bool {
    step matches WalkStep::MemoryFault { address: a, .. } && a == address
}

/// What executing `i`, fetched at `pc0`, does to registers `r0` and memory
/// `m0`, giving `r1`, `m1`, the program counter `pc1` and `step`.
pub open spec fn walked(
    i: Instruction,
    r0: RegistersModel,
    m0: &Memory,
    pc0: u32,
    r1: RegistersModel,
    m1: &Memory,
    pc1: u32,
    step: WalkStep,
) -> bool {
    let next = (pc0 + 4) as u32;
    match i {
        Instruction::Add { rd, rs, rt } => {
            let v = r0.reg(rs).wrapping_add(r0.reg(rt));
            r1 == r0.written(rd, v) && *m1 == *m0 && pc1 == next && ran(step, v, false)
        },
        Instruction::Lw { rt, base, offset } => {
            let a = effective_address(r0.reg(base), offset);
            if m0.readable(a as usize, 4) {
                let v = m0.word(m0.phys(a as usize) as int);
                r1 == r0.written(rt, v) && *m1 == *m0 && pc1 == next && ran(step, v, false)
            } else {
                r1 == r0 && *m1 == *m0 && pc1 == pc0 && faulted(step, a)
            }
        },
        Instruction::Sw { rt, base, offset } => {
            let a = effective_address(r0.reg(base), offset);
            let v = r0.reg(rt);
            &&& r1 == r0
            &&& m1.same_layout(m0)
            &&& if m0.writable(a as usize, 4) {
                m1.contents() == m0.data_with_word(m0.phys(a as usize) as int, v) && pc1 == next
                    && ran(step, v, false)
            } else {
                m1.contents() == m0.contents() && pc1 == pc0 && faulted(step, a)
            }
        },
        Instruction::Mult { .. } => {
            let (h, v) = i.hilo_effect(r0).unwrap();
            r1 == (RegistersModel { hi: h, lo: v, ..r0 }) && *m1 == *m0 && pc1 == next && ran(step, v, false)
        },
        Instruction::Mflo { rd } => {
            r1 == r0.written(rd, r0.lo) && *m1 == *m0 && pc1 == next && ran(step, r0.lo, false)
        },
        Instruction::Beq { rs, rt, offset } => {
            let t = pc0.wrapping_add((offset as u32) << 2u32);
            r1 == r0 && *m1 == *m0 && if r0.reg(rs) == r0.reg(rt) {
                pc1 == t && ran(step, t, true)
            } else {
                pc1 == next && ran(step, 0, false)
            }
        },
        Instruction::Bne { rs, rt, offset } => {
            let t = pc0.wrapping_add((offset as u32) << 2u32);
            r1 == r0 && *m1 == *m0 && if r0.reg(rs) != r0.reg(rt) {
                pc1 == t && ran(step, t, true)
            } else {
                pc1 == next && ran(step, 0, false)
            }
        },
        Instruction::J { target } => {
            let t = (pc0 & 0xF000_0000) | (target << 2u32);
            r1 == r0 && *m1 == *m0 && pc1 == t && ran(step, t, true)
        },
        Instruction::Jr { rs } => {
            r1 == r0 && *m1 == *m0 && pc1 == r0.reg(rs) && ran(step, r0.reg(rs), true)
        },
        Instruction::InvalidInstruction => {
            r1 == r0 && *m1 == *m0 && pc1 == pc0 && step is Invalid
        },
        _ => r1 == r0 && *m1 == *m0 && pc1 == next && ran(step, 0, false),
    }
}

/// The word `step` reports, if any.
pub open spec fn reported_word(step: WalkStep) -> Option<u32> {
    match step {
        WalkStep::Invalid(w) => Some(w),
        WalkStep::MemoryFault { word, .. } => Some(word),
        WalkStep::Executed { word, .. } => Some(word),
        _ => None,
    }
}

/// Moves the pipeline diagram on as `shifted` says.
fn shift_stages(pipeline: &mut Pipeline, instruction: Instruction, pc: u32)
    requires
        old(pipeline).stages@.len() > 0,
    ensures
        final(pipeline).stages@ == shifted(old(pipeline).stages@, instruction, pc),
        *final(pipeline) == (Pipeline { stages: final(pipeline).stages, ..*old(pipeline) }),
{
    let ghost s0 = pipeline.stages@;
    let n = pipeline.stages.len();
    let mut j: usize = n - 1;
    while j > 0
        invariant
            0 <= j < n,
            n == s0.len(),
            pipeline.stages@.len() == n,
            forall|k: int| 0 <= k <= j ==> #[trigger] pipeline.stages@[k] == s0[k],
            forall|k: int| j < k < n ==> #[trigger] pipeline.stages@[k] == shifted_at(s0, k, instruction, pc),
            *pipeline == (Pipeline { stages: pipeline.stages, ..*old(pipeline) }),
        decreases j,
    {
        let prev = pipeline.stages[j - 1];
        if prev.instruction.is_some() {
            let mut stage = pipeline.stages[j];
            stage.instruction = prev.instruction;
            stage.pc = prev.pc;
            stage.status = PipelineStageStatus::Busy;
            pipeline.stages.set(j, stage);
        }
        j = j - 1;
    }
    let mut first = pipeline.stages[0];
    first.instruction = Some(instruction);
    first.pc = pc;
    first.status = PipelineStageStatus::Busy;
    pipeline.stages.set(0, first);
    assert(pipeline.stages@ =~= shifted(s0, instruction, pc));
}

impl Simulator {
    /// One cycle of the walk (`cycle` counts from 1): fetch the word at the
    /// program counter; stop when it cannot be read, or when it is zero
    /// after the fifth cycle; otherwise move the pipeline diagram on (see
    /// `shifted`) and execute the instruction as `walked` says.
    pub fn walk_cycle(&mut self, cycle: usize) -> (r: WalkStep)
        requires
            timing_memory(&old(self).memory),
            old(self).memory.device_bases().len() == 0,
            old(self).pc + 4 <= u32::MAX,
            u32::MAX < usize::MAX,
            old(self).execution_mode matches ExecutionMode::InOrder(p) ==> p.stages@.len() > 0,
        ensures
            timing_memory(&final(self).memory),
            final(self).memory.same_layout(&old(self).memory),
            final(self).visualization == old(self).visualization,
            final(self).max_steps == old(self).max_steps,
            ({
                let m0 = &old(self).memory;
                let pc0 = old(self).pc;
                let w = m0.word(m0.phys(pc0 as usize) as int);
                if !m0.readable(pc0 as usize, 4) {
                    r == WalkStep::FetchFailed && *final(self) == *old(self)
                } else if w == 0 && cycle > 5 {
                    r == WalkStep::ReachedNop && *final(self) == *old(self)
                } else {
                    &&& reported_word(r) == Some(w)
                    &&& walked(
                        decoded(w),
                        old(self).registers@,
                        m0,
                        pc0,
                        final(self).registers@,
                        &final(self).memory,
                        final(self).pc,
                        r,
                    )
                    &&& match old(self).execution_mode {
                        ExecutionMode::InOrder(p0) => final(self).execution_mode matches ExecutionMode::InOrder(p1)
                            && p1.stages@ == shifted(p0.stages@, decoded(w), pc0)
                            && p1 == (Pipeline { stages: p1.stages, ..p0 }),
                        ExecutionMode::OutOfOrder(_) => final(self).execution_mode == old(self).execution_mode,
                    }
                }
            }),
    {
        let pc = self.pc;
        let word = match self.memory.read_word(pc as usize) {
            Some(w) => w,
            None => {
                return WalkStep::FetchFailed;
            },
        };
        if word == 0 && cycle > 5 {
            return WalkStep::ReachedNop;
        }
        let instruction = decode_instruction(word);
        match &mut self.execution_mode {
            ExecutionMode::InOrder(pipeline) => shift_stages(pipeline, instruction, pc),
            ExecutionMode::OutOfOrder(_) => {},
        }
        let next = pc + 4;
        match instruction {
            Instruction::Add { rd, rs, rt } => {
                let value = self.registers.read(rs).wrapping_add(self.registers.read(rt));
                self.registers.write(rd, value);
                self.pc = next;
                WalkStep::Executed { word, instruction, value, jumped: false }
            },
            Instruction::Lw { rt, base, offset } => {
                let address = self.registers.read(base).wrapping_add(offset as u32);
                match self.memory.read_word(address as usize) {
                    Some(value) => {
                        self.registers.write(rt, value);
                        self.pc = next;
                        WalkStep::Executed { word, instruction, value, jumped: false }
                    },
                    None => WalkStep::MemoryFault { word, instruction, address },
                }
            },
            Instruction::Sw { rt, base, offset } => {
                let address = self.registers.read(base).wrapping_add(offset as u32);
                let value = self.registers.read(rt);
                if self.memory.write_word(address as usize, value) {
                    self.pc = next;
                    WalkStep::Executed { word, instruction, value, jumped: false }
                } else {
                    WalkStep::MemoryFault { word, instruction, address }
                }
            },
            Instruction::Mult { rs, rt } => {
                let (hi, value) = signed_product(self.registers.read(rs), self.registers.read(rt));
                self.registers.set_hi(hi);
                self.registers.set_lo(value);
                self.pc = next;
                WalkStep::Executed { word, instruction, value, jumped: false }
            },
            Instruction::Mflo { rd } => {
                let value = self.registers.get_lo();
                self.registers.write(rd, value);
                self.pc = next;
                WalkStep::Executed { word, instruction, value, jumped: false }
            },
            Instruction::Beq { rs, rt, offset } => {
                if self.registers.read(rs) == self.registers.read(rt) {
                    let target = pc.wrapping_add((offset as u32) << 2u32);
                    self.pc = target;
                    WalkStep::Executed { word, instruction, value: target, jumped: true }
                } else {
                    self.pc = next;
                    WalkStep::Executed { word, instruction, value: 0, jumped: false }
                }
            },
            Instruction::Bne { rs, rt, offset } => {
                if self.registers.read(rs) != self.registers.read(rt) {
                    let target = pc.wrapping_add((offset as u32) << 2u32);
                    self.pc = target;
                    WalkStep::Executed { word, instruction, value: target, jumped: true }
                } else {
                    self.pc = next;
                    WalkStep::Executed { word, instruction, value: 0, jumped: false }
                }
            },
            Instruction::J { target } => {
                let new_pc = (pc & 0xF000_0000) | (target << 2u32);
                self.pc = new_pc;
                WalkStep::Executed { word, instruction, value: new_pc, jumped: true }
            },
            Instruction::Jr { rs } => {
                let new_pc = self.registers.read(rs);
                self.pc = new_pc;
                WalkStep::Executed { word, instruction, value: new_pc, jumped: true }
            },
            Instruction::InvalidInstruction => WalkStep::Invalid(word),
            _ => {
                self.pc = next;
                WalkStep::Executed { word, instruction, value: 0, jumped: false }
            },
        }
    }
}

} // verus!
