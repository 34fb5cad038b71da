//! The in-order pipeline: stages that hold an instruction for a number of
//! cycles, hazard detection and resolution (stalls, forwarding, flushes on
//! predicted-taken branches), and the pipeline's statistics.
use vstd::prelude::*;
use super::branch_predictor::BranchPredictor;
use super::components::CacheHierarchy;
use super::config::{CacheConfig, PipelineConfig};
use crate::functional_simulator::instructions::Instruction;
use crate::functional_simulator::memory::Memory;
use crate::functional_simulator::registers::Registers;

verus! {

#[derive(Debug, Clone, Copy, PartialEq, Eq, Structural)]
pub enum PipelineStageType {
    Fetch,
    Decode,
    Execute,
    Memory,
    Writeback,
}

#[derive(Debug, Clone, Copy, PartialEq, Eq, Structural)]
pub enum PipelineStageStatus {
    Empty,
    Busy,
    Stalled,
    Flushed,
}

/// Forwarding paths.
#[derive(Debug, Clone, Copy, PartialEq, Eq, Structural)]
pub enum ForwardingPath {
    NoPath,
    ExToEx,
    MemToEx,
    MemToMem,
    WbToEx,
    WbToMem,
}

/// Hazard kinds.
#[derive(Debug, Clone, Copy, PartialEq, Eq, Structural)]
pub enum HazardType {
    NoHazard,
    /// Read after write.
    RAW,
    /// Write after read.
    WAR,
    /// Write after write.
    WAW,
    Control,
    /// Two stages contend for the same unit.
    StructuralHazard,
}

/// One pipeline stage.
#[derive(Clone, Copy)]
pub struct PipelineStage {
    pub stage_type: PipelineStageType,
    pub latency: usize,
    pub cycles_remaining: usize,
    pub instruction: Option<Instruction>,
    pub pc: u32,
    pub status: PipelineStageStatus,
    pub data: Option<u32>,
    pub target_register: Option<u32>,
    pub memory_address: Option<u32>,
}

impl PipelineStage {
    /// An empty stage of the given type and latency.
    pub fn new(stage_type: PipelineStageType, latency: usize) -> (r: Self)
        ensures
            r == (PipelineStage {
                stage_type,
                latency,
                cycles_remaining: 0,
                instruction: None,
                pc: 0,
                status: PipelineStageStatus::Empty,
                data: None,
                target_register: None,
                memory_address: None,
            }),
    {
        Self {
            stage_type,
            latency,
            cycles_remaining: 0,
            instruction: None,
            pc: 0,
            status: PipelineStageStatus::Empty,
            data: None,
            target_register: None,
            memory_address: None,
        }
    }

    /// A busy stage whose cycles have run out.
    pub open spec fn ready(self) -> bool {
        self.status == PipelineStageStatus::Busy && self.cycles_remaining == 0
    }

    pub fn is_ready(&self) -> (r: bool)
        ensures
            r == self.ready(),
    {
        self.status == PipelineStageStatus::Busy && self.cycles_remaining == 0
    }

    /// A busy stage counts one cycle down.
    pub fn tick(&mut self)
        ensures
            *final(self) == (if old(self).status == PipelineStageStatus::Busy
                && old(self).cycles_remaining > 0 {
                PipelineStage { cycles_remaining: (old(self).cycles_remaining - 1) as usize, ..*old(self) }
            } else {
                *old(self)
            }),
    {
        if self.status == PipelineStageStatus::Busy && self.cycles_remaining > 0 {
            self.cycles_remaining = self.cycles_remaining - 1;
        }
    }

    /// Empties the stage (its type and latency stay).
    pub fn reset(&mut self)
        ensures
            *final(self) == (PipelineStage {
                stage_type: old(self).stage_type,
                latency: old(self).latency,
                cycles_remaining: 0,
                instruction: None,
                pc: 0,
                status: PipelineStageStatus::Empty,
                data: None,
                target_register: None,
                memory_address: None,
            }),
    {
        self.cycles_remaining = 0;
        self.instruction = None;
        self.pc = 0;
        self.status = PipelineStageStatus::Empty;
        self.data = None;
        self.target_register = None;
        self.memory_address = None;
    }

    /// The stage once it starts `instruction` at `pc`.
    pub open spec fn started(self, instruction: Instruction, pc: u32) -> PipelineStage {
        PipelineStage {
            instruction: Some(instruction),
            pc,
            status: PipelineStageStatus::Busy,
            cycles_remaining: self.latency,
            target_register: if self.stage_type == PipelineStageType::Execute || self.stage_type
                == PipelineStageType::Memory {
                instruction.dest_register()
            } else {
                self.target_register
            },
            ..self
        }
    }

    /// Starts `instruction` at `pc`: the stage becomes busy for its latency,
    /// and an execute or memory stage records the destination register.
    pub fn start_instruction(&mut self, instruction: Instruction, pc: u32)
        ensures
            *final(self) == old(self).started(instruction, pc),
    {
        self.instruction = Some(instruction);
        self.pc = pc;
        self.status = PipelineStageStatus::Busy;
        self.cycles_remaining = self.latency;
        if self.stage_type == PipelineStageType::Execute || self.stage_type
            == PipelineStageType::Memory {
            self.target_register = instruction.get_destination_register();
        }
    }

    pub fn stall(&mut self)
        ensures
            *final(self) == (PipelineStage { status: PipelineStageStatus::Stalled, ..*old(self) }),
    {
        self.status = PipelineStageStatus::Stalled;
    }

    /// A stalled stage becomes busy again.
    pub fn unstall(&mut self)
        ensures
            *final(self) == (if old(self).status == PipelineStageStatus::Stalled {
                PipelineStage { status: PipelineStageStatus::Busy, ..*old(self) }
            } else {
                *old(self)
            }),
    {
        if self.status == PipelineStageStatus::Stalled {
            self.status = PipelineStageStatus::Busy;
        }
    }

    /// Marks the stage flushed and drops its instruction.
    pub fn flush(&mut self)
        ensures
            *final(self) == (PipelineStage {
                status: PipelineStageStatus::Flushed,
                instruction: None,
                ..*old(self)
            }),
    {
        self.status = PipelineStageStatus::Flushed;
        self.instruction = None;
    }
}


/// Whether `x` occurs in `v`.
fn reg_listed(v: &Vec<u32>, x: u32) -> (r: bool)
    ensures
        r == v@.contains(x),
{
    let mut i: usize = 0;
    while i < v.len()
        invariant
            i <= v@.len(),
            forall|k: int| 0 <= k < i ==> v@[k] != x,
        decreases v@.len() - i,
    {
        if v[i] == x {
            return true;
        }
        i = i + 1;
    }
    false
}

/// A busy stage holding an instruction.
pub open spec fn busy_with(s: PipelineStage) -> bool {
    s.status == PipelineStageStatus::Busy && s.instruction is Some
}

/// Stage `i` reads a register that a later busy stage `j` writes.
pub open spec fn raw(st: Seq<PipelineStage>, i: int, j: int) -> bool {
    &&& busy_with(st[i])
    &&& st[j].status == PipelineStageStatus::Busy
    &&& st[j].target_register matches Some(t) && st[i].instruction.unwrap().source_regs().contains(t)
}

/// A later busy stage `j` reads the register that stage `i` writes.
pub open spec fn war(st: Seq<PipelineStage>, i: int, j: int) -> bool {
    &&& busy_with(st[i])
    &&& st[j].status == PipelineStageStatus::Busy
    &&& st[i].target_register matches Some(t) && st[j].instruction matches Some(l)
        && l.source_regs().contains(t)
}

/// A later busy stage `j` writes the register that stage `i` writes.
pub open spec fn waw(st: Seq<PipelineStage>, i: int, j: int) -> bool {
    &&& busy_with(st[i])
    &&& st[j].status == PipelineStageStatus::Busy
    &&& st[i].target_register matches Some(t) && st[j].instruction is Some && st[j].target_register
        == Some(t)
}

/// Stages `i` and `j` hold a data hazard.
pub open spec fn data_hazard(st: Seq<PipelineStage>, i: int, j: int) -> bool {
    raw(st, i, j) || war(st, i, j) || waw(st, i, j)
}

/// Stage `i` is busy with a branch or jump.
pub open spec fn control_at(st: Seq<PipelineStage>, i: int) -> bool {
    busy_with(st[i]) && st[i].instruction.unwrap().branches()
}

/// Stage `i` is busy with a load or store.
pub open spec fn memory_at(st: Seq<PipelineStage>, i: int) -> bool {
    busy_with(st[i]) && (st[i].instruction.unwrap().loads() || st[i].instruction.unwrap().stores())
}

/// Whether the stages hold any hazard.
pub open spec fn any_hazard(st: Seq<PipelineStage>) -> bool {
    ||| exists|i: int, j: int| 0 <= i < j < st.len() && #[trigger] data_hazard(st, i, j)
    ||| exists|i: int| 0 <= i < st.len() && #[trigger] control_at(st, i)
    ||| exists|i: int, j: int| 0 <= i < j < st.len() && #[trigger] memory_at(st, i) && #[trigger] memory_at(st, j)
}

/// Whether a reported hazard is one that the stages hold.
pub open spec fn justified(st: Seq<PipelineStage>, h: (HazardType, usize)) -> bool {
    let i = h.1 as int;
    &&& 0 <= i < st.len()
    &&& match h.0 {
        HazardType::RAW => exists|j: int| i < j < st.len() && #[trigger] raw(st, i, j),
        HazardType::WAR => exists|j: int| i < j < st.len() && #[trigger] war(st, i, j),
        HazardType::WAW => exists|j: int| i < j < st.len() && #[trigger] waw(st, i, j),
        HazardType::Control => control_at(st, i),
        HazardType::StructuralHazard => memory_at(st, i) && exists|j: int|
            i < j < st.len() && #[trigger] memory_at(st, j),
        HazardType::NoHazard => false,
    }
}

/// The number of stages of a pipeline.
pub const NUM_STAGES: usize = 5;

/// A five-stage in-order pipeline.
pub struct Pipeline {
    pub stages: Vec<PipelineStage>,
    pub cache_hierarchy: CacheHierarchy,
    pub branch_predictor: BranchPredictor,
    pub forwarding_enabled: bool,
    pub stall_cycles: usize,
    pub branch_mispredictions: usize,
    pub instruction_count: usize,
    pub cycle_count: usize,
    pub stall_count: usize,
    pub cache_miss_stalls: usize,
    pub data_hazard_stalls: usize,
    pub control_hazard_stalls: usize,
    pub structural_hazard_stalls: usize,
    pub hazard_stats: Vec<(HazardType, usize)>,
    pub register_file_accesses: usize,
    pub memory_accesses: usize,
    pub forwarding_used: usize,
}

impl Pipeline {
    /// Five stages, busy stages hold an instruction, and the branch
    /// predictor is well formed.
    pub open spec fn wf(&self) -> bool {
        &&& self.stages@.len() == NUM_STAGES
        &&& forall|i: int|
            0 <= i < self.stages@.len() && (#[trigger] self.stages@[i]).status
                == PipelineStageStatus::Busy ==> self.stages@[i].instruction is Some
        &&& self.branch_predictor.wf()
    }

    /// Room in every counter for `n` more cycles.
    pub open spec fn room_for(&self, n: int) -> bool {
        let k = 128 * n;
        &&& self.stall_cycles + k <= usize::MAX
        &&& self.cycle_count + k <= usize::MAX
        &&& self.stall_count + k <= usize::MAX
        &&& self.data_hazard_stalls + k <= usize::MAX
        &&& self.control_hazard_stalls + k <= usize::MAX
        &&& self.structural_hazard_stalls + k <= usize::MAX
        &&& self.forwarding_used + k <= usize::MAX
        &&& self.instruction_count + k <= usize::MAX
        &&& self.branch_predictor.prediction_count() + k <= usize::MAX
        &&& forall|i: int| 0 <= i < self.hazard_stats@.len() ==> (#[trigger] self.hazard_stats@[i]).1 + k <= usize::MAX
    }

    /// Room in the counters that resolving up to 66 hazards touches.
    pub open spec fn hazard_room(&self) -> bool {
        &&& self.stall_cycles + 66 <= usize::MAX
        &&& self.data_hazard_stalls + 66 <= usize::MAX
        &&& self.control_hazard_stalls + 66 <= usize::MAX
        &&& self.structural_hazard_stalls + 66 <= usize::MAX
        &&& self.forwarding_used + 66 <= usize::MAX
        &&& self.branch_predictor.prediction_count() + 66 <= usize::MAX
        &&& forall|i: int| 0 <= i < self.hazard_stats@.len() ==> (#[trigger] self.hazard_stats@[i]).1 + 66 <= usize::MAX
    }

    /// Five stages (Fetch, Decode, Execute, Memory, Writeback) with the
    /// configured latencies (1 where none is given), L1 caches over
    /// `memory`, a fresh branch predictor, forwarding on and all counters
    /// at zero.
    pub fn new(
        config: &PipelineConfig,
        instr_cache_config: CacheConfig,
        data_cache_config: CacheConfig,
        memory: Memory,
    ) -> (r: Self)
        requires
            memory.wf(),
            memory.translation_safe(),
            memory.device_bases().len() == 0,
            CacheConfig::valid_geometry(instr_cache_config.size, instr_cache_config.associativity, instr_cache_config.block_size),
            CacheConfig::valid_geometry(data_cache_config.size, data_cache_config.associativity, data_cache_config.block_size),
        ensures
            r.wf(),
            r.stages@.len() == NUM_STAGES,
            forall|i: int|
                0 <= i < NUM_STAGES ==> {
                    let s = #[trigger] r.stages@[i];
                    &&& s.status == PipelineStageStatus::Empty
                    &&& s.instruction is None
                    &&& s.latency == if i < config.stage_latencies@.len() {
                        config.stage_latencies@[i]
                    } else {
                        1
                    }
                },
            r.stages@[0].stage_type == PipelineStageType::Fetch,
            r.stages@[1].stage_type == PipelineStageType::Decode,
            r.stages@[2].stage_type == PipelineStageType::Execute,
            r.stages@[3].stage_type == PipelineStageType::Memory,
            r.stages@[4].stage_type == PipelineStageType::Writeback,
            r.cache_hierarchy.wf(),
            r.cache_hierarchy.l1_data_cache.config == data_cache_config,
            r.cache_hierarchy.l1_instr_cache.config == instr_cache_config,
            r.forwarding_enabled,
            r.stall_cycles == 0 && r.cycle_count == 0 && r.instruction_count == 0 && r.stall_count == 0,
            r.data_hazard_stalls == 0 && r.control_hazard_stalls == 0 && r.structural_hazard_stalls == 0,
            r.branch_mispredictions == 0 && r.cache_miss_stalls == 0 && r.forwarding_used == 0,
            r.register_file_accesses == 0 && r.memory_accesses == 0,
            r.branch_predictor.prediction_count() == 0,
            r.hazard_stats@ == seq![
                (HazardType::RAW, 0usize),
                (HazardType::WAR, 0usize),
                (HazardType::WAW, 0usize),
                (HazardType::Control, 0usize),
                (HazardType::StructuralHazard, 0usize),
            ],
    {
        let mut stages: Vec<PipelineStage> = Vec::new();
        let mut i: usize = 0;
        while i < NUM_STAGES
            invariant
                i <= NUM_STAGES,
                stages@.len() == i,
                forall|k: int|
                    0 <= k < i ==> {
                        let s = #[trigger] stages@[k];
                        &&& s.status == PipelineStageStatus::Empty
                        &&& s.instruction is None
                        &&& s.latency == if k < config.stage_latencies@.len() {
                            config.stage_latencies@[k]
                        } else {
                            1
                        }
                        &&& s.stage_type == (if k == 0 {
                            PipelineStageType::Fetch
                        } else if k == 1 {
                            PipelineStageType::Decode
                        } else if k == 2 {
                            PipelineStageType::Execute
                        } else if k == 3 {
                            PipelineStageType::Memory
                        } else {
                            PipelineStageType::Writeback
                        })
                    },
            decreases NUM_STAGES - i,
        {
            let stage_type = if i == 0 {
                PipelineStageType::Fetch
            } else if i == 1 {
                PipelineStageType::Decode
            } else if i == 2 {
                PipelineStageType::Execute
            } else if i == 3 {
                PipelineStageType::Memory
            } else {
                PipelineStageType::Writeback
            };
            let latency = if i < config.stage_latencies.len() {
                config.stage_latencies[i]
            } else {
                1
            };
            stages.push(PipelineStage::new(stage_type, latency));
            i = i + 1;
        }
        let cache_hierarchy = CacheHierarchy::new(memory, data_cache_config, instr_cache_config, None);
        let hazard_stats = vec![
            (HazardType::RAW, 0usize),
            (HazardType::WAR, 0usize),
            (HazardType::WAW, 0usize),
            (HazardType::Control, 0usize),
            (HazardType::StructuralHazard, 0usize),
        ];
        Self {
            stages,
            cache_hierarchy,
            branch_predictor: BranchPredictor::new(),
            forwarding_enabled: true,
            stall_cycles: 0,
            branch_mispredictions: 0,
            instruction_count: 0,
            cycle_count: 0,
            stall_count: 0,
            cache_miss_stalls: 0,
            data_hazard_stalls: 0,
            control_hazard_stalls: 0,
            structural_hazard_stalls: 0,
            hazard_stats,
            register_file_accesses: 0,
            memory_accesses: 0,
            forwarding_used: 0,
        }
    }
}


impl Pipeline {
    /// The hazards the stages hold: data hazards (RAW, WAR, WAW) of each
    /// busy stage against each later busy stage, then each busy branch or
    /// jump, then one structural hazard at the first of two or more busy
    /// loads and stores. Every reported hazard is real, and one is reported
    /// whenever the stages hold any.
    fn detect_hazards(&self) -> (r: Vec<(HazardType, usize)>)
        requires
            self.wf(),
        ensures
            forall|k: int| 0 <= k < r@.len() ==> justified(self.stages@, #[trigger] r@[k]),
            r@.len() == 0 <==> !any_hazard(self.stages@),
            r@.len() <= 66,
    {
        let ghost st = self.stages@;
        let n = self.stages.len();
        let mut hazards: Vec<(HazardType, usize)> = Vec::new();
        let mut i: usize = 0;
        while i < n - 1
            invariant
                n == st.len() == NUM_STAGES,
                st == self.stages@,
                i <= n - 1,
                hazards@.len() <= 15 * i,
                forall|k: int| 0 <= k < hazards@.len() ==> justified(st, #[trigger] hazards@[k]),
                hazards@.len() == 0 ==> forall|a: int, b: int|
                    0 <= a < i && a < b < n ==> !(#[trigger] data_hazard(st, a, b)),
            decreases n - 1 - i,
        {
            if self.stages[i].status == PipelineStageStatus::Busy && self.stages[i].instruction.is_some() {
                let current_instr = self.stages[i].instruction.unwrap();
                let source_regs = current_instr.get_source_registers();
                let mut j: usize = i + 1;
                while j < n
                    invariant
                        n == st.len() == NUM_STAGES,
                        st == self.stages@,
                        i < j <= n,
                        i < n - 1,
                        hazards@.len() <= 15 * i + 3 * (j - i - 1),
                        busy_with(st[i as int]),
                        st[i as int].instruction == Some(current_instr),
                        source_regs@ == current_instr.source_regs(),
                        forall|k: int| 0 <= k < hazards@.len() ==> justified(st, #[trigger] hazards@[k]),
                        hazards@.len() == 0 ==> forall|a: int, b: int|
                            0 <= a < i && a < b < n ==> !(#[trigger] data_hazard(st, a, b)),
                        hazards@.len() == 0 ==> forall|b: int|
                            i < b < j ==> !(#[trigger] data_hazard(st, i as int, b)),
                    decreases n - j,
                {
                    if self.stages[j].status == PipelineStageStatus::Busy {
                        if let Some(target_reg) = self.stages[j].target_register {
                            if reg_listed(&source_regs, target_reg) {
                                assert(raw(st, i as int, j as int));
                                assert(justified(st, (HazardType::RAW, i)));
                                hazards.push((HazardType::RAW, i));
                            }
                        }
                        if let Some(current_target_reg) = self.stages[i].target_register {
                            if let Some(later_instr) = self.stages[j].instruction {
                                let later_source_regs = later_instr.get_source_registers();
                                if reg_listed(&later_source_regs, current_target_reg) {
                                    assert(war(st, i as int, j as int));
                                    assert(justified(st, (HazardType::WAR, i)));
                                    hazards.push((HazardType::WAR, i));
                                }
                                if let Some(later_target_reg) = self.stages[j].target_register {
                                    if later_target_reg == current_target_reg {
                                        assert(waw(st, i as int, j as int));
                                        assert(justified(st, (HazardType::WAW, i)));
                                        hazards.push((HazardType::WAW, i));
                                    }
                                }
                            }
                        }
                    }
                    j = j + 1;
                }
            }
            i = i + 1;
        }
        let mut c: usize = 0;
        while c < n
            invariant
                n == st.len() == NUM_STAGES,
                st == self.stages@,
                c <= n,
                hazards@.len() <= 60 + c,
                forall|k: int| 0 <= k < hazards@.len() ==> justified(st, #[trigger] hazards@[k]),
                hazards@.len() == 0 ==> forall|a: int, b: int|
                    0 <= a < b < n ==> !(#[trigger] data_hazard(st, a, b)),
                hazards@.len() == 0 ==> forall|a: int| 0 <= a < c ==> !(#[trigger] control_at(st, a)),
            decreases n - c,
        {
            if self.stages[c].status == PipelineStageStatus::Busy {
                if let Some(instr) = self.stages[c].instruction {
                    if instr.is_branch_or_jump() {
                        hazards.push((HazardType::Control, c));
                    }
                }
            }
            c = c + 1;
        }
        assert(hazards@.len() <= 65);
        let mut first_memory: Option<usize> = None;
        let mut memory_count: usize = 0;
        let mut m: usize = 0;
        while m < n
            invariant
                n == st.len() == NUM_STAGES,
                st == self.stages@,
                m <= n,
                memory_count <= m,
                memory_count == 0 <==> first_memory is None,
                memory_count == 0 ==> forall|a: int| 0 <= a < m ==> !(#[trigger] memory_at(st, a)),
                first_memory matches Some(f) ==> f < m && memory_at(st, f as int) && forall|a: int|
                    0 <= a < f ==> !(#[trigger] memory_at(st, a)),
                memory_count >= 2 ==> (first_memory matches Some(f) && exists|b: int|
                    f < b < m && #[trigger] memory_at(st, b)),
                memory_count == 1 ==> (first_memory matches Some(f) && forall|b: int|
                    f < b < m ==> !(#[trigger] memory_at(st, b))),
            decreases n - m,
        {
            if self.stages[m].status == PipelineStageStatus::Busy {
                if let Some(instr) = self.stages[m].instruction {
                    if instr.is_memory_access() {
                        assert(memory_at(st, m as int));
                        if first_memory.is_none() {
                            first_memory = Some(m);
                        }
                        memory_count = memory_count + 1;
                    }
                }
            }
            m = m + 1;
        }
        if memory_count > 1 {
            let f = first_memory.unwrap();
            hazards.push((HazardType::StructuralHazard, f));
        }
        proof {
            if hazards@.len() > 0 {
                let h = hazards@[0];
                assert(justified(st, h));
                let a = h.1 as int;
                match h.0 {
                    HazardType::RAW => {
                        let b = choose|b: int| a < b < st.len() && #[trigger] raw(st, a, b);
                        assert(data_hazard(st, a, b));
                    },
                    HazardType::WAR => {
                        let b = choose|b: int| a < b < st.len() && #[trigger] war(st, a, b);
                        assert(data_hazard(st, a, b));
                    },
                    HazardType::WAW => {
                        let b = choose|b: int| a < b < st.len() && #[trigger] waw(st, a, b);
                        assert(data_hazard(st, a, b));
                    },
                    HazardType::Control => {
                        assert(control_at(st, a));
                    },
                    HazardType::StructuralHazard => {
                        let b = choose|b: int| a < b < st.len() && #[trigger] memory_at(st, b);
                        assert(memory_at(st, a) && memory_at(st, b));
                    },
                    HazardType::NoHazard => {},
                }
            }
            if hazards@.len() == 0 {
                assert forall|a: int, b: int|
                    0 <= a < b < st.len() && #[trigger] memory_at(st, a) && #[trigger] memory_at(st, b) implies false by {
                    if memory_count == 1 {
                        let f = first_memory.unwrap() as int;
                        if a < f {
                        } else if a == f {
                        } else {
                        }
                    }
                }
            }
        }
        hazards
    }
}


/// Whether a later busy stage already holds data for a register that stage
/// `idx` reads.
pub open spec fn can_forward(st: Seq<PipelineStage>, idx: int) -> bool {
    &&& 0 <= idx < st.len()
    &&& st[idx].instruction is Some
    &&& exists|j: int|
        idx < j < st.len() && #[trigger] st[j].status == PipelineStageStatus::Busy
            && st[j].data is Some && (st[j].target_register matches Some(t)
            && st[idx].instruction.unwrap().source_regs().contains(t))
}

/// Whether the hazard statistics count the same kinds as `other`.
pub open spec fn same_kinds(a: Seq<(HazardType, usize)>, b: Seq<(HazardType, usize)>) -> bool {
    a.len() == b.len() && forall|i: int| 0 <= i < a.len() ==> (#[trigger] a[i]).0 == b[i].0
}

impl Pipeline {
    /// The stage statuses and instructions other than those of `stages`
    /// changed by an operation on stages `lo..hi`.
    pub open spec fn stages_outside(&self, other: Seq<PipelineStage>, lo: int, hi: int) -> bool {
        &&& other.len() == self.stages@.len()
        &&& forall|k: int| 0 <= k < other.len() && !(lo <= k < hi) ==> #[trigger] other[k] == self.stages@[k]
    }

    /// Whether a later busy stage holds data that stage `stage_idx` needs.
    fn try_forwarding(&self, stage_idx: usize) -> (r: bool)
        ensures
            r == can_forward(self.stages@, stage_idx as int),
    {
        if stage_idx >= self.stages.len() {
            return false;
        }
        match self.stages[stage_idx].instruction {
            Some(instr) => {
                let source_regs = instr.get_source_registers();
                let mut i: usize = stage_idx + 1;
                while i < self.stages.len()
                    invariant
                        stage_idx < i <= self.stages@.len(),
                        self.stages@[stage_idx as int].instruction == Some(instr),
                        source_regs@ == instr.source_regs(),
                        forall|j: int|
                            stage_idx < j < i ==> !(#[trigger] self.stages@[j].status
                                == PipelineStageStatus::Busy && self.stages@[j].data is Some && (
                            self.stages@[j].target_register matches Some(t)
                                && instr.source_regs().contains(t))),
                    decreases self.stages@.len() - i,
                {
                    if self.stages[i].status == PipelineStageStatus::Busy && self.stages[i].data.is_some() {
                        if let Some(target_reg) = self.stages[i].target_register {
                            if reg_listed(&source_regs, target_reg) {
                                return true;
                            }
                        }
                    }
                    i = i + 1;
                }
                false
            },
            None => false,
        }
    }

    /// Stalls stages `0..=from_stage` and adds a stall cycle.
    fn stall_pipeline(&mut self, from_stage: usize)
        requires
            old(self).wf(),
            from_stage < old(self).stages@.len(),
            old(self).stall_cycles < usize::MAX,
        ensures
            final(self).wf(),
            old(self).stages_outside(final(self).stages@, 0, from_stage + 1),
            forall|k: int|
                0 <= k <= from_stage ==> #[trigger] final(self).stages@[k] == (PipelineStage {
                    status: PipelineStageStatus::Stalled,
                    ..old(self).stages@[k]
                }),
            final(self).stall_cycles == old(self).stall_cycles + 1,
            *final(self) == (Pipeline {
                stages: final(self).stages,
                stall_cycles: final(self).stall_cycles,
                ..*old(self)
            }),
    {
        let mut i: usize = 0;
        while i <= from_stage
            invariant
                from_stage < self.stages@.len() == old(self).stages@.len(),
                i <= from_stage + 1,
                self.branch_predictor.wf(),
                self.stages@.len() == NUM_STAGES,
                forall|k: int|
                    0 <= k < self.stages@.len() && (#[trigger] self.stages@[k]).status
                        == PipelineStageStatus::Busy ==> self.stages@[k].instruction is Some,
                old(self).stages_outside(self.stages@, 0, i as int),
                forall|k: int|
                    0 <= k < i ==> #[trigger] self.stages@[k] == (PipelineStage {
                        status: PipelineStageStatus::Stalled,
                        ..old(self).stages@[k]
                    }),
                *self == (Pipeline { stages: self.stages, ..*old(self) }),
            decreases from_stage + 1 - i,
        {
            self.stages[i].stall();
            i = i + 1;
        }
        self.stall_cycles = self.stall_cycles + 1;
    }

    /// Flushes stages `from_stage..to_stage`.
    fn flush_pipeline(&mut self, from_stage: usize, to_stage: usize)
        requires
            old(self).wf(),
            to_stage <= old(self).stages@.len(),
        ensures
            final(self).wf(),
            old(self).stages_outside(final(self).stages@, from_stage as int, to_stage as int),
            forall|k: int|
                from_stage <= k < to_stage ==> #[trigger] final(self).stages@[k] == (PipelineStage {
                    status: PipelineStageStatus::Flushed,
                    instruction: None,
                    ..old(self).stages@[k]
                }),
            *final(self) == (Pipeline { stages: final(self).stages, ..*old(self) }),
    {
        let mut i: usize = from_stage;
        while i < to_stage
            invariant
                to_stage <= self.stages@.len() == old(self).stages@.len(),
                i >= from_stage,
                i <= to_stage || i == from_stage,
                self.branch_predictor.wf(),
                self.stages@.len() == NUM_STAGES,
                forall|k: int|
                    0 <= k < self.stages@.len() && (#[trigger] self.stages@[k]).status
                        == PipelineStageStatus::Busy ==> self.stages@[k].instruction is Some,
                old(self).stages_outside(self.stages@, from_stage as int, i as int),
                forall|k: int|
                    from_stage <= k < i ==> #[trigger] self.stages@[k] == (PipelineStage {
                        status: PipelineStageStatus::Flushed,
                        instruction: None,
                        ..old(self).stages@[k]
                    }),
                *self == (Pipeline { stages: self.stages, ..*old(self) }),
            decreases to_stage - i,
        {
            self.stages[i].flush();
            i = i + 1;
        }
    }

    /// Whether the branch or jump in stage `stage_idx` is predicted taken
    /// (false for other instructions); a prediction is counted.
    fn predict_branch(&mut self, stage_idx: usize) -> (r: bool)
        requires
            old(self).wf(),
            stage_idx < old(self).stages@.len(),
            old(self).branch_predictor.prediction_count() < usize::MAX,
        ensures
            final(self).wf(),
            final(self).stages == old(self).stages,
            ({
                let s = old(self).stages@[stage_idx as int];
                &&& (s.instruction matches Some(i) && i.branches()) ==> r == old(self).branch_predictor.prediction_for(s.pc)
                    && final(self).branch_predictor.prediction_count()
                    == old(self).branch_predictor.prediction_count() + 1
                &&& !(s.instruction matches Some(i) && i.branches()) ==> !r && final(self).branch_predictor
                    == old(self).branch_predictor
            }),
            *final(self) == (Pipeline { branch_predictor: final(self).branch_predictor, ..*old(self) }),
    {
        let pc = self.stages[stage_idx].pc;
        match self.stages[stage_idx].instruction {
            Some(instr) => {
                if instr.is_branch_or_jump() {
                    let prediction = self.branch_predictor.predict(pc);
                    if prediction {
                        if self.branch_predictor.get_target(pc).is_some() {
                            return true;
                        } else if instr.get_immediate_target().is_some() {
                            return true;
                        }
                    }
                    return prediction;
                }
                false
            },
            None => false,
        }
    }

    /// Adds one to the statistics entry for `kind`.
    fn count_hazard(&mut self, kind: HazardType)
        requires
            forall|i: int| 0 <= i < old(self).hazard_stats@.len() ==> (#[trigger] old(self).hazard_stats@[i]).1 < usize::MAX,
        ensures
            same_kinds(final(self).hazard_stats@, old(self).hazard_stats@),
            forall|i: int|
                0 <= i < final(self).hazard_stats@.len() ==> (#[trigger] final(self).hazard_stats@[i]).1
                    <= old(self).hazard_stats@[i].1 + 1,
            *final(self) == (Pipeline { hazard_stats: final(self).hazard_stats, ..*old(self) }),
            final(self).hazard_stats@ == counted(old(self).hazard_stats@, kind),
    {
        let mut i: usize = 0;
        while i < self.hazard_stats.len()
            invariant
                i <= self.hazard_stats@.len(),
                forall|j: int| 0 <= j < i ==> (#[trigger] self.hazard_stats@[j]).0 != kind,
                forall|j: int| 0 <= j < old(self).hazard_stats@.len() ==> (#[trigger] old(self).hazard_stats@[j]).1 < usize::MAX,
                self.hazard_stats@ == old(self).hazard_stats@,
                *self == *old(self),
            decreases self.hazard_stats@.len() - i,
        {
            if self.hazard_stats[i].0 == kind {
                let (k, c) = self.hazard_stats[i];
                self.hazard_stats.set(i, (k, c + 1));
                assert(same_kinds(self.hazard_stats@, old(self).hazard_stats@));
                assert(first_of_kind(old(self).hazard_stats@, kind) == i as int);
                return;
            }
            i = i + 1;
        }
        assert(first_of_kind(old(self).hazard_stats@, kind) == old(self).hazard_stats@.len());
    }
}


/// The position of the first entry of `h` of kind `kind` (`h.len()` when
/// there is none).
pub open spec fn first_of_kind(h: Seq<(HazardType, usize)>, kind: HazardType) -> int {
    if exists|i: int| 0 <= i < h.len() && (#[trigger] h[i]).0 == kind {
        choose|i: int|
            0 <= i < h.len() && (#[trigger] h[i]).0 == kind && forall|j: int|
                0 <= j < i ==> (#[trigger] h[j]).0 != kind
    } else {
        h.len() as int
    }
}

/// The statistics `h` after one more hazard of kind `kind`: the first entry
/// of that kind counts one more; without such an entry nothing changes.
pub open spec fn counted(h: Seq<(HazardType, usize)>, kind: HazardType) -> Seq<(HazardType, usize)> {
    let i = first_of_kind(h, kind);
    if i < h.len() {
        h.update(i, (kind, (h[i].1 + 1) as usize))
    } else {
        h
    }
}

/// How many entries of `h` are of kind `kind`.
pub open spec fn count_kind(h: Seq<(HazardType, usize)>, kind: HazardType) -> nat
    decreases h.len(),
{
    if h.len() == 0 {
        0
    } else {
        count_kind(h.drop_last(), kind) + if h.last().0 == kind { 1nat } else { 0 }
    }
}

impl Pipeline {
    /// Every counter of `new` exceeds that of `self` by at most `d`.
    pub open spec fn grew_at_most(&self, new: &Pipeline, d: int) -> bool {
        &&& new.stall_cycles <= self.stall_cycles + d
        &&& new.cycle_count <= self.cycle_count + d
        &&& new.stall_count <= self.stall_count + d
        &&& new.data_hazard_stalls <= self.data_hazard_stalls + d
        &&& new.control_hazard_stalls <= self.control_hazard_stalls + d
        &&& new.structural_hazard_stalls <= self.structural_hazard_stalls + d
        &&& new.forwarding_used <= self.forwarding_used + d
        &&& new.instruction_count <= self.instruction_count + d
        &&& new.branch_predictor.prediction_count() <= self.branch_predictor.prediction_count() + d
        &&& same_kinds(new.hazard_stats@, self.hazard_stats@)
        &&& forall|i: int| 0 <= i < new.hazard_stats@.len() ==> (#[trigger] new.hazard_stats@[i]).1 <= self.hazard_stats@[i].1 + d
    }

    /// Resolves `hazards` in order: a RAW hazard is forwarded when forwarding
    /// is on and a later stage has the data, and otherwise stalls; WAR, WAW
    /// and structural hazards stall; a control hazard flushes the earlier
    /// stages when the branch is predicted taken. Each resolved hazard is
    /// counted once: as a forwarding, or in its kind's stall counter.
    fn handle_hazards(&mut self, hazards: &Vec<(HazardType, usize)>)
        requires
            old(self).wf(),
            old(self).hazard_room(),
            hazards@.len() <= 66,
            forall|k: int| 0 <= k < hazards@.len() ==> (#[trigger] hazards@[k]).1 < NUM_STAGES,
        ensures
            final(self).wf(),
            old(self).grew_at_most(final(self), hazards@.len() as int),
            final(self).cycle_count == old(self).cycle_count,
            final(self).instruction_count == old(self).instruction_count,
            final(self).stall_count == old(self).stall_count,
            final(self).control_hazard_stalls == old(self).control_hazard_stalls + count_kind(
                hazards@,
                HazardType::Control,
            ),
            final(self).structural_hazard_stalls == old(self).structural_hazard_stalls + count_kind(
                hazards@,
                HazardType::StructuralHazard,
            ),
            final(self).data_hazard_stalls + final(self).forwarding_used == old(self).data_hazard_stalls
                + old(self).forwarding_used + count_kind(hazards@, HazardType::RAW) + count_kind(
                hazards@,
                HazardType::WAR,
            ) + count_kind(hazards@, HazardType::WAW),
            final(self).forwarding_enabled == old(self).forwarding_enabled,
    {
        let mut k: usize = 0;
        while k < hazards.len()
            invariant
                k <= hazards@.len() <= 66,
                forall|q: int| 0 <= q < hazards@.len() ==> (#[trigger] hazards@[q]).1 < NUM_STAGES,
                self.wf(),
                old(self).hazard_room(),
                old(self).grew_at_most(self, k as int),
                self.cycle_count == old(self).cycle_count,
                self.instruction_count == old(self).instruction_count,
                self.stall_count == old(self).stall_count,
                self.forwarding_enabled == old(self).forwarding_enabled,
                self.control_hazard_stalls == old(self).control_hazard_stalls + count_kind(
                    hazards@.take(k as int),
                    HazardType::Control,
                ),
                self.structural_hazard_stalls == old(self).structural_hazard_stalls + count_kind(
                    hazards@.take(k as int),
                    HazardType::StructuralHazard,
                ),
                self.data_hazard_stalls + self.forwarding_used == old(self).data_hazard_stalls
                    + old(self).forwarding_used + count_kind(hazards@.take(k as int), HazardType::RAW)
                    + count_kind(hazards@.take(k as int), HazardType::WAR) + count_kind(
                    hazards@.take(k as int),
                    HazardType::WAW,
                ),
            decreases hazards@.len() - k,
        {
            let (hazard_type, stage_idx) = hazards[k];
            let ghost before = *self;
            proof {
                let t1 = hazards@.take(k + 1);
                assert(t1.drop_last() =~= hazards@.take(k as int));
                assert(t1.last() == hazards@[k as int]);
            }
            match hazard_type {
                HazardType::RAW => {
                    if self.forwarding_enabled && self.try_forwarding(stage_idx) {
                        self.forwarding_used = self.forwarding_used + 1;
                    } else {
                        self.stall_pipeline(stage_idx);
                        self.data_hazard_stalls = self.data_hazard_stalls + 1;
                        self.count_hazard(HazardType::RAW);
                    }
                },
                HazardType::WAR => {
                    self.stall_pipeline(stage_idx);
                    self.data_hazard_stalls = self.data_hazard_stalls + 1;
                    self.count_hazard(HazardType::WAR);
                },
                HazardType::WAW => {
                    self.stall_pipeline(stage_idx);
                    self.data_hazard_stalls = self.data_hazard_stalls + 1;
                    self.count_hazard(HazardType::WAW);
                },
                HazardType::Control => {
                    let branch_taken = self.predict_branch(stage_idx);
                    if branch_taken {
                        self.flush_pipeline(0, stage_idx);
                    }
                    self.control_hazard_stalls = self.control_hazard_stalls + 1;
                    self.count_hazard(HazardType::Control);
                },
                HazardType::StructuralHazard => {
                    self.stall_pipeline(stage_idx);
                    self.structural_hazard_stalls = self.structural_hazard_stalls + 1;
                    self.count_hazard(HazardType::StructuralHazard);
                },
                HazardType::NoHazard => {},
            }
            k = k + 1;
        }
        assert(hazards@.take(hazards@.len() as int) =~= hazards@);
    }
}


/// Stage `dst` after taking over the instruction of stage `src`.
pub open spec fn moved_into(dst: PipelineStage, src: PipelineStage) -> PipelineStage {
    PipelineStage {
        instruction: src.instruction,
        pc: src.pc,
        status: PipelineStageStatus::Busy,
        cycles_remaining: dst.latency,
        data: src.data,
        target_register: src.target_register,
        memory_address: src.memory_address,
        ..dst
    }
}

/// Stage `s` emptied.
pub open spec fn emptied(s: PipelineStage) -> PipelineStage {
    PipelineStage {
        stage_type: s.stage_type,
        latency: s.latency,
        cycles_remaining: 0,
        instruction: None,
        pc: 0,
        status: PipelineStageStatus::Empty,
        data: None,
        target_register: None,
        memory_address: None,
    }
}

/// Stage `i` takes the instruction of stage `i - 1` when that one is ready
/// and stage `i` is empty.
pub open spec fn advance_step(st: Seq<PipelineStage>, i: int) -> Seq<PipelineStage> {
    if st[i - 1].ready() && st[i].status == PipelineStageStatus::Empty {
        st.update(i, moved_into(st[i], st[i - 1])).update(i - 1, emptied(st[i - 1]))
    } else {
        st
    }
}

/// The stages after advancing stages `i`, `i - 1`, ..., 1 in that order.
pub open spec fn advance_down(st: Seq<PipelineStage>, i: int) -> Seq<PipelineStage>
    decreases i,
{
    if i <= 0 {
        st
    } else {
        advance_down(advance_step(st, i), i - 1)
    }
}

impl Pipeline {
    /// Moves each ready instruction into the next stage when that stage is
    /// empty, from the last stage backwards.
    fn advance_pipeline(&mut self)
        requires
            old(self).wf(),
        ensures
            final(self).wf(),
            final(self).stages@ == advance_down(old(self).stages@, NUM_STAGES - 1),
            *final(self) == (Pipeline { stages: final(self).stages, ..*old(self) }),
    {
        let ghost target = advance_down(self.stages@, NUM_STAGES - 1);
        let mut i: usize = self.stages.len() - 1;
        while i >= 1
            invariant
                i < NUM_STAGES,
                self.wf(),
                advance_down(self.stages@, i as int) == target,
                *self == (Pipeline { stages: self.stages, ..*old(self) }),
            decreases i,
        {
            let prev_idx = i - 1;
            let ghost st = self.stages@;
            if self.stages[prev_idx].is_ready() && self.stages[i].status == PipelineStageStatus::Empty {
                let instr = self.stages[prev_idx].instruction.unwrap();
                let pc = self.stages[prev_idx].pc;
                let data = self.stages[prev_idx].data;
                let target_reg = self.stages[prev_idx].target_register;
                let memory_addr = self.stages[prev_idx].memory_address;
                self.stages[i].start_instruction(instr, pc);
                self.stages[i].data = data;
                self.stages[i].target_register = target_reg;
                self.stages[i].memory_address = memory_addr;
                self.stages[prev_idx].reset();
            }
            assert(self.stages@ =~= advance_step(st, i as int));
            i = i - 1;
        }
    }

    /// Flushes every stage.
    pub fn flush(&mut self)
        requires
            old(self).wf(),
        ensures
            final(self).wf(),
            final(self).stages@.len() == old(self).stages@.len(),
            forall|k: int|
                0 <= k < final(self).stages@.len() ==> #[trigger] final(self).stages@[k] == (PipelineStage {
                    status: PipelineStageStatus::Flushed,
                    instruction: None,
                    ..old(self).stages@[k]
                }),
            *final(self) == (Pipeline { stages: final(self).stages, ..*old(self) }),
    {
        self.flush_pipeline(0, self.stages.len());
    }

    /// Whether a busy or stalled stage writes register `reg_num`.
    pub fn is_register_being_written(&self, reg_num: u32) -> (r: bool)
        ensures
            r == exists|k: int|
                0 <= k < self.stages@.len() && ((#[trigger] self.stages@[k]).status
                    == PipelineStageStatus::Busy || self.stages@[k].status
                    == PipelineStageStatus::Stalled) && self.stages@[k].target_register == Some(reg_num),
    {
        let mut k: usize = 0;
        while k < self.stages.len()
            invariant
                k <= self.stages@.len(),
                forall|q: int|
                    0 <= q < k ==> !(((#[trigger] self.stages@[q]).status == PipelineStageStatus::Busy
                        || self.stages@[q].status == PipelineStageStatus::Stalled)
                        && self.stages@[q].target_register == Some(reg_num)),
            decreases self.stages@.len() - k,
        {
            let st = self.stages[k].status;
            if st == PipelineStageStatus::Busy || st == PipelineStageStatus::Stalled {
                if let Some(target_reg) = self.stages[k].target_register {
                    if target_reg == reg_num {
                        return true;
                    }
                }
            }
            k = k + 1;
        }
        false
    }
}


/// What one `tick` of `p0` gives (see `Pipeline::tick`).
pub open spec fn pipeline_ticked(p0: Pipeline, p1: Pipeline) -> bool {
    &&& (p0.grew_at_most(&p1, 128))
    &&& (p1.cycle_count == p0.cycle_count + 1)
    &&& (p1.instruction_count == p0.instruction_count)
    &&& (p1.forwarding_enabled == p0.forwarding_enabled)
    &&& (p0.stall_cycles > 0 ==> p1.stall_cycles == p0.stall_cycles - 1
        && p1.stall_count == p0.stall_count + 1 && p1.stages
        == p0.stages)
    &&& (p0.stall_cycles == 0 ==> {
        let st = Seq::new(NUM_STAGES as nat, |k: int| ticked(p0.stages@[k]));
        &&& !any_hazard(st) ==> p1.stages@ == advance_down(st, NUM_STAGES - 1)
        &&& p1.stall_count == p0.stall_count
    })
}

/// Whether the last stage of `p` holds an instruction that is ready.
pub open spec fn finished(p: Pipeline) -> bool {
    p.stages@.last().instruction is Some && p.stages@.last().ready()
}

/// Whether `p1` is `p0` with `instruction` at `pc` entering the first stage
/// and counted.
pub open spec fn entered(p0: Pipeline, p1: Pipeline, instruction: Instruction, pc: u32) -> bool {
    &&& p1.stages@ == p0.stages@.update(0, p0.stages@[0].started(instruction, pc))
    &&& p1 == (Pipeline { stages: p1.stages, instruction_count: (p0.instruction_count + 1) as usize, ..p0 })
}

/// Whether each pipeline of `trace` is one `tick` of the one before.
pub open spec fn tick_trace(trace: Seq<Pipeline>) -> bool {
    forall|j: int| 0 <= j < trace.len() - 1 ==> pipeline_ticked(#[trigger] trace[j], trace[j + 1])
}

/// Stage `s` after one cycle.
pub open spec fn ticked(s: PipelineStage) -> PipelineStage {
    if s.status == PipelineStageStatus::Busy && s.cycles_remaining > 0 {
        PipelineStage { cycles_remaining: (s.cycles_remaining - 1) as usize, ..s }
    } else {
        s
    }
}

impl Pipeline {
    /// One cycle: a pending stall cycle is used up; otherwise every stage
    /// counts down, then the hazards that the stages hold are resolved, or,
    /// when there are none, the pipeline advances.
    pub fn tick(&mut self)
        requires
            old(self).wf(),
            old(self).room_for(1),
        ensures
            final(self).wf(),
            pipeline_ticked(*old(self), *final(self)),
    {
        self.cycle_count = self.cycle_count + 1;
        if self.stall_cycles > 0 {
            self.stall_cycles = self.stall_cycles - 1;
            self.stall_count = self.stall_count + 1;
            return;
        }
        let ghost st = Seq::new(NUM_STAGES as nat, |k: int| ticked(old(self).stages@[k]));
        let n = self.stages.len();
        let mut i: usize = n;
        while i > 0
            invariant
                n == NUM_STAGES,
                i <= n,
                self.wf(),
                self.stages@.len() == n,
                forall|k: int| 0 <= k < i ==> #[trigger] self.stages@[k] == old(self).stages@[k],
                forall|k: int| i <= k < n ==> #[trigger] self.stages@[k] == ticked(old(self).stages@[k]),
                *self == (Pipeline { stages: self.stages, cycle_count: self.cycle_count, ..*old(self) }),
                self.cycle_count == old(self).cycle_count + 1,
            decreases i,
        {
            i = i - 1;
            self.stages[i].tick();
        }
        assert(self.stages@ =~= st);
        let ghost before = *self;
        let hazards = self.detect_hazards();
        if hazards.len() > 0 {
            self.handle_hazards(&hazards);
        } else {
            self.advance_pipeline();
        }
    }

    /// Runs `instruction` at `pc` through the pipeline: it enters the first
    /// stage, and the pipeline ticks until the last stage holds a ready
    /// instruction, for at most 100 cycles. Returns the cycles taken: the
    /// number of ticks in the trace from the entered pipeline to the final
    /// one.
    pub fn execute(&mut self, instruction: &Instruction, _registers: &Registers, pc: u32) -> (r: usize)
        requires
            old(self).wf(),
            old(self).room_for(101),
        ensures
            final(self).wf(),
            final(self).instruction_count == old(self).instruction_count + 1,
            final(self).cycle_count == old(self).cycle_count + r,
            1 <= r <= 100,
            old(self).grew_at_most(final(self), 12801),
            exists|trace: Seq<Pipeline>|
                {
                    &&& #[trigger] tick_trace(trace)
                    &&& trace.len() == r + 1
                    &&& entered(*old(self), trace[0], *instruction, pc)
                    &&& trace.last() == *final(self)
                    &&& forall|j: int| 1 <= j < r ==> !finished(#[trigger] trace[j])
                    &&& finished(*final(self)) || r == 100
                },
    {
        self.instruction_count = self.instruction_count + 1;
        let start_cycle = self.cycle_count;
        self.stages[0].start_instruction(*instruction, pc);
        let ghost mut trace: Seq<Pipeline> = seq![*self];
        assert(entered(*old(self), trace[0], *instruction, pc)) by {
            assert(self.stages@ =~= old(self).stages@.update(0, old(self).stages@[0].started(*instruction, pc)));
        }
        let mut completed = false;
        let mut cycles: usize = 0;
        while !completed && cycles < 100
            invariant
                tick_trace(trace),
                trace.len() == cycles + 1,
                entered(*old(self), trace[0], *instruction, pc),
                trace.last() == *self,
                forall|j: int| 1 <= j <= cycles && !(completed && j == cycles) ==> !finished(#[trigger] trace[j]),
                completed ==> finished(*self),
                cycles <= 100,
                self.wf(),
                old(self).room_for(101),
                old(self).grew_at_most(self, 128 * cycles + 1int),
                self.instruction_count == old(self).instruction_count + 1,
                self.cycle_count == old(self).cycle_count + cycles,
                start_cycle == old(self).cycle_count,
                !completed ==> cycles < 100 || cycles == 100,
                completed ==> cycles >= 1,
            decreases 100 - cycles + (if completed { 0int } else { 1 }),
        {
            let ghost before = *self;
            self.tick();
            proof {
                let old_trace = trace;
                trace = trace.push(*self);
                assert forall|j: int| 0 <= j < trace.len() - 1 implies pipeline_ticked(
                    #[trigger] trace[j],
                    trace[j + 1],
                ) by {
                    if j < old_trace.len() - 1 {
                        assert(trace[j] == old_trace[j] && trace[j + 1] == old_trace[j + 1]);
                    }
                }
            }
            cycles = cycles + 1;
            let last = self.stages.len() - 1;
            if self.stages[last].instruction.is_some() && self.stages[last].is_ready() {
                completed = true;
            }
        }
        assert(trace.len() == cycles + 1);
        self.cycle_count - start_cycle
    }
}

} // verus!
