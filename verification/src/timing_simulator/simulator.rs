//! The timing simulator: an in-order pipeline or a Tomasulo out-of-order
//! engine timing the instructions that it executes on registers and
//! memory.
use vstd::prelude::*;
use super::config::{CacheConfig, PipelineConfig};
use super::pipeline::{Pipeline, PipelineStage, PipelineStageStatus, NUM_STAGES};
use super::tomasulo::{TomasuloProcessor, busy_entries, issue_effect, tick_effect};
use super::visualization::{OutputFormat, PipelineVisualization};
use crate::functional_simulator::instructions::{Instruction, div_rem_i32, law_register_arithmetic, signed_product, signed_value, trunc_div, trunc_rem};
use crate::functional_simulator::memory::Memory;
use crate::functional_simulator::registers::{Registers, RegistersModel};
use crate::functional_simulator::simulator::{decode_instruction, decoded};

verus! {

/// How the timing simulator executes.
pub enum ExecutionMode {
    /// A classic in-order pipeline.
    InOrder(Pipeline),
    /// Out-of-order execution with Tomasulo's algorithm.
    OutOfOrder(TomasuloProcessor),
}

/// The timing simulator.
pub struct Simulator {
    pub execution_mode: ExecutionMode,
    pub registers: Registers,
    pub memory: Memory,
    pub pc: u32,
    pub visualization: Option<PipelineVisualization>,
    /// Maximum number of cycles to run.
    pub max_steps: usize,
}

/// The effective address of a timed load or store.
pub open spec fn timed_address(r: RegistersModel, base: u32, offset: i16) -> u32 {
    r.reg(base).wrapping_add(offset as u32)
}

/// Whether `i` can be applied to the state without an overflow: shift
/// amounts below 32, no `i32::MIN / -1`, a return address that fits, and
/// load and store addresses that leave room for a word.
pub open spec fn timing_defined(i: Instruction, r: RegistersModel, pc: u32) -> bool {
    match i {
        Instruction::Sll { shamt, .. } => shamt < 32,
        Instruction::Srl { shamt, .. } => shamt < 32,
        Instruction::Div { rs, rt } => !(r.reg(rs) == 0x8000_0000u32 && r.reg(rt) == 0xFFFF_FFFFu32),
        Instruction::Jal { .. } => pc + 4 <= u32::MAX,
        Instruction::Jalr { .. } => pc + 4 <= u32::MAX,
        Instruction::Lw { base, offset, .. } => timed_address(r, base, offset) as usize <= usize::MAX - 3,
        Instruction::Sw { base, offset, .. } => timed_address(r, base, offset) as usize <= usize::MAX - 3,
        _ => true,
    }
}

/// The register file after the timing simulator applies `i` at `pc`
/// (loads excepted, see `state_updated`).
pub open spec fn registers_after(i: Instruction, r: RegistersModel, pc: u32) -> RegistersModel {
    match i {
        Instruction::Add { rd, rs, rt } => r.written(rd, r.reg(rs).wrapping_add(r.reg(rt))),
        Instruction::Sub { rd, rs, rt } => r.written(rd, r.reg(rs).wrapping_sub(r.reg(rt))),
        Instruction::And { rd, rs, rt } => r.written(rd, r.reg(rs) & r.reg(rt)),
        Instruction::Or { rd, rs, rt } => r.written(rd, r.reg(rs) | r.reg(rt)),
        Instruction::Xor { rd, rs, rt } => r.written(rd, r.reg(rs) ^ r.reg(rt)),
        Instruction::Nor { rd, rs, rt } => r.written(rd, !(r.reg(rs) | r.reg(rt))),
        Instruction::Slt { rd, rs, rt } => r.written(
            rd,
            if (r.reg(rs) as i32) < (r.reg(rt) as i32) { 1 } else { 0 },
        ),
        Instruction::Addi { rt, rs, imm } => r.written(rt, r.reg(rs).wrapping_add(imm as u32)),
        Instruction::Addiu { rt, rs, imm } => r.written(rt, r.reg(rs).wrapping_add(imm as u32)),
        Instruction::Mult { .. } => RegistersModel {
            hi: i.hilo_effect(r).unwrap().0,
            lo: i.hilo_effect(r).unwrap().1,
            ..r
        },
        Instruction::Mflo { rd } => r.written(rd, r.lo),
        Instruction::Mfhi { rd } => r.written(rd, r.hi),
        Instruction::Div { rs, rt } => if r.reg(rt) != 0 {
            RegistersModel {
                lo: trunc_div(r.reg(rs) as i32 as int, r.reg(rt) as i32 as int) as i32 as u32,
                hi: trunc_rem(r.reg(rs) as i32 as int, r.reg(rt) as i32 as int) as i32 as u32,
                ..r
            }
        } else {
            r
        },
        Instruction::Sll { rd, rt, shamt } => r.written(rd, r.reg(rt) << shamt),
        Instruction::Srl { rd, rt, shamt } => r.written(rd, r.reg(rt) >> shamt),
        Instruction::Lui { rt, imm } => r.written(rt, (imm as u32) << 16u32),
        Instruction::Ori { rt, rs, imm } => r.written(rt, r.reg(rs) | (imm as u32)),
        Instruction::Andi { rt, rs, imm } => r.written(rt, r.reg(rs) & (imm as u32)),
        Instruction::Xori { rt, rs, imm } => r.written(rt, r.reg(rs) ^ (imm as u32)),
        Instruction::Slti { rt, rs, imm } => r.written(
            rt,
            if (r.reg(rs) as i32) < (imm as i32) { 1 } else { 0 },
        ),
        Instruction::Sltiu { rt, rs, imm } => r.written(rt, if r.reg(rs) < (imm as u32) { 1 } else { 0 }),
        Instruction::Jal { .. } => r.written(31, (pc + 4) as u32),
        Instruction::Jalr { rd, .. } => r.written(rd, (pc + 4) as u32),
        _ => r,
    }
}

/// The state after the timing simulator applies `i` at `pc`: registers as
/// `registers_after` says, a load reading its word (the register keeps its
/// value when the read fails; a device's word is left open), and a store
/// writing through the memory's checks.
pub open spec fn state_updated(
    i: Instruction,
    r0: RegistersModel,
    m0: &Memory,
    pc: u32,
    r1: RegistersModel,
    m1: &Memory,
) -> bool {
    match i {
        Instruction::Lw { rt, base, offset } => {
            let a = timed_address(r0, base, offset) as usize;
            &&& m1 == m0
            &&& m0.device_at(a) is None ==> r1 == if m0.readable(a, 4) {
                r0.written(rt, m0.word(m0.phys(a) as int))
            } else {
                r0
            }
        },
        Instruction::Sw { rt, base, offset } => {
            let a = timed_address(r0, base, offset) as usize;
            &&& r1 == r0
            &&& m1.wf()
            &&& m1.same_layout(m0)
            &&& m1.contents() == m0.word_written(m0.contents(), a, r0.reg(rt))
        },
        _ => r1 == registers_after(i, r0, pc) && m1 == m0,
    }
}

/// The instructions that the timing simulator applies to registers only,
/// as `Instruction::execute` does.
pub open spec fn register_only(i: Instruction) -> bool {
    match i {
        Instruction::Add { .. } | Instruction::Sub { .. } | Instruction::And { .. } | Instruction::Or { .. }
        | Instruction::Xor { .. } | Instruction::Nor { .. } | Instruction::Slt { .. } | Instruction::Sll {
            ..
        } | Instruction::Srl { .. } | Instruction::Lui { .. } | Instruction::Ori { .. } | Instruction::Andi {
            ..
        } | Instruction::Xori { .. } | Instruction::Slti { .. } | Instruction::Sltiu { .. }
        | Instruction::Addi { .. } | Instruction::Addiu { .. } | Instruction::Mflo { .. }
        | Instruction::Mfhi { .. } => true,
        _ => false,
    }
}

proof fn lemma_sign_extension(imm: i16) by (bit_vector)
    ensures
        imm as u32 == imm as i32 as u32,
{
}

/// The timing simulator's architectural effect agrees with the functional
/// simulator's: for every register-only instruction, applying it in the
/// timing simulator writes the same register with the same value as
/// `Instruction::execute`, and leaves the memory alone.
pub proof fn law_timing_agrees_with_execute(
    i: Instruction,
    r0: RegistersModel,
    m0: &Memory,
    pc: u32,
    r1: RegistersModel,
    m1: &Memory,
)
    requires
        register_only(i),
        state_updated(i, r0, m0, pc, r1, m1),
    ensures
        i.reg_effect(r0) matches Some((d, v)) && r1 == r0.written(d, v),
        *m1 == *m0,
{
    match i {
        Instruction::Sltiu { imm, .. } => lemma_sign_extension(imm),
        Instruction::Addi { imm, .. } => lemma_sign_extension(imm),
        Instruction::Addiu { imm, .. } => lemma_sign_extension(imm),
        _ => {},
    }
}

/// On the timing simulator, `slt` writes 1 exactly when its first source
/// is less than its second as a signed number, and 0 otherwise.
pub proof fn law_timing_slt_signed(
    rd: u32,
    rs: u32,
    rt: u32,
    r0: RegistersModel,
    m0: &Memory,
    pc: u32,
    r1: RegistersModel,
    m1: &Memory,
)
    requires
        r0.data.len() == 32,
        0 < rd < 32,
        state_updated(Instruction::Slt { rd, rs, rt }, r0, m0, pc, r1, m1),
    ensures
        r1.reg(rd) == (if signed_value(r0.reg(rs)) < signed_value(r0.reg(rt)) { 1u32 } else { 0u32 }),
{
    law_timing_agrees_with_execute(Instruction::Slt { rd, rs, rt }, r0, m0, pc, r1, m1);
    assert((Instruction::Slt { rd, rs, rt }).executed(r0, m0, r1, m1, None));
    law_register_arithmetic(Instruction::Slt { rd, rs, rt }, r0, m0, r1, m1, None);
}

/// Checks `timing_defined`.
fn timing_defined_here(i: Instruction, registers: &Registers, pc: u32) -> (r: bool)
    ensures
        r == timing_defined(i, registers@, pc),
{
    match i {
        Instruction::Sll { shamt, .. } => shamt < 32,
        Instruction::Srl { shamt, .. } => shamt < 32,
        Instruction::Div { rs, rt } => !(registers.read(rs) == 0x8000_0000u32 && registers.read(rt)
            == 0xFFFF_FFFFu32),
        Instruction::Jal { .. } => pc <= u32::MAX - 4,
        Instruction::Jalr { .. } => pc <= u32::MAX - 4,
        Instruction::Lw { base, offset, .. } => (registers.read(base).wrapping_add(offset as u32)
            as usize) <= usize::MAX - 3,
        Instruction::Sw { base, offset, .. } => (registers.read(base).wrapping_add(offset as u32)
            as usize) <= usize::MAX - 3,
        _ => true,
    }
}

/// Applies `instruction` at `pc` to the registers and memory.
fn update_state_helper(registers: &mut Registers, memory: &mut Memory, instruction: &Instruction, pc: u32)
    requires
        old(memory).wf(),
        old(memory).translation_safe(),
        timing_defined(*instruction, old(registers)@, pc),
    ensures
        final(memory).wf(),
        final(memory).same_layout(old(memory)),
        final(memory).device_bases() == old(memory).device_bases(),
        state_updated(*instruction, old(registers)@, old(memory), pc, final(registers)@, final(memory)),
{
    match *instruction {
        Instruction::Add { rd, rs, rt } => {
            let v = registers.read(rs).wrapping_add(registers.read(rt));
            registers.write(rd, v);
        },
        Instruction::Sub { rd, rs, rt } => {
            let v = registers.read(rs).wrapping_sub(registers.read(rt));
            registers.write(rd, v);
        },
        Instruction::And { rd, rs, rt } => {
            let v = registers.read(rs) & registers.read(rt);
            registers.write(rd, v);
        },
        Instruction::Or { rd, rs, rt } => {
            let v = registers.read(rs) | registers.read(rt);
            registers.write(rd, v);
        },
        Instruction::Xor { rd, rs, rt } => {
            let v = registers.read(rs) ^ registers.read(rt);
            registers.write(rd, v);
        },
        Instruction::Nor { rd, rs, rt } => {
            let v = !(registers.read(rs) | registers.read(rt));
            registers.write(rd, v);
        },
        Instruction::Slt { rd, rs, rt } => {
            let v: u32 = if (registers.read(rs) as i32) < (registers.read(rt) as i32) {
                1
            } else {
                0
            };
            registers.write(rd, v);
        },
        Instruction::Addi { rt, rs, imm } | Instruction::Addiu { rt, rs, imm } => {
            let v = registers.read(rs).wrapping_add(imm as u32);
            registers.write(rt, v);
        },
        Instruction::Lw { rt, base, offset } => {
            let address = registers.read(base).wrapping_add(offset as u32);
            match memory.read_word(address as usize) {
                Some(value) => registers.write(rt, value),
                None => {},
            }
        },
        Instruction::Sw { rt, base, offset } => {
            let address = registers.read(base).wrapping_add(offset as u32);
            let value = registers.read(rt);
            memory.write_word(address as usize, value);
        },
        Instruction::Mult { rs, rt } => {
            let (hi, lo) = signed_product(registers.read(rs), registers.read(rt));
            registers.set_hi(hi);
            registers.set_lo(lo);
        },
        Instruction::Mflo { rd } => {
            let v = registers.get_lo();
            registers.write(rd, v);
        },
        Instruction::Mfhi { rd } => {
            let v = registers.get_hi();
            registers.write(rd, v);
        },
        Instruction::Div { rs, rt } => {
            let ra = registers.read(rs);
            let rb = registers.read(rt);
            let a = ra as i32;
            let b = rb as i32;
            assert((ra == 0x8000_0000u32) == (a == i32::MIN) && (rb == 0xFFFF_FFFFu32) == (b == -1i32)
                && (rb != 0) == (b != 0)) by (bit_vector)
                requires
                    a == ra as i32,
                    b == rb as i32,
            ;
            if b != 0 {
                let (q, r) = div_rem_i32(a, b);
                registers.set_lo(q as u32);
                registers.set_hi(r as u32);
            }
        },
        Instruction::Sll { rd, rt, shamt } => {
            let v = registers.read(rt) << shamt;
            registers.write(rd, v);
        },
        Instruction::Srl { rd, rt, shamt } => {
            let v = registers.read(rt) >> shamt;
            registers.write(rd, v);
        },
        Instruction::Lui { rt, imm } => {
            registers.write(rt, (imm as u32) << 16u32);
        },
        Instruction::Ori { rt, rs, imm } => {
            let v = registers.read(rs) | (imm as u32);
            registers.write(rt, v);
        },
        Instruction::Andi { rt, rs, imm } => {
            let v = registers.read(rs) & (imm as u32);
            registers.write(rt, v);
        },
        Instruction::Xori { rt, rs, imm } => {
            let v = registers.read(rs) ^ (imm as u32);
            registers.write(rt, v);
        },
        Instruction::Slti { rt, rs, imm } => {
            let v: u32 = if (registers.read(rs) as i32) < (imm as i32) {
                1
            } else {
                0
            };
            registers.write(rt, v);
        },
        Instruction::Sltiu { rt, rs, imm } => {
            let v: u32 = if registers.read(rs) < (imm as u32) {
                1
            } else {
                0
            };
            registers.write(rt, v);
        },
        Instruction::Jal { .. } => {
            registers.write(31, pc + 4);
        },
        Instruction::Jalr { rd, .. } => {
            registers.write(rd, pc + 4);
        },
        _ => {},
    }
}


/// The program counter after the timing simulator executes `i` at `pc`,
/// with registers `r` after the instruction: taken branches are relative to
/// the next instruction, jumps keep the top four bits, `jr` goes to the
/// register's value.
pub open spec fn timing_next_pc(i: Instruction, r: RegistersModel, pc: u32) -> u32 {
    match i {
        Instruction::Beq { rs, rt, offset } => if r.reg(rs) == r.reg(rt) {
            pc.wrapping_add(4).wrapping_add(((offset as u32) << 2u32) as u32)
        } else {
            (pc + 4) as u32
        },
        Instruction::Bne { rs, rt, offset } => if r.reg(rs) != r.reg(rt) {
            pc.wrapping_add(4).wrapping_add(((offset as u32) << 2u32) as u32)
        } else {
            (pc + 4) as u32
        },
        Instruction::J { target } => (pc & 0xF0000000) | (target << 2u32),
        Instruction::Jal { target } => (pc & 0xF0000000) | (target << 2u32),
        Instruction::Jr { rs } => r.reg(rs),
        _ => (pc + 4) as u32,
    }
}

/// The next program counter (see `timing_next_pc`).
fn next_pc(i: Instruction, registers: &Registers, pc: u32) -> (r: u32)
    requires
        pc + 4 <= u32::MAX,
    ensures
        r == timing_next_pc(i, registers@, pc),
{
    match i {
        Instruction::Beq { rs, rt, offset } => {
            if registers.read(rs) == registers.read(rt) {
                pc.wrapping_add(4).wrapping_add((offset as u32) << 2u32)
            } else {
                pc + 4
            }
        },
        Instruction::Bne { rs, rt, offset } => {
            if registers.read(rs) != registers.read(rt) {
                pc.wrapping_add(4).wrapping_add((offset as u32) << 2u32)
            } else {
                pc + 4
            }
        },
        Instruction::J { target } => (pc & 0xF0000000) | (target << 2u32),
        Instruction::Jal { target } => (pc & 0xF0000000) | (target << 2u32),
        Instruction::Jr { rs } => registers.read(rs),
        _ => pc + 4,
    }
}

/// The first stage after it is marked busy with `instr` at `pc`.
pub open spec fn fetch_stage(old: Seq<PipelineStage>, instr: Instruction, pc: u32) -> PipelineStage {
    PipelineStage { instruction: Some(instr), pc: pc, status: PipelineStageStatus::Busy, ..old[0] }
}

/// Stage `k` of the diagram after `show_fetch`: the first stage shows
/// `instr` at `pc`; a later stage whose predecessor (the first stage as just
/// marked, or an untouched earlier stage) is busy takes over its
/// instruction and address and becomes busy; any other stage is unchanged.
pub open spec fn shown_at(old: Seq<PipelineStage>, k: int, instr: Instruction, pc: u32) -> PipelineStage {
    if k == 0 {
        fetch_stage(old, instr, pc)
    } else {
        let prev = if k == 1 { fetch_stage(old, instr, pc) } else { old[k - 1] };
        if prev.status == PipelineStageStatus::Busy {
            PipelineStage {
                instruction: prev.instruction,
                pc: prev.pc,
                status: PipelineStageStatus::Busy,
                ..old[k]
            }
        } else {
            old[k]
        }
    }
}

/// Marks the first stage busy with `instr` at `pc` and lets each busy
/// stage's instruction show in the stage after it (see `shown_at`).
fn show_fetch(pipeline: &mut Pipeline, instr: Instruction, pc: u32)
    requires
        old(pipeline).wf(),
    ensures
        final(pipeline).wf(),
        *final(pipeline) == (Pipeline { stages: final(pipeline).stages, ..*old(pipeline) }),
        final(pipeline).stages@ == Seq::new(
            old(pipeline).stages@.len(),
            |k: int| shown_at(old(pipeline).stages@, k, instr, pc),
        ),
{
    let ghost s0 = pipeline.stages@;
    pipeline.stages[0].instruction = Some(instr);
    pipeline.stages[0].status = PipelineStageStatus::Busy;
    pipeline.stages[0].pc = pc;
    let ghost mid = pipeline.stages@;
    assert(mid[0] == fetch_stage(s0, instr, pc));
    let mut i: usize = NUM_STAGES - 1;
    while i >= 1
        invariant
            i < NUM_STAGES,
            s0.len() == NUM_STAGES,
            mid.len() == NUM_STAGES,
            mid[0] == fetch_stage(s0, instr, pc),
            forall|k: int| 1 <= k < NUM_STAGES ==> mid[k] == s0[k],
            pipeline.wf(),
            *pipeline == (Pipeline { stages: pipeline.stages, ..*old(pipeline) }),
            forall|k: int| 0 <= k <= i ==> #[trigger] pipeline.stages@[k] == mid[k],
            forall|k: int| i < k < NUM_STAGES ==> #[trigger] pipeline.stages@[k] == shown_at(s0, k, instr, pc),
        decreases i,
    {
        if pipeline.stages[i - 1].status == PipelineStageStatus::Busy {
            let prev_instr = pipeline.stages[i - 1].instruction;
            let prev_pc = pipeline.stages[i - 1].pc;
            pipeline.stages[i].instruction = prev_instr;
            pipeline.stages[i].pc = prev_pc;
            pipeline.stages[i].status = PipelineStageStatus::Busy;
        }
        i = i - 1;
    }
    assert(pipeline.stages@ =~= Seq::new(s0.len(), |k: int| shown_at(s0, k, instr, pc)));
}

/// The memory a timing simulator runs over: well formed, translatable,
/// without devices, and small enough for every program counter below its
/// size to leave room for the next instruction.
pub open spec fn timing_memory(m: &Memory) -> bool {
    &&& m.wf()
    &&& m.translation_safe()
}

/// Whether fetching the word at `a` from `m` may give `w`: the backing
/// store's word when it is readable there; any word when a device is
/// mapped at `a`.
pub open spec fn fetches(m: &Memory, a: usize, w: u32) -> bool {
    m.device_at(a) is Some || (m.readable(a, 4) && w == m.word(m.phys(a) as int))
}

/// Whether a cycle at `pc` cannot fetch: the next program counter would
/// overflow, or the word is neither readable nor on a device.
pub open spec fn stuck_at(m: &Memory, pc: u32) -> bool {
    pc + 4 > u32::MAX || (m.device_at(pc as usize) is None && !m.readable(pc as usize, 4))
}

/// One cycle of the in-order run over `pipeline`: fetch the word at the
/// program counter (stopping when it cannot be read), show it in the
/// pipeline, stop at a zero word after the fifth cycle or at an invalid
/// instruction, time it through the pipeline, apply it to the state and
/// move the program counter. Returns whether the run goes on: the new
/// program counter lies in memory. A cycle whose instruction would
/// overflow stops the run instead.
fn in_order_cycle(
    pipeline: &mut Pipeline,
    registers: &mut Registers,
    memory: &mut Memory,
    pc: &mut u32,
    cycles: usize,
) -> (cont: bool)
    requires
        old(pipeline).wf(),
        old(pipeline).room_for(101),
        timing_memory(old(memory)),
    ensures
        final(pipeline).wf(),
        old(pipeline).grew_at_most(final(pipeline), 12801),
        timing_memory(final(memory)),
        final(memory).same_layout(old(memory)),
        cont ==> *final(pc) < (final(memory).msize() as u32),
        in_order_effect(
            (old(registers)@, *old(memory), *old(pc)),
            cycles as int,
            (final(registers)@, *final(memory), *final(pc)),
            cont,
        ),
{
    if *pc > u32::MAX - 4 {
        return false;
    }
    let instr_word = match memory.read_word(*pc as usize) {
        Some(w) => w,
        None => return false,
    };
    assert(fetches(memory, *pc as usize, instr_word));
    let instruction = decode_instruction(instr_word);
    show_fetch(pipeline, instruction, *pc);
    if let Instruction::Nop = instruction {
        if cycles > 5 && instr_word == 0 {
            return false;
        }
    }
    if let Instruction::InvalidInstruction = instruction {
        return false;
    }
    if !timing_defined_here(instruction, registers, *pc) {
        return false;
    }
    let _result = pipeline.execute(&instruction, registers, *pc);
    update_state_helper(registers, memory, &instruction, *pc);
    *pc = next_pc(instruction, registers, *pc);
    *pc < #[verifier::truncate] (memory.get_size() as u32)
}

impl Simulator {
    /// A simulator over `memory_size` bytes of zeroed memory and cleared
    /// registers: out of order when the pipeline configuration asks for
    /// Tomasulo's algorithm, otherwise in order with the configured caches.
    /// Visualization is on and at most 1000 cycles run.
    pub fn new(
        pipeline_config: PipelineConfig,
        instr_cache_config: CacheConfig,
        data_cache_config: CacheConfig,
        memory_size: usize,
    ) -> (r: Self)
        requires
            0 < memory_size <= isize::MAX,
            CacheConfig::valid_geometry(instr_cache_config.size, instr_cache_config.associativity, instr_cache_config.block_size),
            CacheConfig::valid_geometry(data_cache_config.size, data_cache_config.associativity, data_cache_config.block_size),
        ensures
            r.registers@.data == Seq::new(32, |i: int| 0u32),
            r.memory.wf(),
            r.memory.msize() == memory_size,
            r.memory.contents() == Seq::new(memory_size as nat, |i: int| 0u8),
            r.pc == 0,
            r.visualization == Some(PipelineVisualization::spec_new()),
            r.max_steps == 1000,
            pipeline_config.tomasulo_config is Some <==> r.execution_mode is OutOfOrder,
            r.execution_mode matches ExecutionMode::InOrder(p) ==> p.wf()
                && p.cache_hierarchy.l1_data_cache.config == data_cache_config
                && p.cache_hierarchy.l1_instr_cache.config == instr_cache_config,
            r.execution_mode matches ExecutionMode::OutOfOrder(t) ==> t.wf()
                && t.num_reservation_stations == pipeline_config.tomasulo_config.unwrap().num_reservation_stations
                && t.rob_size == pipeline_config.tomasulo_config.unwrap().rob_size
                && t.registers@ == r.registers@,
            r.ready_to_run(),
    {
        let registers = Registers::new();
        let memory = Memory::new(memory_size);
        let memory_clone = memory.clone();
        let execution_mode = match pipeline_config.tomasulo_config {
            Some(tomasulo_config) => {
                let registers_clone = registers.clone();
                ExecutionMode::OutOfOrder(
                    TomasuloProcessor::new(
                        tomasulo_config.num_reservation_stations,
                        tomasulo_config.rob_size,
                        registers_clone,
                        memory_clone,
                    ),
                )
            },
            None => ExecutionMode::InOrder(
                Pipeline::new(&pipeline_config, instr_cache_config, data_cache_config, memory_clone),
            ),
        };
        Self {
            execution_mode,
            registers,
            memory,
            pc: 0,
            visualization: Some(PipelineVisualization::new()),
            max_steps: 1000,
        }
    }

    /// As `new`, with visualization on or off.
    pub fn new_with_visualization(
        pipeline_config: PipelineConfig,
        instr_cache_config: CacheConfig,
        data_cache_config: CacheConfig,
        memory_size: usize,
        enable_visualization: bool,
    ) -> (r: Self)
        requires
            0 < memory_size <= isize::MAX,
            CacheConfig::valid_geometry(instr_cache_config.size, instr_cache_config.associativity, instr_cache_config.block_size),
            CacheConfig::valid_geometry(data_cache_config.size, data_cache_config.associativity, data_cache_config.block_size),
        ensures
            r.memory.wf(),
            r.memory.msize() == memory_size,
            r.pc == 0,
            r.max_steps == 1000,
            r.visualization == if enable_visualization {
                Some(PipelineVisualization::spec_new())
            } else {
                None
            },
            pipeline_config.tomasulo_config is Some <==> r.execution_mode is OutOfOrder,
    {
        let mut simulator = Self::new(pipeline_config, instr_cache_config, data_cache_config, memory_size);
        if !enable_visualization {
            simulator.visualization = None;
        }
        simulator
    }

    /// Whether the pipeline's busy or stalled stages write register
    /// `reg_num`; always false out of order, where registers are renamed.
    pub fn is_register_being_written(&self, reg_num: u32) -> (r: bool)
        ensures
            self.execution_mode matches ExecutionMode::OutOfOrder(_) ==> !r,
            self.execution_mode matches ExecutionMode::InOrder(p) ==> r == exists|k: int|
                0 <= k < p.stages@.len() && ((#[trigger] p.stages@[k]).status
                    == PipelineStageStatus::Busy || p.stages@[k].status == PipelineStageStatus::Stalled)
                    && p.stages@[k].target_register == Some(reg_num),
    {
        match &self.execution_mode {
            ExecutionMode::InOrder(pipeline) => pipeline.is_register_being_written(reg_num),
            ExecutionMode::OutOfOrder(_) => false,
        }
    }

    /// Turns visualization on (keeping its settings when already on) or off.
    pub fn enable_visualization(&mut self, enable: bool)
        ensures
            enable && old(self).visualization is Some ==> final(self).visualization == old(self).visualization,
            enable && old(self).visualization is None ==> final(self).visualization == Some(
                PipelineVisualization::spec_new(),
            ),
            !enable ==> final(self).visualization is None,
            final(self).pc == old(self).pc,
            final(self).max_steps == old(self).max_steps,
    {
        if enable {
            if self.visualization.is_none() {
                self.visualization = Some(PipelineVisualization::new());
            }
        } else {
            self.visualization = None;
        }
    }

    /// Sets what an active visualization shows.
    pub fn configure_visualization(&mut self, show_hazards: bool, show_instruction_flow: bool)
        ensures
            old(self).visualization matches Some(v) ==> final(self).visualization == Some(
                PipelineVisualization { show_hazards, show_instruction_flow, ..v },
            ),
            old(self).visualization is None ==> final(self).visualization is None,
            final(self).pc == old(self).pc,
            final(self).max_steps == old(self).max_steps,
    {
        if let Some(v) = self.visualization {
            self.visualization = Some(PipelineVisualization { show_hazards, show_instruction_flow, ..v });
        }
    }

    /// Sets an active visualization's output format.
    pub fn set_visualization_format(&mut self, format: OutputFormat)
        ensures
            old(self).visualization matches Some(v) ==> final(self).visualization == Some(
                PipelineVisualization { output_format: format, ..v },
            ),
            old(self).visualization is None ==> final(self).visualization is None,
            final(self).pc == old(self).pc,
            final(self).max_steps == old(self).max_steps,
    {
        if let Some(v) = self.visualization {
            self.visualization = Some(PipelineVisualization { output_format: format, ..v });
        }
    }

    pub fn set_max_steps(&mut self, steps: usize)
        ensures
            final(self).max_steps == steps,
            final(self).pc == old(self).pc,
            final(self).visualization == old(self).visualization,
    {
        self.max_steps = steps;
    }
}


/// Whether a processor can run `n` more cycles: well formed, with room in
/// its counters, over a timing memory.
pub open spec fn processor_ready(t: &TomasuloProcessor, n: int) -> bool {
    &&& t.wf()
    &&& t.room_for(n)
    &&& timing_memory(&t.memory)
}

/// Whether a pipeline can take `n` more instructions.
pub open spec fn pipeline_ready(p: &Pipeline, n: int) -> bool {
    p.wf() && p.room_for(101 * n)
}

/// One cycle of the out-of-order run: fetch the word at the program
/// counter (stopping when it cannot be read), stop at a zero word after the
/// fifth cycle or at an invalid instruction, and issue it; when it issues,
/// move the program counter, let the processor run a cycle, and take its
/// registers and memory as the architectural state. Returns whether the
/// run goes on: the instruction did not issue, or the new program counter
/// lies in memory. A branch whose predicted target would overflow stops
/// the run instead.
fn out_of_order_cycle(
    processor: &mut TomasuloProcessor,
    registers: &mut Registers,
    memory: &mut Memory,
    pc: &mut u32,
    cycles: usize,
) -> (cont: bool)
    requires
        processor_ready(old(processor), 1),
        timing_memory(old(memory)),
    ensures
        processor_ready(final(processor), 0),
        final(processor).cycles <= old(processor).cycles + 1,
        final(processor).instructions_issued <= old(processor).instructions_issued + 1,
        final(processor).instructions_committed <= old(processor).instructions_committed + 4,
        final(processor).branch_mispredictions <= old(processor).branch_mispredictions + 1,
        final(processor).instructions_executed <= old(processor).instructions_executed
            + old(processor).functional_units@.len(),
        final(processor).functional_units@.len() == old(processor).functional_units@.len(),
        old(processor).cycles <= final(processor).cycles,
        old(processor).instructions_issued <= final(processor).instructions_issued,
        old(processor).instructions_committed <= final(processor).instructions_committed,
        old(processor).branch_mispredictions <= final(processor).branch_mispredictions,
        old(processor).instructions_executed <= final(processor).instructions_executed,
        timing_memory(final(memory)),
        out_of_order_effect(
            (*old(processor), old(registers)@, *old(memory), *old(pc)),
            cycles as int,
            (*final(processor), final(registers)@, *final(memory), *final(pc)),
            cont,
        ),
{
    if *pc > u32::MAX - 4 {
        return false;
    }
    let instr_word = match memory.read_word(*pc as usize) {
        Some(w) => w,
        None => return false,
    };
    assert(fetches(memory, *pc as usize, instr_word));
    let instruction = decode_instruction(instr_word);
    if let Instruction::Nop = instruction {
        if cycles > 5 && instr_word == 0 {
            return false;
        }
    }
    if let Instruction::InvalidInstruction = instruction {
        return false;
    }
    if instruction.is_branch_or_jump() {
        if let Some(t) = instruction.get_immediate_target() {
            if t > u32::MAX - *pc {
                return false;
            }
        }
    }
    let ghost s0: OooState = (*processor, registers@, *memory, *pc);
    let issued = processor.issue(instruction, *pc);
    if !issued {
        proof {
            let s1: OooState = (*processor, registers@, *memory, *pc);
            assert(s1 == s0);
            let i = decoded(instr_word);
            assert(!stuck_at(&s0.2, s0.3));
            assert(fetches(&s0.2, s0.3 as usize, instr_word));
            assert(!((i is Nop && cycles > 5 && instr_word == 0) || i is InvalidInstruction));
            assert(!(i.branches() && (i.immediate_target() matches Some(t) && t > u32::MAX - s0.3)));
            assert(!(busy_entries(s0.0.reorder_buffer@) < s0.0.rob_size && (exists|k: int|
                s0.0.first_free_station(k)) && (exists|k: int| s0.0.first_free_entry(k))));
            assert(out_of_order_effect(s0, cycles as int, s1, true));
        }
        return true;
    }
    let ghost mid = *processor;
    *pc = next_pc(instruction, registers, *pc);
    processor.tick();
    assert(tick_effect(mid, *processor));
    *registers = processor.registers.clone();
    *memory = processor.memory.clone();
    let cont = *pc < #[verifier::truncate] (memory.get_size() as u32);
    proof {
        let s1: OooState = (*processor, registers@, *memory, *pc);
        assert(issue_effect(s0.0, instruction, s0.3, mid, true));
        assert(out_of_order_effect(s0, cycles as int, s1, cont));
    }
    cont
}

/// The architectural state a run changes: registers, memory and program
/// counter.
pub type ArchState = (RegistersModel, Memory, u32);

/// The effect of in-order cycle number `cycle` on the architectural state
/// `s0` (see `in_order_cycle`): `s1` and whether the run goes on.
pub open spec fn in_order_effect(s0: ArchState, cycle: int, s1: ArchState, cont: bool) -> bool {
    let (r0, m0, pc0) = s0;
    let (r1, m1, pc1) = s1;
    let a = pc0 as usize;
    if stuck_at(&m0, pc0) {
        !cont && s1 == s0
    } else {
        exists|w: u32|
            #[trigger] fetches(&m0, a, w) && {
                let i = decoded(w);
                if (i is Nop && cycle > 5 && w == 0) || i is InvalidInstruction || !timing_defined(i, r0, pc0) {
                    !cont && s1 == s0
                } else {
                    &&& state_updated(i, r0, &m0, pc0, r1, &m1)
                    &&& pc1 == timing_next_pc(i, r1, pc0)
                    &&& cont == (pc1 < (m1.msize() as u32))
                }
            }
    }
}

/// Whether `trace` lists the states of in-order cycles that all go on,
/// from `s0`: cycle `j + 1` takes `trace[j]` to `trace[j + 1]`.
pub open spec fn in_order_trace(s0: ArchState, trace: Seq<ArchState>) -> bool {
    &&& trace.len() > 0
    &&& trace[0] == s0
    &&& forall|j: int|
        0 <= j < trace.len() - 1 ==> in_order_effect(#[trigger] trace[j], j + 1, trace[j + 1], true)
}

/// Whether an in-order run of at most `n` cycles may take `s0` to `s`:
/// after cycles that go on, either the cycles are used up or the next
/// cycle stops the run.
pub open spec fn in_order_ran(s0: ArchState, n: nat, s: ArchState) -> bool {
    exists|trace: Seq<ArchState>|
        #[trigger] in_order_trace(s0, trace) && trace.len() <= n + 1 && ((trace.len() == n + 1
            && s == trace.last()) || (trace.len() <= n && in_order_effect(
            trace.last(),
            trace.len() as int,
            s,
            false,
        )))
}

/// The state an out-of-order run changes: the processor, registers,
/// memory and program counter.
pub type OooState = (TomasuloProcessor, RegistersModel, Memory, u32);

/// The effect of out-of-order cycle number `cycle` on `s0` (see
/// `out_of_order_cycle`): `s1` and whether the run goes on. A cycle that
/// issues the fetched instruction lets the processor run one `tick` after
/// the issue, and the architectural registers and memory become the
/// processor's.
pub open spec fn out_of_order_effect(s0: OooState, cycle: int, s1: OooState, cont: bool) -> bool {
    let (p0, r0, m0, pc0) = s0;
    let (p1, r1, m1, pc1) = s1;
    let a = pc0 as usize;
    if stuck_at(&m0, pc0) {
        !cont && s1 == s0
    } else {
        exists|w: u32|
            #[trigger] fetches(&m0, a, w) && {
                let i = decoded(w);
                if (i is Nop && cycle > 5 && w == 0) || i is InvalidInstruction || (i.branches()
                    && (i.immediate_target() matches Some(t) && t > u32::MAX - pc0)) {
                    !cont && s1 == s0
                } else if !(busy_entries(p0.reorder_buffer@) < p0.rob_size && (exists|k: int|
                    p0.first_free_station(k)) && (exists|k: int| p0.first_free_entry(k))) {
                    cont && s1 == s0
                } else {
                    &&& exists|mid: TomasuloProcessor|
                        issue_effect(p0, i, pc0, mid, true) && #[trigger] tick_effect(mid, p1)
                    &&& r1 == p1.registers@
                    &&& m1.contents() == p1.memory.contents()
                    &&& pc1 == timing_next_pc(i, r0, pc0)
                    &&& cont == (pc1 < (m1.msize() as u32))
                }
            }
    }
}

/// Whether `trace` lists the states of out-of-order cycles that all go
/// on, from `s0`: cycle `j` takes `trace[j]` to `trace[j + 1]`.
pub open spec fn out_of_order_trace(s0: OooState, trace: Seq<OooState>) -> bool {
    &&& trace.len() > 0
    &&& trace[0] == s0
    &&& forall|j: int|
        0 <= j < trace.len() - 1 ==> out_of_order_effect(#[trigger] trace[j], j, trace[j + 1], true)
}

/// Whether an out-of-order run of at most `n` cycles may take `s0` to `s`:
/// after cycles that go on, either the cycles are used up or the next
/// cycle stops the run.
pub open spec fn out_of_order_ran(s0: OooState, n: nat, s: OooState) -> bool {
    exists|trace: Seq<OooState>|
        #[trigger] out_of_order_trace(s0, trace) && trace.len() <= n + 1 && ((trace.len() == n + 1
            && s == trace.last()) || (trace.len() <= n && out_of_order_effect(
            trace.last(),
            trace.len() - 1,
            s,
            false,
        )))
}

impl Simulator {
    /// The architectural state.
    pub open spec fn arch(&self) -> ArchState {
        (self.registers@, self.memory, self.pc)
    }

    /// What a run needs: a timing memory and an engine that can run
    /// `max_steps` cycles.
    pub open spec fn ready_to_run(&self) -> bool {
        &&& timing_memory(&self.memory)
        &&& match self.execution_mode {
            ExecutionMode::InOrder(p) => pipeline_ready(&p, self.max_steps as int),
            ExecutionMode::OutOfOrder(t) => processor_ready(&t, self.max_steps as int),
        }
    }

    /// Runs at most `max_steps` cycles in the configured mode (see
    /// `in_order_cycle` and `out_of_order_cycle`).
    pub fn run(&mut self)
        requires
            old(self).ready_to_run(),
        ensures
            timing_memory(&final(self).memory),
            final(self).max_steps == old(self).max_steps,
            old(self).execution_mode is InOrder ==> in_order_ran(
                old(self).arch(),
                old(self).max_steps as nat,
                final(self).arch(),
            ),
            old(self).execution_mode matches ExecutionMode::OutOfOrder(t0) ==> final(self).execution_mode matches ExecutionMode::OutOfOrder(t1)
                && out_of_order_ran(
                (t0, old(self).registers@, old(self).memory, old(self).pc),
                old(self).max_steps as nat,
                (t1, final(self).registers@, final(self).memory, final(self).pc),
            ),
    {
        let ghost s0 = self.arch();
        let ghost mut fin: OooState = (arbitrary(), s0.0, s0.1, s0.2);
        let ghost mut o_start: OooState = fin;
        match &mut self.execution_mode {
            ExecutionMode::InOrder(pipeline) => {
                let fetched_word = if (self.pc as usize) <= usize::MAX - 3 {
                    self.memory.read_word(self.pc as usize)
                } else {
                    None
                };
                if let Some(instr_word) = fetched_word {
                    let fetched = decode_instruction(instr_word);
                    pipeline.stages[0].instruction = Some(fetched);
                    pipeline.stages[0].status = PipelineStageStatus::Busy;
                    pipeline.stages[0].pc = self.pc;
                }
                let max_steps = self.max_steps;
                let mut cycles: usize = 0;
                let ghost mut trace: Seq<ArchState> = seq![s0];
                while cycles < max_steps
                    invariant_except_break
                        cycles <= max_steps,
                        pipeline_ready(pipeline, (max_steps - cycles) as int),
                        in_order_trace(s0, trace),
                        trace.len() == cycles + 1,
                        trace.last() == (self.registers@, self.memory, self.pc),
                    invariant
                        max_steps == self.max_steps,
                        timing_memory(&self.memory),
                    ensures
                        max_steps == self.max_steps,
                        timing_memory(&self.memory),
                        in_order_ran(s0, max_steps as nat, (self.registers@, self.memory, self.pc)),
                    decreases max_steps - cycles,
                {
                    let ghost t: ArchState = (self.registers@, self.memory, self.pc);
                    cycles = cycles + 1;
                    let cont = in_order_cycle(pipeline, &mut self.registers, &mut self.memory, &mut self.pc, cycles);
                    let ghost now: ArchState = (self.registers@, self.memory, self.pc);
                    assert(in_order_effect(t, cycles as int, now, cont));
                    if !cont {
                        assert(in_order_trace(s0, trace));
                        break;
                    }
                    proof {
                        let old_trace = trace;
                        trace = trace.push(now);
                        assert forall|j: int| 0 <= j < trace.len() - 1 implies in_order_effect(
                            #[trigger] trace[j],
                            j + 1,
                            trace[j + 1],
                            true,
                        ) by {
                            if j < old_trace.len() - 1 {
                                assert(trace[j] == old_trace[j] && trace[j + 1] == old_trace[j + 1]);
                            }
                        }
                    }
                }

            },
            ExecutionMode::OutOfOrder(processor) => {
                let max_steps = self.max_steps;
                let mut cycles: usize = 0;
                let ghost o0: OooState = (*processor, self.registers@, self.memory, self.pc);
                proof {
                    o_start = o0;
                }
                let ghost mut trace: Seq<OooState> = seq![o0];
                while cycles < max_steps
                    invariant_except_break
                        cycles <= max_steps,
                        processor_ready(processor, (max_steps - cycles) as int),
                        out_of_order_trace(o0, trace),
                        trace.len() == cycles + 1,
                        trace.last() == (*processor, self.registers@, self.memory, self.pc),
                    invariant
                        max_steps == self.max_steps,
                        timing_memory(&self.memory),
                        after_borrow(self.execution_mode) == ExecutionMode::OutOfOrder(*final(processor)),
                    ensures
                        max_steps == self.max_steps,
                        timing_memory(&self.memory),
                        out_of_order_ran(o0, max_steps as nat, (*processor, self.registers@, self.memory, self.pc)),
                    decreases max_steps - cycles,
                {
                    let ghost t: OooState = (*processor, self.registers@, self.memory, self.pc);
                    proof {
                        let len = processor.functional_units@.len() as int;
                        let n = (max_steps - cycles) as int;
                        assert(len * n == len + len * (n - 1)) by (nonlinear_arith);
                        assert(len * (n - 1) >= 0) by (nonlinear_arith)
                            requires
                                len >= 0,
                                n >= 1,
                        ;
                    }
                    let cont = out_of_order_cycle(processor, &mut self.registers, &mut self.memory, &mut self.pc, cycles);
                    let ghost now: OooState = (*processor, self.registers@, self.memory, self.pc);
                    assert(out_of_order_effect(t, cycles as int, now, cont));
                    cycles = cycles + 1;
                    if !cont {
                        assert(out_of_order_trace(o0, trace));
                        break;
                    }
                    proof {
                        let old_trace = trace;
                        trace = trace.push(now);
                        assert forall|j: int| 0 <= j < trace.len() - 1 implies out_of_order_effect(
                            #[trigger] trace[j],
                            j,
                            trace[j + 1],
                            true,
                        ) by {
                            if j < old_trace.len() - 1 {
                                assert(trace[j] == old_trace[j] && trace[j + 1] == old_trace[j + 1]);
                            }
                        }
                    }
                }
                proof {
                    fin = (*processor, self.registers@, self.memory, self.pc);
                }
            },
        }
        proof {
            if old(self).execution_mode is OutOfOrder {
                assert(self.execution_mode matches ExecutionMode::OutOfOrder(t1) && t1 == fin.0);
                assert(o_start == (old(self).execution_mode->OutOfOrder_0, old(self).registers@, old(self).memory, old(self).pc));
            }
        }
    }
}

/// Whether a busy or stalled stage of `st` writes register `reg`.
pub open spec fn pending_write(st: Seq<PipelineStage>, reg: u32) -> bool {
    exists|k: int|
        0 <= k < st.len() && ((#[trigger] st[k]).status == PipelineStageStatus::Busy || st[k].status
            == PipelineStageStatus::Stalled) && st[k].target_register == Some(reg)
}

/// Whether `i` reads a register that an in-order pipeline is still
/// writing (register-register arithmetic, `addi`, `lw` and `sw`).
pub open spec fn reads_pending(i: Instruction, st: Seq<PipelineStage>) -> bool {
    match i {
        Instruction::Add { rs, rt, .. } => pending_write(st, rs) || pending_write(st, rt),
        Instruction::Sub { rs, rt, .. } => pending_write(st, rs) || pending_write(st, rt),
        Instruction::And { rs, rt, .. } => pending_write(st, rs) || pending_write(st, rt),
        Instruction::Or { rs, rt, .. } => pending_write(st, rs) || pending_write(st, rt),
        Instruction::Slt { rs, rt, .. } => pending_write(st, rs) || pending_write(st, rt),
        Instruction::Addi { rs, .. } => pending_write(st, rs),
        Instruction::Lw { base, .. } => pending_write(st, base),
        Instruction::Sw { base, rt, .. } => pending_write(st, base) || pending_write(st, rt),
        _ => false,
    }
}

/// The instruction that a step fetches from `m` at `pc`: the decoded word,
/// or `InvalidInstruction` when the word cannot be read.
pub open spec fn fetched_at(m: &Memory, pc: u32) -> Instruction {
    let a = pc as usize;
    if m.readable(a, 4) {
        decoded(m.word(m.phys(a) as int))
    } else {
        Instruction::InvalidInstruction
    }
}

impl Simulator {
    /// What a single step needs: a timing memory, a program counter that
    /// leaves room for the next instruction, an engine that can take one
    /// more instruction, and a fetched instruction that neither overflows
    /// when applied nor, out of order, predicts a target past the top of
    /// the address space.
    pub open spec fn ready_to_step(&self) -> bool {
        let i = fetched_at(&self.memory, self.pc);
        &&& timing_memory(&self.memory)
        &&& self.memory.device_at(self.pc as usize) is None
        &&& self.pc + 4 <= u32::MAX
        &&& timing_defined(i, self.registers@, self.pc)
        &&& match self.execution_mode {
            ExecutionMode::InOrder(p) => pipeline_ready(&p, 1),
            ExecutionMode::OutOfOrder(t) => processor_ready(&t, 1) && (i.branches()
                ==> (i.immediate_target() matches Some(t) ==> t + self.pc <= u32::MAX)),
        }
    }

    /// Fetches and decodes the word at the program counter; a word that
    /// cannot be read gives `InvalidInstruction`.
    fn fetch_instruction(&self) -> (r: Instruction)
        requires
            timing_memory(&self.memory),
            self.memory.device_at(self.pc as usize) is None,
            self.pc + 4 <= u32::MAX,
        ensures
            r == fetched_at(&self.memory, self.pc),
    {
        match self.memory.read_word(self.pc as usize) {
            Some(instruction_word) => decode_instruction(instruction_word),
            None => Instruction::InvalidInstruction,
        }
    }

    /// Whether `instruction` reads a register that the in-order pipeline is
    /// still writing; never out of order, where registers are renamed.
    fn check_data_hazard(&self, instruction: &Instruction) -> (r: bool)
        ensures
            self.execution_mode matches ExecutionMode::OutOfOrder(_) ==> !r,
            self.execution_mode matches ExecutionMode::InOrder(p) ==> r == reads_pending(
                *instruction,
                p.stages@,
            ),
    {
        match &self.execution_mode {
            ExecutionMode::InOrder(pipeline) => match *instruction {
                Instruction::Add { rs, rt, .. }
                | Instruction::Sub { rs, rt, .. }
                | Instruction::And { rs, rt, .. }
                | Instruction::Or { rs, rt, .. }
                | Instruction::Slt { rs, rt, .. } => {
                    pipeline.is_register_being_written(rs) || pipeline.is_register_being_written(rt)
                },
                Instruction::Addi { rs, .. } => pipeline.is_register_being_written(rs),
                Instruction::Lw { base, .. } => pipeline.is_register_being_written(base),
                Instruction::Sw { base, rt, .. } => {
                    pipeline.is_register_being_written(base) || pipeline.is_register_being_written(rt)
                },
                _ => false,
            },
            ExecutionMode::OutOfOrder(_) => false,
        }
    }

    /// Whether `instruction` changes the flow of control.
    fn check_control_hazard(&self, instruction: &Instruction) -> (r: bool)
        ensures
            r == instruction.branches(),
    {
        instruction.is_branch_or_jump()
    }

    /// Applies `instruction` at the program counter to the registers and
    /// memory.
    fn update_state(&mut self, instruction: &Instruction)
        requires
            old(self).memory.wf(),
            old(self).memory.translation_safe(),
            timing_defined(*instruction, old(self).registers@, old(self).pc),
        ensures
            final(self).memory.wf(),
            final(self).memory.same_layout(&old(self).memory),
            final(self).memory.device_bases() == old(self).memory.device_bases(),
            state_updated(
                *instruction,
                old(self).registers@,
                &old(self).memory,
                old(self).pc,
                final(self).registers@,
                &final(self).memory,
            ),
            final(self).pc == old(self).pc,
            final(self).execution_mode == old(self).execution_mode,
            final(self).visualization == old(self).visualization,
            final(self).max_steps == old(self).max_steps,
    {
        update_state_helper(&mut self.registers, &mut self.memory, instruction, self.pc);
    }

    /// Executes one instruction. The instruction at the program counter is
    /// fetched (an unreadable word gives `InvalidInstruction`) and, in
    /// order, shown entering the pipeline; at an invalid instruction the
    /// step returns false and leaves the registers, memory and program
    /// counter alone. Otherwise a branch or jump flushes the in-order
    /// pipeline, the instruction is timed through the pipeline (or issued
    /// to the out-of-order processor, which then runs a cycle), applied to
    /// the registers and memory as `state_updated` says, and the program
    /// counter moves as `timing_next_pc` says; the step returns true.
    pub fn step(&mut self) -> (r: bool)
        requires
            old(self).ready_to_step(),
        ensures
            timing_memory(&final(self).memory),
            final(self).memory.same_layout(&old(self).memory),
            final(self).max_steps == old(self).max_steps,
            final(self).visualization == old(self).visualization,
            old(self).execution_mode is InOrder <==> final(self).execution_mode is InOrder,
            final(self).execution_mode matches ExecutionMode::InOrder(p) ==> p.wf(),
            final(self).execution_mode matches ExecutionMode::OutOfOrder(t) ==> t.wf(),
            ({
                let i = fetched_at(&old(self).memory, old(self).pc);
                &&& r == !(i is InvalidInstruction)
                &&& !r ==> final(self).pc == old(self).pc && final(self).registers@ == old(self).registers@
                    && final(self).memory == old(self).memory
                &&& r ==> state_updated(
                    i,
                    old(self).registers@,
                    &old(self).memory,
                    old(self).pc,
                    final(self).registers@,
                    &final(self).memory,
                ) && final(self).pc == timing_next_pc(i, final(self).registers@, old(self).pc)
            }),
    {
        let instruction = self.fetch_instruction();
        if let Some(instr_word) = self.memory.read_word(self.pc as usize) {
            match &mut self.execution_mode {
                ExecutionMode::InOrder(pipeline) => {
                    let fetched = decode_instruction(instr_word);
                    show_fetch(pipeline, fetched, self.pc);
                },
                ExecutionMode::OutOfOrder(_) => {},
            }
        }
        if let Instruction::InvalidInstruction = instruction {
            return false;
        }
        let _data_hazard = self.check_data_hazard(&instruction);
        let control_hazard = self.check_control_hazard(&instruction);
        if control_hazard {
            match &mut self.execution_mode {
                ExecutionMode::InOrder(pipeline) => {
                    pipeline.flush();
                },
                ExecutionMode::OutOfOrder(_) => {},
            }
        }
        match &mut self.execution_mode {
            ExecutionMode::InOrder(pipeline) => {
                let _cycles = pipeline.execute(&instruction, &self.registers, self.pc);
            },
            ExecutionMode::OutOfOrder(processor) => {
                let _issued = processor.issue(instruction, self.pc);
                processor.tick();
            },
        }
        self.update_state(&instruction);
        self.pc = next_pc(instruction, &self.registers, self.pc);
        true
    }
}

} // verus!
