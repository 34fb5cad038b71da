//! Out-of-order execution with Tomasulo's algorithm: reservation stations,
//! a reorder buffer, a register alias table, a common data bus and
//! functional units.
use vstd::prelude::*;
use std::collections::{HashMap, VecDeque};
use crate::functional_simulator::instructions::Instruction;
use crate::functional_simulator::memory::Memory;
use crate::functional_simulator::registers::{Registers, RegistersModel};

verus! {

#[derive(Debug, Clone, Copy, PartialEq, Eq, Structural)]
pub enum InstructionStatus {
    /// Waiting for operands.
    Waiting,
    /// Currently executing.
    Executing,
    /// Execution finished, waiting to commit.
    Completed,
    /// Written back to the architectural state.
    Committed,
}

/// The kind of functional unit that executes an instruction.
#[derive(Debug, Clone, Copy, PartialEq, Eq, Hash, Structural)]
pub enum FunctionalUnitType {
    IntegerALU,
    FPAdder,
    FPMultiplier,
    FPDivider,
    LoadStore,
    Branch,
}

/// A reservation station.
#[derive(Debug, Clone, Copy)]
pub struct ReservationStation {
    pub id: usize,
    pub busy: bool,
    pub instruction: Option<Instruction>,
    pub status: InstructionStatus,
    /// Value of the first source operand.
    pub vj: Option<u32>,
    /// Value of the second source operand.
    pub vk: Option<u32>,
    /// Reorder buffer entry that produces the first operand.
    pub qj: Option<usize>,
    /// Reorder buffer entry that produces the second operand.
    pub qk: Option<usize>,
    /// Destination reorder buffer entry.
    pub dest: Option<usize>,
    /// Memory address, for loads and stores.
    pub address: Option<u32>,
    pub cycles_remaining: usize,
}

impl ReservationStation {
    /// An idle station.
    pub open spec fn idle(id: usize) -> Self {
        ReservationStation {
            id,
            busy: false,
            instruction: None,
            status: InstructionStatus::Waiting,
            vj: None,
            vk: None,
            qj: None,
            qk: None,
            dest: None,
            address: None,
            cycles_remaining: 0,
        }
    }

    pub fn new(id: usize) -> (r: Self)
        ensures
            r == Self::idle(id),
    {
        Self {
            id,
            busy: false,
            instruction: None,
            status: InstructionStatus::Waiting,
            vj: None,
            vk: None,
            qj: None,
            qk: None,
            dest: None,
            address: None,
            cycles_remaining: 0,
        }
    }

    /// Busy, waiting, and with both operands available.
    pub open spec fn ready(self) -> bool {
        self.busy && self.qj is None && self.qk is None && self.status == InstructionStatus::Waiting
    }

    pub fn is_ready(&self) -> (r: bool)
        ensures
            r == self.ready(),
    {
        self.busy && self.qj.is_none() && self.qk.is_none() && self.status
            == InstructionStatus::Waiting
    }

    /// Frees the station.
    pub fn reset(&mut self)
        ensures
            *final(self) == Self::idle(old(self).id),
    {
        self.busy = false;
        self.instruction = None;
        self.status = InstructionStatus::Waiting;
        self.vj = None;
        self.vk = None;
        self.qj = None;
        self.qk = None;
        self.dest = None;
        self.address = None;
        self.cycles_remaining = 0;
    }

    /// Takes `instruction` with the given operands and destination.
    pub fn issue(
        &mut self,
        instruction: Instruction,
        vj: Option<u32>,
        vk: Option<u32>,
        qj: Option<usize>,
        qk: Option<usize>,
        dest: Option<usize>,
        cycle_count: usize,
    )
        ensures
            *final(self) == (ReservationStation {
                id: old(self).id,
                busy: true,
                instruction: Some(instruction),
                status: InstructionStatus::Waiting,
                vj,
                vk,
                qj,
                qk,
                dest,
                address: None,
                cycles_remaining: cycle_count,
            }),
    {
        self.busy = true;
        self.instruction = Some(instruction);
        self.status = InstructionStatus::Waiting;
        self.vj = vj;
        self.vk = vk;
        self.qj = qj;
        self.qk = qk;
        self.dest = dest;
        self.address = None;
        self.cycles_remaining = cycle_count;
    }

    /// A ready station starts executing.
    pub fn start_execution(&mut self)
        ensures
            *final(self) == if old(self).ready() {
                ReservationStation { status: InstructionStatus::Executing, ..*old(self) }
            } else {
                *old(self)
            },
    {
        if self.is_ready() {
            self.status = InstructionStatus::Executing;
        }
    }

    /// An executing station counts a cycle down and completes at zero.
    pub fn tick(&mut self)
        ensures
            *final(self) == if old(self).status == InstructionStatus::Executing
                && old(self).cycles_remaining > 0 {
                ReservationStation {
                    cycles_remaining: (old(self).cycles_remaining - 1) as usize,
                    status: if old(self).cycles_remaining == 1 {
                        InstructionStatus::Completed
                    } else {
                        InstructionStatus::Executing
                    },
                    ..*old(self)
                }
            } else {
                *old(self)
            },
    {
        if self.status == InstructionStatus::Executing && self.cycles_remaining > 0 {
            self.cycles_remaining = self.cycles_remaining - 1;
            if self.cycles_remaining == 0 {
                self.status = InstructionStatus::Completed;
            }
        }
    }
}

/// A reorder buffer entry.
#[derive(Debug, Clone, Copy)]
pub struct ReorderBufferEntry {
    pub id: usize,
    pub busy: bool,
    pub instruction: Option<Instruction>,
    pub status: InstructionStatus,
    /// Destination register.
    pub dest: Option<u32>,
    /// Result value.
    pub value: Option<u32>,
    /// Memory address, for loads and stores.
    pub address: Option<u32>,
    /// For branches, the predicted target.
    pub predicted_target: Option<u32>,
    /// For branches, the actual target once known.
    pub actual_target: Option<u32>,
    /// Whether the branch was mispredicted.
    pub mispredicted: bool,
}

impl ReorderBufferEntry {
    /// A free entry.
    pub open spec fn free(id: usize) -> Self {
        ReorderBufferEntry {
            id,
            busy: false,
            instruction: None,
            status: InstructionStatus::Waiting,
            dest: None,
            value: None,
            address: None,
            predicted_target: None,
            actual_target: None,
            mispredicted: false,
        }
    }

    pub fn new(id: usize) -> (r: Self)
        ensures
            r == Self::free(id),
    {
        Self {
            id,
            busy: false,
            instruction: None,
            status: InstructionStatus::Waiting,
            dest: None,
            value: None,
            address: None,
            predicted_target: None,
            actual_target: None,
            mispredicted: false,
        }
    }

    /// Takes `instruction`, writing `dest`, with a predicted target.
    pub fn issue(&mut self, instruction: Instruction, dest: Option<u32>, predicted_target: Option<u32>)
        ensures
            *final(self) == (ReorderBufferEntry {
                id: old(self).id,
                busy: true,
                instruction: Some(instruction),
                status: InstructionStatus::Waiting,
                dest,
                value: None,
                address: None,
                predicted_target,
                actual_target: None,
                mispredicted: false,
            }),
    {
        self.busy = true;
        self.instruction = Some(instruction);
        self.status = InstructionStatus::Waiting;
        self.dest = dest;
        self.value = None;
        self.address = None;
        self.predicted_target = predicted_target;
        self.actual_target = None;
        self.mispredicted = false;
    }

    /// Records the result; with an actual target, the branch is
    /// mispredicted unless the predicted target equals it.
    pub fn complete(&mut self, value: u32, address: Option<u32>, actual_target: Option<u32>)
        ensures
            *final(self) == (ReorderBufferEntry {
                status: InstructionStatus::Completed,
                value: Some(value),
                address,
                actual_target,
                mispredicted: match actual_target {
                    Some(actual) => match old(self).predicted_target {
                        Some(predicted) => actual != predicted,
                        None => true,
                    },
                    None => old(self).mispredicted,
                },
                ..*old(self)
            }),
    {
        self.status = InstructionStatus::Completed;
        self.value = Some(value);
        self.address = address;
        self.actual_target = actual_target;
        if let Some(actual) = actual_target {
            if let Some(predicted) = self.predicted_target {
                self.mispredicted = actual != predicted;
            } else {
                self.mispredicted = true;
            }
        }
    }

    pub fn commit(&mut self)
        ensures
            *final(self) == (ReorderBufferEntry { status: InstructionStatus::Committed, ..*old(self) }),
    {
        self.status = InstructionStatus::Committed;
    }

    /// Frees the entry.
    pub fn reset(&mut self)
        ensures
            *final(self) == Self::free(old(self).id),
    {
        self.busy = false;
        self.instruction = None;
        self.status = InstructionStatus::Waiting;
        self.dest = None;
        self.value = None;
        self.address = None;
        self.predicted_target = None;
        self.actual_target = None;
        self.mispredicted = false;
    }

    /// Busy and completed.
    pub open spec fn committable(self) -> bool {
        self.busy && self.status == InstructionStatus::Completed
    }

    pub fn can_commit(&self) -> (r: bool)
        ensures
            r == self.committable(),
    {
        self.busy && self.status == InstructionStatus::Completed
    }
}

/// The register alias table: which reorder buffer entry will produce each
/// register.
#[derive(Debug, Clone)]
pub struct RegisterAliasTable {
    pub mapping: HashMap<u32, usize>,
}

impl RegisterAliasTable {
    pub fn new() -> (r: Self)
        ensures
            r.mapping@ == Map::<u32, usize>::empty(),
    {
        Self { mapping: HashMap::new() }
    }

    pub fn get_mapping(&self, reg: u32) -> (r: Option<usize>)
        ensures
            r == if self.mapping@.contains_key(reg) {
                Some(self.mapping@[reg])
            } else {
                None
            },
    {
        broadcast use vstd::std_specs::hash::group_hash_axioms;

        match self.mapping.get(&reg) {
            Some(e) => Some(*e),
            None => None,
        }
    }

    pub fn set_mapping(&mut self, reg: u32, rob_entry: usize)
        ensures
            final(self).mapping@ == old(self).mapping@.insert(reg, rob_entry),
    {
        broadcast use vstd::std_specs::hash::group_hash_axioms;

        self.mapping.insert(reg, rob_entry);
    }

    pub fn clear_mapping(&mut self, reg: u32)
        ensures
            final(self).mapping@ == old(self).mapping@.remove(reg),
    {
        broadcast use vstd::std_specs::hash::group_hash_axioms;

        self.mapping.remove(&reg);
    }

    pub fn clear_all(&mut self)
        ensures
            final(self).mapping@ == Map::<u32, usize>::empty(),
    {
        self.mapping.clear();
    }
}

/// The common data bus: the result last broadcast, with the station that
/// produced it.
#[derive(Debug, Clone, Copy)]
pub struct CommonDataBus {
    pub data: Option<(usize, u32)>,
}

impl CommonDataBus {
    pub fn new() -> (r: Self)
        ensures
            r.data is None,
    {
        Self { data: None }
    }

    pub fn broadcast(&mut self, rs_id: usize, value: u32)
        ensures
            final(self).data == Some((rs_id, value)),
    {
        self.data = Some((rs_id, value));
    }

    pub fn clear(&mut self)
        ensures
            final(self).data is None,
    {
        self.data = None;
    }
}

/// A functional unit.
#[derive(Debug, Clone, Copy)]
pub struct FunctionalUnit {
    pub unit_type: FunctionalUnitType,
    pub reservation_station: Option<usize>,
    pub busy: bool,
    pub cycles_remaining: usize,
}

impl FunctionalUnit {
    pub fn new(unit_type: FunctionalUnitType) -> (r: Self)
        ensures
            r == (FunctionalUnit { unit_type, reservation_station: None, busy: false, cycles_remaining: 0 }),
    {
        Self { unit_type, reservation_station: None, busy: false, cycles_remaining: 0 }
    }

    pub fn is_available(&self) -> (r: bool)
        ensures
            r == !self.busy,
    {
        !self.busy
    }

    /// Starts executing the instruction of station `rs_id` for `cycles`.
    pub fn start_execution(&mut self, rs_id: usize, cycles: usize)
        ensures
            *final(self) == (FunctionalUnit {
                unit_type: old(self).unit_type,
                reservation_station: Some(rs_id),
                busy: true,
                cycles_remaining: cycles,
            }),
    {
        self.reservation_station = Some(rs_id);
        self.busy = true;
        self.cycles_remaining = cycles;
    }

    /// A busy unit counts a cycle down; at zero it frees itself and reports
    /// completion.
    pub fn tick(&mut self) -> (r: bool)
        ensures
            r == (old(self).busy && old(self).cycles_remaining == 1),
            old(self).busy && old(self).cycles_remaining > 1 ==> *final(self) == (FunctionalUnit {
                cycles_remaining: (old(self).cycles_remaining - 1) as usize,
                ..*old(self)
            }),
            r ==> *final(self) == (FunctionalUnit {
                unit_type: old(self).unit_type,
                reservation_station: None,
                busy: false,
                cycles_remaining: 0,
            }),
            !(old(self).busy && old(self).cycles_remaining > 0) ==> *final(self) == *old(self),
    {
        if self.busy && self.cycles_remaining > 0 {
            self.cycles_remaining = self.cycles_remaining - 1;
            if self.cycles_remaining == 0 {
                self.reset();
                return true;
            }
        }
        false
    }

    /// Frees the unit.
    pub fn reset(&mut self)
        ensures
            *final(self) == (FunctionalUnit {
                unit_type: old(self).unit_type,
                reservation_station: None,
                busy: false,
                cycles_remaining: 0,
            }),
    {
        self.reservation_station = None;
        self.busy = false;
        self.cycles_remaining = 0;
    }
}


/// The functional unit that executes `i`.
pub open spec fn unit_for(i: Instruction) -> FunctionalUnitType {
    match i {
        Instruction::Add { .. } | Instruction::Sub { .. } | Instruction::And { .. }
        | Instruction::Or { .. } | Instruction::Xor { .. } | Instruction::Slt { .. }
        | Instruction::Addi { .. } | Instruction::Addiu { .. } => FunctionalUnitType::IntegerALU,
        Instruction::Lw { .. } | Instruction::Sw { .. } | Instruction::Lb { .. } | Instruction::Sb {
            ..
        } => FunctionalUnitType::LoadStore,
        Instruction::AddS { .. } | Instruction::SubS { .. } => FunctionalUnitType::FPAdder,
        Instruction::MulS { .. } | Instruction::Mult { .. } => FunctionalUnitType::FPMultiplier,
        Instruction::DivS { .. } | Instruction::Div { .. } | Instruction::Divu { .. } => FunctionalUnitType::FPDivider,
        Instruction::Beq { .. } | Instruction::Bne { .. } | Instruction::J { .. } | Instruction::Jal {
            ..
        } | Instruction::Jr { .. } => FunctionalUnitType::Branch,
        _ => FunctionalUnitType::IntegerALU,
    }
}

/// The result a functional unit computes from operand values `vj`, `vk`
/// (absent operands count as 0): add, subtract, and, or and set-less-than
/// for the corresponding instructions, 0 for others.
pub open spec fn alu_result(i: Instruction, vj: Option<u32>, vk: Option<u32>) -> u32 {
    let a = match vj {
        Some(v) => v,
        None => 0,
    };
    let b = match vk {
        Some(v) => v,
        None => 0,
    };
    match i {
        Instruction::Add { .. } => a.wrapping_add(b),
        Instruction::Sub { .. } => a.wrapping_sub(b),
        Instruction::And { .. } => a & b,
        Instruction::Or { .. } => a | b,
        Instruction::Slt { .. } => if (a as i32) < (b as i32) {
            1
        } else {
            0
        },
        _ => 0,
    }
}

/// Performance counters of a Tomasulo processor, with the occupancy of its
/// reservation stations and reorder buffer.
#[derive(Debug, Clone, Copy, PartialEq, Eq, Structural)]
pub struct TomasuloStats {
    pub cycles: usize,
    pub instructions_issued: usize,
    pub instructions_executed: usize,
    pub instructions_committed: usize,
    pub branch_mispredictions: usize,
    /// Busy reservation stations.
    pub busy_stations: usize,
    pub num_reservation_stations: usize,
    /// Busy reorder buffer entries.
    pub busy_rob_entries: usize,
    pub rob_size: usize,
}

/// A processor executing out of order with Tomasulo's algorithm.
pub struct TomasuloProcessor {
    pub reservation_stations: Vec<ReservationStation>,
    pub reorder_buffer: VecDeque<ReorderBufferEntry>,
    pub register_alias_table: RegisterAliasTable,
    pub common_data_bus: CommonDataBus,
    pub functional_units: Vec<FunctionalUnit>,
    pub num_reservation_stations: usize,
    pub rob_size: usize,
    /// Latency of each kind of functional unit.
    pub latency_map: Vec<(FunctionalUnitType, usize)>,
    pub registers: Registers,
    pub memory: Memory,
    pub instructions_issued: usize,
    pub instructions_executed: usize,
    pub instructions_committed: usize,
    pub cycles: usize,
    pub branch_mispredictions: usize,
}

/// The first latency listed for `t` in `m` (0 when none is).
pub open spec fn latency_in(m: Seq<(FunctionalUnitType, usize)>, t: FunctionalUnitType) -> usize
    decreases m.len(),
{
    if m.len() == 0 {
        0
    } else if m[0].0 == t {
        m[0].1
    } else {
        latency_in(m.drop_first(), t)
    }
}

impl TomasuloProcessor {
    /// The alias table only names reorder buffer entries that exist.
    pub open spec fn wf(&self) -> bool {
        forall|r: u32|
            #[trigger] self.register_alias_table.mapping@.contains_key(r) ==> self.register_alias_table.mapping@[r]
                < self.reorder_buffer@.len()
    }

    /// Room in the counters for `n` more cycles.
    pub open spec fn room_for(&self, n: int) -> bool {
        &&& self.cycles + n <= usize::MAX
        &&& self.instructions_issued + n <= usize::MAX
        &&& self.instructions_committed + 4 * n <= usize::MAX
        &&& self.branch_mispredictions + n <= usize::MAX
        &&& self.instructions_executed + self.functional_units@.len() * n <= usize::MAX
    }

    /// Room in the counters for one more cycle.
    pub open spec fn room(&self) -> bool {
        &&& self.cycles < usize::MAX
        &&& self.instructions_committed + 4 <= usize::MAX
        &&& self.branch_mispredictions < usize::MAX
        &&& self.instructions_executed + self.functional_units@.len() <= usize::MAX
    }

    /// `num_rs` idle stations, `rob_size` free entries, two integer ALUs,
    /// an FP adder, multiplier and divider, a load/store unit and a branch
    /// unit, with latencies 1, 3, 5, 10, 2 and 1 cycles.
    pub fn new(num_rs: usize, rob_size: usize, registers: Registers, memory: Memory) -> (r: Self)
        ensures
            r.wf(),
            r.reservation_stations@ == Seq::new(num_rs as nat, |i: int| ReservationStation::idle(i as usize)),
            r.reorder_buffer@ == Seq::new(rob_size as nat, |i: int| ReorderBufferEntry::free(i as usize)),
            r.register_alias_table.mapping@ == Map::<u32, usize>::empty(),
            r.common_data_bus.data is None,
            r.functional_units@.len() == 7,
            r.functional_units@.map_values(|u: FunctionalUnit| u.unit_type) == seq![
                FunctionalUnitType::IntegerALU,
                FunctionalUnitType::IntegerALU,
                FunctionalUnitType::FPAdder,
                FunctionalUnitType::FPMultiplier,
                FunctionalUnitType::FPDivider,
                FunctionalUnitType::LoadStore,
                FunctionalUnitType::Branch,
            ],
            forall|i: int| 0 <= i < 7 ==> !(#[trigger] r.functional_units@[i]).busy,
            r.latency_map@ == seq![
                (FunctionalUnitType::IntegerALU, 1usize),
                (FunctionalUnitType::FPAdder, 3usize),
                (FunctionalUnitType::FPMultiplier, 5usize),
                (FunctionalUnitType::FPDivider, 10usize),
                (FunctionalUnitType::LoadStore, 2usize),
                (FunctionalUnitType::Branch, 1usize),
            ],
            r.num_reservation_stations == num_rs,
            r.rob_size == rob_size,
            r.registers == registers,
            r.memory == memory,
            r.instructions_issued == 0 && r.instructions_executed == 0 && r.instructions_committed == 0,
            r.cycles == 0 && r.branch_mispredictions == 0,
    {
        let mut reservation_stations: Vec<ReservationStation> = Vec::new();
        let mut i: usize = 0;
        while i < num_rs
            invariant
                i <= num_rs,
                reservation_stations@ == Seq::new(i as nat, |k: int| ReservationStation::idle(k as usize)),
            decreases num_rs - i,
        {
            reservation_stations.push(ReservationStation::new(i));
            i = i + 1;
            assert(reservation_stations@ =~= Seq::new(i as nat, |k: int| ReservationStation::idle(k as usize)));
        }
        let mut reorder_buffer: VecDeque<ReorderBufferEntry> = VecDeque::new();
        let mut j: usize = 0;
        while j < rob_size
            invariant
                j <= rob_size,
                reorder_buffer@ == Seq::new(j as nat, |k: int| ReorderBufferEntry::free(k as usize)),
            decreases rob_size - j,
        {
            reorder_buffer.push_back(ReorderBufferEntry::new(j));
            j = j + 1;
            assert(reorder_buffer@ =~= Seq::new(j as nat, |k: int| ReorderBufferEntry::free(k as usize)));
        }
        let functional_units = vec![
            FunctionalUnit::new(FunctionalUnitType::IntegerALU),
            FunctionalUnit::new(FunctionalUnitType::IntegerALU),
            FunctionalUnit::new(FunctionalUnitType::FPAdder),
            FunctionalUnit::new(FunctionalUnitType::FPMultiplier),
            FunctionalUnit::new(FunctionalUnitType::FPDivider),
            FunctionalUnit::new(FunctionalUnitType::LoadStore),
            FunctionalUnit::new(FunctionalUnitType::Branch),
        ];
        let latency_map = vec![
            (FunctionalUnitType::IntegerALU, 1usize),
            (FunctionalUnitType::FPAdder, 3usize),
            (FunctionalUnitType::FPMultiplier, 5usize),
            (FunctionalUnitType::FPDivider, 10usize),
            (FunctionalUnitType::LoadStore, 2usize),
            (FunctionalUnitType::Branch, 1usize),
        ];
        let r = Self {
            reservation_stations,
            reorder_buffer,
            register_alias_table: RegisterAliasTable::new(),
            common_data_bus: CommonDataBus::new(),
            functional_units,
            num_reservation_stations: num_rs,
            rob_size,
            latency_map,
            registers,
            memory,
            instructions_issued: 0,
            instructions_executed: 0,
            instructions_committed: 0,
            cycles: 0,
            branch_mispredictions: 0,
        };
        assert(r.functional_units@.map_values(|u: FunctionalUnit| u.unit_type) =~= seq![
            FunctionalUnitType::IntegerALU,
            FunctionalUnitType::IntegerALU,
            FunctionalUnitType::FPAdder,
            FunctionalUnitType::FPMultiplier,
            FunctionalUnitType::FPDivider,
            FunctionalUnitType::LoadStore,
            FunctionalUnitType::Branch,
        ]);
        r
    }

    /// The latency of a kind of functional unit.
    fn latency_of(&self, t: FunctionalUnitType) -> (r: usize)
        ensures
            r == latency_in(self.latency_map@, t),
    {
        assert(self.latency_map@.skip(0) =~= self.latency_map@);
        let mut i: usize = 0;
        while i < self.latency_map.len()
            invariant
                i <= self.latency_map@.len(),
                latency_in(self.latency_map@.skip(i as int), t) == latency_in(self.latency_map@, t),
            decreases self.latency_map@.len() - i,
        {
            assert(self.latency_map@.skip(i as int).drop_first() =~= self.latency_map@.skip(i + 1));
            if self.latency_map[i].0 == t {
                return self.latency_map[i].1;
            }
            i = i + 1;
        }
        0
    }

    /// The kind of functional unit that executes `instruction`.
    fn get_functional_unit_type(&self, instruction: &Instruction) -> (r: FunctionalUnitType)
        ensures
            r == unit_for(*instruction),
    {
        match *instruction {
            Instruction::Add { .. } | Instruction::Sub { .. } | Instruction::And { .. }
            | Instruction::Or { .. } | Instruction::Xor { .. } | Instruction::Slt { .. }
            | Instruction::Addi { .. } | Instruction::Addiu { .. } => FunctionalUnitType::IntegerALU,
            Instruction::Lw { .. } | Instruction::Sw { .. } | Instruction::Lb { .. }
            | Instruction::Sb { .. } => FunctionalUnitType::LoadStore,
            Instruction::AddS { .. } | Instruction::SubS { .. } => FunctionalUnitType::FPAdder,
            Instruction::MulS { .. } | Instruction::Mult { .. } => FunctionalUnitType::FPMultiplier,
            Instruction::DivS { .. } | Instruction::Div { .. } | Instruction::Divu { .. } => FunctionalUnitType::FPDivider,
            Instruction::Beq { .. } | Instruction::Bne { .. } | Instruction::J { .. }
            | Instruction::Jal { .. } | Instruction::Jr { .. } => FunctionalUnitType::Branch,
            _ => FunctionalUnitType::IntegerALU,
        }
    }

    /// The result of station `rs` executing `instr`.
    #[allow(dead_code)]
    fn compute_result(&self, rs: &ReservationStation, instr: &Instruction) -> (r: u32)
        ensures
            r == alu_result(*instr, rs.vj, rs.vk),
    {
        let vj = match rs.vj {
            Some(v) => v,
            None => 0,
        };
        let vk = match rs.vk {
            Some(v) => v,
            None => 0,
        };
        match instr {
            Instruction::Add { .. } => vj.wrapping_add(vk),
            Instruction::Sub { .. } => vj.wrapping_sub(vk),
            Instruction::And { .. } => vj & vk,
            Instruction::Or { .. } => vj | vk,
            Instruction::Slt { .. } => if (vj as i32) < (vk as i32) {
                1
            } else {
                0
            },
            _ => 0,
        }
    }

    /// The reorder buffer entry of station `rs_id`.
    fn get_rob_entry_for_rs(&self, rs_id: usize) -> (r: Option<usize>)
        ensures
            r == if rs_id < self.reservation_stations@.len() {
                self.reservation_stations@[rs_id as int].dest
            } else {
                None
            },
    {
        if rs_id < self.reservation_stations.len() {
            self.reservation_stations[rs_id].dest
        } else {
            None
        }
    }

    /// The first free reservation station.
    fn find_free_reservation_station(&self) -> (r: Option<usize>)
        ensures
            r matches Some(i) ==> i < self.reservation_stations@.len()
                && !self.reservation_stations@[i as int].busy && forall|k: int|
                0 <= k < i ==> (#[trigger] self.reservation_stations@[k]).busy,
            r is None ==> forall|k: int|
                0 <= k < self.reservation_stations@.len() ==> (#[trigger] self.reservation_stations@[k]).busy,
    {
        let mut i: usize = 0;
        while i < self.reservation_stations.len()
            invariant
                i <= self.reservation_stations@.len(),
                forall|k: int| 0 <= k < i ==> (#[trigger] self.reservation_stations@[k]).busy,
            decreases self.reservation_stations@.len() - i,
        {
            if !self.reservation_stations[i].busy {
                return Some(i);
            }
            i = i + 1;
        }
        None
    }

    /// The first free reorder buffer entry.
    fn find_free_rob_entry(&self) -> (r: Option<usize>)
        ensures
            r matches Some(i) ==> i < self.reorder_buffer@.len() && !self.reorder_buffer@[i as int].busy
                && forall|k: int| 0 <= k < i ==> (#[trigger] self.reorder_buffer@[k]).busy,
            r is None ==> forall|k: int|
                0 <= k < self.reorder_buffer@.len() ==> (#[trigger] self.reorder_buffer@[k]).busy,
    {
        let mut i: usize = 0;
        while i < self.reorder_buffer.len()
            invariant
                i <= self.reorder_buffer@.len(),
                forall|k: int| 0 <= k < i ==> (#[trigger] self.reorder_buffer@[k]).busy,
            decreases self.reorder_buffer@.len() - i,
        {
            if !self.reorder_buffer[i].busy {
                return Some(i);
            }
            i = i + 1;
        }
        None
    }

    /// How many reorder buffer entries are busy.
    fn busy_rob_entries(&self) -> (r: usize)
        ensures
            r == busy_entries(self.reorder_buffer@),
    {
        let mut count: usize = 0;
        let mut i: usize = 0;
        while i < self.reorder_buffer.len()
            invariant
                i <= self.reorder_buffer@.len(),
                count == busy_entries(self.reorder_buffer@.take(i as int)),
                count <= i,
            decreases self.reorder_buffer@.len() - i,
        {
            proof {
                let t = self.reorder_buffer@.take(i + 1);
                assert(t.drop_last() =~= self.reorder_buffer@.take(i as int));
            }
            if self.reorder_buffer[i].busy {
                count = count + 1;
            }
            i = i + 1;
        }
        assert(self.reorder_buffer@.take(self.reorder_buffer@.len() as int) =~= self.reorder_buffer@);
        count
    }

    /// How many reservation stations are busy.
    fn busy_stations(&self) -> (r: usize)
        ensures
            r == busy_station_count(self.reservation_stations@),
    {
        let mut count: usize = 0;
        let mut i: usize = 0;
        while i < self.reservation_stations.len()
            invariant
                i <= self.reservation_stations@.len(),
                count == busy_station_count(self.reservation_stations@.take(i as int)),
                count <= i,
            decreases self.reservation_stations@.len() - i,
        {
            proof {
                let t = self.reservation_stations@.take(i + 1);
                assert(t.drop_last() =~= self.reservation_stations@.take(i as int));
            }
            if self.reservation_stations[i].busy {
                count = count + 1;
            }
            i = i + 1;
        }
        assert(self.reservation_stations@.take(self.reservation_stations@.len() as int) =~= self.reservation_stations@);
        count
    }
}

/// How many entries of `s` are busy.
pub open spec fn busy_entries(s: Seq<ReorderBufferEntry>) -> nat
    decreases s.len(),
{
    if s.len() == 0 {
        0
    } else {
        busy_entries(s.drop_last()) + if s.last().busy { 1nat } else { 0 }
    }
}

/// How many stations of `s` are busy.
pub open spec fn busy_station_count(s: Seq<ReservationStation>) -> nat
    decreases s.len(),
{
    if s.len() == 0 {
        0
    } else {
        busy_station_count(s.drop_last()) + if s.last().busy { 1nat } else { 0 }
    }
}


/// Replaces entry `i` of `q` with `e`.
fn rob_set(q: &mut VecDeque<ReorderBufferEntry>, i: usize, e: ReorderBufferEntry)
    requires
        i < old(q)@.len(),
    ensures
        final(q)@ == old(q)@.update(i as int, e),
{
    q.remove(i);
    q.insert(i, e);
    assert(final(q)@ =~= old(q)@.update(i as int, e)) by {
        assert(old(q)@.remove(i as int).insert(i as int, e) =~= old(q)@.update(i as int, e));
    }
}

/// Station `s` after the result `value` of station `p` is broadcast: a busy
/// station waiting on `p` for an operand takes the value.
pub open spec fn fed(s: ReservationStation, p: usize, value: u32) -> ReservationStation {
    if s.busy {
        let s1 = if s.qj == Some(p) {
            ReservationStation { vj: Some(value), qj: None, ..s }
        } else {
            s
        };
        if s1.qk == Some(p) {
            ReservationStation { vk: Some(value), qk: None, ..s1 }
        } else {
            s1
        }
    } else {
        s
    }
}

/// The reservation stations and reorder buffer of `t` once the result on
/// its common data bus (if any) is delivered: waiting stations take it,
/// and the reorder buffer entry of the producing station completes with it.
pub open spec fn cdb_delivered(t: TomasuloProcessor) -> (Seq<ReservationStation>, Seq<ReorderBufferEntry>) {
    match t.common_data_bus.data {
        None => (t.reservation_stations@, t.reorder_buffer@),
        Some((p, v)) => (
            t.reservation_stations@.map_values(|s: ReservationStation| fed(s, p, v)),
            match (if p < t.reservation_stations@.len() {
                t.reservation_stations@[p as int].dest
            } else {
                None
            }) {
                Some(idx) => if idx < t.reorder_buffer@.len() {
                    t.reorder_buffer@.update(
                        idx as int,
                        ReorderBufferEntry {
                            value: Some(v),
                            status: InstructionStatus::Completed,
                            ..t.reorder_buffer@[idx as int]
                        },
                    )
                } else {
                    t.reorder_buffer@
                },
                None => t.reorder_buffer@,
            },
        ),
    }
}

/// What `issue` of `instruction` at `pc` does to `p0`, giving `p1` and
/// whether it issued.
pub open spec fn issue_effect(p0: TomasuloProcessor, instruction: Instruction, pc: u32, p1: TomasuloProcessor, r: bool) -> bool {
    &&& (r == (busy_entries(p0.reorder_buffer@) < p0.rob_size && (exists|i: int|
        p0.first_free_station(i)) && (exists|i: int| p0.first_free_entry(i))))
    &&& (!r ==> p1 == p0)
    &&& (p1.cycles == p0.cycles)
    &&& (p1.instructions_committed == p0.instructions_committed)
    &&& (p1.instructions_executed == p0.instructions_executed)
    &&& (p1.branch_mispredictions == p0.branch_mispredictions)
    &&& (p1.functional_units == p0.functional_units)
    &&& (p1.memory == p0.memory)
    &&& (p1.instructions_issued == p0.instructions_issued + (if r { 1int } else { 0 }))
    &&& (r ==> {
        let srcs = instruction.source_regs();
        let (vj, qj) = if srcs.len() > 0 { p0.operand(srcs[0]) } else { (None, None) };
        let (vk, qk) = if srcs.len() > 1 { p0.operand(srcs[1]) } else { (None, None) };
        let predicted = if instruction.branches() {
            match instruction.immediate_target() {
                Some(t) => Some((t + pc) as u32),
                None => None,
            }
        } else {
            None
        };
        &&& p1.instructions_issued == p0.instructions_issued + 1
        &&& p1.registers == p0.registers
        &&& p1.memory == p0.memory
        &&& forall|ri: int, bi: int|
            p0.first_free_station(ri) && p0.first_free_entry(bi) ==> {
                &&& p1.reservation_stations@ == p0.reservation_stations@.update(
                    ri,
                    ReservationStation {
                        id: p0.reservation_stations@[ri].id,
                        busy: true,
                        instruction: Some(instruction),
                        status: InstructionStatus::Waiting,
                        vj,
                        vk,
                        qj,
                        qk,
                        dest: Some(bi as usize),
                        address: None,
                        cycles_remaining: 0,
                    },
                )
                &&& p1.reorder_buffer@ == p0.reorder_buffer@.update(
                    bi,
                    ReorderBufferEntry {
                        id: p0.reorder_buffer@[bi].id,
                        busy: true,
                        instruction: Some(instruction),
                        status: InstructionStatus::Waiting,
                        dest: instruction.dest_register(),
                        value: None,
                        address: None,
                        predicted_target: predicted,
                        actual_target: None,
                        mispredicted: false,
                    },
                )
                &&& p1.register_alias_table.mapping@ == match instruction.dest_register() {
                    Some(d) => p0.register_alias_table.mapping@.insert(d, bi as usize),
                    None => p0.register_alias_table.mapping@,
                }
            }
    })
}

/// What one `tick` of `p0` gives (see `TomasuloProcessor::tick`).
pub open spec fn tick_effect(p0: TomasuloProcessor, p1: TomasuloProcessor) -> bool {
    &&& (p1.cycles == p0.cycles + 1)
    &&& (p1.common_data_bus.data is None)
    &&& (p1.instructions_issued == p0.instructions_issued)
    &&& (p0.instructions_committed <= p1.instructions_committed
        <= p0.instructions_committed + 4)
    &&& (p0.branch_mispredictions <= p1.branch_mispredictions
        <= p0.branch_mispredictions + 1)
    &&& (p0.instructions_executed <= p1.instructions_executed
        <= p0.instructions_executed + p0.functional_units@.len())
    &&& (p1.functional_units@.len() == p0.functional_units@.len())
    &&& (p1.memory == p0.memory)
    &&& (p1.instructions_executed == p0.instructions_executed)
    &&& (({
        let delivered = cdb_delivered(p0);
        let executed = dispatched(
            p0.functional_units@.map_values(|u: FunctionalUnit| ticked(u)),
            delivered.0,
            p0.latency_map@,
            delivered.0.len(),
        );
        let run = commit_run(
            delivered.1,
            p0.registers@,
            p0.register_alias_table.mapping@,
            4,
        );
        &&& p1.registers@ == run.1
        &&& p1.instructions_committed == p0.instructions_committed + run.3
        &&& !run.4 ==> {
            &&& p1.reorder_buffer@ == run.0
            &&& p1.register_alias_table.mapping@ == run.2
            &&& p1.functional_units@ == executed.0
            &&& p1.reservation_stations@ == executed.1
            &&& p1.branch_mispredictions == p0.branch_mispredictions
        }
        &&& run.4 ==> {
            &&& p1.reorder_buffer@ == if run.0.len() > 1 {
                run.0.take(1)
            } else {
                run.0
            }
            &&& p1.register_alias_table.mapping@ == Map::<u32, usize>::empty()
            &&& p1.functional_units@ == executed.0.map_values(
                |u: FunctionalUnit| FunctionalUnit {
                    unit_type: u.unit_type,
                    reservation_station: None,
                    busy: false,
                    cycles_remaining: 0,
                },
            )
            &&& p1.reservation_stations@ == executed.1.map_values(
                |s: ReservationStation| ReservationStation::idle(s.id),
            )
            &&& p1.branch_mispredictions == p0.branch_mispredictions + 1
        }
    }))
}

impl TomasuloProcessor {
    /// Delivers the result on the common data bus: waiting stations take
    /// it, and the reorder buffer entry of the producing station completes
    /// with it.
    fn process_cdb(&mut self)
        requires
            old(self).wf(),
        ensures
            final(self).wf(),
            final(self).reorder_buffer@.len() == old(self).reorder_buffer@.len(),
            final(self).register_alias_table == old(self).register_alias_table,
            final(self).functional_units == old(self).functional_units,
            final(self).common_data_bus == old(self).common_data_bus,
            final(self).registers == old(self).registers,
            final(self).memory == old(self).memory,
            final(self).latency_map == old(self).latency_map,
            final(self).instructions_issued == old(self).instructions_issued,
            final(self).instructions_executed == old(self).instructions_executed,
            final(self).instructions_committed == old(self).instructions_committed,
            final(self).cycles == old(self).cycles,
            final(self).branch_mispredictions == old(self).branch_mispredictions,
            old(self).common_data_bus.data is None ==> final(self).reservation_stations
                == old(self).reservation_stations && final(self).reorder_buffer
                == old(self).reorder_buffer,
            old(self).common_data_bus.data matches Some((p, v)) ==> {
                &&& final(self).reservation_stations@ == old(self).reservation_stations@.map_values(
                    |s: ReservationStation| fed(s, p, v),
                )
                &&& final(self).reorder_buffer@ == match (if p < old(self).reservation_stations@.len() {
                    old(self).reservation_stations@[p as int].dest
                } else {
                    None
                }) {
                    Some(idx) => if idx < old(self).reorder_buffer@.len() {
                        old(self).reorder_buffer@.update(
                            idx as int,
                            ReorderBufferEntry {
                                value: Some(v),
                                status: InstructionStatus::Completed,
                                ..old(self).reorder_buffer@[idx as int]
                            },
                        )
                    } else {
                        old(self).reorder_buffer@
                    },
                    None => old(self).reorder_buffer@,
                }
            },
    {
        if let Some((producing_rs, value)) = self.common_data_bus.data {
            let producing_rob = self.get_rob_entry_for_rs(producing_rs);
            let n = self.reservation_stations.len();
            let mut i: usize = 0;
            while i < n
                invariant
                    n == self.reservation_stations@.len() == old(self).reservation_stations@.len(),
                    i <= n,
                    forall|k: int| 0 <= k < i ==> #[trigger] self.reservation_stations@[k] == fed(
                        old(self).reservation_stations@[k],
                        producing_rs,
                        value,
                    ),
                    forall|k: int| i <= k < n ==> #[trigger] self.reservation_stations@[k]
                        == old(self).reservation_stations@[k],
                    *self == (TomasuloProcessor { reservation_stations: self.reservation_stations, ..*old(self) }),
                decreases n - i,
            {
                if self.reservation_stations[i].busy {
                    if self.reservation_stations[i].qj == Some(producing_rs) {
                        self.reservation_stations[i].vj = Some(value);
                        self.reservation_stations[i].qj = None;
                    }
                    if self.reservation_stations[i].qk == Some(producing_rs) {
                        self.reservation_stations[i].vk = Some(value);
                        self.reservation_stations[i].qk = None;
                    }
                }
                i = i + 1;
            }
            assert(self.reservation_stations@ =~= old(self).reservation_stations@.map_values(
                |s: ReservationStation| fed(s, producing_rs, value),
            ));
            if let Some(rob_idx) = producing_rob {
                if rob_idx < self.reorder_buffer.len() {
                    let mut entry = self.reorder_buffer[rob_idx];
                    entry.value = Some(value);
                    entry.status = InstructionStatus::Completed;
                    rob_set(&mut self.reorder_buffer, rob_idx, entry);
                }
            }
        }
    }
}


/// A functional unit one cycle later: a busy unit counts down, and one on
/// its last cycle frees itself.
pub open spec fn ticked(u: FunctionalUnit) -> FunctionalUnit {
    if u.busy && u.cycles_remaining > 1 {
        FunctionalUnit { cycles_remaining: (u.cycles_remaining - 1) as usize, ..u }
    } else if u.busy && u.cycles_remaining == 1 {
        FunctionalUnit { unit_type: u.unit_type, reservation_station: None, busy: false, cycles_remaining: 0 }
    } else {
        u
    }
}

/// Whether `u` is a free unit of kind `t`.
pub open spec fn free_of_kind(u: FunctionalUnit, t: FunctionalUnitType) -> bool {
    !u.busy && u.unit_type == t
}

/// Whether `k` is the first free unit of kind `t` in `units`.
pub open spec fn first_free(units: Seq<FunctionalUnit>, t: FunctionalUnitType, k: int) -> bool {
    &&& 0 <= k < units.len()
    &&& free_of_kind(units[k], t)
    &&& forall|j: int| 0 <= j < k ==> !#[trigger] free_of_kind(units[j], t)
}

/// Station `r`, when ready with an instruction, starts on the first free
/// unit of the instruction's kind (if there is one) for that kind's
/// latency in `lat`; units and stations are otherwise unchanged.
pub open spec fn dispatch_one(
    units: Seq<FunctionalUnit>,
    stations: Seq<ReservationStation>,
    lat: Seq<(FunctionalUnitType, usize)>,
    r: int,
) -> (Seq<FunctionalUnit>, Seq<ReservationStation>) {
    let s = stations[r];
    if s.ready() && s.instruction is Some {
        let t = unit_for(s.instruction->0);
        if exists|k: int| first_free(units, t, k) {
            let k = choose|k: int| first_free(units, t, k);
            let l = latency_in(lat, t);
            (
                units.update(
                    k,
                    FunctionalUnit { unit_type: t, reservation_station: Some(r as usize), busy: true, cycles_remaining: l },
                ),
                stations.update(r, ReservationStation { status: InstructionStatus::Executing, cycles_remaining: l, ..s }),
            )
        } else {
            (units, stations)
        }
    } else {
        (units, stations)
    }
}

/// Stations `0..n` dispatched in order, starting from `units` and `stations`.
pub open spec fn dispatched(
    units: Seq<FunctionalUnit>,
    stations: Seq<ReservationStation>,
    lat: Seq<(FunctionalUnitType, usize)>,
    n: nat,
) -> (Seq<FunctionalUnit>, Seq<ReservationStation>)
    decreases n,
{
    if n == 0 {
        (units, stations)
    } else {
        let p = dispatched(units, stations, lat, (n - 1) as nat);
        dispatch_one(p.0, p.1, lat, n - 1)
    }
}

impl TomasuloProcessor {
    /// Whether `other` differs from `self` at most in its stations, units
    /// and common data bus, and in the executed-instruction counter.
    pub open spec fn same_but_execution(&self, other: &TomasuloProcessor) -> bool {
        &&& other.reorder_buffer == self.reorder_buffer
        &&& other.register_alias_table == self.register_alias_table
        &&& other.registers == self.registers
        &&& other.memory == self.memory
        &&& other.latency_map == self.latency_map
        &&& other.num_reservation_stations == self.num_reservation_stations
        &&& other.rob_size == self.rob_size
        &&& other.instructions_issued == self.instructions_issued
        &&& other.instructions_committed == self.instructions_committed
        &&& other.cycles == self.cycles
        &&& other.branch_mispredictions == self.branch_mispredictions
        &&& other.reservation_stations@.len() == self.reservation_stations@.len()
        &&& other.functional_units@.len() == self.functional_units@.len()
    }

    /// Advances the functional units by a cycle, then starts each ready
    /// station on the first free unit of its kind, for that kind's latency.
    /// A unit that completes frees itself as it ticks, so no result is
    /// broadcast here and the executed-instruction counter stays as it was.
    fn execute_instructions(&mut self)
        requires
            old(self).wf(),
            old(self).instructions_executed + old(self).functional_units@.len() <= usize::MAX,
        ensures
            final(self).wf(),
            old(self).same_but_execution(final(self)),
            final(self).instructions_executed == old(self).instructions_executed,
            final(self).common_data_bus == old(self).common_data_bus,
            (final(self).functional_units@, final(self).reservation_stations@) == dispatched(
                old(self).functional_units@.map_values(|u: FunctionalUnit| ticked(u)),
                old(self).reservation_stations@,
                old(self).latency_map@,
                old(self).reservation_stations@.len(),
            ),
            forall|k: int|
                0 <= k < final(self).reservation_stations@.len() && !old(self).reservation_stations@[k].ready()
                    ==> #[trigger] final(self).reservation_stations@[k] == old(self).reservation_stations@[k],
    {
        let nf = self.functional_units.len();
        let mut f: usize = 0;
        while f < nf
            invariant
                nf == self.functional_units@.len() == old(self).functional_units@.len(),
                f <= nf,
                self.wf(),
                old(self).same_but_execution(self),
                self.reservation_stations == old(self).reservation_stations,
                self.instructions_executed == old(self).instructions_executed,
                self.common_data_bus == old(self).common_data_bus,
                forall|k: int| 0 <= k < f ==> #[trigger] self.functional_units@[k] == ticked(old(self).functional_units@[k]),
                forall|k: int| f <= k < nf ==> #[trigger] self.functional_units@[k] == old(self).functional_units@[k],
            decreases nf - f,
        {
            if self.functional_units[f].busy {
                let completed = self.functional_units[f].tick();
                if completed {
                    if let Some(rs_id) = self.functional_units[f].reservation_station {
                        if rs_id < self.reservation_stations.len() {
                            let instruction = self.reservation_stations[rs_id].instruction;
                            self.reservation_stations[rs_id].status = InstructionStatus::Completed;
                            if let Some(instr) = instruction {
                                let rs = self.reservation_stations[rs_id];
                                let result = self.compute_result(&rs, &instr);
                                self.common_data_bus.broadcast(rs_id, result);
                                self.instructions_executed = self.instructions_executed + 1;
                            }
                        }
                    }
                    self.functional_units[f].reset();
                }
            }
            f = f + 1;
        }
        let ghost units0 = old(self).functional_units@.map_values(|u: FunctionalUnit| ticked(u));
        assert(self.functional_units@ =~= units0);
        let ns = self.reservation_stations.len();
        let mut r: usize = 0;
        while r < ns
            invariant
                ns == self.reservation_stations@.len() == old(self).reservation_stations@.len(),
                nf == self.functional_units@.len(),
                units0.len() == nf,
                r <= ns,
                self.wf(),
                old(self).same_but_execution(self),
                self.instructions_executed == old(self).instructions_executed,
                self.common_data_bus == old(self).common_data_bus,
                (self.functional_units@, self.reservation_stations@) == dispatched(
                    units0,
                    old(self).reservation_stations@,
                    old(self).latency_map@,
                    r as nat,
                ),
                forall|k: int|
                    0 <= k < ns && !old(self).reservation_stations@[k].ready() ==> #[trigger] self.reservation_stations@[k]
                        == old(self).reservation_stations@[k],
                forall|k: int| r <= k < ns ==> #[trigger] self.reservation_stations@[k] == old(self).reservation_stations@[k],
            decreases ns - r,
        {
            let ghost units_before = self.functional_units@;
            let ghost stations_before = self.reservation_stations@;
            if self.reservation_stations[r].is_ready() {
                if let Some(instr) = self.reservation_stations[r].instruction {
                    let fu_type = self.get_functional_unit_type(&instr);
                    let mut u: usize = 0;
                    while u < nf
                        invariant_except_break
                            forall|j: int| 0 <= j < u ==> !#[trigger] free_of_kind(units_before[j], fu_type),
                            self.functional_units@ == units_before,
                            self.reservation_stations@ == stations_before,
                        invariant
                            nf == units_before.len(),
                            ns == stations_before.len(),
                            u <= nf,
                            r < ns,
                            ns == self.reservation_stations@.len(),
                            self.wf(),
                            old(self).same_but_execution(self),
                            self.instructions_executed == old(self).instructions_executed,
                            self.common_data_bus == old(self).common_data_bus,
                            stations_before[r as int] == old(self).reservation_stations@[r as int],
                            stations_before[r as int].ready(),
                            stations_before[r as int].instruction == Some(instr),
                            fu_type == unit_for(instr),
                        ensures
                            (self.functional_units@, self.reservation_stations@)
                                == dispatch_one(units_before, stations_before, old(self).latency_map@, r as int)
                            || (self.functional_units@ == units_before && self.reservation_stations@ == stations_before
                                && forall|j: int| 0 <= j < nf ==> !#[trigger] free_of_kind(units_before[j], fu_type)),
                        decreases nf - u,
                    {
                        if self.functional_units[u].is_available() && self.functional_units[u].unit_type == fu_type {
                            let latency = self.latency_of(fu_type);
                            self.functional_units[u].start_execution(r, latency);
                            self.reservation_stations[r].status = InstructionStatus::Executing;
                            self.reservation_stations[r].cycles_remaining = latency;
                            proof {
                                assert(first_free(units_before, fu_type, u as int));
                                let k = choose|k: int| first_free(units_before, fu_type, k);
                                assert(k == u as int) by {
                                    if k < u {
                                        assert(free_of_kind(units_before[k], fu_type));
                                    }
                                    if k > u {
                                        assert(free_of_kind(units_before[u as int], fu_type));
                                    }
                                }
                                assert(self.functional_units@ =~= units_before.update(
                                    u as int,
                                    FunctionalUnit {
                                        unit_type: fu_type,
                                        reservation_station: Some(r),
                                        busy: true,
                                        cycles_remaining: latency_in(old(self).latency_map@, fu_type),
                                    },
                                ));
                            }
                            break;
                        }
                        u = u + 1;
                    }
                    proof {
                        if self.functional_units@ == units_before && self.reservation_stations@ == stations_before
                            && forall|j: int| 0 <= j < nf ==> !#[trigger] free_of_kind(units_before[j], fu_type) {
                            assert(!exists|k: int| first_free(units_before, fu_type, k)) by {
                                if exists|k: int| first_free(units_before, fu_type, k) {
                                    let k = choose|k: int| first_free(units_before, fu_type, k);
                                    assert(free_of_kind(units_before[k], fu_type));
                                }
                            }
                        }
                    }
                }
            }
            proof {
                assert((self.functional_units@, self.reservation_stations@) == dispatch_one(
                    units_before,
                    stations_before,
                    old(self).latency_map@,
                    r as int,
                ));
            }
            r = r + 1;
        }
    }

    /// Clears everything that follows a mispredicted branch: every station
    /// and unit, the reorder buffer but for its head, the alias table and
    /// the common data bus.
    fn handle_branch_misprediction(&mut self)
        ensures
            final(self).wf(),
            final(self).reservation_stations@ == old(self).reservation_stations@.map_values(
                |s: ReservationStation| ReservationStation::idle(s.id),
            ),
            final(self).functional_units@ == old(self).functional_units@.map_values(
                |u: FunctionalUnit| FunctionalUnit {
                    unit_type: u.unit_type,
                    reservation_station: None,
                    busy: false,
                    cycles_remaining: 0,
                },
            ),
            final(self).reorder_buffer@ == if old(self).reorder_buffer@.len() > 1 {
                old(self).reorder_buffer@.take(1)
            } else {
                old(self).reorder_buffer@
            },
            final(self).register_alias_table.mapping@ == Map::<u32, usize>::empty(),
            final(self).common_data_bus.data is None,
            final(self).registers == old(self).registers,
            final(self).memory == old(self).memory,
            final(self).latency_map == old(self).latency_map,
            final(self).instructions_issued == old(self).instructions_issued,
            final(self).instructions_executed == old(self).instructions_executed,
            final(self).instructions_committed == old(self).instructions_committed,
            final(self).cycles == old(self).cycles,
            final(self).branch_mispredictions == old(self).branch_mispredictions,
            final(self).num_reservation_stations == old(self).num_reservation_stations,
            final(self).rob_size == old(self).rob_size,
    {
        let ns = self.reservation_stations.len();
        let mut i: usize = 0;
        while i < ns
            invariant
                ns == self.reservation_stations@.len() == old(self).reservation_stations@.len(),
                i <= ns,
                forall|k: int| 0 <= k < i ==> #[trigger] self.reservation_stations@[k] == ReservationStation::idle(
                    old(self).reservation_stations@[k].id,
                ),
                forall|k: int| i <= k < ns ==> #[trigger] self.reservation_stations@[k] == old(self).reservation_stations@[k],
                *self == (TomasuloProcessor { reservation_stations: self.reservation_stations, ..*old(self) }),
            decreases ns - i,
        {
            self.reservation_stations[i].reset();
            i = i + 1;
        }
        assert(self.reservation_stations@ =~= old(self).reservation_stations@.map_values(
            |s: ReservationStation| ReservationStation::idle(s.id),
        ));
        let ghost s1 = *self;
        let nf = self.functional_units.len();
        let mut j: usize = 0;
        while j < nf
            invariant
                nf == self.functional_units@.len() == old(self).functional_units@.len(),
                j <= nf,
                forall|k: int| 0 <= k < j ==> #[trigger] self.functional_units@[k] == (FunctionalUnit {
                    unit_type: old(self).functional_units@[k].unit_type,
                    reservation_station: None,
                    busy: false,
                    cycles_remaining: 0,
                }),
                forall|k: int| j <= k < nf ==> #[trigger] self.functional_units@[k] == old(self).functional_units@[k],
                *self == (TomasuloProcessor { functional_units: self.functional_units, ..s1 }),
            decreases nf - j,
        {
            self.functional_units[j].reset();
            j = j + 1;
        }
        assert(self.functional_units@ =~= old(self).functional_units@.map_values(
            |u: FunctionalUnit| FunctionalUnit {
                unit_type: u.unit_type,
                reservation_station: None,
                busy: false,
                cycles_remaining: 0,
            },
        ));
        let ghost s2 = *self;
        while self.reorder_buffer.len() > 1
            invariant
                old(self).reorder_buffer@.len() > 1 ==> self.reorder_buffer@.len() >= 1
                    && self.reorder_buffer@.len() <= old(self).reorder_buffer@.len()
                    && self.reorder_buffer@ == old(self).reorder_buffer@.take(self.reorder_buffer@.len() as int),
                old(self).reorder_buffer@.len() <= 1 ==> self.reorder_buffer@ == old(self).reorder_buffer@,
                s2.reorder_buffer == old(self).reorder_buffer,
                *self == (TomasuloProcessor { reorder_buffer: self.reorder_buffer, ..s2 }),
            decreases self.reorder_buffer@.len(),
        {
            let ghost before = self.reorder_buffer@;
            self.reorder_buffer.pop_back();
            assert(self.reorder_buffer@ =~= old(self).reorder_buffer@.take(self.reorder_buffer@.len() as int));
        }
        self.register_alias_table.clear_all();
        self.common_data_bus.clear();
    }
}


/// The head entry of `rob` committed: its value written to its destination
/// register, the destination's alias released when it still names the
/// entry, and the entry freed and moved to the back.
pub open spec fn committed_head(rob: Seq<ReorderBufferEntry>, regs: RegistersModel, rat: Map<u32, usize>) -> (
    Seq<ReorderBufferEntry>,
    RegistersModel,
    Map<u32, usize>,
) {
    let e = rob[0];
    let regs2 = match e.dest {
        Some(d) => match e.value {
            Some(v) => regs.written(d, v),
            None => regs,
        },
        None => regs,
    };
    let rat2 = match e.dest {
        Some(d) => if rat.contains_key(d) && rat[d] == e.id {
            rat.remove(d)
        } else {
            rat
        },
        None => rat,
    };
    (rob.drop_first().push(ReorderBufferEntry::free(e.id)), regs2, rat2)
}

/// Up to `budget` commits from the head of `rob`, stopping at the first
/// entry that is not committable; a mispredicted head is removed and stops
/// the run. Gives the reorder buffer, registers and alias table after the
/// run, the number of instructions committed, and whether it stopped at a
/// misprediction.
pub open spec fn commit_run(
    rob: Seq<ReorderBufferEntry>,
    regs: RegistersModel,
    rat: Map<u32, usize>,
    budget: nat,
) -> (Seq<ReorderBufferEntry>, RegistersModel, Map<u32, usize>, nat, bool)
    decreases budget,
{
    if budget == 0 || rob.len() == 0 || !rob[0].committable() {
        (rob, regs, rat, 0, false)
    } else if rob[0].mispredicted {
        (rob.drop_first(), regs, rat, 0, true)
    } else {
        let h = committed_head(rob, regs, rat);
        let x = commit_run(h.0, h.1, h.2, (budget - 1) as nat);
        (x.0, x.1, x.2, x.3 + 1, x.4)
    }
}

impl TomasuloProcessor {
    /// Commits up to four completed instructions from the head of the
    /// reorder buffer: each writes its value to its destination register,
    /// releases its alias when the alias still names it, and its entry is
    /// freed and moved to the back. A mispredicted branch at the head is
    /// counted and clears the speculative state instead, ending the cycle's
    /// commits.
    fn commit_instructions(&mut self)
        requires
            old(self).wf(),
            old(self).instructions_committed + 4 <= usize::MAX,
            old(self).branch_mispredictions < usize::MAX,
        ensures
            final(self).wf(),
            old(self).instructions_committed <= final(self).instructions_committed
                <= old(self).instructions_committed + 4,
            old(self).branch_mispredictions <= final(self).branch_mispredictions
                <= old(self).branch_mispredictions + 1,
            final(self).branch_mispredictions == old(self).branch_mispredictions ==> {
                &&& final(self).reorder_buffer@.len() == old(self).reorder_buffer@.len()
                &&& final(self).reservation_stations == old(self).reservation_stations
                &&& final(self).functional_units == old(self).functional_units
            },
            final(self).functional_units@.len() == old(self).functional_units@.len(),
            !(old(self).reorder_buffer@.len() > 0 && old(self).reorder_buffer@[0].committable()) ==> *final(self) == *old(self),
            final(self).memory == old(self).memory,
            final(self).latency_map == old(self).latency_map,
            final(self).instructions_issued == old(self).instructions_issued,
            final(self).instructions_executed == old(self).instructions_executed,
            final(self).cycles == old(self).cycles,
            final(self).num_reservation_stations == old(self).num_reservation_stations,
            final(self).rob_size == old(self).rob_size,
            ({
                let run = commit_run(
                    old(self).reorder_buffer@,
                    old(self).registers@,
                    old(self).register_alias_table.mapping@,
                    4,
                );
                &&& final(self).instructions_committed == old(self).instructions_committed + run.3
                &&& final(self).registers@ == run.1
                &&& !run.4 ==> {
                    &&& final(self).reorder_buffer@ == run.0
                    &&& final(self).register_alias_table.mapping@ == run.2
                    &&& final(self).branch_mispredictions == old(self).branch_mispredictions
                    &&& final(self).common_data_bus == old(self).common_data_bus
                }
                &&& run.4 ==> {
                    &&& final(self).reorder_buffer@ == if run.0.len() > 1 {
                        run.0.take(1)
                    } else {
                        run.0
                    }
                    &&& final(self).register_alias_table.mapping@ == Map::<u32, usize>::empty()
                    &&& final(self).branch_mispredictions == old(self).branch_mispredictions + 1
                    &&& final(self).common_data_bus.data is None
                    &&& final(self).reservation_stations@ == old(self).reservation_stations@.map_values(
                        |s: ReservationStation| ReservationStation::idle(s.id),
                    )
                    &&& final(self).functional_units@ == old(self).functional_units@.map_values(
                        |u: FunctionalUnit| FunctionalUnit {
                            unit_type: u.unit_type,
                            reservation_station: None,
                            busy: false,
                            cycles_remaining: 0,
                        },
                    )
                }
            }),
    {
        broadcast use vstd::std_specs::hash::group_hash_axioms;

        let ghost run = commit_run(
            old(self).reorder_buffer@,
            old(self).registers@,
            old(self).register_alias_table.mapping@,
            4,
        );
        let mut committed: usize = 0;
        while self.reorder_buffer.len() > 0 && committed < 4
            invariant_except_break
                committed <= 4,
                old(self).instructions_committed + 4 <= usize::MAX,
                old(self).branch_mispredictions < usize::MAX,
                self.wf(),
                self.instructions_committed == old(self).instructions_committed + committed,
                self.branch_mispredictions == old(self).branch_mispredictions,
                self.reorder_buffer@.len() == old(self).reorder_buffer@.len(),
                self.reservation_stations == old(self).reservation_stations,
                self.functional_units == old(self).functional_units,
                committed == 0 ==> *self == *old(self),
                committed > 0 ==> (old(self).reorder_buffer@.len() > 0 && old(self).reorder_buffer@[0].committable()),
                self.memory == old(self).memory,
                self.latency_map == old(self).latency_map,
                self.instructions_issued == old(self).instructions_issued,
                self.instructions_executed == old(self).instructions_executed,
                self.cycles == old(self).cycles,
                self.num_reservation_stations == old(self).num_reservation_stations,
                self.rob_size == old(self).rob_size,
                self.common_data_bus == old(self).common_data_bus,
                ({
                    let cur = commit_run(
                        self.reorder_buffer@,
                        self.registers@,
                        self.register_alias_table.mapping@,
                        (4 - committed) as nat,
                    );
                    &&& run.0 == cur.0
                    &&& run.1 == cur.1
                    &&& run.2 == cur.2
                    &&& run.3 == cur.3 + committed
                    &&& run.4 == cur.4
                }),
            ensures
                self.wf(),
                self.instructions_committed == old(self).instructions_committed + run.3,
                self.registers@ == run.1,
                !run.4 ==> {
                    &&& self.reorder_buffer@ == run.0
                    &&& self.register_alias_table.mapping@ == run.2
                    &&& self.branch_mispredictions == old(self).branch_mispredictions
                    &&& self.common_data_bus == old(self).common_data_bus
                },
                run.4 ==> {
                    &&& self.reorder_buffer@ == if run.0.len() > 1 {
                        run.0.take(1)
                    } else {
                        run.0
                    }
                    &&& self.register_alias_table.mapping@ == Map::<u32, usize>::empty()
                    &&& self.branch_mispredictions == old(self).branch_mispredictions + 1
                    &&& self.common_data_bus.data is None
                    &&& self.reservation_stations@ == old(self).reservation_stations@.map_values(
                        |s: ReservationStation| ReservationStation::idle(s.id),
                    )
                    &&& self.functional_units@ == old(self).functional_units@.map_values(
                        |u: FunctionalUnit| FunctionalUnit {
                            unit_type: u.unit_type,
                            reservation_station: None,
                            busy: false,
                            cycles_remaining: 0,
                        },
                    )
                },
                old(self).instructions_committed <= self.instructions_committed
                    <= old(self).instructions_committed + 4,
                old(self).branch_mispredictions <= self.branch_mispredictions
                    <= old(self).branch_mispredictions + 1,
                self.branch_mispredictions == old(self).branch_mispredictions ==> {
                    &&& self.reorder_buffer@.len() == old(self).reorder_buffer@.len()
                    &&& self.reservation_stations == old(self).reservation_stations
                    &&& self.functional_units == old(self).functional_units
                },
                !(old(self).reorder_buffer@.len() > 0 && old(self).reorder_buffer@[0].committable()) ==> *self == *old(self),
                self.functional_units@.len() == old(self).functional_units@.len(),
                self.memory == old(self).memory,
                self.latency_map == old(self).latency_map,
                self.instructions_issued == old(self).instructions_issued,
                self.instructions_executed == old(self).instructions_executed,
                self.cycles == old(self).cycles,
                self.num_reservation_stations == old(self).num_reservation_stations,
                self.rob_size == old(self).rob_size,
            decreases 4 - committed,
        {
            let can_commit = self.reorder_buffer[0].busy && self.reorder_buffer[0].status
                == InstructionStatus::Completed;
            if can_commit {
                let mut entry = self.reorder_buffer.pop_front().unwrap();
                if entry.mispredicted {
                    self.branch_mispredictions = self.branch_mispredictions + 1;
                    self.handle_branch_misprediction();
                    break;
                }
                if let Some(dest_reg) = entry.dest {
                    if let Some(value) = entry.value {
                        self.registers.write(dest_reg, value);
                    }
                    if let Some(mapped_entry) = self.register_alias_table.get_mapping(dest_reg) {
                        if mapped_entry == entry.id {
                            self.register_alias_table.clear_mapping(dest_reg);
                        }
                    }
                }
                entry.commit();
                self.instructions_committed = self.instructions_committed + 1;
                committed = committed + 1;
                entry.reset();
                self.reorder_buffer.push_back(entry);
            } else {
                break;
            }
        }
    }

    /// What a source register reads as at issue: the value of a completed
    /// reorder buffer entry that will produce it, a dependency on that
    /// entry while it has not completed, or the register file's value.
    pub open spec fn operand(&self, reg: u32) -> (Option<u32>, Option<usize>) {
        let m = self.register_alias_table.mapping@;
        if m.contains_key(reg) {
            let e = self.reorder_buffer@[m[reg] as int];
            if e.status == InstructionStatus::Completed {
                (e.value, None)
            } else {
                (None, Some(m[reg]))
            }
        } else {
            (Some(self.registers@.reg(reg)), None)
        }
    }

    /// Looks up a source register's operand.
    fn read_operand(&self, reg: u32) -> (r: (Option<u32>, Option<usize>))
        requires
            self.wf(),
        ensures
            r == self.operand(reg),
    {
        match self.register_alias_table.get_mapping(reg) {
            Some(rob_entry) => {
                if self.reorder_buffer[rob_entry].status == InstructionStatus::Completed {
                    (self.reorder_buffer[rob_entry].value, None)
                } else {
                    (None, Some(rob_entry))
                }
            },
            None => (Some(self.registers.read(reg)), None),
        }
    }

    /// Whether station `i` is the first free one.
    pub open spec fn first_free_station(&self, i: int) -> bool {
        0 <= i < self.reservation_stations@.len() && !self.reservation_stations@[i].busy && forall|k: int|
            0 <= k < i ==> (#[trigger] self.reservation_stations@[k]).busy
    }

    /// Whether reorder buffer entry `i` is the first free one.
    pub open spec fn first_free_entry(&self, i: int) -> bool {
        0 <= i < self.reorder_buffer@.len() && !self.reorder_buffer@[i].busy && forall|k: int|
            0 <= k < i ==> (#[trigger] self.reorder_buffer@[k]).busy
    }

    /// Issues `instruction` at `pc` into the first free reservation station
    /// and reorder buffer entry, reading its operands (see `operand`) and
    /// renaming its destination register to the entry. Fails, changing
    /// nothing, when the reorder buffer holds `rob_size` busy entries or
    /// more, or no station or entry is free.
    pub fn issue(&mut self, instruction: Instruction, pc: u32) -> (r: bool)
        requires
            old(self).wf(),
            old(self).instructions_issued < usize::MAX,
            instruction.branches() ==> (instruction.immediate_target() matches Some(t) ==> t + pc
                <= u32::MAX),
        ensures
            final(self).wf(),
            issue_effect(*old(self), instruction, pc, *final(self), r),
    {
        let rob_entries_used = self.busy_rob_entries();
        if rob_entries_used >= self.rob_size {
            return false;
        }
        let rs_idx = match self.find_free_reservation_station() {
            Some(i) => i,
            None => return false,
        };
        let rob_idx = match self.find_free_rob_entry() {
            Some(i) => i,
            None => return false,
        };
        let src_regs = instruction.get_source_registers();
        let dest_reg = instruction.get_destination_register();
        let mut vj: Option<u32> = None;
        let mut vk: Option<u32> = None;
        let mut qj: Option<usize> = None;
        let mut qk: Option<usize> = None;
        if src_regs.len() > 0 {
            let (v, q) = self.read_operand(src_regs[0]);
            vj = v;
            qj = q;
            if src_regs.len() > 1 {
                let (v2, q2) = self.read_operand(src_regs[1]);
                vk = v2;
                qk = q2;
            }
        }
        let predicted_target = if instruction.is_branch_or_jump() {
            match instruction.get_immediate_target() {
                Some(t) => Some(t + pc),
                None => None,
            }
        } else {
            None
        };
        let ghost old_rs = self.reservation_stations@;
        self.reservation_stations[rs_idx].issue(instruction, vj, vk, qj, qk, Some(rob_idx), 0);
        let mut entry = self.reorder_buffer[rob_idx];
        entry.issue(instruction, dest_reg, predicted_target);
        rob_set(&mut self.reorder_buffer, rob_idx, entry);
        if let Some(dr) = dest_reg {
            self.register_alias_table.set_mapping(dr, rob_idx);
        }
        self.instructions_issued = self.instructions_issued + 1;
        proof {
            assert forall|ri: int, bi: int|
                old(self).first_free_station(ri) && old(self).first_free_entry(bi) implies ri == rs_idx
                && bi == rob_idx by {
                if ri < rs_idx {
                    assert(old(self).reservation_stations@[ri].busy);
                }
                if rs_idx < ri {
                    assert(old(self).reservation_stations@[rs_idx as int].busy);
                }
                if bi < rob_idx {
                    assert(old(self).reorder_buffer@[bi].busy);
                }
                if rob_idx < bi {
                    assert(old(self).reorder_buffer@[rob_idx as int].busy);
                }
            }
            assert(old(self).first_free_station(rs_idx as int));
            assert(old(self).first_free_entry(rob_idx as int));
        }
        true
    }

    /// One cycle: deliver the last result (`cdb_delivered`), advance the
    /// functional units and dispatch ready stations (`dispatched`), commit
    /// from the head of the reorder buffer (`commit_run`), and clear the
    /// common data bus.
    pub fn tick(&mut self)
        requires
            old(self).wf(),
            old(self).room(),
        ensures
            final(self).wf(),
            tick_effect(*old(self), *final(self)),
    {
        self.cycles = self.cycles + 1;
        self.process_cdb();
        proof {
            assert((self.reservation_stations@, self.reorder_buffer@) == cdb_delivered(*old(self)));
        }
        self.execute_instructions();
        self.commit_instructions();
        self.common_data_bus.clear();
    }

    /// The processor's counters and occupancy.
    pub fn get_stats(&self) -> (r: TomasuloStats)
        ensures
            r == (TomasuloStats {
                cycles: self.cycles,
                instructions_issued: self.instructions_issued,
                instructions_executed: self.instructions_executed,
                instructions_committed: self.instructions_committed,
                branch_mispredictions: self.branch_mispredictions,
                busy_stations: busy_station_count(self.reservation_stations@) as usize,
                num_reservation_stations: self.num_reservation_stations,
                busy_rob_entries: busy_entries(self.reorder_buffer@) as usize,
                rob_size: self.rob_size,
            }),
    {
        TomasuloStats {
            cycles: self.cycles,
            instructions_issued: self.instructions_issued,
            instructions_executed: self.instructions_executed,
            instructions_committed: self.instructions_committed,
            branch_mispredictions: self.branch_mispredictions,
            busy_stations: self.busy_stations(),
            num_reservation_stations: self.num_reservation_stations,
            busy_rob_entries: self.busy_rob_entries(),
            rob_size: self.rob_size,
        }
    }
}

} // verus!
