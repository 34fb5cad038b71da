//! The program counter with a branch delay slot.
use vstd::prelude::*;
use crate::errors::SimulatorError;

verus! {

pub struct PcManager {
    pub pc: u32,
    pub next_pc: u32,
    pub branch_delay_slot: bool,
    pub branch_target: Option<u32>,
    pub memory_size: usize,
}

/// Whether `r` is the error `InvalidBranchTarget(a)`.
pub open spec fn invalid_target(r: Result<u32, SimulatorError>, a: u32) -> bool {
    r matches Err(SimulatorError::InvalidBranchTarget(x)) && x == a
}

/// Whether `r` is the error `MemoryMisaligned(a)`.
pub open spec fn misaligned(r: Result<u32, SimulatorError>, a: u32) -> bool {
    r matches Err(SimulatorError::MemoryMisaligned(x)) && x == a
}

/// The target of a branch at `pc` with word offset `offset`: the next
/// instruction's address plus four times the offset, wrapping.
pub open spec fn branch_target_of(pc: u32, offset: i16) -> u32 {
    pc.wrapping_add(4).wrapping_add((offset as i32 * 4) as u32)
}

/// The target of a jump at `pc` to the 26-bit word index `target`: the top
/// four bits of `pc` and the index shifted to a byte address.
pub open spec fn jump_target_of(pc: u32, target: u32) -> u32 {
    (pc & 0xF000_0000u32) | ((target & 0x03FF_FFFFu32) << 2u32)
}

/// The program counter after moving on from `p` (see `PcManager::advance`).
pub open spec fn advanced(p: PcManager) -> PcManager {
    if p.branch_delay_slot && p.branch_target is Some {
        PcManager {
            pc: p.next_pc,
            next_pc: p.branch_target.unwrap(),
            branch_delay_slot: false,
            branch_target: None,
            ..p
        }
    } else {
        PcManager { pc: p.next_pc, next_pc: p.next_pc.wrapping_add(4), ..p }
    }
}

/// `p` with a delay slot open for a branch to `target`.
pub open spec fn with_branch(p: PcManager, target: u32) -> PcManager {
    PcManager { branch_delay_slot: true, branch_target: Some(target), ..p }
}

/// After a branch target is set, the instruction in the delay slot (the
/// next one) runs first and the target after it; the slot is then closed.
pub proof fn law_delay_slot(p: PcManager, target: u32)
    ensures
        advanced(with_branch(p, target)).pc == p.next_pc,
        advanced(advanced(with_branch(p, target))).pc == target,
        !advanced(with_branch(p, target)).branch_delay_slot,
        advanced(advanced(with_branch(p, target))).next_pc == target.wrapping_add(4),
{
}

impl PcManager {
    /// A program counter at 0, with 4 next, over `memory_size` bytes.
    pub fn new(memory_size: usize) -> (r: Self)
        ensures
            r == (PcManager { pc: 0, next_pc: 4, branch_delay_slot: false, branch_target: None, memory_size }),
    {
        Self { pc: 0, next_pc: 4, branch_delay_slot: false, branch_target: None, memory_size }
    }

    /// Moves to the next instruction. After a delay slot the next one is
    /// the pending branch target (the slot then closes); otherwise it is
    /// the one after, wrapping.
    pub fn advance(&mut self)
        ensures
            *final(self) == advanced(*old(self)),
            final(self).pc == old(self).next_pc,
            final(self).memory_size == old(self).memory_size,
            old(self).branch_delay_slot && old(self).branch_target is Some ==> final(self).next_pc
                == old(self).branch_target.unwrap() && !final(self).branch_delay_slot
                && final(self).branch_target is None,
            !(old(self).branch_delay_slot && old(self).branch_target is Some) ==> final(self).next_pc
                == old(self).next_pc.wrapping_add(4) && final(self).branch_delay_slot
                == old(self).branch_delay_slot && final(self).branch_target == old(self).branch_target,
    {
        self.pc = self.next_pc;
        if self.branch_delay_slot {
            if let Some(target) = self.branch_target {
                self.next_pc = target;
                self.branch_delay_slot = false;
                self.branch_target = None;
            } else {
                self.next_pc = self.pc.wrapping_add(4);
            }
        } else {
            self.next_pc = self.pc.wrapping_add(4);
        }
    }

    /// Opens a delay slot for a branch to `target`: an address outside
    /// memory or not word aligned is refused, changing nothing.
    pub fn set_branch_target(&mut self, target: u32) -> (r: Result<(), SimulatorError>)
        ensures
            target as usize >= old(self).memory_size ==> (r matches Err(
                SimulatorError::InvalidBranchTarget(x),
            ) && x == target && *final(self) == *old(self)),
            (target as usize) < old(self).memory_size && target % 4 != 0 ==> (r matches Err(
                SimulatorError::MemoryMisaligned(x),
            ) && x == target && *final(self) == *old(self)),
            (target as usize) < old(self).memory_size && target % 4 == 0 ==> r is Ok && *final(self)
                == with_branch(*old(self), target),
    {
        if target as usize >= self.memory_size {
            return Err(SimulatorError::InvalidBranchTarget(target));
        }
        if target % 4 != 0 {
            return Err(SimulatorError::MemoryMisaligned(target));
        }
        self.branch_delay_slot = true;
        self.branch_target = Some(target);
        Ok(())
    }

    /// The target of a branch with word offset `offset` from the program
    /// counter (see `branch_target_of`), refused when outside memory or not
    /// word aligned.
    pub fn calculate_branch_target(&self, offset: i16) -> (r: Result<u32, SimulatorError>)
        ensures
            ({
                let t = branch_target_of(self.pc, offset);
                &&& t as usize >= self.memory_size ==> invalid_target(r, t)
                &&& (t as usize) < self.memory_size && t % 4 != 0 ==> misaligned(r, t)
                &&& (t as usize) < self.memory_size && t % 4 == 0 ==> (r matches Ok(x) && x == t)
            }),
    {
        let pc_plus_4 = self.pc.wrapping_add(4);
        let offset_bytes = (offset as i32) * 4;
        let target = pc_plus_4.wrapping_add(offset_bytes as u32);
        if target as usize >= self.memory_size {
            return Err(SimulatorError::InvalidBranchTarget(target));
        }
        if target % 4 != 0 {
            return Err(SimulatorError::MemoryMisaligned(target));
        }
        Ok(target)
    }

    /// The target of a jump (see `jump_target_of`), refused when outside
    /// memory.
    pub fn calculate_jump_target(&self, target: u32) -> (r: Result<u32, SimulatorError>)
        ensures
            ({
                let t = jump_target_of(self.pc, target);
                &&& t as usize >= self.memory_size ==> invalid_target(r, t)
                &&& (t as usize) < self.memory_size ==> (r matches Ok(x) && x == t)
            }),
    {
        let jump_addr = (self.pc & 0xF000_0000u32) | ((target & 0x03FF_FFFFu32) << 2u32);
        if jump_addr as usize >= self.memory_size {
            return Err(SimulatorError::InvalidBranchTarget(jump_addr));
        }
        Ok(jump_addr)
    }

    /// Whether `address` lies in memory and is word aligned.
    pub fn is_valid_address(&self, address: u32) -> (r: bool)
        ensures
            r == ((address as usize) < self.memory_size && address % 4 == 0),
    {
        (address as usize) < self.memory_size && address % 4 == 0
    }

    pub fn get_current_pc(&self) -> (r: u32)
        ensures
            r == self.pc,
    {
        self.pc
    }

    pub fn get_next_pc(&self) -> (r: u32)
        ensures
            r == self.next_pc,
    {
        self.next_pc
    }

    pub fn is_in_delay_slot(&self) -> (r: bool)
        ensures
            r == self.branch_delay_slot,
    {
        self.branch_delay_slot
    }

    /// Back to the start, with no branch pending.
    pub fn reset(&mut self)
        ensures
            *final(self) == (PcManager {
                pc: 0,
                next_pc: 4,
                branch_delay_slot: false,
                branch_target: None,
                memory_size: old(self).memory_size,
            }),
    {
        self.pc = 0;
        self.next_pc = 4;
        self.branch_delay_slot = false;
        self.branch_target = None;
    }

    /// Jumps to `new_pc`, dropping any pending branch; refused, changing
    /// nothing, when the address is not valid.
    pub fn set_pc(&mut self, new_pc: u32) -> (r: Result<(), SimulatorError>)
        ensures
            !((new_pc as usize) < old(self).memory_size && new_pc % 4 == 0) ==> (r matches Err(
                SimulatorError::InvalidBranchTarget(x),
            ) && x == new_pc && *final(self) == *old(self)),
            (new_pc as usize) < old(self).memory_size && new_pc % 4 == 0 ==> r is Ok && *final(self)
                == (PcManager {
                pc: new_pc,
                next_pc: new_pc.wrapping_add(4),
                branch_delay_slot: false,
                branch_target: None,
                memory_size: old(self).memory_size,
            }),
    {
        if !self.is_valid_address(new_pc) {
            return Err(SimulatorError::InvalidBranchTarget(new_pc));
        }
        self.pc = new_pc;
        self.next_pc = new_pc.wrapping_add(4);
        self.branch_delay_slot = false;
        self.branch_target = None;
        Ok(())
    }
}

} // verus!
