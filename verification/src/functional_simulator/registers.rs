//! The MIPS register file: 32 general-purpose registers, 32 floating-point
//! registers (held as raw IEEE-754 single-precision bit patterns), HI, LO,
//! the program counter and the floating-point control/status register.
use vstd::prelude::*;

verus! {

/// Number of general-purpose (and of floating-point) registers.
pub const NUM_REGISTERS: usize = 32;

#[derive(Debug)]
pub struct Registers {
    /// General-purpose registers.
    pub data: Vec<u32>,
    /// Floating-point registers, each holding the bit pattern of an `f32`.
    pub fp_registers: Vec<u32>,
    /// HI register for mult/div results.
    pub hi: u32,
    /// LO register for mult/div results.
    pub lo: u32,
    /// Program counter.
    pub pc: u32,
    /// Floating-point control/status register.
    pub fcsr: u32,
    /// Target register for certain instructions.
    pub target_reg: Option<u32>,
}

/// The abstract state of a register file.
pub struct RegistersModel {
    pub data: Seq<u32>,
    pub fp: Seq<u32>,
    pub hi: u32,
    pub lo: u32,
    pub pc: u32,
    pub fcsr: u32,
    pub target_reg: Option<u32>,
}

impl RegistersModel {
    /// The value a read of general-purpose register `reg` yields: `$zero`
    /// and registers outside the file read as 0.
    pub open spec fn reg(self, reg: u32) -> u32 {
        if reg == 0 {
            0
        } else if reg < self.data.len() {
            self.data[reg as int]
        } else {
            0
        }
    }

    /// The bit pattern a read of floating-point register `reg` yields;
    /// registers outside the file read as the bits of 0.0.
    pub open spec fn freg(self, reg: u32) -> u32 {
        if reg < self.fp.len() {
            self.fp[reg as int]
        } else {
            0
        }
    }

    /// The register file after a write of `value` to general-purpose
    /// register `reg`: writes to `$zero` or outside the file are ignored.
    pub open spec fn written(self, reg: u32, value: u32) -> RegistersModel {
        if reg != 0 && reg < self.data.len() {
            RegistersModel { data: self.data.update(reg as int, value), ..self }
        } else {
            self
        }
    }

    /// The register file after a write of bit pattern `value` to
    /// floating-point register `reg`; writes outside the file are ignored.
    pub open spec fn fwritten(self, reg: u32, value: u32) -> RegistersModel {
        if reg < self.fp.len() {
            RegistersModel { fp: self.fp.update(reg as int, value), ..self }
        } else {
            self
        }
    }
}

impl View for Registers {
    type V = RegistersModel;

    open spec fn view(&self) -> RegistersModel {
        RegistersModel {
            data: self.data@,
            fp: self.fp_registers@,
            hi: self.hi,
            lo: self.lo,
            pc: self.pc,
            fcsr: self.fcsr,
            target_reg: self.target_reg,
        }
    }
}

impl Clone for Registers {
    /// A copy of every register.
    fn clone(&self) -> (r: Self)
        ensures
            r@ == self@,
    {
        Registers {
            data: copy_words(&self.data),
            fp_registers: copy_words(&self.fp_registers),
            hi: self.hi,
            lo: self.lo,
            pc: self.pc,
            fcsr: self.fcsr,
            target_reg: self.target_reg,
        }
    }
}

fn copy_words(v: &Vec<u32>) -> (r: Vec<u32>)
    ensures
        r@ == v@,
{
    let mut out: Vec<u32> = Vec::new();
    let mut i: usize = 0;
    while i < v.len()
        invariant
            i <= v@.len(),
            out@ == v@.take(i as int),
        decreases v@.len() - i,
    {
        out.push(v[i]);
        i = i + 1;
        assert(out@ =~= v@.take(i as int));
    }
    assert(v@.take(v@.len() as int) =~= v@);
    out
}

impl Registers {
    pub fn new() -> (r: Self)
        ensures
            r.data@ == Seq::new(32, |i: int| 0u32),
            r.fp_registers@ == Seq::new(32, |i: int| 0u32),
            r.hi == 0,
            r.lo == 0,
            r.pc == 0,
            r.fcsr == 0,
            r.target_reg is None,
    {
        let mut data: Vec<u32> = Vec::new();
        let mut fp: Vec<u32> = Vec::new();
        let mut i: usize = 0;
        while i < NUM_REGISTERS
            invariant
                i <= NUM_REGISTERS,
                data@ == Seq::new(i as nat, |k: int| 0u32),
                fp@ == Seq::new(i as nat, |k: int| 0u32),
            decreases NUM_REGISTERS - i,
        {
            data.push(0);
            fp.push(0);
            i = i + 1;
        }
        Self { data, fp_registers: fp, hi: 0, lo: 0, pc: 0, fcsr: 0, target_reg: None }
    }

    pub fn read(&self, reg_num: u32) -> (r: u32)
        ensures
            r == self@.reg(reg_num),
    {
        if reg_num == 0 {
            0
        } else if (reg_num as usize) < self.data.len() {
            self.data[reg_num as usize]
        } else {
            0
        }
    }

    pub fn write(&mut self, reg_num: u32, value: u32)
        ensures
            final(self)@ == old(self)@.written(reg_num, value),
    {
        if reg_num != 0 && (reg_num as usize) < self.data.len() {
            self.data.set(reg_num as usize, value);
        }
    }

    /// Reads the bit pattern held in floating-point register `reg_num`.
    pub fn read_float_bits(&self, reg_num: u32) -> (r: u32)
        ensures
            r == self@.freg(reg_num),
    {
        if (reg_num as usize) < self.fp_registers.len() {
            self.fp_registers[reg_num as usize]
        } else {
            0
        }
    }

    /// Writes a bit pattern to floating-point register `reg_num`.
    pub fn write_float_bits(&mut self, reg_num: u32, value: u32)
        ensures
            final(self)@ == old(self)@.fwritten(reg_num, value),
    {
        if (reg_num as usize) < self.fp_registers.len() {
            self.fp_registers.set(reg_num as usize, value);
        }
    }

    pub fn get_hi(&self) -> (r: u32)
        ensures
            r == self.hi,
    {
        self.hi
    }

    pub fn set_hi(&mut self, value: u32)
        ensures
            final(self)@ == (RegistersModel { hi: value, ..old(self)@ }),
    {
        self.hi = value;
    }

    pub fn get_lo(&self) -> (r: u32)
        ensures
            r == self.lo,
    {
        self.lo
    }

    pub fn set_lo(&mut self, value: u32)
        ensures
            final(self)@ == (RegistersModel { lo: value, ..old(self)@ }),
    {
        self.lo = value;
    }
}

impl Default for Registers {
    fn default() -> (r: Self)
        ensures
            r.data@ == Seq::new(32, |i: int| 0u32),
            r.fp_registers@ == Seq::new(32, |i: int| 0u32),
            r.hi == 0 && r.lo == 0 && r.pc == 0 && r.fcsr == 0,
            r.target_reg is None,
    {
        Self::new()
    }
}

/// A read of a general-purpose register gives back the last value written
/// to it, except that `$zero` always reads as 0.
pub proof fn law_register_read_after_write(regs: RegistersModel, reg: u32, value: u32, other: u32)
    requires
        regs.data.len() == NUM_REGISTERS,
        reg < NUM_REGISTERS,
    ensures
        regs.written(reg, value).reg(reg) == (if reg == 0 { 0 } else { value }),
        other != reg ==> regs.written(reg, value).reg(other) == regs.reg(other),
        regs.reg(0) == 0,
{
}

} // verus!
