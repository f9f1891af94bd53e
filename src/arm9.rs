use vstd::prelude::*;

use crate::psr::Psr;
use crate::ptrs::{empty_entry, PtrTable, ENTRIES};

verus! {

/// Index of the program counter.
pub const PC: usize = 15;
/// Index of the link register.
pub const LR: usize = 14;

/// `x + 4`, wrapping past the top of the 32-bit range.
pub open spec fn add4(x: u32) -> u32 {
    if x + 4 > u32::MAX {
        (x + 4 - 0x1_0000_0000) as u32
    } else {
        (x + 4) as u32
    }
}

/// The value a read of register `index` gives: the stored value, except that
/// the program counter reads 4 ahead of what was stored. Only the low four
/// bits of `index` count.
pub open spec fn reg_read(regs: Seq<u32>, index: usize) -> u32 {
    let i = index % 16;
    if i == 15 {
        add4(regs[15])
    } else {
        regs[i as int]
    }
}

/// The register bank after storing `val` through `index`.
pub open spec fn reg_write(regs: Seq<u32>, index: usize, val: u32) -> Seq<u32> {
    regs.update((index % 16) as int, val)
}

/// Register file, status register and address translation of the first CPU.
pub struct Arm9 {
    pub gpr: [u32; 16],
    pub cpsr: Psr,
    pub bus_ptrs: PtrTable,
}

proof fn lemma_low_nibble(index: usize)
    ensures
        index & 0xf == index % 16,
{
    assert(index & 0xf == index % 16) by (bit_vector);
}

impl Arm9 {
    /// Cleared registers and flags, every page unmapped.
    pub fn new() -> (r: Self)
        ensures
            forall|i: int| 0 <= i < 16 ==> r.gpr@[i] == 0,
            r.cpsr.0 == 0,
            r.bus_ptrs.wf(),
            forall|i: int| 0 <= i < ENTRIES ==> r.bus_ptrs@[i] == empty_entry(),
    {
        Arm9 { gpr: [0u32; 16], cpsr: Psr::new(), bus_ptrs: PtrTable::new() }
    }

    /// Clears registers and flags; the page table is kept.
    pub fn init(&mut self)
        ensures
            forall|i: int| 0 <= i < 16 ==> final(self).gpr@[i] == 0,
            final(self).cpsr.0 == 0,
            final(self).bus_ptrs == old(self).bus_ptrs,
    {
        self.gpr = [0u32; 16];
        self.cpsr = Psr::new();
    }

    /// Reads a register; the index wraps modulo 16.
    pub fn gpr(&self, index: usize) -> (r: u32)
        ensures
            r == reg_read(self.gpr@, index),
    {
        proof {
            lemma_low_nibble(index);
        }
        let i = index & 0xf;
        if i == PC {
            self.gpr[PC].wrapping_add(4)
        } else {
            self.gpr[i]
        }
    }

    /// Stores a register; the index wraps modulo 16.
    pub fn gpr_set(&mut self, index: usize, val: u32)
        ensures
            final(self).gpr@ == reg_write(old(self).gpr@, index, val),
            final(self).cpsr == old(self).cpsr,
            final(self).bus_ptrs == old(self).bus_ptrs,
    {
        proof {
            lemma_low_nibble(index);
        }
        self.gpr[index & 0xf] = val;
    }

    pub fn lr_set(&mut self, val: u32)
        ensures
            final(self).gpr@ == reg_write(old(self).gpr@, LR, val),
            final(self).cpsr == old(self).cpsr,
            final(self).bus_ptrs == old(self).bus_ptrs,
    {
        self.gpr_set(LR, val)
    }

    /// The program counter as instructions read it.
    pub fn pc(&self) -> (r: u32)
        ensures
            r == reg_read(self.gpr@, PC),
    {
        self.gpr(PC)
    }

    pub fn pc_set(&mut self, val: u32)
        ensures
            final(self).gpr@ == reg_write(old(self).gpr@, PC, val),
            final(self).cpsr == old(self).cpsr,
            final(self).bus_ptrs == old(self).bus_ptrs,
    {
        self.gpr_set(PC, val)
    }
}

/// Storing `x` in the program counter and reading it back gives `x + 4`
/// (wrapping); storing `x` in any other register and reading it back gives
/// `x`.
pub proof fn lemma_register_read_back(regs: Seq<u32>, index: usize, x: u32)
    requires
        regs.len() == 16,
    ensures
        index % 16 == 15 ==> reg_read(reg_write(regs, index, x), index) == add4(x),
        index % 16 != 15 ==> reg_read(reg_write(regs, index, x), index) == x,
{
}

} // verus!
