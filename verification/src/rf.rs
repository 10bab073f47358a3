//! The register file: 32 general-purpose 32-bit registers.  Register 0 is
//! hard-wired to zero, and out-of-range indices behave like register 0 —
//! reads return zero and writes are dropped — so the execution loop stays
//! total on malformed operands.

use vstd::prelude::*;

verus! {

/// Number of registers.
pub const RF_SIZE: u32 = 32;

/// What a read of register `index` returns in state `regs`: the stored
/// word for indices 1..31, zero for index 0 and for any out-of-range
/// index.
pub open spec fn read_spec(regs: Seq<u32>, index: u32) -> u32 {
    if 0 < index < 32 {
        regs[index as int]
    } else {
        0
    }
}

/// The state after a write: unchanged for index 0 and for out-of-range
/// indices, updated at `index` otherwise.
pub open spec fn write_spec(regs: Seq<u32>, index: u32, data: u32) -> Seq<u32> {
    if 0 < index < 32 {
        regs.update(index as int, data)
    } else {
        regs
    }
}

/// Register 0 reads as zero in every state, whatever was written before.
pub proof fn lemma_x0_reads_zero(regs: Seq<u32>)
    ensures
        read_spec(regs, 0) == 0,
        forall|data: u32| write_spec(regs, 0, data) == regs,
{
}

pub struct RegisterFile {
    mem: Vec<u32>,
}

impl View for RegisterFile {
    type V = Seq<u32>;

    closed spec fn view(&self) -> Seq<u32> {
        self.mem@
    }
}

impl RegisterFile {
    /// Well-formed: exactly 32 slots, and slot 0 holds zero.
    pub open spec fn wf(&self) -> bool {
        self@.len() == 32 && self@[0] == 0
    }

    /// A fresh register file with every register zero.
    pub fn init() -> (r: RegisterFile)
        ensures
            r.wf(),
            forall|i: int| 0 <= i < 32 ==> r@[i] == 0,
    {
        let mut mem: Vec<u32> = Vec::new();
        let mut i: u32 = 0;
        while i < RF_SIZE
            invariant
                i <= 32,
                mem@.len() == i,
                forall|j: int| 0 <= j < i ==> mem@[j] == 0,
            decreases 32 - i,
        {
            mem.push(0);
            i = i + 1;
        }
        RegisterFile { mem }
    }

    /// Zeroes all registers.
    pub fn reset(&mut self)
        requires
            old(self).wf(),
        ensures
            final(self).wf(),
            forall|i: int| 0 <= i < 32 ==> final(self)@[i] == 0,
    {
        let mut i: usize = 0;
        while i < 32
            invariant
                i <= 32,
                self@.len() == 32,
                forall|j: int| 0 <= j < i ==> self@[j] == 0,
            decreases 32 - i,
        {
            self.mem[i] = 0;
            i = i + 1;
        }
    }

    /// Reads register `index`; index 0 and out-of-range indices read as
    /// zero with no side effect.
    pub fn rd(&self, index: u32) -> (r: u32)
        requires
            self.wf(),
        ensures
            r == read_spec(self@, index),
    {
        if index < RF_SIZE && index > 0 {
            self.mem[index as usize]
        } else {
            0
        }
    }

    /// Writes register `index`; writes to index 0 and to out-of-range
    /// indices are silently dropped.
    pub fn wr(&mut self, index: u32, data: u32)
        requires
            old(self).wf(),
        ensures
            final(self).wf(),
            final(self)@ == write_spec(old(self)@, index, data),
    {
        if index < RF_SIZE && index > 0 {
            self.mem[index as usize] = data;
        }
        proof {
            assert(self@ =~= write_spec(old(self)@, index, data));
        }
    }
}

} // verus!
