//! Bookkeeping of which general-purpose registers are free.

use crate::reg::Reg;
use vstd::prelude::*;

verus! {

/// Whether bit `index` of `mask` is set.
pub open spec fn bit_is_set(mask: u32, index: u8) -> bool {
    index < 32 && (mask >> (index as u32)) & 1 == 1
}

/// The registers whose bit is set in `mask`, bit `i` standing for the register
/// with hardware encoding `i`.
pub open spec fn regs_of_mask(mask: u32) -> Set<Reg> {
    Set::new(|reg: Reg| bit_is_set(mask, reg.spec_hw_enc()))
}

/// The register allocator: a set of free general-purpose registers.
pub struct RegAlloc {
    gpr: u32,
}

impl RegAlloc {
    /// The set of registers that are currently free.
    pub closed spec fn view(&self) -> Set<Reg> {
        regs_of_mask(self.gpr)
    }

    /// An allocator in which exactly the registers of `gpr` are free.
    pub fn new(gpr: u32) -> (alloc: RegAlloc)
        ensures
            alloc@ == regs_of_mask(gpr),
    {
        RegAlloc { gpr }
    }

    /// Whether `reg` is free.
    pub fn gpr_available(&self, reg: Reg) -> (free: bool)
        ensures
            free == self@.contains(reg),
    {
        let index: u32 = reg.hw_enc() as u32;
        let bit: u32 = 1u32 << index;
        let gpr: u32 = self.gpr;
        assert(((!gpr & bit) == 0) == ((gpr >> index) & 1 == 1)) by (bit_vector)
            requires
                index < 32,
                bit == 1u32 << index,
        ;
        (!gpr & bit) == 0
    }

    /// Takes the free register `named` out of the free set.
    pub fn gpr(&mut self, named: Reg) -> (reg: Reg)
        requires
            old(self)@.contains(named),
        ensures
            reg == named,
            final(self)@ == old(self)@.remove(named),
    {
        let index: u32 = named.hw_enc() as u32;
        let before: u32 = self.gpr;
        let after: u32 = before & !(1u32 << index);
        self.gpr = after;
        proof {
            assert forall|r: Reg| regs_of_mask(after).contains(r) == #[trigger] regs_of_mask(
                before,
            ).remove(named).contains(r) by {
                let j: u32 = r.spec_hw_enc() as u32;
                if r.spec_hw_enc() == named.spec_hw_enc() {
                    Reg::lemma_encoding_is_injective(r, named);
                }
                if j < 32 {
                    assert(((after >> j) & 1 == 1) == (j != index && (before >> j) & 1 == 1))
                        by (bit_vector)
                        requires
                            index < 32,
                            j < 32,
                            after == before & !(1u32 << index),
                    ;
                }
            }
        }
        named
    }

    /// Returns `reg` to the free set.
    pub fn free_gpr(&mut self, reg: Reg)
        ensures
            final(self)@ == old(self)@.insert(reg),
    {
        let index: u32 = reg.hw_enc() as u32;
        let before: u32 = self.gpr;
        let after: u32 = before | (1u32 << index);
        self.gpr = after;
        proof {
            assert forall|r: Reg| regs_of_mask(after).contains(r) == #[trigger] regs_of_mask(
                before,
            ).insert(reg).contains(r) by {
                let j: u32 = r.spec_hw_enc() as u32;
                if r.spec_hw_enc() == reg.spec_hw_enc() {
                    Reg::lemma_encoding_is_injective(r, reg);
                }
                if j < 32 {
                    assert(((after >> j) & 1 == 1) == (j == index || (before >> j) & 1 == 1))
                        by (bit_vector)
                        requires
                            index < 32,
                            j < 32,
                            after == before | (1u32 << index),
                    ;
                }
            }
        }
    }
}

} // verus!
