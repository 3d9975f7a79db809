//! The AArch64 target: its registers and its calling convention.

use crate::abi::ABI;
use crate::reg::Reg;
use crate::regalloc::regs_of_mask;
use vstd::arithmetic::power2::{lemma2_to64, pow2};
use vstd::prelude::*;

verus! {

/// The general-purpose registers that code generation may allocate: `x0` to
/// `x15` and `x19` to `x28`. The intra-procedure-call registers, the platform
/// register, the frame pointer, the link register and the stack pointer stay
/// out.
pub const ALL_GPR: u32 = 0x1FF8_FFFF;

/// The general-purpose register `x<enc>`.
pub fn xreg(enc: u8) -> (reg: Reg)
    requires
        enc < 31,
    ensures
        reg == Reg::spec_new(enc),
{
    Reg::new(enc)
}

/// The first intra-procedure-call register, used as scratch.
pub fn ip0() -> (reg: Reg)
    ensures
        reg == Reg::spec_new(16),
{
    xreg(16)
}

/// The calling convention of the AArch64 target.
pub struct Aarch64ABI;

impl ABI for Aarch64ABI {
    open spec fn spec_call_stack_align(&self) -> u8 {
        16
    }

    open spec fn spec_arg_base_offset(&self) -> u8 {
        16
    }

    open spec fn spec_word_bytes() -> u32 {
        8
    }

    open spec fn spec_scratch_reg() -> Reg {
        Reg::spec_new(16)
    }

    fn call_stack_align(&self) -> (align: u8) {
        proof {
            lemma2_to64();
            assert(16 == pow2(4));
        }
        16
    }

    fn arg_base_offset(&self) -> (offset: u8) {
        16
    }

    fn word_bytes() -> (bytes: u32) {
        8
    }

    fn scratch_reg() -> (reg: Reg) {
        ip0()
    }
}

/// The scratch register is never handed out by an allocator that starts from
/// [`ALL_GPR`], so no live value is lost when an argument passes through it.
pub proof fn lemma_scratch_is_reserved()
    ensures
        !regs_of_mask(ALL_GPR).contains(Aarch64ABI::spec_scratch_reg()),
{
    Reg::lemma_encoding_of_new(16);
    assert((0x1FF8_FFFFu32 >> 16u32) & 1 == 0) by (bit_vector);
}

} // verus!
