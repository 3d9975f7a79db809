//! The x86-64 target: its registers and its calling convention.

use crate::abi::ABI;
use crate::reg::Reg;
use crate::regalloc::regs_of_mask;
use vstd::arithmetic::power2::{lemma2_to64, pow2};
use vstd::prelude::*;

verus! {

/// The general-purpose registers that code generation may allocate: all
/// sixteen but the stack pointer, the frame pointer and the scratch register.
pub const ALL_GPR: u32 = 0xF7CF;

/// The accumulator, in which results are returned.
pub fn rax() -> (reg: Reg)
    ensures
        reg == Reg::spec_new(0),
{
    Reg::new(0)
}

/// The fourth integer argument register.
pub fn rcx() -> (reg: Reg)
    ensures
        reg == Reg::spec_new(1),
{
    Reg::new(1)
}

/// The third integer argument register.
pub fn rdx() -> (reg: Reg)
    ensures
        reg == Reg::spec_new(2),
{
    Reg::new(2)
}

/// A callee-saved register.
pub fn rbx() -> (reg: Reg)
    ensures
        reg == Reg::spec_new(3),
{
    Reg::new(3)
}

/// The stack pointer.
pub fn rsp() -> (reg: Reg)
    ensures
        reg == Reg::spec_new(4),
{
    Reg::new(4)
}

/// The frame pointer.
pub fn rbp() -> (reg: Reg)
    ensures
        reg == Reg::spec_new(5),
{
    Reg::new(5)
}

/// The second integer argument register.
pub fn rsi() -> (reg: Reg)
    ensures
        reg == Reg::spec_new(6),
{
    Reg::new(6)
}

/// The first integer argument register.
pub fn rdi() -> (reg: Reg)
    ensures
        reg == Reg::spec_new(7),
{
    Reg::new(7)
}

/// The fifth integer argument register.
pub fn r8() -> (reg: Reg)
    ensures
        reg == Reg::spec_new(8),
{
    Reg::new(8)
}

/// The sixth integer argument register.
pub fn r9() -> (reg: Reg)
    ensures
        reg == Reg::spec_new(9),
{
    Reg::new(9)
}

/// A caller-saved register.
pub fn r10() -> (reg: Reg)
    ensures
        reg == Reg::spec_new(10),
{
    Reg::new(10)
}

/// The scratch register.
pub fn r11() -> (reg: Reg)
    ensures
        reg == Reg::spec_new(11),
{
    Reg::new(11)
}

/// The calling convention of the x86-64 target.
pub struct X64ABI;

impl ABI for X64ABI {
    open spec fn spec_call_stack_align(&self) -> u8 {
        16
    }

    open spec fn spec_arg_base_offset(&self) -> u8 {
        16
    }

    open spec fn spec_word_bytes() -> u32 {
        8
    }

    open spec fn spec_scratch_reg() -> Reg {
        Reg::spec_new(11)
    }

    fn call_stack_align(&self) -> (align: u8) {
        proof {
            lemma2_to64();
            assert(16 == pow2(4));
        }
        16
    }

    fn arg_base_offset(&self) -> (offset: u8) {
        16
    }

    fn word_bytes() -> (bytes: u32) {
        8
    }

    fn scratch_reg() -> (reg: Reg) {
        r11()
    }
}

/// The scratch register is never handed out by an allocator that starts from
/// [`ALL_GPR`], so no live value is lost when an argument passes through it.
pub proof fn lemma_scratch_is_reserved()
    ensures
        !regs_of_mask(ALL_GPR).contains(X64ABI::spec_scratch_reg()),
{
    Reg::lemma_encoding_of_new(11);
    assert((0xF7CFu32 >> 11u32) & 1 == 0) by (bit_vector);
}

} // verus!
