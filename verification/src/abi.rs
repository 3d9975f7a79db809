//! Calling-convention facts and the arithmetic of stack alignment.

use vstd::arithmetic::power2::{
    lemma2_to64, lemma_pow2_strictly_increases, pow2,
};
use crate::masm::OperandSize;
use crate::reg::Reg;
use vstd::bits::{lemma_u32_low_bits_mask_is_mod, low_bits_mask};
use vstd::prelude::*;

verus! {

/// The value types a function signature can name.
#[derive(Clone, Copy, Debug, PartialEq, Eq)]
pub enum WasmType {
    I32,
    I64,
}

impl WasmType {
    /// The operand size at which a value of this type is moved.
    pub open spec fn spec_operand_size(self) -> OperandSize {
        match self {
            WasmType::I32 => OperandSize::S32,
            WasmType::I64 => OperandSize::S64,
        }
    }

    /// The operand size at which a value of this type is moved.
    #[verifier::when_used_as_spec(spec_operand_size)]
    pub fn operand_size(self) -> (size: OperandSize)
        ensures
            size == self.spec_operand_size(),
    {
        match self {
            WasmType::I32 => OperandSize::S32,
            WasmType::I64 => OperandSize::S64,
        }
    }
}

/// Where the calling convention places one argument.
#[derive(Clone, Copy, Debug, PartialEq, Eq)]
pub enum ABIArg {
    /// In a register.
    Reg { ty: WasmType, reg: Reg },
    /// On the stack, `offset` bytes above the stack pointer at the call.
    Stack { ty: WasmType, offset: u32 },
}

impl ABIArg {
    /// An argument passed in `reg`.
    pub fn reg(reg: Reg, ty: WasmType) -> (arg: ABIArg)
        ensures
            arg == (ABIArg::Reg { ty, reg }),
    {
        ABIArg::Reg { ty, reg }
    }

    /// An argument passed on the stack at `offset`.
    pub fn stack_offset(offset: u32, ty: WasmType) -> (arg: ABIArg)
        ensures
            arg == (ABIArg::Stack { ty, offset }),
    {
        ABIArg::Stack { ty, offset }
    }
}

/// Where the calling convention places the result. A result without a type
/// is void.
#[derive(Clone, Copy, Debug, PartialEq, Eq)]
pub enum ABIResult {
    Reg { ty: Option<WasmType>, reg: Reg },
}

impl ABIResult {
    /// A result of type `ty`, if any, returned in `reg`.
    pub fn reg(ty: Option<WasmType>, reg: Reg) -> (result: ABIResult)
        ensures
            result == (ABIResult::Reg { ty, reg }),
    {
        ABIResult::Reg { ty, reg }
    }

    /// The register that holds the result.
    pub open spec fn spec_result_reg(&self) -> Reg {
        match self {
            ABIResult::Reg { reg, .. } => *reg,
        }
    }

    /// The register that holds the result.
    #[verifier::when_used_as_spec(spec_result_reg)]
    pub fn result_reg(&self) -> (reg: Reg)
        ensures
            reg == self.spec_result_reg(),
    {
        match self {
            ABIResult::Reg { reg, .. } => *reg,
        }
    }

    /// Whether the function returns nothing.
    pub open spec fn spec_is_void(&self) -> bool {
        match self {
            ABIResult::Reg { ty, .. } => ty is None,
        }
    }

    /// Whether the function returns nothing.
    #[verifier::when_used_as_spec(spec_is_void)]
    pub fn is_void(&self) -> (void: bool)
        ensures
            void == self.spec_is_void(),
    {
        match self {
            ABIResult::Reg { ty, .. } => ty.is_none(),
        }
    }
}

/// The calling convention's layout of one function type.
pub struct ABISig {
    /// The location of each parameter, in parameter order.
    pub params: Vec<ABIArg>,
    /// The location of the result.
    pub result: ABIResult,
    /// The bytes that the stack-passed arguments take, before alignment.
    pub stack_bytes: u32,
}

impl ABISig {
    /// A signature with the given parameter and result locations.
    pub fn new(params: Vec<ABIArg>, result: ABIResult, stack_bytes: u32) -> (sig: ABISig)
        ensures
            sig.params == params,
            sig.result == result,
            sig.stack_bytes == stack_bytes,
    {
        ABISig { params, result, stack_bytes }
    }
}

/// The facts of a calling convention that code generation depends on.
pub trait ABI {
    /// The alignment, in bytes, that the stack must have at a call.
    spec fn spec_call_stack_align(&self) -> u8;

    /// The offset from the frame's base at which stack arguments begin.
    spec fn spec_arg_base_offset(&self) -> u8;

    /// The size of a machine word in bytes.
    spec fn spec_word_bytes() -> u32;

    /// The register set aside as scratch space.
    spec fn spec_scratch_reg() -> Reg;

    /// The alignment, in bytes, that the stack must have at a call: a power
    /// of two.
    fn call_stack_align(&self) -> (align: u8)
        ensures
            align == self.spec_call_stack_align(),
            is_power_of_two(align as int),
    ;

    /// The offset from the frame's base at which stack arguments begin.
    fn arg_base_offset(&self) -> (offset: u8)
        ensures
            offset == self.spec_arg_base_offset(),
    ;

    /// The size of a machine word in bytes.
    fn word_bytes() -> (bytes: u32)
        ensures
            bytes == Self::spec_word_bytes(),
            bytes > 0,
    ;

    /// The register set aside as scratch space.
    fn scratch_reg() -> (reg: Reg)
        ensures
            reg == Self::spec_scratch_reg(),
    ;
}

/// Whether `n` is a power of two.
pub open spec fn is_power_of_two(n: int) -> bool {
    exists|e: nat| n == pow2(e)
}

/// The least multiple of `alignment` that is not below `value`.
pub open spec fn align_up(value: int, alignment: int) -> int {
    ((value + alignment - 1) / alignment) * alignment
}

/// The padding that brings `frame_size + addend` up to a multiple of `alignment`.
pub open spec fn frame_adjustment(frame_size: int, addend: int, alignment: int) -> int {
    (alignment - (frame_size + addend) % alignment) % alignment
}

/// `align_up` yields a multiple of the alignment, reached from `value` by
/// adding less than one alignment unit.
pub proof fn lemma_align_up_bounds(value: int, alignment: int)
    requires
        0 <= value,
        0 < alignment,
    ensures
        align_up(value, alignment) % alignment == 0,
        value <= align_up(value, alignment) < value + alignment,
        value % alignment == 0 ==> align_up(value, alignment) == value,
{
    let q = (value + alignment - 1) / alignment;
    assert(align_up(value, alignment) % alignment == 0
        && value <= align_up(value, alignment) < value + alignment
        && (value % alignment == 0 ==> align_up(value, alignment) == value))
        by (nonlinear_arith)
        requires
            0 <= value,
            0 < alignment,
            q == (value + alignment - 1) / alignment,
            align_up(value, alignment) == q * alignment,
    ;
}

/// `frame_adjustment` is the least padding that aligns the sum.
pub proof fn lemma_frame_adjustment_bounds(frame_size: int, addend: int, alignment: int)
    requires
        0 <= frame_size,
        0 <= addend,
        0 < alignment,
    ensures
        0 <= frame_adjustment(frame_size, addend, alignment) < alignment,
        (frame_size + addend + frame_adjustment(frame_size, addend, alignment)) % alignment == 0,
{
    let total = frame_size + addend;
    let r = total % alignment;
    if r == 0 {
        assert(alignment % alignment == 0) by (nonlinear_arith)
            requires
                0 < alignment,
        ;
    } else {
        assert((alignment - r) % alignment == alignment - r) by (nonlinear_arith)
            requires
                0 < r < alignment,
        ;
        assert((total + (alignment - r)) % alignment == 0) by (nonlinear_arith)
            requires
                0 < alignment,
                r == total % alignment,
        ;
    }
}

/// A power of two that fits in 32 bits has an exponent below 32.
proof fn lemma_exponent_fits(n: u32) -> (e: nat)
    requires
        is_power_of_two(n as int),
    ensures
        e < 32,
        n == pow2(e),
{
    let e = choose|e: nat| n == pow2(e);
    if e >= 32 {
        lemma2_to64();
        if e > 32 {
            lemma_pow2_strictly_increases(32, e);
        }
    }
    e
}

/// Rounds `value` up to the next multiple of `alignment`, a power of two.
pub fn align_to(value: u32, alignment: u32) -> (aligned: u32)
    requires
        is_power_of_two(alignment as int),
        value + alignment <= u32::MAX,
    ensures
        aligned == align_up(value as int, alignment as int),
        aligned % alignment == 0,
        value <= aligned < value + alignment,
{
    proof {
        let e = lemma_exponent_fits(alignment);
        assert(alignment > 0) by {
            vstd::arithmetic::power2::lemma_pow2_pos(e);
        }
    }
    let bumped: u32 = value + alignment - 1;
    let mask: u32 = alignment - 1;
    let aligned: u32 = bumped & !mask;
    proof {
        let e = lemma_exponent_fits(alignment);
        assert(mask == low_bits_mask(e) as u32);
        lemma_u32_low_bits_mask_is_mod(bumped, e);
        assert(bumped & mask == bumped % alignment);
        assert((bumped & !mask) + (bumped & mask) == bumped) by (bit_vector);
        assert(aligned == bumped - bumped % alignment);
        assert(bumped - bumped % alignment == (bumped / alignment) * alignment)
            by (nonlinear_arith)
            requires
                alignment > 0,
        ;
        lemma_align_up_bounds(value as int, alignment as int);
    }
    aligned
}

/// Computes how far a frame of `frame_size` bytes, extended by `addend`, is
/// from the next multiple of `alignment`.
pub fn calculate_frame_adjustment(frame_size: u32, addend: u32, alignment: u32) -> (delta: u32)
    requires
        alignment > 0,
        frame_size + addend <= u32::MAX,
    ensures
        delta == frame_adjustment(frame_size as int, addend as int, alignment as int),
        delta < alignment,
        (frame_size + addend + delta) % (alignment as int) == 0,
{
    proof {
        lemma_frame_adjustment_bounds(frame_size as int, addend as int, alignment as int);
    }
    let total: u32 = frame_size + addend;
    (alignment - (total % alignment)) % alignment
}

} // verus!
