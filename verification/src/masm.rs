//! The interface to the code-emission backend.

use crate::abi::ABI;
use crate::reg::Reg;
use std::marker::PhantomData;
use vstd::prelude::*;

verus! {

/// The width of an operand.
#[derive(Clone, Copy, Debug, PartialEq, Eq)]
pub enum OperandSize {
    /// 32 bits.
    S32,
    /// 64 bits.
    S64,
}

/// The target of a call.
#[derive(Clone, Copy, Debug, PartialEq, Eq)]
pub enum CalleeKind {
    /// A function whose address is held in a register.
    Indirect(Reg),
    /// A function known by its index.
    Direct(u32),
}

/// A memory location `offset` bytes above the stack pointer.
#[derive(Clone, Copy, Debug, PartialEq, Eq)]
pub struct Address {
    pub offset: u32,
}

/// One operation requested from the assembler.
#[allow(inconsistent_fields)]
#[derive(Clone, Copy, Debug, PartialEq, Eq)]
pub enum Op {
    /// Push a register onto the machine stack.
    Push { reg: Reg },
    /// Grow the machine stack by `bytes`.
    ReserveStack { bytes: u32 },
    /// Shrink the machine stack by `bytes`.
    FreeStack { bytes: u32 },
    /// Copy a register into another.
    Mov { src: Reg, dst: Reg, size: OperandSize },
    /// Load a register from memory.
    Load { src: Address, dst: Reg, size: OperandSize },
    /// Store a register to memory.
    Store { src: Reg, dst: Address, size: OperandSize },
    /// Call a function.
    Call { callee: CalleeKind },
}

/// What an assembler has done so far.
pub struct MasmState {
    /// The bytes by which the machine stack has grown since the frame was
    /// set up.
    pub sp_offset: u32,
    /// The operations requested, oldest first.
    pub ops: Seq<Op>,
}

/// The operations that code generation requests from a backend.
pub trait MacroAssembler: Sized {
    /// The calling convention that the backend emits code for.
    type ABI: ABI;

    /// The stack-pointer offset and the operations requested so far.
    spec fn view(&self) -> MasmState;

    /// Pushes `reg` onto the machine stack and returns the offset of its slot.
    fn push(&mut self, reg: Reg) -> (offset: u32)
        requires
            old(self)@.sp_offset + <Self::ABI as ABI>::spec_word_bytes() <= u32::MAX,
        ensures
            final(self)@.sp_offset == old(self)@.sp_offset + <Self::ABI as ABI>::spec_word_bytes(),
            final(self)@.ops == old(self)@.ops.push(Op::Push { reg }),
            offset == final(self)@.sp_offset,
    ;

    /// Grows the machine stack by `bytes`.
    fn reserve_stack(&mut self, bytes: u32)
        requires
            old(self)@.sp_offset + bytes <= u32::MAX,
        ensures
            final(self)@.sp_offset == old(self)@.sp_offset + bytes,
            final(self)@.ops == old(self)@.ops.push(Op::ReserveStack { bytes }),
    ;

    /// Shrinks the machine stack by `bytes`.
    fn free_stack(&mut self, bytes: u32)
        requires
            bytes <= old(self)@.sp_offset,
        ensures
            final(self)@.sp_offset == old(self)@.sp_offset - bytes,
            final(self)@.ops == old(self)@.ops.push(Op::FreeStack { bytes }),
    ;

    /// The address of the slot that was at the top of the machine stack when
    /// the stack-pointer offset was `offset`.
    fn address_from_sp(&self, offset: u32) -> (addr: Address)
        requires
            offset <= self@.sp_offset,
        ensures
            addr.offset == self@.sp_offset - offset,
    ;

    /// The address `offset` bytes above the stack pointer.
    fn address_at_sp(&self, offset: u32) -> (addr: Address)
        ensures
            addr.offset == offset,
    ;

    /// Emits a call to `callee`.
    fn call(&mut self, callee: CalleeKind)
        ensures
            final(self)@.sp_offset == old(self)@.sp_offset,
            final(self)@.ops == old(self)@.ops.push(Op::Call { callee }),
    ;

    /// The current stack-pointer offset.
    fn sp_offset(&self) -> (offset: u32)
        ensures
            offset == self@.sp_offset,
    ;

    /// Stores `src` to `dst`.
    fn store(&mut self, src: Reg, dst: Address, size: OperandSize)
        ensures
            final(self)@.sp_offset == old(self)@.sp_offset,
            final(self)@.ops == old(self)@.ops.push(Op::Store { src, dst, size }),
    ;

    /// Loads `dst` from `src`.
    fn load(&mut self, src: Address, dst: Reg, size: OperandSize)
        ensures
            final(self)@.sp_offset == old(self)@.sp_offset,
            final(self)@.ops == old(self)@.ops.push(Op::Load { src, dst, size }),
    ;

    /// Copies `src` into `dst`.
    fn mov(&mut self, src: Reg, dst: Reg, size: OperandSize)
        ensures
            final(self)@.sp_offset == old(self)@.sp_offset,
            final(self)@.ops == old(self)@.ops.push(Op::Mov { src, dst, size }),
    ;
}

/// A backend that keeps the operations it is asked for, in order, and
/// encodes nothing.
pub struct Recorder<A: ABI> {
    sp_offset: u32,
    ops: Vec<Op>,
    abi: PhantomData<A>,
}

impl<A: ABI> Recorder<A> {
    /// A recorder with no operations, at stack-pointer offset `sp_offset`.
    pub fn new(sp_offset: u32) -> (masm: Self)
        ensures
            masm@.sp_offset == sp_offset,
            masm@.ops == Seq::<Op>::empty(),
    {
        Recorder { sp_offset, ops: Vec::new(), abi: PhantomData }
    }

    /// The operations recorded so far, oldest first.
    pub fn ops(&self) -> (ops: &Vec<Op>)
        ensures
            ops@ == self@.ops,
    {
        &self.ops
    }
}

impl<A: ABI> MacroAssembler for Recorder<A> {
    type ABI = A;

    closed spec fn view(&self) -> MasmState {
        MasmState { sp_offset: self.sp_offset, ops: self.ops@ }
    }

    fn push(&mut self, reg: Reg) -> (offset: u32) {
        self.sp_offset = self.sp_offset + A::word_bytes();
        self.ops.push(Op::Push { reg });
        self.sp_offset
    }

    fn reserve_stack(&mut self, bytes: u32) {
        self.sp_offset = self.sp_offset + bytes;
        self.ops.push(Op::ReserveStack { bytes });
    }

    fn free_stack(&mut self, bytes: u32) {
        self.sp_offset = self.sp_offset - bytes;
        self.ops.push(Op::FreeStack { bytes });
    }

    fn address_from_sp(&self, offset: u32) -> (addr: Address) {
        Address { offset: self.sp_offset - offset }
    }

    fn address_at_sp(&self, offset: u32) -> (addr: Address) {
        Address { offset }
    }

    fn call(&mut self, callee: CalleeKind) {
        self.ops.push(Op::Call { callee });
    }

    fn sp_offset(&self) -> (offset: u32) {
        self.sp_offset
    }

    fn store(&mut self, src: Reg, dst: Address, size: OperandSize) {
        self.ops.push(Op::Store { src, dst, size });
    }

    fn load(&mut self, src: Address, dst: Reg, size: OperandSize) {
        self.ops.push(Op::Load { src, dst, size });
    }

    fn mov(&mut self, src: Reg, dst: Reg, size: OperandSize) {
        self.ops.push(Op::Mov { src, dst, size });
    }
}

} // verus!
