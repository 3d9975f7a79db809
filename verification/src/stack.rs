//! The value stack: where every live operand currently resides.

use crate::reg::Reg;
use vstd::prelude::*;

verus! {

/// Where one live operand resides.
#[derive(Clone, Copy, Debug, PartialEq, Eq)]
pub enum Val {
    /// In a register.
    Reg(Reg),
    /// In the machine-stack slot that was on top when the stack-pointer
    /// offset had this value.
    Memory(u32),
}

impl Val {
    /// A value held in `reg`.
    pub fn reg(reg: Reg) -> (val: Val)
        ensures
            val == Val::Reg(reg),
    {
        Val::Reg(reg)
    }

    /// A value held in the machine-stack slot at `offset`.
    pub fn memory(offset: u32) -> (val: Val)
        ensures
            val == Val::Memory(offset),
    {
        Val::Memory(offset)
    }

    /// Whether the value is held in a register.
    pub fn is_reg(&self) -> (held: bool)
        ensures
            held == (*self is Reg),
    {
        match self {
            Val::Reg(_) => true,
            Val::Memory(_) => false,
        }
    }

    /// Whether the value is held in memory.
    pub fn is_mem(&self) -> (held: bool)
        ensures
            held == (*self is Memory),
    {
        match self {
            Val::Reg(_) => false,
            Val::Memory(_) => true,
        }
    }

    /// The register that holds the value.
    pub fn get_reg(&self) -> (reg: Reg)
        requires
            *self is Reg,
        ensures
            *self == Val::Reg(reg),
    {
        match self {
            Val::Reg(reg) => *reg,
            Val::Memory(_) => unreached(),
        }
    }
}

/// The number of register-resident values in `vals`.
pub open spec fn count_regs(vals: Seq<Val>) -> nat
    decreases vals.len(),
{
    if vals.len() == 0 {
        0
    } else {
        count_regs(vals.drop_last()) + if vals.last() is Reg {
            1nat
        } else {
            0nat
        }
    }
}

/// The number of memory-resident values in `vals`.
pub open spec fn count_mem(vals: Seq<Val>) -> nat
    decreases vals.len(),
{
    if vals.len() == 0 {
        0
    } else {
        count_mem(vals.drop_last()) + if vals.last() is Memory {
            1nat
        } else {
            0nat
        }
    }
}

/// The registers that hold a value of `vals`.
pub open spec fn regs_in(vals: Seq<Val>) -> Set<Reg> {
    Set::new(|reg: Reg| vals.contains(Val::Reg(reg)))
}

/// Whether every memory-resident value of `vals` lies in a slot of a machine
/// stack that has grown to `sp_offset`.
pub open spec fn slots_within(vals: Seq<Val>, sp_offset: int) -> bool {
    forall|i: int| 0 <= i < vals.len() ==> (#[trigger] vals[i] matches Val::Memory(offset) ==> offset <= sp_offset)
}

/// Every value is held either in a register or in memory.
pub proof fn lemma_counts_cover(vals: Seq<Val>)
    ensures
        count_regs(vals) + count_mem(vals) == vals.len(),
    decreases vals.len(),
{
    if vals.len() > 0 {
        lemma_counts_cover(vals.drop_last());
    }
}

/// Counting distributes over concatenation.
pub proof fn lemma_counts_concat(front: Seq<Val>, back: Seq<Val>)
    ensures
        count_regs(front + back) == count_regs(front) + count_regs(back),
        count_mem(front + back) == count_mem(front) + count_mem(back),
    decreases back.len(),
{
    if back.len() > 0 {
        assert((front + back).drop_last() =~= front + back.drop_last());
        lemma_counts_concat(front, back.drop_last());
    }
}

/// The value stack of a function under compilation, its top at the end.
pub struct Stack {
    inner: Vec<Val>,
}

impl Stack {
    /// The values on the stack, deepest first.
    pub closed spec fn view(&self) -> Seq<Val> {
        self.inner@
    }

    /// An empty stack.
    pub fn new() -> (stack: Stack)
        ensures
            stack@ == Seq::<Val>::empty(),
    {
        Stack { inner: Vec::new() }
    }

    /// Puts `val` on top of the stack.
    pub fn push(&mut self, val: Val)
        ensures
            final(self)@ == old(self)@.push(val),
    {
        self.inner.push(val);
    }

    /// The number of values on the stack.
    pub fn len(&self) -> (len: usize)
        ensures
            len == self@.len(),
    {
        self.inner.len()
    }

    /// The value at `index`, counted from the bottom.
    pub fn get(&self, index: usize) -> (val: Val)
        requires
            index < self@.len(),
        ensures
            val == self@[index as int],
    {
        self.inner[index]
    }

    /// The top `n` values, deepest first.
    pub fn peekn(&self, n: usize) -> (top: &[Val])
        requires
            n <= self@.len(),
        ensures
            top@ == self@.subrange(self@.len() - n, self@.len() as int),
    {
        let len = self.inner.len();
        vstd::slice::slice_subrange(self.inner.as_slice(), len - n, len)
    }

    /// Replaces the value at `index`, counted from the bottom.
    pub fn set(&mut self, index: usize, val: Val)
        requires
            index < old(self)@.len(),
        ensures
            final(self)@ == old(self)@.update(index as int, val),
    {
        self.inner.set(index, val);
    }

    /// Removes every value above the lowest `len`.
    pub fn truncate(&mut self, len: usize)
        requires
            len <= old(self)@.len(),
        ensures
            final(self)@ == old(self)@.subrange(0, len as int),
    {
        self.inner.truncate(len);
    }
}

} // verus!
