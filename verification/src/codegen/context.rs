//! The state that code generation threads through a function body: the value
//! stack and the register allocator.

use crate::abi::ABI;
use crate::masm::{Address, MacroAssembler, Op, OperandSize};
use crate::reg::Reg;
use crate::regalloc::RegAlloc;
use crate::stack::{
    count_mem, count_regs, lemma_counts_concat, lemma_counts_cover, regs_in, Stack, Val,
};
use std::ops::Range;
use vstd::prelude::*;

verus! {

/// The pushes that save the register-resident values of `vals`, deepest
/// first.
pub open spec fn spill_ops(vals: Seq<Val>) -> Seq<Op>
    decreases vals.len(),
{
    if vals.len() == 0 {
        Seq::empty()
    } else {
        match vals.last() {
            Val::Reg(reg) => spill_ops(vals.drop_last()).push(Op::Push { reg }),
            Val::Memory(_) => spill_ops(vals.drop_last()),
        }
    }
}

/// The value stack `vals` after its register-resident values at the indices
/// from `lo` up to `hi` have been pushed, deepest first, onto a machine stack
/// that stood at `sp_offset` and grows by `word` with every push. Each of them
/// becomes memory-resident at the offset that the stack pointer had after its
/// push.
pub open spec fn spilled(vals: Seq<Val>, lo: int, hi: int, sp_offset: int, word: int) -> Seq<Val> {
    Seq::new(
        vals.len(),
        |i: int|
            if lo <= i < hi && vals[i] is Reg {
                Val::Memory((sp_offset + word * count_regs(vals.subrange(lo, i + 1))) as u32)
            } else {
                vals[i]
            },
    )
}

/// The operation that brings `src` into the register `dst` while the stack
/// pointer stands at `sp_offset`: a register copy, or a load from the slot of
/// a memory-resident value.
pub open spec fn move_op(src: Val, dst: Reg, size: OperandSize, sp_offset: int) -> Op {
    match src {
        Val::Reg(reg) => Op::Mov { src: reg, dst, size },
        Val::Memory(offset) => Op::Load {
            src: Address { offset: (sp_offset - offset) as u32 },
            dst,
            size,
        },
    }
}

/// Extending a range by one value extends the sequence it selects.
pub proof fn lemma_subrange_step(vals: Seq<Val>, lo: int, i: int)
    requires
        0 <= lo <= i < vals.len(),
    ensures
        vals.subrange(lo, i + 1) == vals.subrange(lo, i).push(vals[i]),
        vals.subrange(lo, i + 1).drop_last() == vals.subrange(lo, i),
        vals.subrange(lo, i + 1).last() == vals[i],
{
}

/// Saving a sequence saves its front, then its back.
pub proof fn lemma_spill_ops_concat(front: Seq<Val>, back: Seq<Val>)
    ensures
        spill_ops(front + back) == spill_ops(front) + spill_ops(back),
    decreases back.len(),
{
    if back.len() > 0 {
        assert((front + back).drop_last() =~= front + back.drop_last());
        lemma_spill_ops_concat(front, back.drop_last());
    }
}

/// The values of a range are those of its lower part and those of its upper
/// part.
pub proof fn lemma_counts_split(vals: Seq<Val>, lo: int, mid: int, hi: int)
    requires
        0 <= lo <= mid <= hi <= vals.len(),
    ensures
        count_regs(vals.subrange(lo, hi)) == count_regs(vals.subrange(lo, mid)) + count_regs(
            vals.subrange(mid, hi),
        ),
        count_mem(vals.subrange(lo, hi)) == count_mem(vals.subrange(lo, mid)) + count_mem(
            vals.subrange(mid, hi),
        ),
{
    assert(vals.subrange(lo, hi) =~= vals.subrange(lo, mid) + vals.subrange(mid, hi));
    lemma_counts_concat(vals.subrange(lo, mid), vals.subrange(mid, hi));
}

/// Spilling a range in two steps, the lower part first, is spilling it at
/// once.
pub proof fn lemma_spilled_in_two_steps(
    vals: Seq<Val>,
    lo: int,
    mid: int,
    hi: int,
    sp_offset: int,
    word: int,
)
    requires
        0 <= lo <= mid <= hi <= vals.len(),
    ensures
        spilled(
            spilled(vals, lo, mid, sp_offset, word),
            mid,
            hi,
            sp_offset + count_regs(vals.subrange(lo, mid)) * word,
            word,
        ) == spilled(vals, lo, hi, sp_offset, word),
{
    let first = spilled(vals, lo, mid, sp_offset, word);
    let below = count_regs(vals.subrange(lo, mid));
    let both = spilled(first, mid, hi, sp_offset + below * word, word);
    let once = spilled(vals, lo, hi, sp_offset, word);
    assert forall|i: int| 0 <= i < vals.len() implies both[i] == once[i] by {
        if mid <= i < hi {
            assert(first.subrange(mid, i + 1) =~= vals.subrange(mid, i + 1));
            lemma_counts_split(vals, lo, mid, i + 1);
            let upper = count_regs(vals.subrange(mid, i + 1));
            assert(sp_offset + below * word + word * upper == sp_offset + word * (below + upper))
                by (nonlinear_arith);
        }
    }
}

/// The value stack and the register allocator of a function under
/// compilation.
pub struct CodeGenContext {
    /// The register allocator.
    pub regalloc: RegAlloc,
    /// The value stack.
    pub stack: Stack,
}

impl CodeGenContext {
    /// A context with the given allocator and value stack.
    pub fn new(regalloc: RegAlloc, stack: Stack) -> (context: CodeGenContext)
        ensures
            context.regalloc == regalloc,
            context.stack == stack,
    {
        CodeGenContext { regalloc, stack }
    }

    /// Acquires the register `named`. If it is taken, the register-resident
    /// values of the value stack are spilled first, which frees it if one of
    /// them held it.
    pub fn gpr<M: MacroAssembler>(&mut self, named: Reg, masm: &mut M) -> (reg: Reg)
        requires
            old(self).regalloc@.contains(named) || regs_in(old(self).stack@).contains(named),
            !old(self).regalloc@.contains(named) ==> {
                &&& old(self).stack@.len() <= u32::MAX
                &&& old(masm)@.sp_offset + count_regs(old(self).stack@) * <M::ABI as ABI>::spec_word_bytes()
                    <= u32::MAX
            },
        ensures
            reg == named,
            old(self).regalloc@.contains(named) ==> {
                &&& final(self).stack@ == old(self).stack@
                &&& final(self).regalloc@ == old(self).regalloc@.remove(named)
                &&& final(masm)@ == old(masm)@
            },
            !old(self).regalloc@.contains(named) ==> {
                &&& final(self).stack@ == spilled(
                    old(self).stack@,
                    0,
                    old(self).stack@.len() as int,
                    old(masm)@.sp_offset as int,
                    <M::ABI as ABI>::spec_word_bytes() as int,
                )
                &&& final(self).regalloc@ == old(self).regalloc@.union(
                    regs_in(old(self).stack@),
                ).remove(named)
                &&& final(masm)@.sp_offset == old(masm)@.sp_offset + count_regs(old(self).stack@)
                    * <M::ABI as ABI>::spec_word_bytes()
                &&& final(masm)@.ops == old(masm)@.ops + spill_ops(old(self).stack@)
            },
    {
        if !self.regalloc.gpr_available(named) {
            let len = self.stack.len();
            assert(self.stack@.subrange(0, len as int) =~= self.stack@);
            let _ = self.spill_regs_and_count_memory_in(masm, 0..len);
        }
        self.regalloc.gpr(named)
    }

    /// Brings the value `src` into the register `dst`: by a register copy if
    /// a register holds it, by a load from its slot if memory does.
    pub fn move_val_to_reg<M: MacroAssembler>(
        &self,
        src: &Val,
        dst: Reg,
        masm: &mut M,
        size: OperandSize,
    )
        requires
            *src matches Val::Memory(offset) ==> offset <= old(masm)@.sp_offset,
        ensures
            final(masm)@.sp_offset == old(masm)@.sp_offset,
            final(masm)@.ops == old(masm)@.ops.push(
                move_op(*src, dst, size, old(masm)@.sp_offset as int),
            ),
    {
        match src {
            Val::Reg(reg) => {
                masm.mov(*reg, dst, size);
            },
            Val::Memory(offset) => {
                let addr = masm.address_from_sp(*offset);
                masm.load(addr, dst, size);
            },
        }
    }

    /// Removes the top `last` values from the value stack and frees the
    /// registers that held any of them.
    pub fn drop_last(&mut self, last: usize)
        requires
            last <= old(self).stack@.len(),
        ensures
            final(self).stack@ == old(self).stack@.subrange(0, old(self).stack@.len() - last),
            final(self).regalloc@ == old(self).regalloc@.union(
                regs_in(
                    old(self).stack@.subrange(
                        old(self).stack@.len() - last,
                        old(self).stack@.len() as int,
                    ),
                ),
            ),
    {
        let len = self.stack.len();
        let truncate = len - last;
        let ghost vals = self.stack@;
        let ghost free = self.regalloc@;
        let mut i = truncate;
        while i < len
            invariant
                truncate <= i <= len,
                len == vals.len(),
                self.stack@ == vals,
                self.regalloc@ == free.union(regs_in(vals.subrange(truncate as int, i as int))),
            decreases len - i,
        {
            let val = self.stack.get(i);
            if val.is_reg() {
                self.regalloc.free_gpr(val.get_reg());
            }
            proof {
                lemma_subrange_step(vals, truncate as int, i as int);
            }
            i += 1;
        }
        self.stack.truncate(truncate);
    }

    /// Spills the register-resident values at the indices of `range`, deepest
    /// first: each is pushed onto the machine stack, its register is freed,
    /// and its entry becomes memory-resident. Returns how many values were
    /// spilled and how many of the range were memory-resident already.
    pub fn spill_regs_and_count_memory_in<M: MacroAssembler>(
        &mut self,
        masm: &mut M,
        range: Range<usize>,
    ) -> (counts: (u32, u32))
        requires
            range.start <= range.end <= old(self).stack@.len(),
            range.end - range.start <= u32::MAX,
            old(masm)@.sp_offset + count_regs(
                old(self).stack@.subrange(range.start as int, range.end as int),
            ) * <M::ABI as ABI>::spec_word_bytes() <= u32::MAX,
        ensures
            counts.0 == count_regs(old(self).stack@.subrange(range.start as int, range.end as int)),
            counts.1 == count_mem(old(self).stack@.subrange(range.start as int, range.end as int)),
            final(self).stack@ == spilled(
                old(self).stack@,
                range.start as int,
                range.end as int,
                old(masm)@.sp_offset as int,
                <M::ABI as ABI>::spec_word_bytes() as int,
            ),
            final(self).regalloc@ == old(self).regalloc@.union(
                regs_in(old(self).stack@.subrange(range.start as int, range.end as int)),
            ),
            final(masm)@.sp_offset == old(masm)@.sp_offset + counts.0 * <M::ABI as ABI>::spec_word_bytes(),
            final(masm)@.ops == old(masm)@.ops + spill_ops(
                old(self).stack@.subrange(range.start as int, range.end as int),
            ),
    {
        let start = range.start;
        let end = range.end;
        let ghost vals = self.stack@;
        let ghost free = self.regalloc@;
        let ghost sp = masm@.sp_offset as int;
        let ghost ops = masm@.ops;
        let ghost word = <M::ABI as ABI>::spec_word_bytes() as int;
        let mut spilled_regs: u32 = 0;
        let mut memory_vals: u32 = 0;
        let mut i = start;
        while i < end
            invariant
                start <= i <= end <= vals.len(),
                end - start <= u32::MAX,
                word == <M::ABI as ABI>::spec_word_bytes(),
                sp + count_regs(vals.subrange(start as int, end as int)) * word <= u32::MAX,
                spilled_regs == count_regs(vals.subrange(start as int, i as int)),
                memory_vals == count_mem(vals.subrange(start as int, i as int)),
                self.stack@ == spilled(vals, start as int, i as int, sp, word),
                self.regalloc@ == free.union(regs_in(vals.subrange(start as int, i as int))),
                masm@.sp_offset == sp + spilled_regs * word,
                masm@.ops == ops + spill_ops(vals.subrange(start as int, i as int)),
            decreases end - i,
        {
            let val = self.stack.get(i);
            proof {
                lemma_subrange_step(vals, start as int, i as int);
                lemma_counts_split(vals, start as int, i + 1, end as int);
                lemma_counts_cover(vals.subrange(start as int, i + 1));
            }
            if val.is_reg() {
                let reg = val.get_reg();
                proof {
                    let done = count_regs(vals.subrange(start as int, i + 1)) as int;
                    let all = count_regs(vals.subrange(start as int, end as int)) as int;
                    assert(sp + done * word <= sp + all * word) by (nonlinear_arith)
                        requires
                            done <= all,
                            0 <= word,
                    ;
                    assert(done * word == spilled_regs * word + word) by (nonlinear_arith)
                        requires
                            done == spilled_regs + 1,
                    ;
                }
                let offset = masm.push(reg);
                self.regalloc.free_gpr(reg);
                self.stack.set(i, Val::Memory(offset));
                spilled_regs += 1;
            } else if val.is_mem() {
                memory_vals += 1;
            }
            i += 1;
        }
        (spilled_regs, memory_vals)
    }
}

} // verus!
