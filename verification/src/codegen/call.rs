//! Emission of one function call.
//!
//! A call is prepared by [`FnCall::new`], which saves the live registers and
//! sizes the stack space of the call, and carried out by [`FnCall::emit`],
//! which places the arguments, calls, releases the stack space and records
//! the result.

use crate::abi::{
    align_to, align_up, calculate_frame_adjustment, frame_adjustment,
    lemma_align_up_bounds, lemma_frame_adjustment_bounds, ABIArg, ABIResult, ABISig, ABI,
};
use crate::codegen::context::{
    lemma_counts_split, lemma_spill_ops_concat, lemma_spilled_in_two_steps, move_op,
    spill_ops, spilled, CodeGenContext,
};
use crate::masm::{Address, CalleeKind, MacroAssembler, Op};
use crate::reg::Reg;
use crate::stack::{
    count_mem, count_regs, lemma_counts_cover, regs_in, slots_within, Val,
};
use vstd::prelude::*;

verus! {

/// The top `n` values of the value stack `vals`, deepest first.
pub open spec fn top(vals: Seq<Val>, n: int) -> Seq<Val> {
    vals.subrange(vals.len() - n, vals.len() as int)
}

/// The values of the value stack `vals` below its top `n`.
pub open spec fn below(vals: Seq<Val>, n: int) -> Seq<Val> {
    vals.subrange(0, vals.len() - n)
}

/// The stack space to reserve for stack-passed arguments of `stack_bytes`
/// bytes when the stack pointer stands at `sp_offset`: the bytes themselves
/// and the padding of the frame, rounded up to the alignment.
pub open spec fn arg_space(stack_bytes: int, sp_offset: int, base: int, align: int) -> int {
    align_up(stack_bytes + frame_adjustment(sp_offset, base, align), align)
}

/// The machine-stack bytes that the argument values `args` hold once every
/// one of them is memory-resident: a word for each that was spilled and for
/// each that was in memory before.
pub open spec fn consumed_space(args: Seq<Val>, word: int) -> int {
    count_regs(args) * word + count_mem(args) * word
}

/// The operations that place the value `val` where `arg` demands it, with the
/// stack pointer at `sp_offset`. A register argument is moved into its
/// register. A stack argument is moved into `scratch` and stored from there
/// to its slot.
pub open spec fn place_arg(arg: ABIArg, val: Val, scratch: Reg, sp_offset: int) -> Seq<Op> {
    match arg {
        ABIArg::Reg { ty, reg } => seq![move_op(val, reg, ty.operand_size(), sp_offset)],
        ABIArg::Stack { ty, offset } => seq![
            move_op(val, scratch, ty.operand_size(), sp_offset),
            Op::Store { src: scratch, dst: Address { offset }, size: ty.operand_size() },
        ],
    }
}

/// The operations that place the first `n` of the argument values `args`, in
/// parameter order.
pub open spec fn arg_ops(
    params: Seq<ABIArg>,
    args: Seq<Val>,
    scratch: Reg,
    sp_offset: int,
    n: nat,
) -> Seq<Op>
    decreases n,
{
    if n == 0 {
        Seq::empty()
    } else {
        arg_ops(params, args, scratch, sp_offset, (n - 1) as nat) + place_arg(
            params[n - 1],
            args[n - 1],
            scratch,
            sp_offset,
        )
    }
}

/// The number of operations that place the first `n` arguments.
pub open spec fn arg_ops_len(params: Seq<ABIArg>, n: nat) -> nat
    decreases n,
{
    if n == 0 {
        0
    } else {
        arg_ops_len(params, (n - 1) as nat) + if params[n - 1] is Reg {
            1nat
        } else {
            2nat
        }
    }
}

/// What a call leaves on the value stack: nothing if it is void, else its
/// result register.
pub open spec fn result_vals(result: ABIResult) -> Seq<Val> {
    if result.is_void() {
        Seq::empty()
    } else {
        seq![Val::Reg(result.result_reg())]
    }
}

/// The free registers after a call whose dropped arguments were `args`.
pub open spec fn free_after_call(free: Set<Reg>, args: Seq<Val>, result: ABIResult) -> Set<Reg> {
    if result.is_void() {
        free.union(regs_in(args))
    } else {
        free.union(regs_in(args)).remove(result.result_reg())
    }
}

/// The operations that place the arguments are as many as `arg_ops_len`
/// counts, and those for parameter `i` stand together: a register parameter
/// has the one move into its register, at the operand size of its type; a
/// stack parameter has the move into `scratch` and, right after it, the store
/// from `scratch` to the slot at its offset, at the operand size of its type.
/// No value goes from memory to memory in one operation.
pub proof fn lemma_arg_placement(
    params: Seq<ABIArg>,
    args: Seq<Val>,
    scratch: Reg,
    sp_offset: int,
    n: nat,
    i: int,
)
    requires
        0 <= i < n,
    ensures
        arg_ops(params, args, scratch, sp_offset, n).len() == arg_ops_len(params, n),
        match params[i] {
            ABIArg::Reg { ty, reg } => {
                &&& arg_ops_len(params, i as nat) < arg_ops_len(params, n)
                &&& arg_ops(params, args, scratch, sp_offset, n)[arg_ops_len(params, i as nat) as int]
                    == move_op(args[i], reg, ty.operand_size(), sp_offset)
            },
            ABIArg::Stack { ty, offset } => {
                &&& arg_ops_len(params, i as nat) + 1 < arg_ops_len(params, n)
                &&& arg_ops(params, args, scratch, sp_offset, n)[arg_ops_len(params, i as nat) as int]
                    == move_op(args[i], scratch, ty.operand_size(), sp_offset)
                &&& arg_ops(params, args, scratch, sp_offset, n)[arg_ops_len(params, i as nat) as int + 1]
                    == (Op::Store {
                    src: scratch,
                    dst: Address { offset },
                    size: ty.operand_size(),
                })
            },
        },
    decreases n,
{
    lemma_arg_ops_len(params, args, scratch, sp_offset, (n - 1) as nat);
    if i < n - 1 {
        lemma_arg_placement(params, args, scratch, sp_offset, (n - 1) as nat, i);
    }
}

/// The operations that place `n` arguments are as many as `arg_ops_len`
/// counts.
pub proof fn lemma_arg_ops_len(
    params: Seq<ABIArg>,
    args: Seq<Val>,
    scratch: Reg,
    sp_offset: int,
    n: nat,
)
    ensures
        arg_ops(params, args, scratch, sp_offset, n).len() == arg_ops_len(params, n),
    decreases n,
{
    if n > 0 {
        lemma_arg_ops_len(params, args, scratch, sp_offset, (n - 1) as nat);
    }
}

/// Without stack arguments the argument space is the frame's padding alone,
/// rounded up: nothing where the stack pointer and the argument base add up
/// to a multiple of the alignment, one alignment unit elsewhere.
pub proof fn lemma_padding_only(sp_offset: int, base: int, align: int)
    requires
        0 <= sp_offset,
        0 <= base,
        0 < align,
    ensures
        arg_space(0, sp_offset, base, align) == if (sp_offset + base) % align == 0 {
            0
        } else {
            align
        },
{
    let delta = frame_adjustment(sp_offset, base, align);
    lemma_frame_adjustment_bounds(sp_offset, base, align);
    lemma_align_up_bounds(delta, align);
    if (sp_offset + base) % align == 0 {
        assert(delta == 0) by (nonlinear_arith)
            requires
                0 < align,
                (sp_offset + base) % align == 0,
                delta == (align - (sp_offset + base) % align) % align,
        ;
    } else {
        let up = align_up(delta, align);
        assert(up == align) by (nonlinear_arith)
            requires
                0 < delta < align,
                delta <= up < delta + align,
                up % align == 0,
        ;
    }
}

/// Spilling keeps the slots of memory-resident values under the stack
/// pointer: those that were there stay, and each new one is where the stack
/// pointer stood after its push.
pub proof fn lemma_spilled_slots_within(vals: Seq<Val>, sp_offset: int, word: int)
    requires
        0 <= sp_offset,
        0 <= word,
        slots_within(vals, sp_offset),
        sp_offset + count_regs(vals) * word <= u32::MAX,
    ensures
        slots_within(
            spilled(vals, 0, vals.len() as int, sp_offset, word),
            sp_offset + count_regs(vals) * word,
        ),
{
    let after = spilled(vals, 0, vals.len() as int, sp_offset, word);
    let all = count_regs(vals) as int;
    assert forall|i: int| 0 <= i < after.len() implies (#[trigger] after[i] matches Val::Memory(
        offset,
    ) ==> offset <= sp_offset + all * word) by {
        if vals[i] is Reg {
            lemma_counts_split(vals, 0, i + 1, vals.len() as int);
            assert(vals.subrange(0, vals.len() as int) =~= vals);
            let seen = count_regs(vals.subrange(0, i + 1)) as int;
            assert(0 <= word * seen <= all * word) by (nonlinear_arith)
                requires
                    0 <= seen <= all,
                    0 <= word,
            ;
        }
    }
}

/// The accounting of one call site: what `new` measured and `emit` acts on.
pub struct FnCall<'a> {
    /// The stack space in bytes to release after the call: the space
    /// reserved for stack arguments and the slots of the values that the call
    /// consumes, be they spilled for it or in memory before.
    total_stack_space: u32,
    /// The stack space in bytes reserved for the arguments that go on the
    /// stack, with the frame's padding, aligned as the convention demands.
    arg_stack_space: u32,
    /// The signature of the callee.
    abi_sig: &'a ABISig,
    /// The stack-pointer offset before the call was prepared.
    sp_offset_at_callsite: u32,
}

impl<'a> FnCall<'a> {
    /// The stack space in bytes to release after the call.
    pub closed spec fn spec_total_stack_space(&self) -> u32 {
        self.total_stack_space
    }

    /// The stack space in bytes reserved for stack arguments.
    pub closed spec fn spec_arg_stack_space(&self) -> u32 {
        self.arg_stack_space
    }

    /// The signature of the callee.
    pub closed spec fn spec_abi_sig(&self) -> &'a ABISig {
        self.abi_sig
    }

    /// The stack-pointer offset before the call was prepared.
    pub closed spec fn spec_sp_offset_at_callsite(&self) -> u32 {
        self.sp_offset_at_callsite
    }

    /// The stack space in bytes to release after the call.
    #[verifier::when_used_as_spec(spec_total_stack_space)]
    pub fn total_stack_space(&self) -> (bytes: u32)
        ensures
            bytes == self.spec_total_stack_space(),
    {
        self.total_stack_space
    }

    /// The stack space in bytes reserved for stack arguments.
    #[verifier::when_used_as_spec(spec_arg_stack_space)]
    pub fn arg_stack_space(&self) -> (bytes: u32)
        ensures
            bytes == self.spec_arg_stack_space(),
    {
        self.arg_stack_space
    }

    /// The signature of the callee.
    #[verifier::when_used_as_spec(spec_abi_sig)]
    pub fn abi_sig(&self) -> (sig: &'a ABISig)
        ensures
            sig == self.spec_abi_sig(),
    {
        self.abi_sig
    }

    /// The stack-pointer offset before the call was prepared.
    #[verifier::when_used_as_spec(spec_sp_offset_at_callsite)]
    pub fn sp_offset_at_callsite(&self) -> (offset: u32)
        ensures
            offset == self.spec_sp_offset_at_callsite(),
    {
        self.sp_offset_at_callsite
    }

    /// Whether the accounting of a call to `sig` stays within 32 bits, on a
    /// value stack `vals` with the stack pointer at `sp_offset`: the stack
    /// pointer after every register-resident value is pushed, with the
    /// argument base added; the sum that is rounded up to the alignment; and
    /// the total to release.
    pub open spec fn accounting_fits(
        sig: &ABISig,
        vals: Seq<Val>,
        sp_offset: int,
        word: int,
        base: int,
        align: int,
    ) -> bool {
        let spilled_sp = sp_offset + count_regs(vals) * word;
        &&& vals.len() <= u32::MAX
        &&& spilled_sp + base <= u32::MAX
        &&& sig.stack_bytes + frame_adjustment(spilled_sp, base, align) + align <= u32::MAX
        &&& consumed_space(top(vals, sig.params@.len() as int), word) + arg_space(
            sig.stack_bytes as int,
            spilled_sp,
            base,
            align,
        ) <= u32::MAX
    }

    /// Whether this is the accounting of a call to `sig` prepared on the value
    /// stack `vals` with the stack pointer at `sp_offset`.
    pub open spec fn accounts_for(
        &self,
        sig: &ABISig,
        vals: Seq<Val>,
        sp_offset: int,
        word: int,
        base: int,
        align: int,
    ) -> bool {
        &&& self.abi_sig() == sig
        &&& self.sp_offset_at_callsite() == sp_offset
        &&& self.arg_stack_space() == arg_space(
            sig.stack_bytes as int,
            sp_offset + count_regs(vals) * word,
            base,
            align,
        )
        &&& self.total_stack_space() == consumed_space(
            top(vals, sig.params@.len() as int),
            word,
        ) + self.arg_stack_space()
    }

    /// Whether the call can be emitted on the value stack `vals`, with the
    /// registers `free` and the stack pointer at `sp_offset`: the arguments
    /// are on the value stack and their slots on the machine stack; the
    /// stack pointer can move up by the argument space and from there down by
    /// the total, to a point not above where the call site found it; and the
    /// result register is free once the arguments have been dropped.
    pub open spec fn ready(&self, vals: Seq<Val>, free: Set<Reg>, sp_offset: int) -> bool {
        let sig = self.abi_sig();
        let args = top(vals, sig.params@.len() as int);
        let reserved_sp = sp_offset + self.arg_stack_space();
        &&& sig.params@.len() <= vals.len()
        &&& reserved_sp <= u32::MAX
        &&& slots_within(args, reserved_sp)
        &&& self.total_stack_space() <= reserved_sp
        &&& reserved_sp - self.total_stack_space() <= self.sp_offset_at_callsite()
        &&& !sig.result.is_void() ==> free.union(regs_in(args)).contains(sig.result.result_reg())
    }

    /// The operations of the call with target `callee` on the argument values
    /// `args`, with the stack pointer at `sp_offset`: reserve the argument
    /// space, place each argument, call, release the total.
    pub open spec fn call_ops(
        &self,
        args: Seq<Val>,
        scratch: Reg,
        sp_offset: int,
        callee: u32,
    ) -> Seq<Op> {
        seq![Op::ReserveStack { bytes: self.arg_stack_space() }] + arg_ops(
            self.abi_sig().params@,
            args,
            scratch,
            sp_offset + self.arg_stack_space(),
            self.abi_sig().params@.len(),
        ) + seq![
            Op::Call { callee: CalleeKind::Direct(callee) },
            Op::FreeStack { bytes: self.total_stack_space() },
        ]
    }

    /// Across its preparation and emission a call moves the stack pointer
    /// by one word up for each register-resident value below its arguments,
    /// which is spilled and stays, and one word down for each argument that
    /// was memory-resident before, whose slot it releases. So the stack
    /// pointer ends no higher than the call site found it exactly when the
    /// values below the arguments hold no more registers than the arguments
    /// hold memory slots.
    pub proof fn lemma_stack_pointer_after_call(
        &self,
        sig: &'a ABISig,
        vals: Seq<Val>,
        sp_offset: int,
        word: int,
        base: int,
        align: int,
    )
        requires
            self.accounts_for(sig, vals, sp_offset, word, base, align),
            sig.params@.len() <= vals.len(),
        ensures
            sp_offset + count_regs(vals) * word + self.arg_stack_space() - self.total_stack_space()
                == sp_offset + (count_regs(below(vals, sig.params@.len() as int)) - count_mem(
                top(vals, sig.params@.len() as int),
            )) * word,
            0 < word ==> (sp_offset + count_regs(vals) * word + self.arg_stack_space()
                - self.total_stack_space() <= sp_offset <==> count_regs(
                below(vals, sig.params@.len() as int),
            ) <= count_mem(top(vals, sig.params@.len() as int))),
    {
        let k = sig.params@.len() as int;
        let len = vals.len() as int;
        lemma_counts_split(vals, 0, len - k, len);
        assert(vals.subrange(0, len) =~= vals);
        let regs_below = count_regs(below(vals, k)) as int;
        let regs_args = count_regs(top(vals, k)) as int;
        let mem_args = count_mem(top(vals, k)) as int;
        assert((regs_below + regs_args) * word - (regs_args * word + mem_args * word) == (regs_below
            - mem_args) * word) by (nonlinear_arith);
        assert(0 < word ==> ((regs_below - mem_args) * word <= 0 <==> regs_below <= mem_args))
            by (nonlinear_arith);
    }

    /// A call that was prepared can be emitted right away, if before its
    /// preparation the slots of the memory-resident values lay under the
    /// stack pointer, a word apiece; the values below the arguments held no
    /// more registers than the arguments held memory slots; the result
    /// register was free or held a value of the stack; and the argument
    /// space can be reserved within 32 bits.
    pub proof fn lemma_ready_after_accounting(
        &self,
        sig: &'a ABISig,
        vals: Seq<Val>,
        free: Set<Reg>,
        sp_offset: int,
        word: int,
        base: int,
        align: int,
    )
        requires
            self.accounts_for(sig, vals, sp_offset, word, base, align),
            sig.params@.len() <= vals.len(),
            0 <= sp_offset,
            0 < word,
            slots_within(vals, sp_offset),
            count_mem(vals) * word <= sp_offset,
            count_regs(below(vals, sig.params@.len() as int)) <= count_mem(
                top(vals, sig.params@.len() as int),
            ),
            sp_offset + count_regs(vals) * word + self.arg_stack_space() <= u32::MAX,
            !sig.result.is_void() ==> free.union(regs_in(vals)).contains(sig.result.result_reg()),
        ensures
            self.ready(
                spilled(vals, 0, vals.len() as int, sp_offset, word),
                free.union(regs_in(vals)),
                sp_offset + count_regs(vals) * word,
            ),
    {
        let k = sig.params@.len() as int;
        let len = vals.len() as int;
        self.lemma_stack_pointer_after_call(sig, vals, sp_offset, word, base, align);
        lemma_spilled_slots_within(vals, sp_offset, word);
        lemma_counts_split(vals, 0, len - k, len);
        assert(vals.subrange(0, len) =~= vals);
        let regs_below = count_regs(below(vals, k)) as int;
        let mem_below = count_mem(below(vals, k)) as int;
        let mem_args = count_mem(top(vals, k)) as int;
        assert(0 <= (regs_below - mem_args) * word + sp_offset) by (nonlinear_arith)
            requires
                (mem_below + mem_args) * word <= sp_offset,
                0 <= mem_below,
                0 <= regs_below,
                0 < word,
        ;
    }

    /// Prepares a call to a function of signature `callee_sig`.
    ///
    /// Every register-resident value of the value stack is spilled, deepest
    /// first, since a callee may overwrite any register. The space for stack
    /// arguments is sized from the stack pointer as the spills leave it. The
    /// total to release after the call adds to it one word for each of the
    /// top values that the call takes as arguments.
    pub fn new<A: ABI, M: MacroAssembler<ABI = A>>(
        abi: &A,
        callee_sig: &'a ABISig,
        context: &mut CodeGenContext,
        masm: &mut M,
    ) -> (call: Self)
        requires
            callee_sig.params@.len() <= old(context).stack@.len(),
            Self::accounting_fits(
                callee_sig,
                old(context).stack@,
                old(masm)@.sp_offset as int,
                A::spec_word_bytes() as int,
                abi.spec_arg_base_offset() as int,
                abi.spec_call_stack_align() as int,
            ),
        ensures
            call.accounts_for(
                callee_sig,
                old(context).stack@,
                old(masm)@.sp_offset as int,
                A::spec_word_bytes() as int,
                abi.spec_arg_base_offset() as int,
                abi.spec_call_stack_align() as int,
            ),
            call.arg_stack_space() % (abi.spec_call_stack_align() as u32) == 0,
            call.total_stack_space() >= call.arg_stack_space(),
            call.total_stack_space() == callee_sig.params@.len() * A::spec_word_bytes()
                + call.arg_stack_space(),
            callee_sig.params@.len() == 0 ==> call.total_stack_space() == call.arg_stack_space(),
            callee_sig.params@.len() == 0 && callee_sig.stack_bytes == 0
                ==> call.arg_stack_space() == if (final(masm)@.sp_offset
                + abi.spec_arg_base_offset()) % (abi.spec_call_stack_align() as int) == 0 {
                0
            } else {
                abi.spec_call_stack_align() as int
            },
            final(context).stack@ == spilled(
                old(context).stack@,
                0,
                old(context).stack@.len() as int,
                old(masm)@.sp_offset as int,
                A::spec_word_bytes() as int,
            ),
            final(context).regalloc@ == old(context).regalloc@.union(
                regs_in(old(context).stack@),
            ),
            final(masm)@.sp_offset == old(masm)@.sp_offset + count_regs(old(context).stack@)
                * A::spec_word_bytes(),
            final(masm)@.ops == old(masm)@.ops + spill_ops(old(context).stack@),
    {
        let stack_bytes = callee_sig.stack_bytes;
        let param_count = callee_sig.params.len();
        let sp_offset_at_callsite = masm.sp_offset();
        let len = context.stack.len();
        let word = A::word_bytes();
        let ghost vals = context.stack@;
        let ghost sp = sp_offset_at_callsite as int;
        let ghost partition = len - param_count;
        proof {
            lemma_counts_split(vals, 0, partition, len as int);
            assert(vals.subrange(0, len as int) =~= vals);
            let regs_below = count_regs(vals.subrange(0, partition)) as int;
            let regs_args = count_regs(vals.subrange(partition, len as int)) as int;
            assert(count_regs(vals) * word == regs_below * word + regs_args * word)
                by (nonlinear_arith)
                requires
                    count_regs(vals) == regs_below + regs_args,
            ;
        }
        let (spilled_regs, memory_values) = match param_count {
            0 => {
                let _ = context.spill_regs_and_count_memory_in(masm, 0..len);
                (0, 0)
            },
            _ => {
                let partition = len - param_count;
                let _ = context.spill_regs_and_count_memory_in(masm, 0..partition);
                proof {
                    assert(context.stack@.subrange(partition as int, len as int) =~= vals.subrange(
                        partition as int,
                        len as int,
                    ));
                }
                let counts = context.spill_regs_and_count_memory_in(masm, partition..len);
                proof {
                    lemma_spilled_in_two_steps(vals, 0, partition as int, len as int, sp, word as int);
                    assert(vals.subrange(0, partition as int) + vals.subrange(
                        partition as int,
                        len as int,
                    ) =~= vals);
                    lemma_spill_ops_concat(
                        vals.subrange(0, partition as int),
                        vals.subrange(partition as int, len as int),
                    );
                }
                counts
            },
        };
        let align = abi.call_stack_align();
        proof {
            let e = choose|e: nat| align as int == vstd::arithmetic::power2::pow2(e);
            vstd::arithmetic::power2::lemma_pow2_pos(e);
        }
        let delta = calculate_frame_adjustment(
            masm.sp_offset(),
            abi.arg_base_offset() as u32,
            align as u32,
        );
        let arg_stack_space = align_to(stack_bytes + delta, align as u32);
        proof {
            let args = top(vals, param_count as int);
            lemma_counts_cover(args);
            assert(0 <= count_regs(args) * word && 0 <= count_mem(args) * word && count_regs(args)
                * word + count_mem(args) * word == param_count * word) by (nonlinear_arith)
                requires
                    0 <= word,
                    count_regs(args) + count_mem(args) == param_count,
            ;
            lemma_padding_only(
                masm@.sp_offset as int,
                abi.spec_arg_base_offset() as int,
                align as int,
            );
        }
        FnCall {
            abi_sig: callee_sig,
            arg_stack_space,
            total_stack_space: spilled_regs * word + memory_values * word + arg_stack_space,
            sp_offset_at_callsite,
        }
    }

    /// Emits the call, with `callee` as its target.
    ///
    /// The argument space is reserved, each argument is placed, the call is
    /// made and the total stack space is released in one adjustment. The
    /// arguments leave the value stack and the result, if there is one, takes
    /// their place, held in the register that the convention returns it in.
    /// The stack pointer ends no higher than the call site found it.
    pub fn emit<M: MacroAssembler<ABI = A>, A: ABI>(
        &self,
        masm: &mut M,
        context: &mut CodeGenContext,
        callee: u32,
    )
        requires
            self.ready(
                old(context).stack@,
                old(context).regalloc@,
                old(masm)@.sp_offset as int,
            ),
        ensures
            final(masm)@.sp_offset == old(masm)@.sp_offset + self.arg_stack_space()
                - self.total_stack_space(),
            final(masm)@.sp_offset <= self.sp_offset_at_callsite(),
            final(masm)@.ops == old(masm)@.ops + self.call_ops(
                top(old(context).stack@, self.abi_sig().params@.len() as int),
                A::spec_scratch_reg(),
                old(masm)@.sp_offset as int,
                callee,
            ),
            final(context).stack@ == below(
                old(context).stack@,
                self.abi_sig().params@.len() as int,
            ) + result_vals(self.abi_sig().result),
            self.abi_sig().result.is_void() ==> final(context).stack@.len() == old(
                context,
            ).stack@.len() - self.abi_sig().params@.len(),
            !self.abi_sig().result.is_void() ==> final(context).stack@.len() == old(
                context,
            ).stack@.len() - self.abi_sig().params@.len() + 1,
            final(context).regalloc@ == free_after_call(
                old(context).regalloc@,
                top(old(context).stack@, self.abi_sig().params@.len() as int),
                self.abi_sig().result,
            ),
    {
        masm.reserve_stack(self.arg_stack_space);
        self.assign_args(context, masm, A::scratch_reg());
        masm.call(CalleeKind::Direct(callee));
        masm.free_stack(self.total_stack_space);
        context.drop_last(self.abi_sig.params.len());
        assert(self.sp_offset_at_callsite >= masm@.sp_offset);
        self.handle_result(context, masm);
    }

    /// Places each argument where the signature demands it: the value for
    /// parameter `i` is the one `i` places above the deepest argument on the
    /// value stack. A register argument is moved into its register; a stack
    /// argument goes through `scratch` into its slot above the stack pointer.
    pub fn assign_args<M: MacroAssembler>(
        &self,
        context: &mut CodeGenContext,
        masm: &mut M,
        scratch: Reg,
    )
        requires
            self.abi_sig().params@.len() <= old(context).stack@.len(),
            slots_within(
                top(old(context).stack@, self.abi_sig().params@.len() as int),
                old(masm)@.sp_offset as int,
            ),
        ensures
            final(context).stack@ == old(context).stack@,
            final(context).regalloc@ == old(context).regalloc@,
            final(masm)@.sp_offset == old(masm)@.sp_offset,
            final(masm)@.ops == old(masm)@.ops + arg_ops(
                self.abi_sig().params@,
                top(old(context).stack@, self.abi_sig().params@.len() as int),
                scratch,
                old(masm)@.sp_offset as int,
                self.abi_sig().params@.len(),
            ),
    {
        let arg_count = self.abi_sig.params.len();
        let stack_values = context.stack.peekn(arg_count);
        let ghost ops = masm@.ops;
        let ghost sp = masm@.sp_offset as int;
        let ghost params = self.abi_sig.params@;
        let ghost args = stack_values@;
        let mut i: usize = 0;
        while i < arg_count
            invariant
                i <= arg_count,
                arg_count == params.len(),
                arg_count == args.len(),
                params == self.abi_sig.params@,
                args == stack_values@,
                slots_within(args, sp),
                masm@.sp_offset == sp,
                masm@.ops == ops + arg_ops(params, args, scratch, sp, i as nat),
            decreases arg_count - i,
        {
            let arg = &self.abi_sig.params[i];
            let val = &stack_values[i];
            match arg {
                ABIArg::Reg { ty, reg } => {
                    context.move_val_to_reg(val, *reg, masm, ty.operand_size());
                },
                ABIArg::Stack { ty, offset } => {
                    let addr = masm.address_at_sp(*offset);
                    let size = ty.operand_size();
                    context.move_val_to_reg(val, scratch, masm, size);
                    masm.store(scratch, addr, size);
                },
            }
            i += 1;
        }
    }

    /// Records the result of the call: nothing for a void function; else the
    /// result register is acquired and pushed onto the value stack.
    pub fn handle_result<M: MacroAssembler>(&self, context: &mut CodeGenContext, masm: &mut M)
        requires
            !self.abi_sig().result.is_void() ==> old(context).regalloc@.contains(
                self.abi_sig().result.result_reg(),
            ),
        ensures
            final(context).stack@ == old(context).stack@ + result_vals(self.abi_sig().result),
            final(context).regalloc@ == if self.abi_sig().result.is_void() {
                old(context).regalloc@
            } else {
                old(context).regalloc@.remove(self.abi_sig().result.result_reg())
            },
            final(masm)@ == old(masm)@,
    {
        let result = &self.abi_sig.result;
        if result.is_void() {
            return ;
        }
        match result {
            ABIResult::Reg { ty: _, reg } => {
                let result_reg = Val::reg(context.gpr(*reg, masm));
                context.stack.push(result_reg);
            },
        }
    }
}

} // verus!
