use winch_codegen::abi::{ABIArg, ABIResult, ABISig, WasmType};
use winch_codegen::codegen::{CodeGenContext, FnCall};
use winch_codegen::isa::aarch64::{ip0, xreg, Aarch64ABI};
use winch_codegen::isa::x64::{r11, r8, rax, rbx, rcx, rdi, rdx, rsi, X64ABI, ALL_GPR};
use winch_codegen::masm::{Address, CalleeKind, MacroAssembler, Op, OperandSize, Recorder};
use winch_codegen::regalloc::RegAlloc;
use winch_codegen::stack::{Stack, Val};

fn context_with(vals: &[Val]) -> CodeGenContext {
    let mut regalloc = RegAlloc::new(ALL_GPR);
    let mut stack = Stack::new();
    for val in vals {
        if let Val::Reg(reg) = val {
            regalloc.gpr(*reg);
        }
        stack.push(*val);
    }
    CodeGenContext::new(regalloc, stack)
}

fn stack_vals(context: &CodeGenContext) -> Vec<Val> {
    (0..context.stack.len()).map(|i| context.stack.get(i)).collect()
}

#[test]
fn two_register_arguments_void_result() {
    let mut context = context_with(&[Val::reg(rax()), Val::reg(rcx())]);
    let mut masm: Recorder<X64ABI> = Recorder::new(0);
    let sig = ABISig::new(
        vec![
            ABIArg::reg(rdi(), WasmType::I32),
            ABIArg::reg(rsi(), WasmType::I64),
        ],
        ABIResult::reg(None, rax()),
        0,
    );

    let call = FnCall::new(&X64ABI, &sig, &mut context, &mut masm);
    assert_eq!(call.sp_offset_at_callsite(), 0);
    assert_eq!(call.arg_stack_space(), 0);
    assert_eq!(call.total_stack_space(), 16);
    assert_eq!(masm.sp_offset(), 16);
    assert_eq!(
        stack_vals(&context),
        vec![Val::Memory(8), Val::Memory(16)]
    );
    assert!(context.regalloc.gpr_available(rax()));
    assert!(context.regalloc.gpr_available(rcx()));

    call.emit(&mut masm, &mut context, 7);
    assert_eq!(context.stack.len(), 0);
    assert_eq!(masm.sp_offset(), 0);
    assert_eq!(
        masm.ops(),
        &vec![
            Op::Push { reg: rax() },
            Op::Push { reg: rcx() },
            Op::ReserveStack { bytes: 0 },
            Op::Load {
                src: Address { offset: 8 },
                dst: rdi(),
                size: OperandSize::S32
            },
            Op::Load {
                src: Address { offset: 0 },
                dst: rsi(),
                size: OperandSize::S64
            },
            Op::Call {
                callee: CalleeKind::Direct(7)
            },
            Op::FreeStack { bytes: 16 },
        ]
    );
}

#[test]
fn five_memory_arguments_two_in_registers_three_on_the_stack() {
    let mut context = context_with(&[
        Val::memory(8),
        Val::memory(16),
        Val::memory(24),
        Val::memory(32),
        Val::memory(40),
    ]);
    let mut masm: Recorder<X64ABI> = Recorder::new(40);
    let sig = ABISig::new(
        vec![
            ABIArg::reg(rdi(), WasmType::I64),
            ABIArg::reg(rsi(), WasmType::I64),
            ABIArg::stack_offset(0, WasmType::I64),
            ABIArg::stack_offset(8, WasmType::I32),
            ABIArg::stack_offset(16, WasmType::I64),
        ],
        ABIResult::reg(None, rax()),
        24,
    );

    let call = FnCall::new(&X64ABI, &sig, &mut context, &mut masm);
    // Nothing is spilled; the frame is 8 bytes short of alignment, so 24
    // bytes of arguments and 8 of padding are reserved.
    assert!(masm.ops().is_empty());
    assert_eq!(masm.sp_offset(), 40);
    assert_eq!(call.arg_stack_space(), 32);
    // All five arguments are in memory and are released with the call.
    assert_eq!(call.total_stack_space(), 5 * 8 + 32);

    call.emit(&mut masm, &mut context, 3);
    assert_eq!(context.stack.len(), 0);
    assert_eq!(masm.sp_offset(), 0);
    assert_eq!(
        masm.ops(),
        &vec![
            Op::ReserveStack { bytes: 32 },
            Op::Load {
                src: Address { offset: 64 },
                dst: rdi(),
                size: OperandSize::S64
            },
            Op::Load {
                src: Address { offset: 56 },
                dst: rsi(),
                size: OperandSize::S64
            },
            Op::Load {
                src: Address { offset: 48 },
                dst: r11(),
                size: OperandSize::S64
            },
            Op::Store {
                src: r11(),
                dst: Address { offset: 0 },
                size: OperandSize::S64
            },
            Op::Load {
                src: Address { offset: 40 },
                dst: r11(),
                size: OperandSize::S32
            },
            Op::Store {
                src: r11(),
                dst: Address { offset: 8 },
                size: OperandSize::S32
            },
            Op::Load {
                src: Address { offset: 32 },
                dst: r11(),
                size: OperandSize::S64
            },
            Op::Store {
                src: r11(),
                dst: Address { offset: 16 },
                size: OperandSize::S64
            },
            Op::Call {
                callee: CalleeKind::Direct(3)
            },
            Op::FreeStack { bytes: 72 },
        ]
    );
}

#[test]
fn register_result_is_acquired_and_pushed() {
    let mut context = context_with(&[Val::memory(8)]);
    let mut masm: Recorder<X64ABI> = Recorder::new(8);
    let sig = ABISig::new(
        vec![ABIArg::reg(rdi(), WasmType::I32)],
        ABIResult::reg(Some(WasmType::I32), rax()),
        0,
    );

    let call = FnCall::new(&X64ABI, &sig, &mut context, &mut masm);
    assert!(context.regalloc.gpr_available(rax()));
    assert_eq!(call.arg_stack_space(), 16);
    assert_eq!(call.total_stack_space(), 24);

    call.emit(&mut masm, &mut context, 0);
    assert_eq!(stack_vals(&context), vec![Val::Reg(rax())]);
    assert!(!context.regalloc.gpr_available(rax()));
    assert!(context.regalloc.gpr_available(rcx()));
    assert_eq!(masm.sp_offset(), 0);
}

#[test]
fn result_replaces_arguments_above_untouched_values() {
    let mut context = context_with(&[Val::memory(8), Val::memory(16), Val::memory(24)]);
    let mut masm: Recorder<X64ABI> = Recorder::new(24);
    let sig = ABISig::new(
        vec![
            ABIArg::reg(rdi(), WasmType::I32),
            ABIArg::reg(rsi(), WasmType::I32),
        ],
        ABIResult::reg(Some(WasmType::I64), rax()),
        0,
    );

    let call = FnCall::new(&X64ABI, &sig, &mut context, &mut masm);
    let before = context.stack.len();
    call.emit(&mut masm, &mut context, 12);
    assert_eq!(context.stack.len(), before - 2 + 1);
    assert_eq!(
        stack_vals(&context),
        vec![Val::Memory(8), Val::Reg(rax())]
    );
    assert!(masm.sp_offset() <= call.sp_offset_at_callsite());
    assert_eq!(masm.sp_offset(), 8);
}

#[test]
fn no_parameters_on_an_aligned_frame_reserve_nothing() {
    let mut context = context_with(&[Val::memory(8), Val::memory(16)]);
    let mut masm: Recorder<X64ABI> = Recorder::new(16);
    let sig = ABISig::new(vec![], ABIResult::reg(None, rax()), 0);

    let call = FnCall::new(&X64ABI, &sig, &mut context, &mut masm);
    assert_eq!(call.arg_stack_space(), 0);
    assert_eq!(call.total_stack_space(), 0);

    call.emit(&mut masm, &mut context, 1);
    assert_eq!(
        stack_vals(&context),
        vec![Val::Memory(8), Val::Memory(16)]
    );
    assert_eq!(masm.sp_offset(), 16);
    assert_eq!(
        masm.ops(),
        &vec![
            Op::ReserveStack { bytes: 0 },
            Op::Call {
                callee: CalleeKind::Direct(1)
            },
            Op::FreeStack { bytes: 0 },
        ]
    );
}

#[test]
fn no_parameters_on_an_unaligned_frame_reserve_the_padding() {
    let mut context = context_with(&[Val::memory(8)]);
    let mut masm: Recorder<X64ABI> = Recorder::new(8);
    let sig = ABISig::new(vec![], ABIResult::reg(None, rax()), 0);

    let call = FnCall::new(&X64ABI, &sig, &mut context, &mut masm);
    assert_eq!(call.arg_stack_space(), 16);
    assert_eq!(call.total_stack_space(), 16);
    assert_eq!(call.arg_stack_space() % 16, 0);

    call.emit(&mut masm, &mut context, 1);
    assert_eq!(stack_vals(&context), vec![Val::Memory(8)]);
    assert_eq!(masm.sp_offset(), 8);
}

#[test]
fn no_parameters_and_an_empty_stack() {
    let mut context = context_with(&[]);
    let mut masm: Recorder<X64ABI> = Recorder::new(0);
    let sig = ABISig::new(vec![], ABIResult::reg(Some(WasmType::I32), rax()), 0);

    let call = FnCall::new(&X64ABI, &sig, &mut context, &mut masm);
    assert_eq!(call.arg_stack_space(), 0);
    assert_eq!(call.total_stack_space(), 0);
    assert_eq!(call.abi_sig().stack_bytes, 0);

    call.emit(&mut masm, &mut context, 9);
    assert_eq!(stack_vals(&context), vec![Val::Reg(rax())]);
    assert_eq!(masm.sp_offset(), 0);
}

#[test]
fn spilled_register_below_is_paid_for_by_a_memory_argument() {
    let mut context = context_with(&[Val::reg(rbx()), Val::memory(8)]);
    let mut masm: Recorder<X64ABI> = Recorder::new(8);
    let sig = ABISig::new(
        vec![ABIArg::reg(rdi(), WasmType::I64)],
        ABIResult::reg(None, rax()),
        0,
    );

    let call = FnCall::new(&X64ABI, &sig, &mut context, &mut masm);
    assert_eq!(
        stack_vals(&context),
        vec![Val::Memory(16), Val::Memory(8)]
    );
    assert!(context.regalloc.gpr_available(rbx()));
    assert_eq!(masm.sp_offset(), 16);
    assert_eq!(call.arg_stack_space(), 0);
    // Only the argument counts towards the total, not the value below it.
    assert_eq!(call.total_stack_space(), 8);

    call.emit(&mut masm, &mut context, 2);
    assert_eq!(masm.sp_offset(), 8);
    assert_eq!(
        masm.ops(),
        &vec![
            Op::Push { reg: rbx() },
            Op::ReserveStack { bytes: 0 },
            Op::Load {
                src: Address { offset: 8 },
                dst: rdi(),
                size: OperandSize::S64
            },
            Op::Call {
                callee: CalleeKind::Direct(2)
            },
            Op::FreeStack { bytes: 8 },
        ]
    );
}

#[test]
fn register_and_memory_arguments_are_both_released() {
    let mut context = context_with(&[Val::memory(8), Val::reg(rdx()), Val::memory(16)]);
    let mut masm: Recorder<X64ABI> = Recorder::new(16);
    let sig = ABISig::new(
        vec![
            ABIArg::reg(rdi(), WasmType::I32),
            ABIArg::reg(rsi(), WasmType::I32),
            ABIArg::stack_offset(0, WasmType::I32),
        ],
        ABIResult::reg(None, rax()),
        8,
    );

    let call = FnCall::new(&X64ABI, &sig, &mut context, &mut masm);
    // One push brings the stack pointer to 24; 24 + 16 lacks 8 to alignment.
    assert_eq!(
        stack_vals(&context),
        vec![Val::Memory(8), Val::Memory(24), Val::Memory(16)]
    );
    assert_eq!(call.arg_stack_space(), 16);
    assert_eq!(call.total_stack_space(), 8 + 2 * 8 + 16);
    assert!(call.total_stack_space() >= call.arg_stack_space());

    call.emit(&mut masm, &mut context, 5);
    assert_eq!(context.stack.len(), 0);
    assert_eq!(masm.sp_offset(), 0);
    assert_eq!(
        masm.ops(),
        &vec![
            Op::Push { reg: rdx() },
            Op::ReserveStack { bytes: 16 },
            Op::Load {
                src: Address { offset: 32 },
                dst: rdi(),
                size: OperandSize::S32
            },
            Op::Load {
                src: Address { offset: 16 },
                dst: rsi(),
                size: OperandSize::S32
            },
            Op::Load {
                src: Address { offset: 24 },
                dst: r11(),
                size: OperandSize::S32
            },
            Op::Store {
                src: r11(),
                dst: Address { offset: 0 },
                size: OperandSize::S32
            },
            Op::Call {
                callee: CalleeKind::Direct(5)
            },
            Op::FreeStack { bytes: 40 },
        ]
    );
}

#[test]
fn assign_args_moves_register_values_without_loading() {
    let mut context = context_with(&[Val::reg(r8()), Val::reg(rcx())]);
    let mut masm: Recorder<X64ABI> = Recorder::new(0);
    let sig = ABISig::new(
        vec![
            ABIArg::reg(rdi(), WasmType::I32),
            ABIArg::stack_offset(8, WasmType::I64),
        ],
        ABIResult::reg(None, rax()),
        16,
    );
    let call = FnCall::new(&X64ABI, &sig, &mut context, &mut Recorder::<X64ABI>::new(0));
    // The values are put back in registers to watch register moves alone.
    context.stack.set(0, Val::reg(r8()));
    context.stack.set(1, Val::reg(rcx()));

    call.assign_args(&mut context, &mut masm, r11());
    assert_eq!(stack_vals(&context), vec![Val::Reg(r8()), Val::Reg(rcx())]);
    assert_eq!(masm.sp_offset(), 0);
    assert_eq!(
        masm.ops(),
        &vec![
            Op::Mov {
                src: r8(),
                dst: rdi(),
                size: OperandSize::S32
            },
            Op::Mov {
                src: rcx(),
                dst: r11(),
                size: OperandSize::S64
            },
            Op::Store {
                src: r11(),
                dst: Address { offset: 8 },
                size: OperandSize::S64
            },
        ]
    );
}

#[test]
fn handle_result_leaves_a_void_call_alone() {
    let mut context = context_with(&[Val::memory(8)]);
    let mut masm: Recorder<X64ABI> = Recorder::new(8);
    let sig = ABISig::new(vec![], ABIResult::reg(None, rax()), 0);
    let call = FnCall::new(&X64ABI, &sig, &mut context, &mut masm);

    call.handle_result(&mut context, &mut masm);
    assert_eq!(stack_vals(&context), vec![Val::Memory(8)]);
    assert!(context.regalloc.gpr_available(rax()));
    assert!(masm.ops().is_empty());
}

#[test]
fn handle_result_takes_the_result_register() {
    let mut context = context_with(&[Val::memory(8)]);
    let mut masm: Recorder<X64ABI> = Recorder::new(8);
    let sig = ABISig::new(vec![], ABIResult::reg(Some(WasmType::I64), rdx()), 0);
    let call = FnCall::new(&X64ABI, &sig, &mut context, &mut masm);

    call.handle_result(&mut context, &mut masm);
    assert_eq!(
        stack_vals(&context),
        vec![Val::Memory(8), Val::Reg(rdx())]
    );
    assert!(!context.regalloc.gpr_available(rdx()));
    assert!(masm.ops().is_empty());
    assert_eq!(masm.sp_offset(), 8);
}

#[test]
fn stack_argument_goes_through_the_scratch_register_of_the_convention() {
    let mut regalloc = RegAlloc::new(0x1FF8_FFFF);
    let held = regalloc.gpr(xreg(9));
    let mut stack = Stack::new();
    stack.push(Val::reg(held));
    let mut context = CodeGenContext::new(regalloc, stack);
    let mut masm: Recorder<Aarch64ABI> = Recorder::new(0);
    let sig = ABISig::new(
        vec![ABIArg::stack_offset(0, WasmType::I64)],
        ABIResult::reg(Some(WasmType::I64), xreg(0)),
        8,
    );

    let call = FnCall::new(&Aarch64ABI, &sig, &mut context, &mut masm);
    // The push leaves the stack pointer at 8; 8 + 16 lacks 8 to alignment.
    assert_eq!(call.arg_stack_space(), 16);
    assert_eq!(call.total_stack_space(), 24);

    call.emit(&mut masm, &mut context, 21);
    assert_eq!(stack_vals(&context), vec![Val::Reg(xreg(0))]);
    assert!(!context.regalloc.gpr_available(xreg(0)));
    assert!(context.regalloc.gpr_available(xreg(9)));
    assert!(!context.regalloc.gpr_available(ip0()));
    assert_eq!(masm.sp_offset(), 0);
    assert_eq!(
        masm.ops(),
        &vec![
            Op::Push { reg: xreg(9) },
            Op::ReserveStack { bytes: 16 },
            Op::Load {
                src: Address { offset: 16 },
                dst: ip0(),
                size: OperandSize::S64
            },
            Op::Store {
                src: ip0(),
                dst: Address { offset: 0 },
                size: OperandSize::S64
            },
            Op::Call {
                callee: CalleeKind::Direct(21)
            },
            Op::FreeStack { bytes: 24 },
        ]
    );
}
