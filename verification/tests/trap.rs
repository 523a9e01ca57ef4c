use kernel_core::syscall::{sys_exit, sys_panic, sys_write, sys_yield, SyscallRequest, UserBuffer};
use kernel_core::trap::{
    classify_trap, handle_resume, is_handled_resume, trap_cause, trap_vector_base, user_status, Exception,
    ExitReason, ResumeResult, Runtime, TrapAction, TrapCause, UserContext, KERNEL_STACK_UNSET, SSTATUS_MASK,
    SSTATUS_SPP,
};

fn context_with(request: SyscallRequest, sepc: u64) -> UserContext {
    let mut ctx = UserContext::zeroed();
    ctx.a7 = request.module;
    ctx.a6 = request.function;
    ctx.a0 = request.args[0];
    ctx.a1 = request.args[1];
    ctx.a2 = request.args[2];
    ctx.a3 = request.args[3];
    ctx.a4 = request.args[4];
    ctx.a5 = request.args[5];
    ctx.sepc = sepc;
    ctx.sp = 0x8050_0000;
    ctx
}

#[test]
fn cause_register_names_the_standard_exceptions() {
    assert_eq!(trap_cause(0), TrapCause::Exception(Exception::InstructionMisaligned));
    assert_eq!(trap_cause(1), TrapCause::Exception(Exception::InstructionFault));
    assert_eq!(trap_cause(2), TrapCause::Exception(Exception::IllegalInstruction));
    assert_eq!(trap_cause(3), TrapCause::Exception(Exception::Breakpoint));
    assert_eq!(trap_cause(4), TrapCause::Exception(Exception::LoadMisaligned));
    assert_eq!(trap_cause(5), TrapCause::Exception(Exception::LoadFault));
    assert_eq!(trap_cause(6), TrapCause::Exception(Exception::StoreMisaligned));
    assert_eq!(trap_cause(7), TrapCause::Exception(Exception::StoreFault));
    assert_eq!(trap_cause(8), TrapCause::Exception(Exception::UserEnvCall));
    assert_eq!(trap_cause(9), TrapCause::Exception(Exception::SupervisorEnvCall));
    assert_eq!(trap_cause(12), TrapCause::Exception(Exception::InstructionPageFault));
    assert_eq!(trap_cause(13), TrapCause::Exception(Exception::LoadPageFault));
    assert_eq!(trap_cause(15), TrapCause::Exception(Exception::StorePageFault));
}

#[test]
fn cause_register_other_values() {
    assert_eq!(trap_cause(10), TrapCause::Unknown(10));
    assert_eq!(trap_cause(11), TrapCause::Unknown(11));
    assert_eq!(trap_cause(14), TrapCause::Unknown(14));
    assert_eq!(trap_cause(16), TrapCause::Unknown(16));
    assert_eq!(trap_cause(0x7fff_ffff_ffff_ffff), TrapCause::Unknown(0x7fff_ffff_ffff_ffff));
    assert_eq!(trap_cause(0x8000_0000_0000_0005), TrapCause::Interrupt(5));
    assert_eq!(trap_cause(0x8000_0000_0000_0008), TrapCause::Interrupt(8));
    assert_eq!(trap_cause(u64::MAX), TrapCause::Interrupt(0x7fff_ffff_ffff_ffff));
}

#[test]
fn user_status_clears_the_previous_privilege() {
    assert_eq!(SSTATUS_MASK, 0x8000_0003_000d_e762);
    assert_eq!(SSTATUS_SPP, 1 << 8);
    assert_eq!(user_status(u64::MAX), 0x8000_0003_000d_e662);
    assert_eq!(user_status(0x100), 0);
    assert_eq!(user_status(0x122), 0x22);
    assert_eq!(user_status(0), 0);
    assert_eq!(user_status(0x8000_0000_0000_0001), 0x8000_0000_0000_0000);
}

#[test]
fn trap_vector_is_aligned_to_four() {
    assert_eq!(trap_vector_base(0x8020_0000), 0x8020_0000);
    assert_eq!(trap_vector_base(0x8020_0002), 0x8020_0004);
    assert_eq!(trap_vector_base(0x8020_0004), 0x8020_0004);
    assert_eq!(trap_vector_base(0x8020_0006), 0x8020_0008);
}

#[test]
fn classification_of_traps_from_user_mode() {
    assert_eq!(classify_trap(8, 0x55), Some(ResumeResult::Syscall));
    assert_eq!(classify_trap(5, 0x1000), Some(ResumeResult::LoadAccessFault(0x1000)));
    assert_eq!(classify_trap(7, 0x2000), Some(ResumeResult::StoreAccessFault(0x2000)));
    assert_eq!(classify_trap(2, 0xdead), Some(ResumeResult::IllegalInstruction(0xdead)));
    assert_eq!(classify_trap(15, 0), None);
    assert_eq!(classify_trap(13, 0), None);
    assert_eq!(classify_trap(9, 0), None);
    assert_eq!(classify_trap(0x8000_0000_0000_0008, 0), None);
    assert_eq!(classify_trap(24, 0), None);
}

#[test]
fn store_to_address_zero_is_a_store_fault_at_zero() {
    let mut rt = Runtime::new_user(0x8050_0000, 0x100);
    rt.prepare_next_app(0x8040_0000);
    let trap = rt.resume(7, 0x0);
    assert_eq!(trap, ResumeResult::StoreAccessFault(0x0));
    let mut ctx = rt.context;
    ctx.sepc = 0x8040_0010;
    assert!(is_handled_resume(&ctx, trap));
    assert_eq!(
        handle_resume(&mut ctx, trap),
        TrapAction::Finish(ExitReason::Faulted(ResumeResult::StoreAccessFault(0), 0x8040_0010))
    );
}

#[test]
fn exit_call_ends_the_program_and_is_no_fault() {
    let mut rt = Runtime::new_user(0x8050_0000, 0);
    rt.context = context_with(sys_exit(5), 0x8040_0020);
    let trap = rt.resume(8, 0);
    assert_eq!(trap, ResumeResult::Syscall);
    let before = rt.context;
    assert!(is_handled_resume(rt.context_mut(), trap));
    assert_eq!(handle_resume(rt.context_mut(), trap), TrapAction::Finish(ExitReason::Returned(5)));
    assert_eq!(rt.context, before);
}

#[test]
fn runtime_for_a_new_program() {
    let rt = Runtime::new_user(0x8050_2000, 0x8000_0003_000d_e762);
    let mut expected = UserContext::zeroed();
    expected.sp = 0x8050_2000;
    expected.sstatus = 0x8000_0003_000d_e662;
    expected.kernel_stack = 0x233333666666;
    assert_eq!(KERNEL_STACK_UNSET, 0x233333666666);
    assert_eq!(rt.context, expected);
}

#[test]
fn runtime_reset_keeps_the_other_registers() {
    let mut rt = Runtime::new_user(0x8050_2000, 0);
    rt.context.a0 = 17;
    rt.context.sepc = 0x8040_0100;
    rt.context.kernel_stack = 0x8060_0000;
    rt.context_mut().sp = 4;
    rt.reset(0x8050_2000, 0x120);
    assert_eq!(rt.context.a0, 17);
    assert_eq!(rt.context.sepc, 0x8040_0100);
    assert_eq!(rt.context.sp, 0x8050_2000);
    assert_eq!(rt.context.sstatus, 0x20);
    assert_eq!(rt.context.kernel_stack, KERNEL_STACK_UNSET);
}

#[test]
fn write_call_gets_its_answer_and_goes_on() {
    let buffer = UserBuffer { ptr: 0x8040_1000, len: 6 };
    let mut ctx = context_with(sys_write(1, buffer), 0x8040_0030);
    assert!(is_handled_resume(&ctx, ResumeResult::Syscall));
    let action = handle_resume(&mut ctx, ResumeResult::Syscall);
    assert_eq!(action, TrapAction::Resume(Some(buffer)));
    assert_eq!(ctx.a0, 0);
    assert_eq!(ctx.a1, 6);
    assert_eq!(ctx.sepc, 0x8040_0034);
    assert_eq!(ctx.a2, 6);
    assert_eq!(ctx.sp, 0x8050_0000);
}

#[test]
fn program_counter_wraps_past_the_call() {
    let mut ctx = context_with(sys_yield(), 0xffff_ffff_ffff_fffe);
    assert_eq!(handle_resume(&mut ctx, ResumeResult::Syscall), TrapAction::Yield);
    assert_eq!(ctx.sepc, 2);
}

#[test]
fn yield_call_moves_past_the_call_and_yields() {
    let mut ctx = context_with(sys_yield(), 0x8040_0040);
    assert_eq!(handle_resume(&mut ctx, ResumeResult::Syscall), TrapAction::Yield);
    assert_eq!(ctx.sepc, 0x8040_0044);
    assert_eq!(ctx.a0, 0);
}

#[test]
fn panic_call_ends_the_program_with_its_place() {
    let file = UserBuffer { ptr: 0x8040_2000, len: 11 };
    let msg = UserBuffer { ptr: 0x8040_3000, len: 5 };
    let mut ctx = context_with(sys_panic(Some(file), 12, 34, Some(msg)), 0x8040_0050);
    assert_eq!(
        handle_resume(&mut ctx, ResumeResult::Syscall),
        TrapAction::Finish(ExitReason::Panicked(Some(file), 12, 34, Some(msg)))
    );
    assert_eq!(ctx.sepc, 0x8040_0050);
}

#[test]
fn faults_end_the_program_where_it_stood() {
    let mut ctx = context_with(sys_yield(), 0x8040_0060);
    let before = ctx;
    for trap in [
        ResumeResult::LoadAccessFault(0x10),
        ResumeResult::StoreAccessFault(0x20),
        ResumeResult::IllegalInstruction(0x30),
    ] {
        assert!(is_handled_resume(&ctx, trap));
        assert_eq!(handle_resume(&mut ctx, trap), TrapAction::Finish(ExitReason::Faulted(trap, 0x8040_0060)));
        assert_eq!(ctx, before);
    }
}

#[test]
fn unknown_call_is_not_handled() {
    let mut ctx = UserContext::zeroed();
    ctx.a7 = 0x1234;
    assert!(!is_handled_resume(&ctx, ResumeResult::Syscall));
    assert!(is_handled_resume(&ctx, ResumeResult::LoadAccessFault(0)));
    assert_eq!(ctx.syscall_args(), [0; 6]);
}
