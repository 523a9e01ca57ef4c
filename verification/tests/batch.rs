use kernel_core::batch::{
    batch_trap, is_handled_trap, rust_fast_syscall, rust_trap_handler, takes_fast_path, AppManager, AppManagerInner,
    FastContext, KernelStack, LoadPlan, TrapContext, UserStack, APP_BASE_ADDRESS, APP_SIZE_LIMIT,
    KERNEL_STACK_SIZE, MAX_APP_NUM, TRAP_CONTEXT_SIZE, USER_STACK_SIZE,
};
use kernel_core::kernel::{execute_step, ExecuteAction};
use kernel_core::syscall::{sys_exit, sys_panic, sys_write, sys_yield, SyscallRequest, UserBuffer};
use kernel_core::trap::{ExitReason, ResumeResult, Runtime, TrapAction};

fn trap_context(request: SyscallRequest, sepc: u64) -> TrapContext {
    let mut ctx = TrapContext::app_init_context(sepc, 0x8050_0000, 0);
    ctx.x[16] = request.module;
    ctx.x[15] = request.function;
    for i in 0..6 {
        ctx.x[9 + i] = request.args[i];
    }
    ctx
}

#[test]
fn constants_of_the_batch_system() {
    assert_eq!(USER_STACK_SIZE, 4096 * 2);
    assert_eq!(KERNEL_STACK_SIZE, 4096 * 2);
    assert_eq!(MAX_APP_NUM, 16);
    assert_eq!(APP_BASE_ADDRESS, 0x80400000);
    assert_eq!(APP_SIZE_LIMIT, 0x20000);
    assert_eq!(TRAP_CONTEXT_SIZE, 33 * 8);
}

#[test]
fn stacks_grow_down_from_their_top() {
    let kernel = KernelStack { base: 0x8060_0000 };
    let user = UserStack { base: 0x8070_0000 };
    assert_eq!(kernel.get_sp(), 0x8060_2000);
    assert_eq!(user.get_sp(), 0x8070_2000);
    assert_eq!(kernel.push_context(), 0x8060_2000 - 264);
}

#[test]
fn context_of_a_starting_program() {
    let ctx = TrapContext::app_init_context(0x8040_0000, 0x8070_2000, 0x8000_0000_0000_0122);
    let mut x = [0u64; 31];
    x[1] = 0x8070_2000;
    assert_eq!(ctx.x, x);
    assert_eq!(ctx.sepc, 0x8040_0000);
    assert_eq!(ctx.sstatus, 0x8000_0000_0000_0022);
    let mut ctx = ctx;
    ctx.set_sp(0x1000);
    assert_eq!(ctx.x[1], 0x1000);
    assert_eq!(ctx.x[0], 0);
    assert_eq!(ctx.x[2], 0);
}

#[test]
fn table_of_program_images() {
    let table = vec![3, 0x8020_0000, 0x8020_1000, 0x8020_1800, 0x8020_4000];
    let mut apps = AppManager::new(&table).unwrap();
    assert_eq!(apps.inner.num_app(), 3);
    assert_eq!(apps.inner.get_current_app_index(), 0);
    assert_eq!(
        apps.print_app_info(),
        vec![(0x8020_0000, 0x8020_1000), (0x8020_1000, 0x8020_1800), (0x8020_1800, 0x8020_4000)]
    );
    assert_eq!(
        apps.inner.load_app(1),
        LoadPlan { clear_start: 0x80400000, clear_len: 0x20000, src: 0x8020_1000, len: 0x800, dst: 0x80400000 }
    );
    assert_eq!(
        apps.prepare_next_app(),
        Some(LoadPlan {
            clear_start: 0x80400000,
            clear_len: 0x20000,
            src: 0x8020_0000,
            len: 0x1000,
            dst: 0x80400000
        })
    );
    assert_eq!(apps.inner.get_current_app_index(), 1);
    apps.inner.move_to_next_app();
    assert_eq!(apps.inner.get_current_app_index(), 2);
    assert_eq!(apps.prepare_next_app().unwrap().src, 0x8020_1800);
    assert_eq!(apps.prepare_next_app(), None);
    assert_eq!(apps.inner.get_current_app_index(), 3);
    assert_eq!(apps.prepare_next_app(), None);
}

#[test]
fn tables_that_are_no_tables() {
    assert!(AppManager::new(&vec![]).is_none());
    assert!(AppManager::new(&vec![1, 5]).is_none());
    assert!(AppManager::new(&vec![2, 5, 6]).is_none());
    assert!(AppManager::new(&vec![2, 5, 4, 9]).is_none());
    assert!(AppManager::new(&vec![2, 5, 6, 5]).is_none());
    assert!(AppManager::new(&vec![17; 40]).is_none());
    assert!(AppManagerInner::new(&vec![0, 5]).is_some());
    assert!(AppManager::new(&vec![1, 5, 5]).is_some());
    assert!(AppManager::new(&vec![1, 5, 5, 1]).is_some());
    let mut table = vec![16u64];
    table.extend(100..117u64);
    assert_eq!(AppManager::new(&table).unwrap().inner.num_app(), 16);
}

#[test]
fn run_next_app_plans_load_and_entry() {
    let mut apps = AppManager::new(&vec![1, 0x8020_0000, 0x8020_0040]).unwrap();
    let user = UserStack { base: 0x8070_0000 };
    let (plan, ctx) = apps.run_next_app(&user, 0x100).unwrap();
    assert_eq!(plan.src, 0x8020_0000);
    assert_eq!(plan.len, 0x40);
    assert_eq!(ctx.sepc, 0x80400000);
    assert_eq!(ctx.x[1], 0x8070_2000);
    assert_eq!(ctx.sstatus, 0);
    assert!(apps.run_next_app(&user, 0x100).is_none());
}

#[test]
fn batch_kernel_takes_store_faults_of_both_kinds() {
    assert_eq!(batch_trap(8, 1), Some(ResumeResult::Syscall));
    assert_eq!(batch_trap(7, 0), Some(ResumeResult::StoreAccessFault(0)));
    assert_eq!(batch_trap(15, 0x40), Some(ResumeResult::StoreAccessFault(0x40)));
    assert_eq!(batch_trap(2, 0x13), Some(ResumeResult::IllegalInstruction(0x13)));
    assert_eq!(batch_trap(5, 0), None);
    assert_eq!(batch_trap(13, 0), None);
    assert_eq!(batch_trap(0x8000_0000_0000_0007, 0), None);
}

#[test]
fn batch_handler_answers_a_write() {
    let buffer = UserBuffer { ptr: 0x8040_1000, len: 9 };
    let mut ctx = trap_context(sys_write(1, buffer), 0x8040_0010);
    assert!(is_handled_trap(&ctx, 8, 0));
    assert_eq!(rust_trap_handler(&mut ctx, 8, 0), TrapAction::Resume(Some(buffer)));
    assert_eq!(ctx.x[9], 0);
    assert_eq!(ctx.x[10], 9);
    assert_eq!(ctx.x[11], 9);
    assert_eq!(ctx.sepc, 0x8040_0014);
    assert_eq!(ctx.x[1], 0x8050_0000);
}

#[test]
fn batch_handler_ends_programs() {
    let mut ctx = trap_context(sys_exit(-3), 0x8040_0020);
    assert_eq!(rust_trap_handler(&mut ctx, 8, 0), TrapAction::Finish(ExitReason::Returned(-3)));
    assert_eq!(ctx.sepc, 0x8040_0020);
    let msg = UserBuffer { ptr: 0x8040_3000, len: 5 };
    let mut ctx = trap_context(sys_panic(None, 1, 2, Some(msg)), 0x8040_0020);
    assert_eq!(
        rust_trap_handler(&mut ctx, 8, 0),
        TrapAction::Finish(ExitReason::Panicked(None, 1, 2, Some(msg)))
    );
    let mut ctx = trap_context(sys_yield(), 0x8040_0030);
    assert!(is_handled_trap(&ctx, 7, 0));
    assert_eq!(
        rust_trap_handler(&mut ctx, 7, 0),
        TrapAction::Finish(ExitReason::Faulted(ResumeResult::StoreAccessFault(0), 0x8040_0030))
    );
    assert_eq!(
        rust_trap_handler(&mut ctx, 2, 0x7777),
        TrapAction::Finish(ExitReason::Faulted(ResumeResult::IllegalInstruction(0x7777), 0x8040_0030))
    );
    assert_eq!(rust_trap_handler(&mut ctx, 8, 0), TrapAction::Yield);
    assert_eq!(ctx.sepc, 0x8040_0034);
}

#[test]
fn batch_handler_does_not_take_everything() {
    let ctx = trap_context(sys_write(2, UserBuffer { ptr: 1, len: 1 }), 0);
    assert!(!is_handled_trap(&ctx, 8, 0));
    assert!(is_handled_trap(&ctx, 2, 0));
    assert!(!is_handled_trap(&ctx, 5, 0));
    assert!(!is_handled_trap(&ctx, 0x8000_0000_0000_0001, 0));
}

#[test]
fn fast_path_is_for_module_zero_calls() {
    assert!(takes_fast_path(0, 8));
    assert!(!takes_fast_path(1, 8));
    assert!(!takes_fast_path(0, 7));
    assert!(!takes_fast_path(0, 0x8000_0000_0000_0008));
    let ctx = FastContext { a0: 1, a1: 2, a2: 3, a3: 4, a4: 5, a5: 6, a6: 7 };
    assert_eq!(rust_fast_syscall(&ctx), TrapAction::Yield);
}

#[test]
fn batch_loop_runs_programs_one_after_the_other() {
    let mut apps = AppManager::new(&vec![2, 0x8020_0000, 0x8020_1000, 0x8020_3000]).unwrap();
    let mut rt = Runtime::new_user(0x8070_2000, 0x100);
    let first = apps.prepare_next_app().unwrap();
    assert_eq!(first.len, 0x1000);
    rt.prepare_next_app(APP_BASE_ADDRESS);

    let buffer = UserBuffer { ptr: 0x8040_0100, len: 4 };
    let write = sys_write(1, buffer);
    rt.context.a7 = write.module;
    rt.context.a6 = write.function;
    rt.context.a0 = write.args[0];
    rt.context.a1 = write.args[1];
    rt.context.a2 = write.args[2];
    assert_eq!(
        execute_step(&mut rt, &mut apps, ResumeResult::Syscall, 0x8070_2000, 0x100),
        ExecuteAction::Resume(Some(buffer))
    );
    assert_eq!(rt.context.sepc, 0x8040_0004);
    assert_eq!(rt.context.a1, 4);

    rt.context.sp = 0x8070_1f00;
    assert_eq!(
        execute_step(&mut rt, &mut apps, ResumeResult::LoadAccessFault(0x44), 0x8070_2000, 0x100),
        ExecuteAction::NextApp(
            ExitReason::Faulted(ResumeResult::LoadAccessFault(0x44), 0x8040_0004),
            LoadPlan {
                clear_start: 0x80400000,
                clear_len: 0x20000,
                src: 0x8020_1000,
                len: 0x2000,
                dst: 0x80400000
            }
        )
    );
    assert_eq!(rt.context.sepc, 0x80400000);
    assert_eq!(rt.context.sp, 0x8070_2000);
    assert_eq!(rt.context.sstatus, 0);

    let exit = sys_exit(9);
    rt.context.a7 = exit.module;
    rt.context.a6 = exit.function;
    rt.context.a0 = exit.args[0];
    assert_eq!(
        execute_step(&mut rt, &mut apps, ResumeResult::Syscall, 0x8070_2000, 0x100),
        ExecuteAction::Shutdown(ExitReason::Returned(9))
    );
}
