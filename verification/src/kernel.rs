//! The kernel's main loops, one step at a time.
//!
//! The kernel enters a user program, comes back on a trap, and decides what
//! to do next. The hart does the entering and the coming back; each function
//! here is one decision between two of them: it takes the state of the kernel
//! and the reason for coming back, and returns the new state and what the
//! code around this crate has to do before it enters a program again.

use vstd::prelude::*;
use crate::addr::PhysAddr;
use crate::batch::{AppManager, AppManagerState, LoadPlan, APP_BASE_ADDRESS};
use crate::frame_alloc::{FrameAllocState, StackFrameAllocator};
use crate::syscall::UserBuffer;
use crate::task::{exit_current_and_run_next, suspend_current_and_run_next, SchedState, TaskManager, TaskSwitch};
use crate::trap::{
    handle_resume, resume_handled, spec_handle_resume, spec_trap_cause, spec_user_status, trap_cause, Exception,
    ExitReason, ResumeResult, Runtime, TrapAction, TrapCause, UserContext, KERNEL_STACK_UNSET,
};

verus! {

/// The address at which the physical memory that the kernel manages ends.
pub const MEMORY_END: u64 = 0x80800000;

/// The frame allocator for the memory behind the kernel image: the pages
/// from the one that holds `ekernel`, the end of the image, up to the page of
/// [`MEMORY_END`].
pub fn boot_frame_allocator(ekernel: u64) -> (r: StackFrameAllocator)
    ensures
        r@ == FrameAllocState::fresh((ekernel / 4096) as u64, (MEMORY_END / 4096) as u64),
        ekernel / 4096 <= 0xfff_ffff_ffff ==> r@.wf(),
{
    let from = PhysAddr(ekernel).page_number();
    let to = PhysAddr(MEMORY_END).page_number();
    StackFrameAllocator::new(from, to)
}

/// What the batch kernel does after a program came back.
#[derive(Copy, Clone, PartialEq, Eq, Debug, Structural)]
pub enum ExecuteAction {
    /// Enter the same program again, after writing these bytes to the
    /// standard output if there are any.
    Resume(Option<UserBuffer>),
    /// The program is over for this reason; load the next one as planned and
    /// enter it.
    NextApp(ExitReason, LoadPlan),
    /// The program is over for this reason, and it was the last one: shut
    /// the machine down.
    Shutdown(ExitReason),
}

/// The runtime, the batch system and the action after the program came back
/// with `trap`.
pub open spec fn spec_execute_step(
    context: UserContext,
    apps: AppManagerState,
    trap: ResumeResult,
    stack_top: u64,
    sstatus: u64,
) -> (UserContext, AppManagerState, ExecuteAction) {
    let (ctx, action) = spec_handle_resume(context, trap);
    match action {
        TrapAction::Resume(output) => (ctx, apps, ExecuteAction::Resume(output)),
        TrapAction::Yield => (ctx, apps, ExecuteAction::Resume(None)),
        TrapAction::Finish(reason) => {
            let fresh = UserContext {
                sp: stack_top,
                sstatus: spec_user_status(sstatus),
                kernel_stack: KERNEL_STACK_UNSET,
                ..ctx
            };
            if apps.current_app < apps.num_app {
                (
                    UserContext { sepc: APP_BASE_ADDRESS, ..fresh },
                    AppManagerState { current_app: apps.current_app + 1, ..apps },
                    ExecuteAction::NextApp(reason, apps.load_plan(apps.current_app)),
                )
            } else {
                (fresh, apps, ExecuteAction::Shutdown(reason))
            }
        },
    }
}

/// One step of the batch kernel: handles the return from the running program
/// and, where the program is over, makes the runtime ready for the next one.
///
/// A program that goes on is entered again; a yield, with one program at a
/// time, is entered again as well. A program that is over makes room for the
/// next one: the runtime is reset, with the user stack at `stack_top` and the
/// status made from `sstatus`, the present value of the status register, and
/// the program counter is put at the start of the program area. After the
/// last program the machine is shut down.
pub fn execute_step(
    rt: &mut Runtime,
    apps: &mut AppManager,
    trap: ResumeResult,
    stack_top: u64,
    sstatus: u64,
) -> (r: ExecuteAction)
    requires
        resume_handled(old(rt).context, trap),
        old(apps).inner@.wf(),
    ensures
        final(apps).inner@.wf(),
        (final(rt).context, final(apps).inner@, r) == spec_execute_step(
            old(rt).context,
            old(apps).inner@,
            trap,
            stack_top,
            sstatus,
        ),
{
    let mut ctx = rt.context;
    let action = handle_resume(&mut ctx, trap);
    rt.context = ctx;
    match action {
        TrapAction::Resume(output) => ExecuteAction::Resume(output),
        TrapAction::Yield => ExecuteAction::Resume(None),
        TrapAction::Finish(reason) => {
            rt.reset(stack_top, sstatus);
            match apps.prepare_next_app() {
                Some(plan) => {
                    rt.prepare_next_app(APP_BASE_ADDRESS);
                    ExecuteAction::NextApp(reason, plan)
                },
                None => ExecuteAction::Shutdown(reason),
            }
        },
    }
}

/// What the multitasking kernel does after a task came back.
#[derive(Copy, Clone, PartialEq, Eq, Debug, Structural)]
pub enum KernelAction {
    /// Enter the same task again, after writing these bytes to the standard
    /// output if there are any.
    Resume(Option<UserBuffer>),
    /// The task yielded: make this switch.
    Yielded(TaskSwitch),
    /// The task is over for this reason: make this switch.
    Exited(ExitReason, TaskSwitch),
    /// The task is over for this reason, and no task is left: shut the
    /// machine down.
    Shutdown(ExitReason),
}

/// The context of the task, the task table and the action after the task
/// came back with `trap`.
pub open spec fn spec_task_step(context: UserContext, tasks: SchedState, trap: ResumeResult) -> (
    UserContext,
    SchedState,
    KernelAction,
) {
    let (ctx, action) = spec_handle_resume(context, trap);
    match action {
        TrapAction::Resume(output) => (ctx, tasks, KernelAction::Resume(output)),
        TrapAction::Yield => (
            ctx,
            tasks.yield_step(),
            match tasks.mark_suspended().next_task() {
                Some(next) => KernelAction::Yielded(spec_switch(tasks, next)),
                None => KernelAction::Resume(None),
            },
        ),
        TrapAction::Finish(reason) => (
            ctx,
            tasks.exit_step(),
            match tasks.mark_finished().next_task() {
                Some(next) => KernelAction::Exited(reason, spec_switch(tasks, next)),
                None => KernelAction::Shutdown(reason),
            },
        ),
    }
}

/// The switch from the running task of `tasks` to the task `next`.
pub open spec fn spec_switch(tasks: SchedState, next: nat) -> TaskSwitch {
    TaskSwitch { current: tasks.current as usize, next: next as usize, next_task_cx: tasks.contexts[next as int] }
}

/// One step of the multitasking kernel: handles the return from the running
/// task and picks the task that runs next.
///
/// A task that goes on is entered again. A task that yields becomes ready,
/// and the first ready task behind it runs; this may be the same task. A
/// task that is over, by an exit, a panic or a fault, is finished, and the
/// first ready task behind it runs; where there is none, the machine is shut
/// down.
pub fn task_step(manager: &mut TaskManager, ctx: &mut UserContext, trap: ResumeResult) -> (r: KernelAction)
    requires
        resume_handled(*old(ctx), trap),
        old(manager)@.wf(),
    ensures
        final(manager)@.wf(),
        (*final(ctx), final(manager)@, r) == spec_task_step(*old(ctx), old(manager)@, trap),
{
    match handle_resume(ctx, trap) {
        TrapAction::Resume(output) => KernelAction::Resume(output),
        TrapAction::Yield => match suspend_current_and_run_next(manager) {
            Some(switch) => KernelAction::Yielded(switch),
            None => KernelAction::Resume(None),
        },
        TrapAction::Finish(reason) => match exit_current_and_run_next(manager) {
            Some(switch) => KernelAction::Exited(reason, switch),
            None => KernelAction::Shutdown(reason),
        },
    }
}

/// The registers that the kernel saves when it traps while it runs itself.
#[derive(Copy, Clone, PartialEq, Eq, Debug, Structural)]
pub struct KernelTrapContext {
    pub ra: u64,
    pub t0: u64,
    pub t1: u64,
    pub t2: u64,
    pub t3: u64,
    pub t4: u64,
    pub t5: u64,
    pub t6: u64,
    pub a0: u64,
    pub a1: u64,
    pub a2: u64,
    pub a3: u64,
    pub a4: u64,
    pub a5: u64,
    pub a6: u64,
    pub a7: u64,
    pub sstatus: u64,
}

/// The address that the kernel failed to reach, where a trap inside the
/// kernel is a load or store access fault: the kernel was working on an
/// address that a task gave it.
pub open spec fn spec_kernel_trap(scause: u64, stval: u64) -> Option<u64> {
    match spec_trap_cause(scause) {
        TrapCause::Exception(Exception::LoadFault) => Some(stval),
        TrapCause::Exception(Exception::StoreFault) => Some(stval),
        _ => None,
    }
}

/// Handles a trap that happened while the kernel ran. A load or store access
/// fault means that the running task handed the kernel an address that
/// cannot be reached: the answer is that address, and the task is to be
/// ended. Every other cause is a fault of the kernel itself: there is no
/// answer.
pub fn kernel_trap_handler(scause: u64, stval: u64) -> (r: Option<u64>)
    ensures
        r == spec_kernel_trap(scause, stval),
{
    match trap_cause(scause) {
        TrapCause::Exception(Exception::LoadFault) => Some(stval),
        TrapCause::Exception(Exception::StoreFault) => Some(stval),
        _ => None,
    }
}

} // verus!
