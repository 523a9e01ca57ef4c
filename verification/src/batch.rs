//! The batch system: programs that run one after the other at one fixed
//! address, each on the same pair of stacks.
//!
//! The program images lie in the kernel image, one behind the other; a table
//! of addresses says where each begins and where the last one ends. To run a
//! program the kernel clears the program area and copies the image there.
//! This module says what to clear and what to copy; moving the bytes is left
//! to the code around this crate.

use vstd::prelude::*;
use crate::syscall::{
    console_output, is_known_syscall, syscall, syscall_known, syscall_meaning, syscall_output, SyscallOperation,
};
use crate::trap::{
    past_ecall, spec_trap_cause, spec_user_status, trap_cause, user_status, Exception, ExitReason, ResumeResult,
    TrapAction, TrapCause,
};

verus! {

/// Bytes of the user stack.
pub const USER_STACK_SIZE: u64 = 8192;

/// Bytes of the kernel stack.
pub const KERNEL_STACK_SIZE: u64 = 8192;

/// The most programs that the table of program images can list.
pub const MAX_APP_NUM: usize = 16;

/// The address at which every program runs.
pub const APP_BASE_ADDRESS: u64 = 0x80400000;

/// Bytes of the area that a program runs in.
pub const APP_SIZE_LIMIT: u64 = 0x20000;

/// Bytes that a saved [`TrapContext`] takes on the kernel stack: 33 machine
/// words.
pub const TRAP_CONTEXT_SIZE: u64 = 264;

/// The stack that the kernel runs on while it handles a trap.
#[derive(Copy, Clone, PartialEq, Eq, Debug, Structural)]
pub struct KernelStack {
    /// The lowest address of the stack.
    pub base: u64,
}

/// The stack that the running program uses.
#[derive(Copy, Clone, PartialEq, Eq, Debug, Structural)]
pub struct UserStack {
    /// The lowest address of the stack.
    pub base: u64,
}

impl KernelStack {
    /// The address just above the stack: where its first word goes below.
    pub fn get_sp(&self) -> (r: u64)
        requires
            self.base + KERNEL_STACK_SIZE <= u64::MAX,
        ensures
            r == self.base + KERNEL_STACK_SIZE,
    {
        self.base + KERNEL_STACK_SIZE
    }

    /// The address at which a trap context pushed onto the empty stack lies.
    pub fn push_context(&self) -> (r: u64)
        requires
            self.base + KERNEL_STACK_SIZE <= u64::MAX,
        ensures
            r == self.base + KERNEL_STACK_SIZE - TRAP_CONTEXT_SIZE,
    {
        self.get_sp() - TRAP_CONTEXT_SIZE
    }
}

impl UserStack {
    /// The address just above the stack.
    pub fn get_sp(&self) -> (r: u64)
        requires
            self.base + USER_STACK_SIZE <= u64::MAX,
        ensures
            r == self.base + USER_STACK_SIZE,
    {
        self.base + USER_STACK_SIZE
    }
}

/// The registers of a program as the trap entry saves them: `x[i]` is the
/// general register number `i + 1`, so `x[1]` is the stack pointer and `x[9]`
/// to `x[16]` are `a0` to `a7`.
#[derive(Copy, Clone, Debug)]
pub struct TrapContext {
    pub x: [u64; 31],
    pub sstatus: u64,
    pub sepc: u64,
}

impl TrapContext {
    /// The argument words of a system call: `a0` to `a5`.
    pub open spec fn spec_syscall_args(self) -> Seq<u64> {
        self.x@.subrange(9, 15)
    }

    /// Sets the stack pointer.
    pub fn set_sp(&mut self, sp: u64)
        ensures
            final(self).x@ == old(self).x@.update(1, sp),
            final(self).sstatus == old(self).sstatus,
            final(self).sepc == old(self).sepc,
    {
        self.x[1] = sp;
    }

    /// The context of a program that is about to start at `entry` with its
    /// stack at `sp`: every other register is zero, and the status, made from
    /// the present value `sstatus` of the status register, returns to user
    /// mode.
    pub fn app_init_context(entry: u64, sp: u64, sstatus: u64) -> (r: TrapContext)
        ensures
            r.x@ == Seq::new(31, |i: int| 0u64).update(1, sp),
            r.sstatus == spec_user_status(sstatus),
            r.sepc == entry,
    {
        let mut cx = TrapContext { x: [0; 31], sstatus: user_status(sstatus), sepc: entry };
        assert(cx.x@ =~= Seq::new(31, |i: int| 0u64));
        cx.set_sp(sp);
        cx
    }
}

/// What the batch kernel makes of a trap with this cause, for the causes that
/// it takes: a system call, a store fault of either kind, or an illegal
/// instruction.
pub open spec fn spec_batch_trap(scause: u64, stval: u64) -> Option<ResumeResult> {
    match spec_trap_cause(scause) {
        TrapCause::Exception(Exception::UserEnvCall) => Some(ResumeResult::Syscall),
        TrapCause::Exception(Exception::StoreFault) => Some(ResumeResult::StoreAccessFault(stval)),
        TrapCause::Exception(Exception::StorePageFault) => Some(ResumeResult::StoreAccessFault(stval)),
        TrapCause::Exception(Exception::IllegalInstruction) => Some(ResumeResult::IllegalInstruction(stval)),
        _ => None,
    }
}

/// Whether the batch kernel can handle the trap: it takes the cause, and a
/// system call is one that it knows.
pub open spec fn batch_trap_handled(ctx: TrapContext, scause: u64, stval: u64) -> bool {
    match spec_batch_trap(scause, stval) {
        Some(ResumeResult::Syscall) => syscall_known(ctx.x@[16], ctx.x@[15], ctx.spec_syscall_args()),
        Some(_) => true,
        None => false,
    }
}

/// The registers after the trap was handled, and what the kernel does next.
pub open spec fn spec_rust_trap_handler(ctx: TrapContext, scause: u64, stval: u64) -> (Seq<u64>, u64, TrapAction) {
    let args = ctx.spec_syscall_args();
    match spec_batch_trap(scause, stval) {
        Some(ResumeResult::Syscall) => match syscall_meaning(ctx.x@[16], ctx.x@[15], args) {
            SyscallOperation::Return(ans) => (
                ctx.x@.update(9, ans.code).update(10, ans.extra),
                past_ecall(ctx.sepc),
                TrapAction::Resume(syscall_output(ctx.x@[16], ctx.x@[15], args)),
            ),
            SyscallOperation::Yield => (ctx.x@, past_ecall(ctx.sepc), TrapAction::Yield),
            SyscallOperation::Terminate(code) => (ctx.x@, ctx.sepc, TrapAction::Finish(ExitReason::Returned(code))),
            SyscallOperation::UserPanic(file, line, col, msg) => (
                ctx.x@,
                ctx.sepc,
                TrapAction::Finish(ExitReason::Panicked(file, line, col, msg)),
            ),
        },
        Some(fault) => (ctx.x@, ctx.sepc, TrapAction::Finish(ExitReason::Faulted(fault, ctx.sepc))),
        None => (ctx.x@, ctx.sepc, TrapAction::Yield),
    }
}

/// What the batch kernel makes of a trap with this cause; see
/// [`spec_batch_trap`].
pub fn batch_trap(scause: u64, stval: u64) -> (r: Option<ResumeResult>)
    ensures
        r == spec_batch_trap(scause, stval),
{
    match trap_cause(scause) {
        TrapCause::Exception(Exception::UserEnvCall) => Some(ResumeResult::Syscall),
        TrapCause::Exception(Exception::StoreFault) => Some(ResumeResult::StoreAccessFault(stval)),
        TrapCause::Exception(Exception::StorePageFault) => Some(ResumeResult::StoreAccessFault(stval)),
        TrapCause::Exception(Exception::IllegalInstruction) => Some(ResumeResult::IllegalInstruction(stval)),
        _ => None,
    }
}

/// Whether the batch kernel can handle the trap.
pub fn is_handled_trap(ctx: &TrapContext, scause: u64, stval: u64) -> (r: bool)
    ensures
        r == batch_trap_handled(*ctx, scause, stval),
{
    match batch_trap(scause, stval) {
        Some(ResumeResult::Syscall) => {
            let args = [ctx.x[9], ctx.x[10], ctx.x[11], ctx.x[12], ctx.x[13], ctx.x[14]];
            assert(args@ =~= ctx.spec_syscall_args());
            is_known_syscall(ctx.x[16], ctx.x[15], args)
        },
        Some(_) => true,
        None => false,
    }
}

/// Handles a trap from the running program, given the cause and the trap
/// value that the hart reports.
///
/// A system call with a result gets its result in `a0` and `a1`, and the
/// program counter moves past the call. An exit, a panic, a store fault or an
/// illegal instruction ends the program. Any other cause, and a system call
/// that the kernel does not know, is a fault of the kernel itself.
pub fn rust_trap_handler(ctx: &mut TrapContext, scause: u64, stval: u64) -> (r: TrapAction)
    requires
        batch_trap_handled(*old(ctx), scause, stval),
    ensures
        (final(ctx).x@, final(ctx).sepc, r) == spec_rust_trap_handler(*old(ctx), scause, stval),
        final(ctx).sstatus == old(ctx).sstatus,
{
    match batch_trap(scause, stval) {
        Some(ResumeResult::Syscall) => {
            let args = [ctx.x[9], ctx.x[10], ctx.x[11], ctx.x[12], ctx.x[13], ctx.x[14]];
            assert(args@ =~= ctx.spec_syscall_args());
            let output = console_output(ctx.x[16], ctx.x[15], args);
            match syscall(ctx.x[16], ctx.x[15], args) {
                SyscallOperation::Return(ans) => {
                    ctx.x[9] = ans.code;
                    ctx.x[10] = ans.extra;
                    ctx.sepc = ctx.sepc.wrapping_add(4);
                    TrapAction::Resume(output)
                },
                SyscallOperation::Yield => {
                    ctx.sepc = ctx.sepc.wrapping_add(4);
                    TrapAction::Yield
                },
                SyscallOperation::Terminate(code) => TrapAction::Finish(ExitReason::Returned(code)),
                SyscallOperation::UserPanic(file, line, col, msg) => TrapAction::Finish(
                    ExitReason::Panicked(file, line, col, msg),
                ),
            }
        },
        Some(fault) => TrapAction::Finish(ExitReason::Faulted(fault, ctx.sepc)),
        None => TrapAction::Yield,
    }
}

/// The arguments of a system call on the fast path: the path that the trap
/// entry takes, without saving the other registers, for a call whose module
/// word is zero. Such a call yields.
#[derive(Copy, Clone, PartialEq, Eq, Debug, Structural)]
pub struct FastContext {
    pub a0: u64,
    pub a1: u64,
    pub a2: u64,
    pub a3: u64,
    pub a4: u64,
    pub a5: u64,
    pub a6: u64,
}

/// Whether a trap takes the fast path: the module word `a7` is zero and the
/// cause register holds 8, a system call from user mode.
pub fn takes_fast_path(a7: u64, scause: u64) -> (r: bool)
    ensures
        r == (a7 == 0 && scause == 8),
        r ==> spec_trap_cause(scause) == TrapCause::Exception(Exception::UserEnvCall),
{
    a7 == 0 && scause == 8
}

/// Handles a system call on the fast path: the program yields.
pub fn rust_fast_syscall(ctx: &FastContext) -> (r: TrapAction)
    ensures
        r == TrapAction::Yield,
{
    TrapAction::Yield
}

/// Where to copy a program image from and to, and what to clear first.
#[derive(Copy, Clone, PartialEq, Eq, Debug, Structural)]
pub struct LoadPlan {
    /// The first address of the area to fill with zeros.
    pub clear_start: u64,
    /// The bytes to fill with zeros.
    pub clear_len: u64,
    /// The first address of the image.
    pub src: u64,
    /// The bytes of the image.
    pub len: u64,
    /// The address to copy the image to.
    pub dst: u64,
}

/// The state of the batch system: how many programs there are, which one is
/// next, and where the image of each begins and ends.
#[derive(Debug)]
pub struct AppManagerInner {
    num_app: usize,
    current_app: usize,
    app_start: Vec<u64>,
}

/// What an [`AppManagerInner`] holds, as mathematical values.
pub struct AppManagerState {
    /// The number of programs.
    pub num_app: nat,
    /// The index of the program to load next.
    pub current_app: nat,
    /// The start of each image, and behind them the end of the last.
    pub app_start: Seq<u64>,
}

impl AppManagerState {
    /// There are at most [`MAX_APP_NUM`] programs, the table has one address
    /// more than there are programs, and the addresses do not descend.
    pub open spec fn wf(self) -> bool {
        &&& self.num_app <= MAX_APP_NUM
        &&& self.app_start.len() == self.num_app + 1
        &&& forall|i: int| 0 <= i < self.num_app ==> #[trigger] self.app_start[i] <= self.app_start[i + 1]
    }

    /// The plan for loading the program `app_id`.
    pub open spec fn load_plan(self, app_id: nat) -> LoadPlan {
        LoadPlan {
            clear_start: APP_BASE_ADDRESS,
            clear_len: APP_SIZE_LIMIT,
            src: self.app_start[app_id as int],
            len: (self.app_start[app_id as int + 1] - self.app_start[app_id as int]) as u64,
            dst: APP_BASE_ADDRESS,
        }
    }
}

/// Whether a table of machine words is a table of program images: a count of
/// at most [`MAX_APP_NUM`], then the start of each image and the end of the
/// last, none below the one before.
pub open spec fn app_table_ok(table: Seq<u64>) -> bool {
    &&& table.len() >= 1
    &&& table[0] <= MAX_APP_NUM
    &&& table.len() >= table[0] + 2
    &&& forall|i: int| 1 <= i <= table[0] ==> #[trigger] table[i] <= table[i + 1]
}

impl View for AppManagerInner {
    type V = AppManagerState;

    closed spec fn view(&self) -> AppManagerState {
        AppManagerState {
            num_app: self.num_app as nat,
            current_app: self.current_app as nat,
            app_start: self.app_start@,
        }
    }
}

impl AppManagerInner {
    /// Reads the table of program images.
    pub fn new(table: &Vec<u64>) -> (r: Option<AppManagerInner>)
        ensures
            r is Some <==> app_table_ok(table@),
            r matches Some(m) ==> {
                &&& m@.wf()
                &&& m@.num_app == table@[0]
                &&& m@.current_app == 0
                &&& m@.app_start == table@.subrange(1, table@[0] + 2)
            },
    {
        if table.len() < 1 {
            return None;
        }
        let count = table[0];
        if count > MAX_APP_NUM as u64 {
            return None;
        }
        let num_app = count as usize;
        if table.len() < num_app + 2 {
            return None;
        }
        let mut app_start: Vec<u64> = Vec::new();
        let mut i: usize = 0;
        while i <= num_app
            invariant
                i <= num_app + 1,
                num_app <= MAX_APP_NUM,
                num_app == table@[0],
                table@.len() >= num_app + 2,
                app_start@ == table@.subrange(1, i + 1),
                forall|j: int| 1 <= j < i ==> #[trigger] table@[j] <= table@[j + 1],
            decreases num_app + 1 - i,
        {
            if i >= 1 && table[i] > table[i + 1] {
                return None;
            }
            app_start.push(table[i + 1]);
            assert(app_start@ =~= table@.subrange(1, i + 2));
            i += 1;
        }
        let m = AppManagerInner { num_app, current_app: 0, app_start };
        proof {
            assert forall|k: int| 0 <= k < m@.num_app implies #[trigger] m@.app_start[k] <= m@.app_start[k + 1] by {
                assert(table@[k + 1] <= table@[k + 2]);
            }
        }
        Some(m)
    }

    /// The index of the program to load next.
    pub fn get_current_app_index(&self) -> (r: usize)
        ensures
            r == self@.current_app,
    {
        self.current_app
    }

    /// The number of programs.
    pub fn num_app(&self) -> (r: usize)
        ensures
            r == self@.num_app,
    {
        self.num_app
    }

    /// Moves on to the next program.
    pub fn move_to_next_app(&mut self)
        requires
            old(self)@.current_app < usize::MAX,
        ensures
            final(self)@ == (AppManagerState { current_app: old(self)@.current_app + 1, ..old(self)@ }),
    {
        self.current_app += 1;
    }

    /// The plan for loading the program `app_id`. To ask for a program that
    /// does not exist is a fault of the caller: all programs are done then.
    pub fn load_app(&self, app_id: usize) -> (r: LoadPlan)
        requires
            self@.wf(),
            app_id < self@.num_app,
        ensures
            r == self@.load_plan(app_id as nat),
    {
        LoadPlan {
            clear_start: APP_BASE_ADDRESS,
            clear_len: APP_SIZE_LIMIT,
            src: self.app_start[app_id],
            len: self.app_start[app_id + 1] - self.app_start[app_id],
            dst: APP_BASE_ADDRESS,
        }
    }

    /// Where the image of each program begins and ends, in the order of the
    /// table.
    pub fn app_ranges(&self) -> (r: Vec<(u64, u64)>)
        requires
            self@.wf(),
        ensures
            r@.len() == self@.num_app,
            forall|i: int|
                0 <= i < r@.len() ==> #[trigger] r@[i] == (self@.app_start[i], self@.app_start[i + 1]),
    {
        let mut ranges: Vec<(u64, u64)> = Vec::new();
        let mut i: usize = 0;
        while i < self.num_app
            invariant
                self@.wf(),
                i <= self.num_app,
                ranges@.len() == i,
                forall|j: int| 0 <= j < i ==> #[trigger] ranges@[j] == (self@.app_start[j], self@.app_start[j + 1]),
            decreases self.num_app - i,
        {
            ranges.push((self.app_start[i], self.app_start[i + 1]));
            i += 1;
        }
        ranges
    }
}

/// The batch system.
#[derive(Debug)]
pub struct AppManager {
    pub inner: AppManagerInner,
}

impl AppManager {
    /// Reads the table of program images; see [`app_table_ok`].
    pub fn new(table: &Vec<u64>) -> (r: Option<AppManager>)
        ensures
            r is Some <==> app_table_ok(table@),
            r matches Some(m) ==> {
                &&& m.inner@.wf()
                &&& m.inner@.num_app == table@[0]
                &&& m.inner@.current_app == 0
                &&& m.inner@.app_start == table@.subrange(1, table@[0] + 2)
            },
    {
        match AppManagerInner::new(table) {
            Some(inner) => Some(AppManager { inner }),
            None => None,
        }
    }

    /// What to tell about the programs: the range of each image.
    pub fn print_app_info(&self) -> (r: Vec<(u64, u64)>)
        requires
            self.inner@.wf(),
        ensures
            r@.len() == self.inner@.num_app,
            forall|i: int|
                0 <= i < r@.len() ==> #[trigger] r@[i] == (self.inner@.app_start[i], self.inner@.app_start[i + 1]),
    {
        self.inner.app_ranges()
    }

    /// Plans the load of the next program and moves on to the one after it.
    /// Returns nothing, and changes nothing, when all programs are done.
    pub fn prepare_next_app(&mut self) -> (r: Option<LoadPlan>)
        requires
            old(self).inner@.wf(),
        ensures
            final(self).inner@.wf(),
            old(self).inner@.current_app < old(self).inner@.num_app ==> {
                &&& r == Some(old(self).inner@.load_plan(old(self).inner@.current_app))
                &&& final(self).inner@ == (AppManagerState {
                    current_app: old(self).inner@.current_app + 1,
                    ..old(self).inner@
                })
            },
            old(self).inner@.current_app >= old(self).inner@.num_app ==> {
                &&& r is None
                &&& final(self).inner@ == old(self).inner@
            },
    {
        let current_app = self.inner.get_current_app_index();
        if current_app >= self.inner.num_app() {
            return None;
        }
        let plan = self.inner.load_app(current_app);
        self.inner.move_to_next_app();
        Some(plan)
    }

    /// Plans the run of the next program: the load of its image, and the
    /// context to enter it with, on the user stack `user_stack`. Returns
    /// nothing when all programs are done.
    pub fn run_next_app(&mut self, user_stack: &UserStack, sstatus: u64) -> (r: Option<(LoadPlan, TrapContext)>)
        requires
            old(self).inner@.wf(),
            user_stack.base + USER_STACK_SIZE <= u64::MAX,
        ensures
            final(self).inner@.wf(),
            r is Some <==> old(self).inner@.current_app < old(self).inner@.num_app,
            r matches Some((plan, cx)) ==> {
                &&& plan == old(self).inner@.load_plan(old(self).inner@.current_app)
                &&& final(self).inner@ == (AppManagerState {
                    current_app: old(self).inner@.current_app + 1,
                    ..old(self).inner@
                })
                &&& cx.sepc == APP_BASE_ADDRESS
                &&& cx.sstatus == spec_user_status(sstatus)
                &&& cx.x@ == Seq::new(31, |i: int| 0u64).update(1, (user_stack.base + USER_STACK_SIZE) as u64)
            },
            r is None ==> final(self).inner@ == old(self).inner@,
    {
        match self.prepare_next_app() {
            Some(plan) => {
                let cx = TrapContext::app_init_context(APP_BASE_ADDRESS, user_stack.get_sp(), sstatus);
                Some((plan, cx))
            },
            None => None,
        }
    }
}

/// The fast path and the general path agree on a yield. Where the call in
/// the registers of `ctx` is a yield, the general path makes the kernel let
/// another program run, which is what the fast path does for every call
/// that takes it.
pub proof fn lemma_fast_path_agrees(ctx: TrapContext, stval: u64)
    requires
        syscall_known(ctx.x@[16], ctx.x@[15], ctx.spec_syscall_args()),
        syscall_meaning(ctx.x@[16], ctx.x@[15], ctx.spec_syscall_args()) == SyscallOperation::Yield,
    ensures
        spec_rust_trap_handler(ctx, 8, stval).2 == TrapAction::Yield,
{
}

} // verus!
