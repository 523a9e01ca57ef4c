//! Traps: the saved register state of an interrupted program, the cause of
//! the trap, and what the kernel does about it.
//!
//! The kernel is entered from user mode by a system call or by a fault. The
//! entry code saves the registers of the program into a context; this module
//! reads the cause that the hart reports, decides what becomes of the
//! program, and puts the answer of a system call into the context. Switching
//! to and from user mode, and reading the cause registers, is left to the
//! code around this crate: it hands in the register values as machine words.

use vstd::prelude::*;
use riscv::interrupt::supervisor::Exception as HartException;
use riscv::interrupt::Trap as HartTrap;
use riscv::register::scause::Scause;
use riscv::register::sstatus::{Sstatus, SPP};
use riscv::ExceptionNumber;
use crate::syscall::{
    console_output, is_known_syscall, syscall, syscall_known, syscall_meaning, syscall_output, SyscallOperation,
    UserBuffer,
};

verus! {

/// The synchronous causes of a trap into supervisor mode.
#[derive(Copy, Clone, PartialEq, Eq, Debug, Structural)]
pub enum Exception {
    InstructionMisaligned,
    InstructionFault,
    IllegalInstruction,
    Breakpoint,
    LoadMisaligned,
    LoadFault,
    StoreMisaligned,
    StoreFault,
    UserEnvCall,
    SupervisorEnvCall,
    InstructionPageFault,
    LoadPageFault,
    StorePageFault,
}

/// The cause of a trap, as the cause register spells it.
#[derive(Copy, Clone, PartialEq, Eq, Debug, Structural)]
pub enum TrapCause {
    /// An interrupt, with its number.
    Interrupt(u64),
    /// One of the standard exceptions.
    Exception(Exception),
    /// An exception with a number that the standard does not define.
    Unknown(u64),
}

/// The exception that the standard gives the number `code`, if it gives it
/// one.
pub open spec fn standard_exception(code: u64) -> Option<Exception> {
    if code == 0 {
        Some(Exception::InstructionMisaligned)
    } else if code == 1 {
        Some(Exception::InstructionFault)
    } else if code == 2 {
        Some(Exception::IllegalInstruction)
    } else if code == 3 {
        Some(Exception::Breakpoint)
    } else if code == 4 {
        Some(Exception::LoadMisaligned)
    } else if code == 5 {
        Some(Exception::LoadFault)
    } else if code == 6 {
        Some(Exception::StoreMisaligned)
    } else if code == 7 {
        Some(Exception::StoreFault)
    } else if code == 8 {
        Some(Exception::UserEnvCall)
    } else if code == 9 {
        Some(Exception::SupervisorEnvCall)
    } else if code == 12 {
        Some(Exception::InstructionPageFault)
    } else if code == 13 {
        Some(Exception::LoadPageFault)
    } else if code == 15 {
        Some(Exception::StorePageFault)
    } else {
        None
    }
}

/// Whether a cause register value stands for an interrupt: its top bit.
pub open spec fn scause_is_interrupt(bits: u64) -> bool {
    bits >= 0x8000_0000_0000_0000
}

/// The code of a cause register value: all bits but the top one.
pub open spec fn scause_code(bits: u64) -> u64 {
    (bits as int % 0x8000_0000_0000_0000) as u64
}

/// The cause that a cause register value spells.
pub open spec fn spec_trap_cause(bits: u64) -> TrapCause {
    if scause_is_interrupt(bits) {
        TrapCause::Interrupt(scause_code(bits))
    } else {
        match standard_exception(scause_code(bits)) {
            Some(e) => TrapCause::Exception(e),
            None => TrapCause::Unknown(scause_code(bits)),
        }
    }
}

/// The status register bits that software may set, on a 64-bit hart.
pub const SSTATUS_MASK: u64 = 0x8000_0003_000d_e762;

/// The bit of the status register that holds the privilege mode to return
/// to: clear for user mode.
pub const SSTATUS_SPP: u64 = 0x100;

/// A status register value with its reserved bits dropped and the privilege
/// mode to return to set to user mode.
pub open spec fn spec_user_status(bits: u64) -> u64 {
    bits & 0x8000_0003_000d_e662
}

/// Splits a cause register value into its interrupt bit and its code.
///
/// Calls `riscv::register::scause::Scause::from_bits` and `Scause::cause`. On
/// a 64-bit target the first keeps all 64 bits, and the second reads bit 63
/// as the interrupt bit and bits 0 to 62 as the code, which it returns inside
/// `Trap::Interrupt` or `Trap::Exception`.
#[verifier::external_body]
fn scause_parts(bits: u64) -> (r: (bool, u64))
    ensures
        r.0 == scause_is_interrupt(bits),
        r.1 == scause_code(bits),
{
    match Scause::from_bits(bits as usize).cause() {
        HartTrap::Interrupt(code) => (true, code as u64),
        HartTrap::Exception(code) => (false, code as u64),
    }
}

/// Names the standard exception with the number `code`.
///
/// Calls `ExceptionNumber::from_number` of `riscv::interrupt::supervisor::Exception`,
/// which maps the numbers 0 to 9, 12, 13 and 15 to its thirteen variants and
/// fails on every other number. The variants are handed on one for one.
#[verifier::external_body]
fn exception_from_number(code: u64) -> (r: Option<Exception>)
    ensures
        r == standard_exception(code),
{
    Some(match HartException::from_number(code as usize).ok()? {
        HartException::InstructionMisaligned => Exception::InstructionMisaligned,
        HartException::InstructionFault => Exception::InstructionFault,
        HartException::IllegalInstruction => Exception::IllegalInstruction,
        HartException::Breakpoint => Exception::Breakpoint,
        HartException::LoadMisaligned => Exception::LoadMisaligned,
        HartException::LoadFault => Exception::LoadFault,
        HartException::StoreMisaligned => Exception::StoreMisaligned,
        HartException::StoreFault => Exception::StoreFault,
        HartException::UserEnvCall => Exception::UserEnvCall,
        HartException::SupervisorEnvCall => Exception::SupervisorEnvCall,
        HartException::InstructionPageFault => Exception::InstructionPageFault,
        HartException::LoadPageFault => Exception::LoadPageFault,
        HartException::StorePageFault => Exception::StorePageFault,
    })
}

/// Makes a status register value return to user mode.
///
/// Calls `riscv::register::sstatus::Sstatus::from_bits`, `Sstatus::set_spp`
/// with `SPP::User`, and `Sstatus::bits`. On a 64-bit target the first and
/// the last keep the bits of the mask `0x8000_0003_000d_e762`, and the second
/// clears bit 8 of the value in memory. No register is touched.
#[verifier::external_body]
fn sstatus_with_user_spp(bits: u64) -> (r: u64)
    ensures
        r == spec_user_status(bits),
{
    let mut status = Sstatus::from_bits(bits as usize);
    status.set_spp(SPP::User);
    status.bits() as u64
}

/// Reads the cause of a trap off the value of the cause register.
pub fn trap_cause(scause: u64) -> (r: TrapCause)
    ensures
        r == spec_trap_cause(scause),
{
    let (interrupt, code) = scause_parts(scause);
    if interrupt {
        TrapCause::Interrupt(code)
    } else {
        match exception_from_number(code) {
            Some(e) => TrapCause::Exception(e),
            None => TrapCause::Unknown(code),
        }
    }
}

/// A status register value that returns to user mode; see
/// [`spec_user_status`].
pub fn user_status(sstatus: u64) -> (r: u64)
    ensures
        r == spec_user_status(sstatus),
        r & SSTATUS_SPP == 0,
{
    assert((sstatus & 0x8000_0003_000d_e662) & 0x100 == 0) by (bit_vector);
    sstatus_with_user_spp(sstatus)
}

/// The address to put into the trap vector register for the entry code at
/// `entry`: the vector has to be aligned to four bytes, so an address with
/// bit 1 set is moved up by two.
pub fn trap_vector_base(entry: u64) -> (r: u64)
    requires
        entry <= 0xffff_ffff_ffff_fffd,
    ensures
        r == if entry & 2 != 0 {
            (entry + 2) as u64
        } else {
            entry
        },
        entry % 2 == 0 ==> r % 4 == 0,
{
    assert(entry % 2 == 0 && entry & 2 == 0 ==> entry % 4 == 0) by (bit_vector);
    assert(entry % 2 == 0 && entry & 2 != 0 && entry <= 0xffff_ffff_ffff_fffd ==> (entry + 2) as u64 % 4 == 0)
        by (bit_vector);
    if entry & 0x2 != 0 {
        entry + 0x2
    } else {
        entry
    }
}

/// Why the hart came back from a user program.
#[derive(Copy, Clone, PartialEq, Eq, Debug, Structural)]
pub enum ResumeResult {
    /// The program made a system call.
    Syscall,
    /// The program read from an address that it may not read; the address.
    LoadAccessFault(u64),
    /// The program wrote to an address that it may not write; the address.
    StoreAccessFault(u64),
    /// The program ran an instruction that does not exist; the instruction.
    IllegalInstruction(u64),
}

/// What coming back from a user program with this cause and this trap value
/// means, for the causes that the kernel takes.
pub open spec fn spec_resume_result(scause: u64, stval: u64) -> Option<ResumeResult> {
    match spec_trap_cause(scause) {
        TrapCause::Exception(Exception::UserEnvCall) => Some(ResumeResult::Syscall),
        TrapCause::Exception(Exception::LoadFault) => Some(ResumeResult::LoadAccessFault(stval)),
        TrapCause::Exception(Exception::StoreFault) => Some(ResumeResult::StoreAccessFault(stval)),
        TrapCause::Exception(Exception::IllegalInstruction) => Some(ResumeResult::IllegalInstruction(stval)),
        _ => None,
    }
}

/// Classifies a trap from user mode: a system call, a load or store access
/// fault with the faulting address, or an illegal instruction. Every other
/// cause is none of these.
pub fn classify_trap(scause: u64, stval: u64) -> (r: Option<ResumeResult>)
    ensures
        r == spec_resume_result(scause, stval),
{
    match trap_cause(scause) {
        TrapCause::Exception(Exception::UserEnvCall) => Some(ResumeResult::Syscall),
        TrapCause::Exception(Exception::LoadFault) => Some(ResumeResult::LoadAccessFault(stval)),
        TrapCause::Exception(Exception::StoreFault) => Some(ResumeResult::StoreAccessFault(stval)),
        TrapCause::Exception(Exception::IllegalInstruction) => Some(ResumeResult::IllegalInstruction(stval)),
        _ => None,
    }
}

/// The registers of a user program that the kernel saves on a trap: the
/// caller-saved registers, the status register, the program counter, and the
/// kernel's own stack pointer to come back to.
#[derive(Copy, Clone, PartialEq, Eq, Debug, Structural)]
pub struct UserContext {
    pub ra: u64,
    pub sp: u64,
    pub t0: u64,
    pub t1: u64,
    pub t2: u64,
    pub t3: u64,
    pub t4: u64,
    pub t5: u64,
    pub t6: u64,
    pub a0: u64,
    pub a1: u64,
    pub a2: u64,
    pub a3: u64,
    pub a4: u64,
    pub a5: u64,
    pub a6: u64,
    pub a7: u64,
    pub sstatus: u64,
    pub sepc: u64,
    pub kernel_stack: u64,
}

/// The value that stands in for the kernel stack pointer of a context until
/// the switch to user mode fills it in.
pub const KERNEL_STACK_UNSET: u64 = 0x233333666666;

impl UserContext {
    /// A context with every register zero.
    pub fn zeroed() -> (r: UserContext)
        ensures
            r == Self::spec_zeroed(),
    {
        UserContext {
            ra: 0,
            sp: 0,
            t0: 0,
            t1: 0,
            t2: 0,
            t3: 0,
            t4: 0,
            t5: 0,
            t6: 0,
            a0: 0,
            a1: 0,
            a2: 0,
            a3: 0,
            a4: 0,
            a5: 0,
            a6: 0,
            a7: 0,
            sstatus: 0,
            sepc: 0,
            kernel_stack: 0,
        }
    }

    /// A context with every register zero.
    pub open spec fn spec_zeroed() -> UserContext {
        UserContext {
            ra: 0,
            sp: 0,
            t0: 0,
            t1: 0,
            t2: 0,
            t3: 0,
            t4: 0,
            t5: 0,
            t6: 0,
            a0: 0,
            a1: 0,
            a2: 0,
            a3: 0,
            a4: 0,
            a5: 0,
            a6: 0,
            a7: 0,
            sstatus: 0,
            sepc: 0,
            kernel_stack: 0,
        }
    }

    /// The six argument words of a system call: the registers `a0` to `a5`.
    pub open spec fn spec_syscall_args(self) -> Seq<u64> {
        seq![self.a0, self.a1, self.a2, self.a3, self.a4, self.a5]
    }

    /// The six argument words of a system call: the registers `a0` to `a5`.
    pub fn syscall_args(&self) -> (r: [u64; 6])
        ensures
            r@ == self.spec_syscall_args(),
    {
        [self.a0, self.a1, self.a2, self.a3, self.a4, self.a5]
    }
}

/// The hart's view of one user program that the kernel runs and comes back
/// from.
#[derive(Copy, Clone, PartialEq, Eq, Debug, Structural)]
pub struct Runtime {
    pub context: UserContext,
}

impl Runtime {
    /// A runtime for a new user program, with its stack at `stack_top`;
    /// `sstatus` is the present value of the status register.
    pub fn new_user(stack_top: u64, sstatus: u64) -> (r: Runtime)
        ensures
            r.context == (UserContext {
                sp: stack_top,
                sstatus: spec_user_status(sstatus),
                kernel_stack: KERNEL_STACK_UNSET,
                ..UserContext::spec_zeroed()
            }),
    {
        let mut ans = Runtime { context: UserContext::zeroed() };
        ans.reset(stack_top, sstatus);
        ans
    }

    /// Makes the runtime ready for the next program: the stack pointer is at
    /// `stack_top` again, the status returns to user mode, and the kernel
    /// stack pointer is unset. The other registers stay as they are.
    pub fn reset(&mut self, stack_top: u64, sstatus: u64)
        ensures
            final(self).context == (UserContext {
                sp: stack_top,
                sstatus: spec_user_status(sstatus),
                kernel_stack: KERNEL_STACK_UNSET,
                ..old(self).context
            }),
    {
        self.context.sp = stack_top;
        self.context.sstatus = user_status(sstatus);
        self.context.kernel_stack = KERNEL_STACK_UNSET;
    }

    /// Sets the program counter at which the program starts or goes on.
    pub fn prepare_next_app(&mut self, entry: u64)
        ensures
            final(self).context == (UserContext { sepc: entry, ..old(self).context }),
    {
        self.context.sepc = entry;
    }

    /// The saved registers, to read and to change.
    pub fn context_mut(&mut self) -> (r: &mut UserContext)
        ensures
            *r == old(self).context,
            final(self).context == *final(r),
    {
        &mut self.context
    }

    /// Says why the hart came back from the program, given the cause and the
    /// trap value that it reports. Only a system call, a load or store access
    /// fault and an illegal instruction are causes that the kernel takes: any
    /// other is a fault of the kernel itself.
    pub fn resume(&mut self, scause: u64, stval: u64) -> (r: ResumeResult)
        requires
            spec_resume_result(scause, stval) is Some,
        ensures
            Some(r) == spec_resume_result(scause, stval),
            *final(self) == *old(self),
    {
        match classify_trap(scause, stval) {
            Some(r) => r,
            None => ResumeResult::Syscall,
        }
    }
}

/// Why a program is over.
#[derive(Copy, Clone, PartialEq, Eq, Debug, Structural)]
pub enum ExitReason {
    /// It asked to end, with this exit code.
    Returned(i32),
    /// It reported a panic: file name, line, column, message.
    Panicked(Option<UserBuffer>, u32, u32, Option<UserBuffer>),
    /// It faulted; the fault, and the program counter at which it did.
    Faulted(ResumeResult, u64),
}

/// What the kernel does after a trap from a user program.
#[derive(Copy, Clone, PartialEq, Eq, Debug, Structural)]
pub enum TrapAction {
    /// Go back into the same program, after writing these bytes to the
    /// standard output if there are any.
    Resume(Option<UserBuffer>),
    /// Let another program run; this one goes on later.
    Yield,
    /// The program is over.
    Finish(ExitReason),
}

/// Whether the kernel can handle the return from a program: anything but a
/// system call that the kernel does not know.
pub open spec fn resume_handled(ctx: UserContext, trap: ResumeResult) -> bool {
    trap is Syscall ==> syscall_known(ctx.a7, ctx.a6, ctx.spec_syscall_args())
}

/// The address of the instruction after a system-call instruction at `sepc`:
/// four bytes on, wrapping at 64 bits.
pub open spec fn past_ecall(sepc: u64) -> u64 {
    ((sepc as int + 4) % 0x1_0000_0000_0000_0000) as u64
}

/// The context that the program goes on with, and what the kernel does, after
/// the program came back with `trap`.
pub open spec fn spec_handle_resume(ctx: UserContext, trap: ResumeResult) -> (UserContext, TrapAction) {
    let args = ctx.spec_syscall_args();
    match trap {
        ResumeResult::Syscall => match syscall_meaning(ctx.a7, ctx.a6, args) {
            SyscallOperation::Return(ans) => (
                UserContext { a0: ans.code, a1: ans.extra, sepc: past_ecall(ctx.sepc), ..ctx },
                TrapAction::Resume(syscall_output(ctx.a7, ctx.a6, args)),
            ),
            SyscallOperation::Yield => (UserContext { sepc: past_ecall(ctx.sepc), ..ctx }, TrapAction::Yield),
            SyscallOperation::Terminate(code) => (ctx, TrapAction::Finish(ExitReason::Returned(code))),
            SyscallOperation::UserPanic(file, line, col, msg) => (
                ctx,
                TrapAction::Finish(ExitReason::Panicked(file, line, col, msg)),
            ),
        },
        _ => (ctx, TrapAction::Finish(ExitReason::Faulted(trap, ctx.sepc))),
    }
}

/// Whether the kernel can handle the return from a program with the
/// registers of `ctx`.
pub fn is_handled_resume(ctx: &UserContext, trap: ResumeResult) -> (r: bool)
    ensures
        r == resume_handled(*ctx, trap),
{
    match trap {
        ResumeResult::Syscall => is_known_syscall(ctx.a7, ctx.a6, ctx.syscall_args()),
        _ => true,
    }
}

/// Handles the return from a user program.
///
/// A system call is read off the registers `a7` (module), `a6` (function)
/// and `a0` to `a5` (arguments). Where it has a result, the result goes into
/// `a0` and `a1` and the program counter moves past the call; a yield moves
/// the program counter past the call too. An exit, a panic or a fault ends
/// the program and leaves the context as it is.
pub fn handle_resume(ctx: &mut UserContext, trap: ResumeResult) -> (r: TrapAction)
    requires
        resume_handled(*old(ctx), trap),
    ensures
        (*final(ctx), r) == spec_handle_resume(*old(ctx), trap),
{
    match trap {
        ResumeResult::Syscall => {
            let args = ctx.syscall_args();
            let output = console_output(ctx.a7, ctx.a6, args);
            match syscall(ctx.a7, ctx.a6, args) {
                SyscallOperation::Return(ans) => {
                    ctx.a0 = ans.code;
                    ctx.a1 = ans.extra;
                    ctx.sepc = ctx.sepc.wrapping_add(4);
                    TrapAction::Resume(output)
                },
                SyscallOperation::Yield => {
                    ctx.sepc = ctx.sepc.wrapping_add(4);
                    TrapAction::Yield
                },
                SyscallOperation::Terminate(code) => TrapAction::Finish(ExitReason::Returned(code)),
                SyscallOperation::UserPanic(file, line, col, msg) => TrapAction::Finish(
                    ExitReason::Panicked(file, line, col, msg),
                ),
            }
        },
        _ => TrapAction::Finish(ExitReason::Faulted(trap, ctx.sepc)),
    }
}

} // verus!
