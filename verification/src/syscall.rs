//! The system-call interface between a user program and the kernel.
//!
//! A call is a selector of two machine words, the module and the function,
//! and six machine words of arguments. The user side builds the words of a
//! call; the kernel side reads them and says what the call asks for. Buffers
//! travel as an address and a length in the caller's address space: reading
//! and writing the bytes is left to whoever holds the memory.

use vstd::prelude::*;

verus! {

/// The module of the calls that end a program.
pub const MODULE_PROCESS: u64 = 0x114514;

/// Ends the program with an exit code.
pub const FUNCTION_PROCESS_EXIT: u64 = 0x1919810;

/// Reports a panic of the program and ends it.
pub const FUNCTION_PROCESS_PANIC: u64 = 0x11451419;

/// The module of the calls that serve tests.
pub const MODULE_TEST_INTERFACE: u64 = 0x233666;

/// Writes bytes to a file descriptor.
pub const FUNCTION_TEST_WRITE: u64 = 0x666233;

/// The module of the calls that speak to the scheduler.
pub const MODULE_TASK: u64 = 0x7777777;

/// Gives the processor up for the next program.
pub const FUNCTION_TASK_YIELD: u64 = 0x9999999;

/// The only file descriptor that can be written to: the standard output.
pub const STDOUT: u64 = 1;

/// The two words that a call hands back to the program.
#[derive(Copy, Clone, PartialEq, Eq, Debug, Structural)]
pub struct SyscallResult {
    pub code: u64,
    pub extra: u64,
}

/// A run of bytes in the address space of a user program.
#[derive(Copy, Clone, PartialEq, Eq, Debug, Structural)]
pub struct UserBuffer {
    pub ptr: u64,
    pub len: u64,
}

/// The words of one call, as the program puts them into its registers.
#[derive(Copy, Clone, PartialEq, Eq, Debug)]
pub struct SyscallRequest {
    pub module: u64,
    pub function: u64,
    pub args: [u64; 6],
}

/// What a call asks the kernel to do with the program that made it.
#[derive(Copy, Clone, PartialEq, Eq, Debug, Structural)]
pub enum SyscallOperation {
    /// Hand the result back and go on with the program.
    Return(SyscallResult),
    /// End the program; it gave this exit code.
    Terminate(i32),
    /// End the program; it panicked in this file, at this line and column,
    /// with this message.
    UserPanic(Option<UserBuffer>, u32, u32, Option<UserBuffer>),
    /// Let another program run.
    Yield,
}

/// The buffer at `ptr`, or nothing where the address is zero.
pub open spec fn buffer_at(ptr: u64, len: u64) -> Option<UserBuffer> {
    if ptr == 0 {
        None
    } else {
        Some(UserBuffer { ptr, len })
    }
}

/// The exit code that a machine word carries: its low 32 bits, read as a
/// signed number.
pub open spec fn exit_code_of(word: u64) -> i32 {
    let low = word as int % 0x1_0000_0000;
    if low < 0x8000_0000 {
        low as i32
    } else {
        (low - 0x1_0000_0000) as i32
    }
}

/// The machine word that carries an exit code: the code, sign-extended to 64
/// bits.
pub open spec fn exit_code_word(code: i32) -> u64 {
    if code >= 0 {
        code as u64
    } else {
        (0x1_0000_0000_0000_0000 + code as int) as u64
    }
}

/// The low 32 bits of a machine word.
pub open spec fn low_word(word: u64) -> u32 {
    (word as int % 0x1_0000_0000) as u32
}

/// Whether the kernel knows the call: its module and function are defined,
/// and a write goes to the standard output.
pub open spec fn syscall_known(module: u64, function: u64, args: Seq<u64>) -> bool {
    ||| module == MODULE_PROCESS && (function == FUNCTION_PROCESS_EXIT || function == FUNCTION_PROCESS_PANIC)
    ||| module == MODULE_TEST_INTERFACE && function == FUNCTION_TEST_WRITE && args[0] == STDOUT
    ||| module == MODULE_TASK && function == FUNCTION_TASK_YIELD
}

/// What a known call asks for.
pub open spec fn syscall_meaning(module: u64, function: u64, args: Seq<u64>) -> SyscallOperation {
    if module == MODULE_PROCESS {
        if function == FUNCTION_PROCESS_EXIT {
            SyscallOperation::Terminate(exit_code_of(args[0]))
        } else {
            SyscallOperation::UserPanic(
                buffer_at(args[2], args[3]),
                low_word(args[0]),
                low_word(args[1]),
                buffer_at(args[4], args[5]),
            )
        }
    } else if module == MODULE_TEST_INTERFACE {
        SyscallOperation::Return(SyscallResult { code: 0, extra: args[2] })
    } else {
        SyscallOperation::Yield
    }
}

/// The bytes that a known call asks the kernel to write to the standard
/// output before it answers, if it asks for any.
pub open spec fn syscall_output(module: u64, function: u64, args: Seq<u64>) -> Option<UserBuffer> {
    if module == MODULE_TEST_INTERFACE {
        Some(UserBuffer { ptr: args[1], len: args[2] })
    } else {
        None
    }
}

/// The low 32 bits of a machine word.
fn low_bits(word: u64) -> (r: u32)
    ensures
        r == low_word(word),
{
    assert(word & 0xffff_ffff == word % 0x1_0000_0000) by (bit_vector);
    assert(word & 0xffff_ffff < 0x1_0000_0000) by (bit_vector);
    (word & 0xffff_ffff) as u32
}

/// The buffer at `ptr`, or nothing where the address is zero.
fn user_buffer(ptr: u64, len: u64) -> (r: Option<UserBuffer>)
    ensures
        r == buffer_at(ptr, len),
{
    if ptr == 0 {
        None
    } else {
        Some(UserBuffer { ptr, len })
    }
}

/// Whether the kernel knows the call.
pub fn is_known_syscall(module: u64, function: u64, args: [u64; 6]) -> (r: bool)
    ensures
        r == syscall_known(module, function, args@),
{
    if module == MODULE_PROCESS {
        function == FUNCTION_PROCESS_EXIT || function == FUNCTION_PROCESS_PANIC
    } else if module == MODULE_TEST_INTERFACE {
        function == FUNCTION_TEST_WRITE && args[0] == STDOUT
    } else if module == MODULE_TASK {
        function == FUNCTION_TASK_YIELD
    } else {
        false
    }
}

/// Reads a call: what it asks the kernel to do with the program. A call
/// that the kernel does not know is a fault of the kernel's caller.
pub fn syscall(module: u64, function: u64, args: [u64; 6]) -> (r: SyscallOperation)
    requires
        syscall_known(module, function, args@),
    ensures
        r == syscall_meaning(module, function, args@),
{
    if module == MODULE_PROCESS {
        do_process(function, args)
    } else if module == MODULE_TEST_INTERFACE {
        do_test_interface(function, [args[0], args[1], args[2]])
    } else {
        do_task(function)
    }
}

/// The bytes that a call asks the kernel to write to the standard output
/// before it answers.
pub fn console_output(module: u64, function: u64, args: [u64; 6]) -> (r: Option<UserBuffer>)
    requires
        syscall_known(module, function, args@),
    ensures
        r == syscall_output(module, function, args@),
{
    if module == MODULE_TEST_INTERFACE {
        Some(UserBuffer { ptr: args[1], len: args[2] })
    } else {
        None
    }
}

/// The calls that end a program. The arguments of a panic are the line, the
/// column, the address and length of the file name, and the address and
/// length of the message.
pub fn do_process(function: u64, args: [u64; 6]) -> (r: SyscallOperation)
    requires
        function == FUNCTION_PROCESS_EXIT || function == FUNCTION_PROCESS_PANIC,
    ensures
        r == syscall_meaning(MODULE_PROCESS, function, args@),
{
    if function == FUNCTION_PROCESS_EXIT {
        let low = low_bits(args[0]);
        let code: i32 = if low < 0x8000_0000 {
            low as i32
        } else {
            (low as i64 - 0x1_0000_0000) as i32
        };
        SyscallOperation::Terminate(code)
    } else {
        let file_name = user_buffer(args[2], args[3]);
        let msg = user_buffer(args[4], args[5]);
        SyscallOperation::UserPanic(file_name, low_bits(args[0]), low_bits(args[1]), msg)
    }
}

/// The calls that serve tests. The arguments of a write are the file
/// descriptor and the address and length of the bytes; the call answers with
/// code 0 and the number of bytes.
pub fn do_test_interface(function: u64, args: [u64; 3]) -> (r: SyscallOperation)
    requires
        function == FUNCTION_TEST_WRITE,
        args@[0] == STDOUT,
    ensures
        r == SyscallOperation::Return(SyscallResult { code: 0, extra: args@[2] }),
{
    SyscallOperation::Return(SyscallResult { code: 0, extra: args[2] })
}

/// The calls that speak to the scheduler.
pub fn do_task(function: u64) -> (r: SyscallOperation)
    requires
        function == FUNCTION_TASK_YIELD,
    ensures
        r == SyscallOperation::Yield,
{
    SyscallOperation::Yield
}

/// The call that writes the bytes of `buffer` to the file descriptor `fd`.
pub fn sys_write(fd: u64, buffer: UserBuffer) -> (r: SyscallRequest)
    ensures
        r.module == MODULE_TEST_INTERFACE,
        r.function == FUNCTION_TEST_WRITE,
        r.args@ == write_words(fd, buffer),
{
    SyscallRequest {
        module: MODULE_TEST_INTERFACE,
        function: FUNCTION_TEST_WRITE,
        args: [fd, buffer.ptr, buffer.len, 0, 0, 0],
    }
}

/// The call that gives the processor up.
pub fn sys_yield() -> (r: SyscallRequest)
    ensures
        r.module == MODULE_TASK,
        r.function == FUNCTION_TASK_YIELD,
        r.args@ == yield_words(),
{
    SyscallRequest { module: MODULE_TASK, function: FUNCTION_TASK_YIELD, args: [0, 0, 0, 0, 0, 0] }
}

/// The call that ends the program with `exit_code`.
pub fn sys_exit(exit_code: i32) -> (r: SyscallRequest)
    ensures
        r.module == MODULE_PROCESS,
        r.function == FUNCTION_PROCESS_EXIT,
        r.args@ == exit_words(exit_code),
{
    let word: u64 = if exit_code >= 0 {
        exit_code as u64
    } else {
        0xffff_ffff_ffff_ffff - ((-(exit_code as i64)) as u64 - 1)
    };
    SyscallRequest { module: MODULE_PROCESS, function: FUNCTION_PROCESS_EXIT, args: [word, 0, 0, 0, 0, 0] }
}

/// The call that reports a panic: where it happened and what it said. A
/// missing file name or message travels as address 0 and length 0.
pub fn sys_panic(file_name: Option<UserBuffer>, line: u32, col: u32, msg: Option<UserBuffer>) -> (r:
    SyscallRequest)
    ensures
        r.module == MODULE_PROCESS,
        r.function == FUNCTION_PROCESS_PANIC,
        r.args@ == panic_words(file_name, line, col, msg),
{
    let (f_buf, f_len) = match file_name {
        Some(b) => (b.ptr, b.len),
        None => (0, 0),
    };
    let (m_buf, m_len) = match msg {
        Some(b) => (b.ptr, b.len),
        None => (0, 0),
    };
    SyscallRequest {
        module: MODULE_PROCESS,
        function: FUNCTION_PROCESS_PANIC,
        args: [line as u64, col as u64, f_buf, f_len, m_buf, m_len],
    }
}

/// The argument words of an exit with `code`.
pub open spec fn exit_words(code: i32) -> Seq<u64> {
    seq![exit_code_word(code), 0u64, 0u64, 0u64, 0u64, 0u64]
}

/// The argument words of a yield.
pub open spec fn yield_words() -> Seq<u64> {
    seq![0u64, 0u64, 0u64, 0u64, 0u64, 0u64]
}

/// The argument words of a write of `buffer` to `fd`.
pub open spec fn write_words(fd: u64, buffer: UserBuffer) -> Seq<u64> {
    seq![fd, buffer.ptr, buffer.len, 0u64, 0u64, 0u64]
}

/// The argument words of a panic report.
pub open spec fn panic_words(file_name: Option<UserBuffer>, line: u32, col: u32, msg: Option<UserBuffer>) -> Seq<
    u64,
> {
    seq![
        line as u64,
        col as u64,
        buffer_words(file_name).0,
        buffer_words(file_name).1,
        buffer_words(msg).0,
        buffer_words(msg).1,
    ]
}

/// The address and the length that a buffer travels as.
pub open spec fn buffer_words(buffer: Option<UserBuffer>) -> (u64, u64) {
    match buffer {
        Some(b) => (b.ptr, b.len),
        None => (0, 0),
    }
}

/// The call that writes the bytes of `buf` to the file descriptor `fd`.
pub fn write(fd: u64, buf: UserBuffer) -> (r: SyscallRequest)
    ensures
        r.module == MODULE_TEST_INTERFACE,
        r.function == FUNCTION_TEST_WRITE,
        r.args@ == write_words(fd, buf),
{
    sys_write(fd, buf)
}

/// The call that ends the program with `exit_code`.
pub fn exit(exit_code: i32) -> (r: SyscallRequest)
    ensures
        r.module == MODULE_PROCESS,
        r.function == FUNCTION_PROCESS_EXIT,
        r.args@ == exit_words(exit_code),
{
    sys_exit(exit_code)
}

/// The call that gives the processor up.
pub fn do_yield() -> (r: SyscallRequest)
    ensures
        r.module == MODULE_TASK,
        r.function == FUNCTION_TASK_YIELD,
        r.args@ == yield_words(),
{
    sys_yield()
}

/// The call that prints the bytes of `text`: a write to the standard output.
pub fn print(text: UserBuffer) -> (r: SyscallRequest)
    ensures
        r.module == MODULE_TEST_INTERFACE,
        r.function == FUNCTION_TEST_WRITE,
        r.args@ == write_words(STDOUT, text),
{
    write(STDOUT, text)
}

/// An exit code survives the way through a machine word.
pub proof fn lemma_exit_code_roundtrip(code: i32)
    ensures
        exit_code_of(exit_code_word(code)) == code,
{
}

/// What the user side builds, the kernel side reads back. Every call that
/// this module builds is known to the kernel (a write as long as it goes to
/// the standard output), and means what it was built for: an exit ends the
/// program with its code, a yield yields, a write answers with the number of
/// bytes and asks for exactly those bytes to be written, and a panic carries
/// its place and, where their addresses are not zero, its file name and
/// message.
pub proof fn lemma_calls_read_back(
    code: i32,
    buffer: UserBuffer,
    file_name: Option<UserBuffer>,
    line: u32,
    col: u32,
    msg: Option<UserBuffer>,
)
    requires
        file_name matches Some(b) ==> b.ptr != 0,
        msg matches Some(b) ==> b.ptr != 0,
    ensures
        syscall_known(MODULE_PROCESS, FUNCTION_PROCESS_EXIT, exit_words(code)),
        syscall_meaning(MODULE_PROCESS, FUNCTION_PROCESS_EXIT, exit_words(code)) == SyscallOperation::Terminate(
            code,
        ),
        syscall_known(MODULE_TASK, FUNCTION_TASK_YIELD, yield_words()),
        syscall_meaning(MODULE_TASK, FUNCTION_TASK_YIELD, yield_words()) == SyscallOperation::Yield,
        syscall_known(MODULE_TEST_INTERFACE, FUNCTION_TEST_WRITE, write_words(STDOUT, buffer)),
        syscall_meaning(MODULE_TEST_INTERFACE, FUNCTION_TEST_WRITE, write_words(STDOUT, buffer))
            == SyscallOperation::Return(SyscallResult { code: 0, extra: buffer.len }),
        syscall_output(MODULE_TEST_INTERFACE, FUNCTION_TEST_WRITE, write_words(STDOUT, buffer)) == Some(buffer),
        syscall_known(MODULE_PROCESS, FUNCTION_PROCESS_PANIC, panic_words(file_name, line, col, msg)),
        syscall_meaning(MODULE_PROCESS, FUNCTION_PROCESS_PANIC, panic_words(file_name, line, col, msg))
            == SyscallOperation::UserPanic(file_name, line, col, msg),
{
    lemma_exit_code_roundtrip(code);
}

} // verus!
