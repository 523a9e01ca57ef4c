use kernel_core::syscall::{
    console_output, do_process, do_task, do_test_interface, do_yield, exit, is_known_syscall, print, sys_exit,
    sys_panic, sys_write, sys_yield, syscall, SyscallOperation, SyscallRequest, SyscallResult, UserBuffer,
    FUNCTION_PROCESS_EXIT, FUNCTION_PROCESS_PANIC, FUNCTION_TASK_YIELD, FUNCTION_TEST_WRITE, MODULE_PROCESS,
    MODULE_TASK, MODULE_TEST_INTERFACE, STDOUT,
};

fn read(request: SyscallRequest) -> SyscallOperation {
    assert!(is_known_syscall(request.module, request.function, request.args));
    syscall(request.module, request.function, request.args)
}

#[test]
fn selector_words() {
    assert_eq!(MODULE_PROCESS, 0x114514);
    assert_eq!(FUNCTION_PROCESS_EXIT, 0x1919810);
    assert_eq!(FUNCTION_PROCESS_PANIC, 0x11451419);
    assert_eq!(MODULE_TEST_INTERFACE, 0x233666);
    assert_eq!(FUNCTION_TEST_WRITE, 0x666233);
    assert_eq!(MODULE_TASK, 0x7777777);
    assert_eq!(FUNCTION_TASK_YIELD, 0x9999999);
    assert_eq!(STDOUT, 1);
}

#[test]
fn exit_call_words_and_meaning() {
    let request = sys_exit(3);
    assert_eq!(request.module, 0x114514);
    assert_eq!(request.function, 0x1919810);
    assert_eq!(request.args, [3, 0, 0, 0, 0, 0]);
    assert_eq!(read(request), SyscallOperation::Terminate(3));
    assert_eq!(exit(3), request);
}

#[test]
fn negative_exit_code_travels_sign_extended() {
    let request = sys_exit(-1);
    assert_eq!(request.args, [u64::MAX, 0, 0, 0, 0, 0]);
    assert_eq!(read(request), SyscallOperation::Terminate(-1));
    assert_eq!(sys_exit(i32::MIN).args[0], 0xffff_ffff_8000_0000);
    assert_eq!(read(sys_exit(i32::MIN)), SyscallOperation::Terminate(i32::MIN));
    assert_eq!(read(sys_exit(i32::MAX)), SyscallOperation::Terminate(i32::MAX));
    assert_eq!(read(sys_exit(0)), SyscallOperation::Terminate(0));
}

#[test]
fn exit_code_is_the_low_word() {
    let args = [0x1234_5678_0000_0007, 9, 9, 9, 9, 9];
    assert_eq!(syscall(MODULE_PROCESS, FUNCTION_PROCESS_EXIT, args), SyscallOperation::Terminate(7));
    let args = [0x0000_0001_8000_0000, 0, 0, 0, 0, 0];
    assert_eq!(do_process(FUNCTION_PROCESS_EXIT, args), SyscallOperation::Terminate(i32::MIN));
}

#[test]
fn write_call_words_and_meaning() {
    let buffer = UserBuffer { ptr: 0x8040_1000, len: 13 };
    let request = sys_write(1, buffer);
    assert_eq!(request.module, 0x233666);
    assert_eq!(request.function, 0x666233);
    assert_eq!(request.args, [1, 0x8040_1000, 13, 0, 0, 0]);
    assert_eq!(read(request), SyscallOperation::Return(SyscallResult { code: 0, extra: 13 }));
    assert_eq!(console_output(request.module, request.function, request.args), Some(buffer));
    assert_eq!(kernel_core::syscall::write(1, buffer), request);
    assert_eq!(print(buffer), request);
    assert_eq!(
        do_test_interface(FUNCTION_TEST_WRITE, [1, 2, 3]),
        SyscallOperation::Return(SyscallResult { code: 0, extra: 3 })
    );
}

#[test]
fn write_to_another_descriptor_is_not_known() {
    let request = sys_write(2, UserBuffer { ptr: 16, len: 1 });
    assert!(!is_known_syscall(request.module, request.function, request.args));
    let request = sys_write(0, UserBuffer { ptr: 16, len: 1 });
    assert!(!is_known_syscall(request.module, request.function, request.args));
}

#[test]
fn yield_call_words_and_meaning() {
    let request = sys_yield();
    assert_eq!(request.module, 0x7777777);
    assert_eq!(request.function, 0x9999999);
    assert_eq!(request.args, [0; 6]);
    assert_eq!(read(request), SyscallOperation::Yield);
    assert_eq!(do_yield(), request);
    assert_eq!(do_task(FUNCTION_TASK_YIELD), SyscallOperation::Yield);
    assert_eq!(console_output(request.module, request.function, request.args), None);
}

#[test]
fn panic_call_words_and_meaning() {
    let file = UserBuffer { ptr: 0x8040_2000, len: 11 };
    let msg = UserBuffer { ptr: 0x8040_3000, len: 5 };
    let request = sys_panic(Some(file), 42, 7, Some(msg));
    assert_eq!(request.module, 0x114514);
    assert_eq!(request.function, 0x11451419);
    assert_eq!(request.args, [42, 7, 0x8040_2000, 11, 0x8040_3000, 5]);
    assert_eq!(read(request), SyscallOperation::UserPanic(Some(file), 42, 7, Some(msg)));
    let request = sys_panic(None, 0, 0, None);
    assert_eq!(request.args, [0; 6]);
    assert_eq!(read(request), SyscallOperation::UserPanic(None, 0, 0, None));
    let request = sys_panic(None, u32::MAX, 1, Some(msg));
    assert_eq!(read(request), SyscallOperation::UserPanic(None, u32::MAX, 1, Some(msg)));
}

#[test]
fn panic_place_is_cut_to_32_bits() {
    let args = [0x1_0000_002a, 0xffff_ffff_0000_0007, 0, 99, 8, 0];
    assert_eq!(
        do_process(FUNCTION_PROCESS_PANIC, args),
        SyscallOperation::UserPanic(None, 42, 7, Some(UserBuffer { ptr: 8, len: 0 }))
    );
}

#[test]
fn calls_that_the_kernel_does_not_know() {
    assert!(!is_known_syscall(0, 0, [0; 6]));
    assert!(!is_known_syscall(MODULE_PROCESS, FUNCTION_TASK_YIELD, [0; 6]));
    assert!(!is_known_syscall(MODULE_TASK, FUNCTION_PROCESS_EXIT, [0; 6]));
    assert!(!is_known_syscall(MODULE_TEST_INTERFACE, FUNCTION_TEST_WRITE, [0; 6]));
    assert!(!is_known_syscall(MODULE_TEST_INTERFACE, FUNCTION_PROCESS_EXIT, [1, 0, 0, 0, 0, 0]));
    assert!(is_known_syscall(MODULE_TEST_INTERFACE, FUNCTION_TEST_WRITE, [1, 0, 0, 0, 0, 0]));
    assert!(is_known_syscall(MODULE_PROCESS, FUNCTION_PROCESS_PANIC, [9; 6]));
}
