use aurora_kernel::syscall::numbers::{SYS_CLOSE, SYS_EXIT, SYS_GETPID, SYS_READ, SYS_ACCEPT, SYS_WRITE};
use aurora_kernel::syscall::{init_syscalls, SyscallArgs, SyscallHandler, SyscallTable};

#[test]
fn numbers() {
    assert_eq!(SYS_READ, 0);
    assert_eq!(SYS_WRITE, 1);
    assert_eq!(SYS_CLOSE, 3);
    assert_eq!(SYS_EXIT, 60);
    assert_eq!(SYS_GETPID, 39);
    assert_eq!(SYS_ACCEPT, 43);
}

#[test]
fn empty_table_rejects() {
    let t = SyscallTable::new();
    let mut args = SyscallArgs::new();
    assert_eq!(t.call(SYS_CLOSE, &mut args), -1);
    assert_eq!(t.call(1000, &mut args), -1);
}

#[test]
fn kernel_table_results() {
    let mut t = SyscallTable::new();
    init_syscalls(&mut t);
    let mut args = SyscallArgs::new();
    args.arg0 = 5;
    assert_eq!(t.call(SYS_CLOSE, &mut args), 0);
    assert_eq!(t.call(SYS_EXIT, &mut args), 0);
    assert_eq!(t.call(SYS_READ, &mut args), -1);
    assert_eq!(t.call(SYS_GETPID, &mut args), -1);
    assert_eq!(t.call(200, &mut args), -1);
    assert_eq!(t.call(256, &mut args), -1);
    assert_eq!(args.arg0, 5);
}

#[test]
fn register_out_of_range_ignored() {
    let mut t = SyscallTable::new();
    t.register(300, SyscallHandler::Close);
    assert_eq!(t.call(300, &mut SyscallArgs::new()), -1);
    t.register(255, SyscallHandler::Exit);
    assert_eq!(t.call(255, &mut SyscallArgs::new()), 0);
}

#[test]
fn args_zeroed() {
    let a = SyscallArgs::new();
    assert_eq!((a.arg0, a.arg1, a.arg2, a.arg3, a.arg4, a.arg5), (0, 0, 0, 0, 0, 0));
}
