//! The system call interface between userspace and the kernel.

use vstd::prelude::*;
use crate::sched::current_process_id;

pub mod numbers;

use self::numbers::{SYS_READ, SYS_WRITE, SYS_OPEN, SYS_CLOSE, SYS_EXIT, SYS_FORK, SYS_EXEC, SYS_WAITPID, SYS_GETPID, SYS_MMAP, SYS_MUNMAP, SYS_BRK, SYS_IOCTL, SYS_GETCWD, SYS_CHDIR, SYS_STAT, SYS_FSTAT, SYS_UNLINK, SYS_MKDIR, SYS_RMDIR, SYS_GETDENTS, SYS_SOCKET, SYS_CONNECT, SYS_SEND, SYS_RECV, SYS_BIND, SYS_LISTEN, SYS_ACCEPT};

verus! {

/// Number of entries of the system call table.
pub const SYSCALL_COUNT: usize = 256;

/// System call arguments.
#[derive(Debug, Clone, Copy, PartialEq, Eq, Structural)]
pub struct SyscallArgs {
    pub arg0: u64,
    pub arg1: u64,
    pub arg2: u64,
    pub arg3: u64,
    pub arg4: u64,
    pub arg5: u64,
}

impl SyscallArgs {
    /// All arguments zero.
    pub fn new() -> (r: Self)
        ensures
            r.arg0 == 0 && r.arg1 == 0 && r.arg2 == 0 && r.arg3 == 0 && r.arg4 == 0 && r.arg5 == 0,
    {
        SyscallArgs { arg0: 0, arg1: 0, arg2: 0, arg3: 0, arg4: 0, arg5: 0 }
    }
}

/// The system call handlers.
#[derive(Debug, Clone, Copy, PartialEq, Eq, Structural)]
pub enum SyscallHandler {
    Read,
    Write,
    Open,
    Close,
    Exit,
    Fork,
    Exec,
    Waitpid,
    Getpid,
    Mmap,
    Munmap,
    Brk,
    Ioctl,
    Getcwd,
    Chdir,
    Stat,
    Fstat,
    Unlink,
    Mkdir,
    Rmdir,
    Getdents,
    Socket,
    Connect,
    Send,
    Recv,
    Bind,
    Listen,
    Accept,
}

/// What a handler returns: closing and exiting succeed, the rest are not
/// provided.
pub open spec fn handler_result(h: SyscallHandler) -> i64 {
    match h {
        SyscallHandler::Close => 0,
        SyscallHandler::Exit => 0,
        _ => -1i64,
    }
}

/// Run handler `h` on `args`.
pub fn dispatch(h: SyscallHandler, args: &mut SyscallArgs) -> (r: i64)
    ensures
        r == handler_result(h),
        *final(args) == *old(args),
{
    match h {
        SyscallHandler::Read => sys_read(args),
        SyscallHandler::Write => sys_write(args),
        SyscallHandler::Open => sys_open(args),
        SyscallHandler::Close => sys_close(args),
        SyscallHandler::Exit => sys_exit(args),
        SyscallHandler::Fork => sys_fork(args),
        SyscallHandler::Exec => sys_exec(args),
        SyscallHandler::Waitpid => sys_waitpid(args),
        SyscallHandler::Getpid => sys_getpid(args),
        SyscallHandler::Mmap => sys_mmap(args),
        SyscallHandler::Munmap => sys_munmap(args),
        SyscallHandler::Brk => sys_brk(args),
        SyscallHandler::Ioctl => sys_ioctl(args),
        SyscallHandler::Getcwd => sys_getcwd(args),
        SyscallHandler::Chdir => sys_chdir(args),
        SyscallHandler::Stat => sys_stat(args),
        SyscallHandler::Fstat => sys_fstat(args),
        SyscallHandler::Unlink => sys_unlink(args),
        SyscallHandler::Mkdir => sys_mkdir(args),
        SyscallHandler::Rmdir => sys_rmdir(args),
        SyscallHandler::Getdents => sys_getdents(args),
        SyscallHandler::Socket => sys_socket(args),
        SyscallHandler::Connect => sys_connect(args),
        SyscallHandler::Send => sys_send(args),
        SyscallHandler::Recv => sys_recv(args),
        SyscallHandler::Bind => sys_bind(args),
        SyscallHandler::Listen => sys_listen(args),
        SyscallHandler::Accept => sys_accept(args),
    }
}

/// The handler the kernel registers for system call `num`.
pub open spec fn default_handler(num: int) -> Option<SyscallHandler> {
    if num == SYS_READ {
        Some(SyscallHandler::Read)
    } else if num == SYS_WRITE {
        Some(SyscallHandler::Write)
    } else if num == SYS_OPEN {
        Some(SyscallHandler::Open)
    } else if num == SYS_CLOSE {
        Some(SyscallHandler::Close)
    } else if num == SYS_EXIT {
        Some(SyscallHandler::Exit)
    } else if num == SYS_FORK {
        Some(SyscallHandler::Fork)
    } else if num == SYS_EXEC {
        Some(SyscallHandler::Exec)
    } else if num == SYS_WAITPID {
        Some(SyscallHandler::Waitpid)
    } else if num == SYS_GETPID {
        Some(SyscallHandler::Getpid)
    } else if num == SYS_MMAP {
        Some(SyscallHandler::Mmap)
    } else if num == SYS_MUNMAP {
        Some(SyscallHandler::Munmap)
    } else if num == SYS_BRK {
        Some(SyscallHandler::Brk)
    } else if num == SYS_IOCTL {
        Some(SyscallHandler::Ioctl)
    } else if num == SYS_GETCWD {
        Some(SyscallHandler::Getcwd)
    } else if num == SYS_CHDIR {
        Some(SyscallHandler::Chdir)
    } else if num == SYS_STAT {
        Some(SyscallHandler::Stat)
    } else if num == SYS_FSTAT {
        Some(SyscallHandler::Fstat)
    } else if num == SYS_UNLINK {
        Some(SyscallHandler::Unlink)
    } else if num == SYS_MKDIR {
        Some(SyscallHandler::Mkdir)
    } else if num == SYS_RMDIR {
        Some(SyscallHandler::Rmdir)
    } else if num == SYS_GETDENTS {
        Some(SyscallHandler::Getdents)
    } else if num == SYS_SOCKET {
        Some(SyscallHandler::Socket)
    } else if num == SYS_CONNECT {
        Some(SyscallHandler::Connect)
    } else if num == SYS_SEND {
        Some(SyscallHandler::Send)
    } else if num == SYS_RECV {
        Some(SyscallHandler::Recv)
    } else if num == SYS_BIND {
        Some(SyscallHandler::Bind)
    } else if num == SYS_LISTEN {
        Some(SyscallHandler::Listen)
    } else if num == SYS_ACCEPT {
        Some(SyscallHandler::Accept)
    } else {
        None
    }
}

/// System call table.
pub struct SyscallTable {
    handlers: Vec<Option<SyscallHandler>>,
}

impl SyscallTable {
    /// The handler of each system call number.
    pub closed spec fn view(&self) -> Seq<Option<SyscallHandler>> {
        self.handlers@
    }

    /// One entry per system call number.
    pub open spec fn wf(&self) -> bool {
        self@.len() == SYSCALL_COUNT
    }

    /// A table with no handler.
    pub fn new() -> (r: Self)
        ensures
            r.wf(),
            forall|i: int| 0 <= i < SYSCALL_COUNT ==> #[trigger] r@[i] == None::<SyscallHandler>,
    {
        let mut handlers: Vec<Option<SyscallHandler>> = Vec::new();
        let mut i: usize = 0;
        while i < SYSCALL_COUNT
            invariant
                i <= SYSCALL_COUNT,
                handlers@.len() == i,
                forall|j: int| 0 <= j < i ==> #[trigger] handlers@[j] == None::<SyscallHandler>,
            decreases SYSCALL_COUNT - i,
        {
            handlers.push(None);
            i = i + 1;
        }
        SyscallTable { handlers }
    }

    /// Register `handler` for `num`; numbers beyond the table are ignored.
    pub fn register(&mut self, num: usize, handler: SyscallHandler)
        requires
            old(self).wf(),
        ensures
            final(self).wf(),
            final(self)@ == if num < SYSCALL_COUNT {
                old(self)@.update(num as int, Some(handler))
            } else {
                old(self)@
            },
    {
        if num < SYSCALL_COUNT {
            self.handlers.set(num, Some(handler));
        }
    }

    /// Run the handler of `num`; -1 when there is none.
    pub fn call(&self, num: usize, args: &mut SyscallArgs) -> (r: i64)
        requires
            self.wf(),
        ensures
            r == if num < SYSCALL_COUNT && self@[num as int] is Some {
                handler_result(self@[num as int].unwrap())
            } else {
                -1i64
            },
            *final(args) == *old(args),
    {
        if num < SYSCALL_COUNT {
            if let Some(handler) = self.handlers[num] {
                return dispatch(handler, args);
            }
        }
        -1
    }
}

/// A handler registered for a number below the table size is the one a
/// call of that number runs; numbers beyond the table keep answering -1.
pub proof fn lemma_register_then_call(before: Seq<Option<SyscallHandler>>, num: usize, h: SyscallHandler)
    requires
        before.len() == SYSCALL_COUNT,
    ensures
        ({
            let after = if num < SYSCALL_COUNT {
                before.update(num as int, Some(h))
            } else {
                before
            };
            &&& num < SYSCALL_COUNT ==> after[num as int] == Some(h)
            &&& num >= SYSCALL_COUNT ==> after == before
        }),
{
}

/// Register the kernel's handler of every system call it knows.
pub fn init_syscalls(table: &mut SyscallTable)
    requires
        old(table).wf(),
    ensures
        final(table).wf(),
        forall|i: int|
            0 <= i < SYSCALL_COUNT ==> #[trigger] final(table)@[i] == match default_handler(i) {
                Some(h) => Some(h),
                None => old(table)@[i],
            },
{
    table.register(SYS_READ, SyscallHandler::Read);
    table.register(SYS_WRITE, SyscallHandler::Write);
    table.register(SYS_OPEN, SyscallHandler::Open);
    table.register(SYS_CLOSE, SyscallHandler::Close);
    table.register(SYS_EXIT, SyscallHandler::Exit);
    table.register(SYS_FORK, SyscallHandler::Fork);
    table.register(SYS_EXEC, SyscallHandler::Exec);
    table.register(SYS_WAITPID, SyscallHandler::Waitpid);
    table.register(SYS_GETPID, SyscallHandler::Getpid);
    table.register(SYS_MMAP, SyscallHandler::Mmap);
    table.register(SYS_MUNMAP, SyscallHandler::Munmap);
    table.register(SYS_BRK, SyscallHandler::Brk);
    table.register(SYS_IOCTL, SyscallHandler::Ioctl);
    table.register(SYS_GETCWD, SyscallHandler::Getcwd);
    table.register(SYS_CHDIR, SyscallHandler::Chdir);
    table.register(SYS_STAT, SyscallHandler::Stat);
    table.register(SYS_FSTAT, SyscallHandler::Fstat);
    table.register(SYS_UNLINK, SyscallHandler::Unlink);
    table.register(SYS_MKDIR, SyscallHandler::Mkdir);
    table.register(SYS_RMDIR, SyscallHandler::Rmdir);
    table.register(SYS_GETDENTS, SyscallHandler::Getdents);
    table.register(SYS_SOCKET, SyscallHandler::Socket);
    table.register(SYS_CONNECT, SyscallHandler::Connect);
    table.register(SYS_SEND, SyscallHandler::Send);
    table.register(SYS_RECV, SyscallHandler::Recv);
    table.register(SYS_BIND, SyscallHandler::Bind);
    table.register(SYS_LISTEN, SyscallHandler::Listen);
    table.register(SYS_ACCEPT, SyscallHandler::Accept);
}

/// Read from file descriptor: not provided.
fn sys_read(args: &mut SyscallArgs) -> (r: i64)
    ensures
        r == -1,
        *final(args) == *old(args),
{
    -1
}

/// Write to file descriptor: not provided.
fn sys_write(args: &mut SyscallArgs) -> (r: i64)
    ensures
        r == -1,
        *final(args) == *old(args),
{
    -1
}

/// Open a file: not provided.
fn sys_open(args: &mut SyscallArgs) -> (r: i64)
    ensures
        r == -1,
        *final(args) == *old(args),
{
    -1
}

/// Close a file descriptor: accepted and done.
fn sys_close(args: &mut SyscallArgs) -> (r: i64)
    ensures
        r == 0,
        *final(args) == *old(args),
{
    0
}

/// Exit current process: accepted and done.
fn sys_exit(args: &mut SyscallArgs) -> (r: i64)
    ensures
        r == 0,
        *final(args) == *old(args),
{
    0
}

/// Create a new process: not provided.
fn sys_fork(args: &mut SyscallArgs) -> (r: i64)
    ensures
        r == -1,
        *final(args) == *old(args),
{
    -1
}

/// Execute a program: not provided.
fn sys_exec(args: &mut SyscallArgs) -> (r: i64)
    ensures
        r == -1,
        *final(args) == *old(args),
{
    -1
}

/// Wait for child process: not provided.
fn sys_waitpid(args: &mut SyscallArgs) -> (r: i64)
    ensures
        r == -1,
        *final(args) == *old(args),
{
    -1
}

/// Get process ID: the current process's ID, or -1 when there is none.
fn sys_getpid(args: &mut SyscallArgs) -> (r: i64)
    ensures
        r == -1,
        *final(args) == *old(args),
{
    match current_process_id() {
        Some(p) => p as i64,
        None => -1,
    }
}

/// Memory map a file: not provided.
fn sys_mmap(args: &mut SyscallArgs) -> (r: i64)
    ensures
        r == -1,
        *final(args) == *old(args),
{
    -1
}

/// Unmap memory region: not provided.
fn sys_munmap(args: &mut SyscallArgs) -> (r: i64)
    ensures
        r == -1,
        *final(args) == *old(args),
{
    -1
}

/// Change data segment size: not provided.
fn sys_brk(args: &mut SyscallArgs) -> (r: i64)
    ensures
        r == -1,
        *final(args) == *old(args),
{
    -1
}

/// Device-specific operations: not provided.
fn sys_ioctl(args: &mut SyscallArgs) -> (r: i64)
    ensures
        r == -1,
        *final(args) == *old(args),
{
    -1
}

/// Get current working directory: not provided.
fn sys_getcwd(args: &mut SyscallArgs) -> (r: i64)
    ensures
        r == -1,
        *final(args) == *old(args),
{
    -1
}

/// Change directory: not provided.
fn sys_chdir(args: &mut SyscallArgs) -> (r: i64)
    ensures
        r == -1,
        *final(args) == *old(args),
{
    -1
}

/// Get file status: not provided.
fn sys_stat(args: &mut SyscallArgs) -> (r: i64)
    ensures
        r == -1,
        *final(args) == *old(args),
{
    -1
}

/// Get file status by descriptor: not provided.
fn sys_fstat(args: &mut SyscallArgs) -> (r: i64)
    ensures
        r == -1,
        *final(args) == *old(args),
{
    -1
}

/// Unlink (delete) a file: not provided.
fn sys_unlink(args: &mut SyscallArgs) -> (r: i64)
    ensures
        r == -1,
        *final(args) == *old(args),
{
    -1
}

/// Create a directory: not provided.
fn sys_mkdir(args: &mut SyscallArgs) -> (r: i64)
    ensures
        r == -1,
        *final(args) == *old(args),
{
    -1
}

/// Remove a directory: not provided.
fn sys_rmdir(args: &mut SyscallArgs) -> (r: i64)
    ensures
        r == -1,
        *final(args) == *old(args),
{
    -1
}

/// Get directory entries: not provided.
fn sys_getdents(args: &mut SyscallArgs) -> (r: i64)
    ensures
        r == -1,
        *final(args) == *old(args),
{
    -1
}

/// Create a socket: not provided.
fn sys_socket(args: &mut SyscallArgs) -> (r: i64)
    ensures
        r == -1,
        *final(args) == *old(args),
{
    -1
}

/// Connect a socket: not provided.
fn sys_connect(args: &mut SyscallArgs) -> (r: i64)
    ensures
        r == -1,
        *final(args) == *old(args),
{
    -1
}

/// Send on a socket: not provided.
fn sys_send(args: &mut SyscallArgs) -> (r: i64)
    ensures
        r == -1,
        *final(args) == *old(args),
{
    -1
}

/// Receive from a socket: not provided.
fn sys_recv(args: &mut SyscallArgs) -> (r: i64)
    ensures
        r == -1,
        *final(args) == *old(args),
{
    -1
}

/// Bind a socket: not provided.
fn sys_bind(args: &mut SyscallArgs) -> (r: i64)
    ensures
        r == -1,
        *final(args) == *old(args),
{
    -1
}

/// Listen on a socket: not provided.
fn sys_listen(args: &mut SyscallArgs) -> (r: i64)
    ensures
        r == -1,
        *final(args) == *old(args),
{
    -1
}

/// Accept a connection: not provided.
fn sys_accept(args: &mut SyscallArgs) -> (r: i64)
    ensures
        r == -1,
        *final(args) == *old(args),
{
    -1
}

} // verus!
