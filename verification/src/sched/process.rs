//! Process management: a process is the basic unit of resource allocation.

use vstd::prelude::*;
use vstd::string::*;
use super::thread::Thread;
use crate::mm::page_table::PageTable;

verus! {

/// Process ID type.
pub type Pid = usize;

/// Process state.
#[derive(Debug, Clone, Copy, PartialEq, Eq, Structural)]
pub enum ProcessState {
    /// Process is runnable or running.
    Running,
    /// Process is waiting for I/O or another event.
    Waiting,
    /// Process is stopped (e.g. by a debugger).
    Stopped,
    /// Process has terminated but is not yet reaped.
    Zombie,
}

/// Signal handler slot: a handler address or a special value, and flags.
#[derive(Debug, Clone, Copy, PartialEq, Eq, Structural)]
pub struct SignalHandler {
    pub handler: usize,
    pub flags: u32,
}

impl Default for SignalHandler {
    /// The default action (`SIG_DFL`, handler 0) without flags.
    fn default() -> (r: Self)
        ensures
            r.handler == 0,
            r.flags == 0,
    {
        SignalHandler { handler: 0, flags: 0 }
    }
}

/// Number of signal handler slots of a process.
pub const NUM_SIGNALS: usize = 64;

/// Process information.
#[derive(Debug)]
pub struct Process {
    /// Unique process identifier.
    pub pid: Pid,
    /// Parent process ID.
    pub ppid: Pid,
    /// Process state.
    pub state: ProcessState,
    /// Threads belonging to this process.
    pub threads: Vec<Thread>,
    /// Process address space.
    pub page_table: Option<PageTable>,
    /// Current working directory.
    pub cwd: String,
    /// Environment variables, as (name, value) pairs.
    pub env: Vec<(String, String)>,
    /// Signal handlers.
    pub signals: Vec<SignalHandler>,
    /// User ID.
    pub uid: u32,
    /// Group ID.
    pub gid: u32,
    /// Process start time.
    pub start_time: u64,
    /// CPU time used in user mode.
    pub utime: u64,
    /// CPU time used in kernel mode.
    pub stime: u64,
}

/// Whether `a` and `b` agree on everything but their threads and state.
pub open spec fn same_identity(a: Process, b: Process) -> bool {
    &&& a.pid == b.pid
    &&& a.ppid == b.ppid
    &&& a.page_table == b.page_table
    &&& a.cwd == b.cwd
    &&& a.env == b.env
    &&& a.signals == b.signals
    &&& a.uid == b.uid
    &&& a.gid == b.gid
    &&& a.start_time == b.start_time
    &&& a.utime == b.utime
    &&& a.stime == b.stime
}

/// Whether a process in `state` is alive.
pub open spec fn state_alive(state: ProcessState) -> bool {
    state == ProcessState::Running || state == ProcessState::Waiting
}

impl Process {
    /// A new running process `pid` with parent `ppid`: no threads, no address
    /// space, working directory `/`, empty environment, default signal
    /// handlers, owned by root, no time used.
    pub fn new(pid: Pid, ppid: Pid) -> (r: Self)
        ensures
            r.pid == pid,
            r.ppid == ppid,
            r.state == ProcessState::Running,
            r.threads@ == Seq::<Thread>::empty(),
            r.page_table.is_none(),
            r.cwd@ == "/"@,
            r.env@ == Seq::<(String, String)>::empty(),
            r.signals@.len() == NUM_SIGNALS,
            forall|i: int|
                0 <= i < NUM_SIGNALS ==> #[trigger] r.signals@[i] == (SignalHandler {
                    handler: 0,
                    flags: 0,
                }),
            r.uid == 0,
            r.gid == 0,
            r.start_time == 0,
            r.utime == 0,
            r.stime == 0,
    {
        let mut signals: Vec<SignalHandler> = Vec::new();
        let mut i: usize = 0;
        while i < NUM_SIGNALS
            invariant
                i <= NUM_SIGNALS,
                signals@.len() == i,
                forall|k: int|
                    0 <= k < i ==> #[trigger] signals@[k] == (SignalHandler { handler: 0, flags: 0 }),
            decreases NUM_SIGNALS - i,
        {
            signals.push(SignalHandler::default());
            i = i + 1;
        }
        Process {
            pid,
            ppid,
            state: ProcessState::Running,
            threads: Vec::new(),
            page_table: None,
            cwd: String::from_str("/"),
            env: Vec::new(),
            signals,
            uid: 0,
            gid: 0,
            start_time: 0,
            utime: 0,
            stime: 0,
        }
    }

    /// The init process: PID 1, parent 0, owned by root, in `/`.
    pub fn new_init() -> (r: Self)
        ensures
            r.pid == 1,
            r.ppid == 0,
            r.state == ProcessState::Running,
            r.threads@ == Seq::<Thread>::empty(),
            r.page_table.is_none(),
            r.cwd@ == "/"@,
            r.env@ == Seq::<(String, String)>::empty(),
            r.signals@.len() == NUM_SIGNALS,
            r.uid == 0,
            r.gid == 0,
    {
        let mut p = Self::new(1, 0);
        p.uid = 0;
        p.gid = 0;
        p.cwd = String::from_str("/");
        p
    }

    /// Add a thread to the process.
    pub fn add_thread(&mut self, thread: Thread)
        ensures
            final(self).threads@ == old(self).threads@.push(thread),
            final(self).state == old(self).state,
            same_identity(*final(self), *old(self)),
    {
        self.threads.push(thread);
    }

    /// The main (first) thread, if any.
    pub fn main_thread(&self) -> (r: Option<Thread>)
        ensures
            r == if self.threads@.len() > 0 {
                Some(self.threads@[0])
            } else {
                None
            },
    {
        if self.threads.len() > 0 {
            Some(self.threads[0].clone())
        } else {
            None
        }
    }

    /// Set process state.
    pub fn set_state(&mut self, state: ProcessState)
        ensures
            final(self).state == state,
            final(self).threads == old(self).threads,
            same_identity(*final(self), *old(self)),
    {
        self.state = state;
    }

    /// Get process state.
    pub fn get_state(&self) -> (r: ProcessState)
        ensures
            r == self.state,
    {
        self.state
    }

    /// Whether the process is running or waiting.
    pub fn is_alive(&self) -> (r: bool)
        ensures
            r == state_alive(self.state),
    {
        self.state == ProcessState::Running || self.state == ProcessState::Waiting
    }
}

} // verus!
