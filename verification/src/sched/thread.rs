//! Thread management: a thread is the basic unit of CPU execution.

use vstd::prelude::*;
use vstd::string::*;
use crate::fmt::{append_decimal, decimal};

verus! {

/// Thread ID type.
pub type Tid = usize;

/// Thread state.
#[derive(Debug, Clone, Copy, PartialEq, Eq, Structural)]
pub enum ThreadState {
    /// Thread is runnable or running.
    Runnable,
    /// Thread is blocked waiting for something.
    Blocked,
    /// Thread is sleeping.
    Sleeping,
    /// Thread has terminated.
    Terminated,
}

/// Highest priority value (real-time).
pub const PRIORITY_MAX: u8 = 99;

/// Thread priority (0 = lowest, 99 = highest real-time).
#[derive(Debug, Clone, Copy, PartialEq, Eq, Structural, PartialOrd, Ord)]
pub struct Priority(u8);

impl Priority {
    /// The priority's value.
    pub closed spec fn spec_value(&self) -> u8 {
        self.0
    }

    /// Priorities never exceed 99.
    #[verifier::type_invariant]
    closed spec fn inv(&self) -> bool {
        self.0 <= PRIORITY_MAX
    }

    /// A priority of `value`, capped at 99.
    pub fn new(value: u8) -> (r: Self)
        ensures
            r.spec_value() == if value < PRIORITY_MAX {
                value
            } else {
                PRIORITY_MAX
            },
    {
        Priority(if value < PRIORITY_MAX {
            value
        } else {
            PRIORITY_MAX
        })
    }

    /// The lowest priority, 0.
    pub fn lowest() -> (r: Self)
        ensures
            r.spec_value() == 0,
    {
        Priority(0)
    }

    /// The default priority, 50.
    pub fn normal() -> (r: Self)
        ensures
            r.spec_value() == 50,
    {
        Priority(50)
    }

    /// The highest priority, 99.
    pub fn highest() -> (r: Self)
        ensures
            r.spec_value() == PRIORITY_MAX,
    {
        Priority(PRIORITY_MAX)
    }

    /// The priority's value.
    pub fn value(&self) -> (r: u8)
        ensures
            r == self.spec_value(),
            r <= PRIORITY_MAX,
    {
        proof {
            use_type_invariant(self);
        }
        self.0
    }
}

/// CPU context saved during a context switch.
#[derive(Debug, Clone, Copy, PartialEq, Eq, Structural)]
pub struct CpuContext {
    pub rax: u64,
    pub rbx: u64,
    pub rcx: u64,
    pub rdx: u64,
    pub rsi: u64,
    pub rdi: u64,
    pub rbp: u64,
    pub r8: u64,
    pub r9: u64,
    pub r10: u64,
    pub r11: u64,
    pub r12: u64,
    pub r13: u64,
    pub r14: u64,
    pub r15: u64,
    pub rip: u64,
    pub rsp: u64,
    pub rflags: u64,
}

/// The context with every register zero.
pub open spec fn zero_context() -> CpuContext {
    CpuContext {
        rax: 0,
        rbx: 0,
        rcx: 0,
        rdx: 0,
        rsi: 0,
        rdi: 0,
        rbp: 0,
        r8: 0,
        r9: 0,
        r10: 0,
        r11: 0,
        r12: 0,
        r13: 0,
        r14: 0,
        r15: 0,
        rip: 0,
        rsp: 0,
        rflags: 0,
    }
}

/// `rflags` of a new thread: interrupts enabled (bit 9) plus the reserved bit 1.
pub const INITIAL_RFLAGS: u64 = 0x202;

/// Size of a thread's kernel stack in bytes.
pub const KERNEL_STACK_SIZE: usize = 16384;

impl CpuContext {
    /// A context with every register zero.
    pub fn new() -> (r: Self)
        ensures
            r == zero_context(),
    {
        CpuContext {
            rax: 0,
            rbx: 0,
            rcx: 0,
            rdx: 0,
            rsi: 0,
            rdi: 0,
            rbp: 0,
            r8: 0,
            r9: 0,
            r10: 0,
            r11: 0,
            r12: 0,
            r13: 0,
            r14: 0,
            r15: 0,
            rip: 0,
            rsp: 0,
            rflags: 0,
        }
    }
}

/// Thread information.
#[derive(Debug)]
pub struct Thread {
    /// Unique thread identifier.
    pub tid: Tid,
    /// Parent process ID.
    pub pid: usize,
    /// Thread state.
    pub state: ThreadState,
    /// Thread priority.
    pub priority: Priority,
    /// Saved CPU context.
    pub context: CpuContext,
    /// Kernel stack pointer (top of the stack).
    pub kernel_stack: u64,
    /// User stack pointer, for user threads.
    pub user_stack: Option<u64>,
    /// Thread name.
    pub name: String,
    /// Time spent running (in ticks).
    pub runtime: u64,
    /// Sleep wake-up time (in ticks since boot).
    pub wake_time: u64,
    /// CPU affinity mask.
    pub cpu_affinity: u64,
}

impl Clone for Thread {
    fn clone(&self) -> (r: Self)
        ensures
            r == *self,
    {
        Thread {
            tid: self.tid,
            pid: self.pid,
            state: self.state,
            priority: self.priority,
            context: self.context,
            kernel_stack: self.kernel_stack,
            user_stack: self.user_stack,
            name: self.name.clone(),
            runtime: self.runtime,
            wake_time: self.wake_time,
            cpu_affinity: self.cpu_affinity,
        }
    }
}

/// The context a new thread starts from: `rip` at the entry point, `rsp` at
/// the top of its stack, interrupts enabled.
pub open spec fn start_context(entry: u64, stack: u64) -> CpuContext {
    CpuContext { rip: entry, rsp: stack, rflags: INITIAL_RFLAGS, ..zero_context() }
}

impl Thread {
    /// A new kernel thread running `entry` on the kernel stack whose top is
    /// `kernel_stack`, named `thread-<tid>`.
    pub fn new_kernel(tid: Tid, pid: usize, entry: u64, kernel_stack: u64) -> (r: Self)
        ensures
            r.tid == tid,
            r.pid == pid,
            r.state == ThreadState::Runnable,
            r.priority.spec_value() == 50,
            r.context == start_context(entry, kernel_stack),
            r.kernel_stack == kernel_stack,
            r.user_stack.is_none(),
            r.name@ == "thread-"@ + decimal(tid as nat),
            r.runtime == 0,
            r.wake_time == 0,
            r.cpu_affinity == u64::MAX,
    {
        let mut name = String::from_str("thread-");
        append_decimal(&mut name, tid as u64);
        let mut context = CpuContext::new();
        context.rsp = kernel_stack;
        context.rip = entry;
        context.rflags = INITIAL_RFLAGS;
        Thread {
            tid,
            pid,
            state: ThreadState::Runnable,
            priority: Priority::normal(),
            context,
            kernel_stack,
            user_stack: None,
            name,
            runtime: 0,
            wake_time: 0,
            cpu_affinity: u64::MAX,
        }
    }

    /// A new user thread entering user mode at `entry` with its stack at
    /// `user_stack`, with a kernel stack whose top is `kernel_stack`, named
    /// `user-thread-<tid>`.
    pub fn new_user(tid: Tid, pid: usize, entry: u64, user_stack: u64, kernel_stack: u64) -> (r:
        Self)
        ensures
            r.tid == tid,
            r.pid == pid,
            r.state == ThreadState::Runnable,
            r.priority.spec_value() == 50,
            r.context == start_context(entry, user_stack),
            r.kernel_stack == kernel_stack,
            r.user_stack == Some(user_stack),
            r.name@ == "user-thread-"@ + decimal(tid as nat),
            r.runtime == 0,
            r.wake_time == 0,
            r.cpu_affinity == u64::MAX,
    {
        let mut name = String::from_str("user-thread-");
        append_decimal(&mut name, tid as u64);
        let mut context = CpuContext::new();
        context.rsp = user_stack;
        context.rip = entry;
        context.rflags = INITIAL_RFLAGS;
        Thread {
            tid,
            pid,
            state: ThreadState::Runnable,
            priority: Priority::normal(),
            context,
            kernel_stack,
            user_stack: Some(user_stack),
            name,
            runtime: 0,
            wake_time: 0,
            cpu_affinity: u64::MAX,
        }
    }

    /// Set thread state.
    pub fn set_state(&mut self, state: ThreadState)
        ensures
            *final(self) == (Thread { state, ..*old(self) }),
    {
        self.state = state;
    }

    /// Get thread state.
    pub fn get_state(&self) -> (r: ThreadState)
        ensures
            r == self.state,
    {
        self.state
    }

    /// Set thread priority.
    pub fn set_priority(&mut self, priority: Priority)
        ensures
            *final(self) == (Thread { priority, ..*old(self) }),
    {
        self.priority = priority;
    }

    /// Get thread priority.
    pub fn get_priority(&self) -> (r: Priority)
        ensures
            r == self.priority,
    {
        self.priority
    }

    /// Check if thread is runnable.
    pub fn is_runnable(&self) -> (r: bool)
        ensures
            r == (self.state == ThreadState::Runnable),
    {
        self.state == ThreadState::Runnable
    }
}

} // verus!
