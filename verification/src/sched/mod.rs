//! Process scheduler: threads, processes and per-CPU run queues.
//!
//! The functions here act on a scheduler passed in; the kernel's single
//! global scheduler, behind its lock, lives with the boot code.

use vstd::prelude::*;

pub mod process;
pub mod scheduler;
pub mod thread;

use self::process::Process;
use self::scheduler::{Scheduler, yield_spec, not_due, due_threads, enqueue_all, MAX_CPUS};
use self::thread::{Thread, ThreadState};

verus! {

/// Spawn the initial userspace process (init, PID 1) on `sched`.
pub fn spawn_init(sched: &mut Scheduler)
    requires
        old(sched).wf(),
    ensures
        final(sched).wf(),
        final(sched).process_map().dom() == old(sched).process_map().dom().insert(1),
        final(sched).process_map()[1].pid == 1,
        final(sched).process_map()[1].ppid == 0,
        final(sched).rq(0).queues_view() == old(sched).rq(0).queues_view(),
        final(sched).rq(0).current_thread() == old(sched).rq(0).current_thread(),
        forall|i: int| 1 <= i < MAX_CPUS ==> #[trigger] final(sched).rq(i) == old(sched).rq(i),
        final(sched).sleepers() == old(sched).sleepers(),
        final(sched).ticks() == old(sched).ticks(),
{
    let init = Process::new_init();
    sched.add_process(init);
}

/// Yield the current CPU time slice.
pub fn yield_now(sched: &mut Scheduler)
    requires
        old(sched).wf(),
        old(sched).rq(0).current_thread().is_some() ==> old(sched).rq(0).count() < usize::MAX,
    ensures
        final(sched).wf(),
        (final(sched).rq(0).queues_view(), final(sched).rq(0).current_thread()) == yield_spec(
            old(sched).rq(0).queues_view(),
            old(sched).rq(0).current_thread(),
        ),
        forall|i: int| 1 <= i < MAX_CPUS ==> #[trigger] final(sched).rq(i) == old(sched).rq(i),
        final(sched).process_map() == old(sched).process_map(),
        final(sched).sleepers() == old(sched).sleepers(),
        final(sched).ticks() == old(sched).ticks(),
{
    sched.yield_current();
}

/// Put the current thread to sleep for `ms` ticks, then reschedule.
pub fn sleep_ms(sched: &mut Scheduler, ms: u64)
    requires
        old(sched).wf(),
        old(sched).rq(0).current_thread().is_some() ==> old(sched).ticks() + ms <= u64::MAX,
    ensures
        final(sched).wf(),
        match old(sched).rq(0).current_thread() {
            Some(t) => {
                let wake = (old(sched).ticks() + ms) as u64;
                &&& final(sched).sleepers() == old(sched).sleepers().push(
                    (wake, Thread { state: ThreadState::Sleeping, wake_time: wake, ..t }),
                )
                &&& (final(sched).rq(0).queues_view(), final(sched).rq(0).current_thread())
                    == yield_spec(old(sched).rq(0).queues_view(), None)
            },
            None => {
                &&& final(sched).sleepers() == old(sched).sleepers()
                &&& final(sched).rq(0).queues_view() == old(sched).rq(0).queues_view()
                &&& final(sched).rq(0).current_thread().is_none()
            },
        },
        forall|i: int| 1 <= i < MAX_CPUS ==> #[trigger] final(sched).rq(i) == old(sched).rq(i),
        final(sched).process_map() == old(sched).process_map(),
        final(sched).ticks() == old(sched).ticks(),
{
    sched.sleep_current(ms);
}

/// Wake up the sleeping threads whose time has come.
pub fn wake_sleeping_threads(sched: &mut Scheduler)
    requires
        old(sched).wf(),
        old(sched).rq(0).count() + old(sched).sleepers().len() <= usize::MAX,
    ensures
        final(sched).wf(),
        final(sched).sleepers() == not_due(old(sched).sleepers(), old(sched).ticks()),
        final(sched).rq(0).queues_view() == enqueue_all(
            old(sched).rq(0).queues_view(),
            due_threads(old(sched).sleepers(), old(sched).ticks()),
        ),
        final(sched).rq(0).current_thread() == old(sched).rq(0).current_thread(),
        forall|i: int| 1 <= i < MAX_CPUS ==> #[trigger] final(sched).rq(i) == old(sched).rq(i),
        final(sched).process_map() == old(sched).process_map(),
        final(sched).ticks() == old(sched).ticks(),
{
    sched.wake_sleeping();
}

/// The current thread's ID: no thread-local state is kept, so there is none.
pub fn current_thread_id() -> (r: Option<usize>)
    ensures
        r.is_none(),
{
    None
}

/// The current process's ID: no thread-local state is kept, so there is none.
pub fn current_process_id() -> (r: Option<usize>)
    ensures
        r.is_none(),
{
    None
}

/// PID of the init process.
pub const INIT_PID: usize = 1;

/// The next PID after `n`, wrapping like an atomic counter.
pub open spec fn next_pid(n: usize) -> usize {
    if n == usize::MAX {
        0
    } else {
        (n + 1) as usize
    }
}

/// Hands out process IDs in increasing order, after the init process's.
pub struct PidAllocator {
    next: usize,
}

impl PidAllocator {
    /// The PID handed out next.
    pub closed spec fn next_spec(&self) -> usize {
        self.next
    }

    /// A counter whose first PID is the one after init's.
    pub fn new() -> (r: Self)
        ensures
            r.next_spec() == INIT_PID + 1,
    {
        PidAllocator { next: INIT_PID + 1 }
    }
}

/// Allocate a new process ID: the counter's value, which then moves on.
pub fn allocate_pid(pids: &mut PidAllocator) -> (r: usize)
    ensures
        r == old(pids).next_spec(),
        final(pids).next_spec() == next_pid(old(pids).next_spec()),
{
    let r = pids.next;
    pids.next = pids.next.wrapping_add(1);
    r
}

/// Until the counter wraps, the PIDs handed out are new and never init's:
/// a PID handed out before another is smaller, and both are above 1.
pub proof fn lemma_pids_fresh(first: usize, second: usize, start: usize)
    requires
        start == INIT_PID + 1,
        start <= first,
        second == next_pid(first),
        first < usize::MAX,
    ensures
        first != INIT_PID,
        second != INIT_PID,
        first < second,
{
}

} // verus!
