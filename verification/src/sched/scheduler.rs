//! Multi-queue scheduler.
//!
//! Each CPU has a run queue of ten priority queues (a higher index is a
//! higher priority); a thread of priority `p` goes to queue `p * 10 / 100`.
//! Sleeping threads wait in a sleep queue with their wake-up tick.

use vstd::prelude::*;
use std::collections::BTreeMap;
use std::collections::VecDeque;
use super::process::Process;
use super::thread::{Thread, ThreadState};
use crate::arch::cpu_id;
use vstd::string::*;
use crate::fmt::{append_decimal, decimal};

verus! {

broadcast use {vstd::laws_cmp::group_laws_cmp, vstd::std_specs::btree::group_btree_axioms};

/// Number of priority queues.
pub const NUM_QUEUES: usize = 10;

/// Time slice in milliseconds (ticks).
pub const TIME_SLICE_MS: u64 = 10;

/// Maximum number of CPUs supported.
pub const MAX_CPUS: usize = 256;

/// The queue a thread of priority `t.priority` goes to.
pub open spec fn queue_index(t: Thread) -> int {
    t.priority.spec_value() as int * 10 / 100
}

/// Total number of threads in the queues `qs`.
pub open spec fn total_len(qs: Seq<Seq<Thread>>) -> int
    decreases qs.len(),
{
    if qs.len() == 0 {
        0
    } else {
        total_len(qs.drop_last()) + qs.last().len()
    }
}

/// The queues after `t` was appended to its priority queue.
pub open spec fn enqueue_spec(qs: Seq<Seq<Thread>>, t: Thread) -> Seq<Seq<Thread>> {
    qs.update(queue_index(t), qs[queue_index(t)].push(t))
}

/// The queues after each thread of `ts` was enqueued in order.
pub open spec fn enqueue_all(qs: Seq<Seq<Thread>>, ts: Seq<Thread>) -> Seq<Seq<Thread>>
    decreases ts.len(),
{
    if ts.len() == 0 {
        qs
    } else {
        enqueue_all(enqueue_spec(qs, ts[0]), ts.drop_first())
    }
}

/// The highest-priority non-empty queue among the first `n` queues.
pub open spec fn highest_nonempty(qs: Seq<Seq<Thread>>, n: int) -> Option<int>
    decreases n,
{
    if n <= 0 {
        None
    } else if qs[n - 1].len() > 0 {
        Some(n - 1)
    } else {
        highest_nonempty(qs, n - 1)
    }
}

/// The next thread to run from `qs` and the queues without it.
pub open spec fn dequeue_spec(qs: Seq<Seq<Thread>>) -> (Option<Thread>, Seq<Seq<Thread>>) {
    match highest_nonempty(qs, NUM_QUEUES as int) {
        Some(i) => (Some(qs[i][0]), qs.update(i, qs[i].drop_first())),
        None => (None, qs),
    }
}

/// Per-CPU run queue.
pub struct RunQueue {
    /// Priority queues (higher index = higher priority).
    queues: Vec<VecDeque<Thread>>,
    /// Currently running thread.
    current: Option<Thread>,
    /// Number of threads in this run queue.
    thread_count: usize,
}

proof fn lemma_total_len_update(qs: Seq<Seq<Thread>>, i: int, q: Seq<Thread>)
    requires
        0 <= i < qs.len(),
    ensures
        total_len(qs.update(i, q)) == total_len(qs) - qs[i].len() + q.len(),
    decreases qs.len(),
{
    let u = qs.update(i, q);
    if i == qs.len() - 1 {
        assert(u.drop_last() =~= qs.drop_last());
    } else {
        assert(u.drop_last() =~= qs.drop_last().update(i, q));
        lemma_total_len_update(qs.drop_last(), i, q);
    }
}

proof fn lemma_highest_nonempty(qs: Seq<Seq<Thread>>, n: int)
    requires
        0 <= n <= qs.len(),
    ensures
        match highest_nonempty(qs, n) {
            Some(i) => 0 <= i < n && qs[i].len() > 0 && forall|j: int| i < j < n ==> #[trigger] qs[j].len() == 0,
            None => forall|j: int| 0 <= j < n ==> #[trigger] qs[j].len() == 0,
        },
    decreases n,
{
    if n > 0 && qs[n - 1].len() == 0 {
        lemma_highest_nonempty(qs, n - 1);
    }
}

proof fn lemma_total_len_nonneg(qs: Seq<Seq<Thread>>)
    ensures
        total_len(qs) >= 0,
    decreases qs.len(),
{
    if qs.len() > 0 {
        lemma_total_len_nonneg(qs.drop_last());
    }
}

proof fn lemma_total_len_zero(qs: Seq<Seq<Thread>>)
    requires
        forall|j: int| 0 <= j < qs.len() ==> #[trigger] qs[j].len() == 0,
    ensures
        total_len(qs) == 0,
    decreases qs.len(),
{
    if qs.len() > 0 {
        assert(qs.last().len() == 0);
        lemma_total_len_zero(qs.drop_last());
    }
}

impl RunQueue {
    /// The priority queues.
    pub closed spec fn queues_view(&self) -> Seq<Seq<Thread>> {
        self.queues@.map_values(|q: VecDeque<Thread>| q@)
    }

    /// The currently running thread.
    pub closed spec fn current_thread(&self) -> Option<Thread> {
        self.current
    }

    /// The number of queued threads.
    pub closed spec fn count(&self) -> nat {
        self.thread_count as nat
    }

    /// Ten queues, and the count matches the queued threads.
    pub closed spec fn wf(&self) -> bool {
        &&& self.queues@.len() == NUM_QUEUES
        &&& self.thread_count == total_len(self.queues_view())
    }

    /// An empty run queue.
    pub fn new() -> (r: Self)
        ensures
            r.wf(),
            r.current_thread().is_none(),
            r.count() == 0,
            forall|i: int| 0 <= i < NUM_QUEUES ==> #[trigger] r.queues_view()[i].len() == 0,
            r.queues_view().len() == NUM_QUEUES,
    {
        let mut queues: Vec<VecDeque<Thread>> = Vec::new();
        let mut i: usize = 0;
        while i < NUM_QUEUES
            invariant
                i <= NUM_QUEUES,
                queues@.len() == i,
                forall|k: int| 0 <= k < i ==> #[trigger] queues@[k]@.len() == 0,
            decreases NUM_QUEUES - i,
        {
            queues.push(VecDeque::new());
            i = i + 1;
        }
        let r = RunQueue { queues, current: None, thread_count: 0 };
        proof {
            lemma_total_len_zero(r.queues_view());
        }
        r
    }

    /// Add a thread to the queue of its priority.
    pub fn enqueue(&mut self, thread: Thread)
        requires
            old(self).wf(),
            old(self).count() < usize::MAX,
        ensures
            final(self).wf(),
            final(self).queues_view() == enqueue_spec(old(self).queues_view(), thread),
            final(self).count() == old(self).count() + 1,
            final(self).current_thread() == old(self).current_thread(),
    {
        let priority = thread.get_priority().value() as usize;
        let queue_idx = priority * NUM_QUEUES / 100;
        let ghost t = thread;
        let ghost before = self.queues_view();
        self.queues[queue_idx].push_back(thread);
        self.thread_count = self.thread_count + 1;
        proof {
            assert(self.queues_view() =~= enqueue_spec(before, t));
            lemma_total_len_update(before, queue_idx as int, before[queue_idx as int].push(t));
        }
    }

    /// Remove and return the next thread: the first of the highest-priority
    /// non-empty queue.
    pub fn dequeue(&mut self) -> (r: Option<Thread>)
        requires
            old(self).wf(),
        ensures
            final(self).wf(),
            r == dequeue_spec(old(self).queues_view()).0,
            final(self).queues_view() == dequeue_spec(old(self).queues_view()).1,
            final(self).count() == if r.is_some() {
                old(self).count() - 1
            } else {
                old(self).count() as int
            },
            final(self).current_thread() == old(self).current_thread(),
    {
        let ghost qs = self.queues_view();
        proof {
            lemma_highest_nonempty(qs, NUM_QUEUES as int);
        }
        let mut i: usize = NUM_QUEUES;
        while i > 0
            invariant
                i <= NUM_QUEUES,
                self.queues_view() == qs,
                self.wf(),
                self.current == old(self).current,
                self.thread_count == old(self).thread_count,
                qs == old(self).queues_view(),
                highest_nonempty(qs, NUM_QUEUES as int) == highest_nonempty(qs, i as int),
            decreases i,
        {
            let idx = i - 1;
            assert(self.queues@[idx as int]@ == qs[idx as int]);
            if self.queues[idx].len() > 0 {
                let t = self.queues[idx].pop_front();
                proof {
                    assert(highest_nonempty(qs, i as int) == Some(idx as int));
                    lemma_total_len_nonneg(qs.update(idx as int, qs[idx as int].drop_first()));
                    assert(t == Some(qs[idx as int][0]));
                    assert(self.queues_view() =~= qs.update(idx as int, qs[idx as int].drop_first()));
                    lemma_total_len_update(qs, idx as int, qs[idx as int].drop_first());
                }
                self.thread_count = self.thread_count - 1;
                assert(dequeue_spec(qs) == (Some(qs[idx as int][0]), qs.update(idx as int, qs[idx as int].drop_first())));
                return t;
            }
            i = idx;
        }
        assert(highest_nonempty(qs, 0) is None);
        None
    }

    /// The next thread, without removing it.
    pub fn peek(&self) -> (r: Option<&Thread>)
        requires
            self.wf(),
        ensures
            match r {
                Some(t) => dequeue_spec(self.queues_view()).0 == Some(*t),
                None => dequeue_spec(self.queues_view()).0.is_none(),
            },
    {
        let ghost qs = self.queues_view();
        proof {
            lemma_highest_nonempty(qs, NUM_QUEUES as int);
        }
        let mut i: usize = NUM_QUEUES;
        while i > 0
            invariant
                i <= NUM_QUEUES,
                self.queues_view() == qs,
                self.wf(),
                highest_nonempty(qs, NUM_QUEUES as int) == highest_nonempty(qs, i as int),
            decreases i,
        {
            let idx = i - 1;
            assert(self.queues@[idx as int]@ == qs[idx as int]);
            if self.queues[idx].len() > 0 {
                assert(highest_nonempty(qs, i as int) == Some(idx as int));
                return Some(&self.queues[idx][0]);
            }
            i = idx;
        }
        None
    }

    /// Set the currently running thread.
    pub fn set_current(&mut self, thread: Option<Thread>)
        requires
            old(self).wf(),
        ensures
            final(self).wf(),
            final(self).current_thread() == thread,
            final(self).queues_view() == old(self).queues_view(),
            final(self).count() == old(self).count(),
    {
        self.current = thread;
    }

    /// Remove the currently running thread, leaving none running.
    pub fn take_current(&mut self) -> (r: Option<Thread>)
        requires
            old(self).wf(),
        ensures
            final(self).wf(),
            r == old(self).current_thread(),
            final(self).current_thread().is_none(),
            final(self).queues_view() == old(self).queues_view(),
            final(self).count() == old(self).count(),
    {
        self.current.take()
    }

    /// The currently running thread.
    pub fn current(&self) -> (r: Option<&Thread>)
        ensures
            match r {
                Some(t) => self.current_thread() == Some(*t),
                None => self.current_thread().is_none(),
            },
    {
        self.current.as_ref()
    }

    /// Thread count.
    pub fn len(&self) -> (r: usize)
        ensures
            r == self.count(),
    {
        self.thread_count
    }

    /// Whether no thread is queued.
    pub fn is_empty(&self) -> (r: bool)
        ensures
            r == (self.count() == 0),
    {
        self.thread_count == 0
    }
}

/// Scheduler statistics.
#[derive(Debug, Clone, Copy)]
pub struct SchedulerStats {
    pub total_threads: usize,
    pub running_threads: usize,
    pub sleeping_threads: usize,
    pub total_processes: usize,
    pub tick: u64,
}

impl SchedulerStats {
    /// The statistics as text: "Scheduler: T threads (R running, S
    /// sleeping), P processes, tick N".
    pub fn to_string(&self) -> (r: String)
        ensures
            r@ == "Scheduler: "@ + decimal(self.total_threads as nat) + " threads ("@ + decimal(
                self.running_threads as nat,
            ) + " running, "@ + decimal(self.sleeping_threads as nat) + " sleeping), "@ + decimal(
                self.total_processes as nat,
            ) + " processes, tick "@ + decimal(self.tick as nat),
    {
        let mut out = String::from_str("Scheduler: ");
        append_decimal(&mut out, self.total_threads as u64);
        out.append(" threads (");
        append_decimal(&mut out, self.running_threads as u64);
        out.append(" running, ");
        append_decimal(&mut out, self.sleeping_threads as u64);
        out.append(" sleeping), ");
        append_decimal(&mut out, self.total_processes as u64);
        out.append(" processes, tick ");
        append_decimal(&mut out, self.tick);
        out
    }
}

/// `t` made runnable.
pub open spec fn runnable(t: Thread) -> Thread {
    Thread { state: ThreadState::Runnable, ..t }
}

/// The threads of the sleep queue `s` whose wake-up time has come at `tick`,
/// made runnable, from the back of the queue to the front.
pub open spec fn due_threads(s: Seq<(u64, Thread)>, tick: u64) -> Seq<Thread>
    decreases s.len(),
{
    if s.len() == 0 {
        Seq::empty()
    } else {
        due_threads(s.drop_first(), tick) + if s[0].0 <= tick {
            seq![runnable(s[0].1)]
        } else {
            Seq::empty()
        }
    }
}

/// The entries of the sleep queue `s` still sleeping at `tick`, in order.
pub open spec fn not_due(s: Seq<(u64, Thread)>, tick: u64) -> Seq<(u64, Thread)>
    decreases s.len(),
{
    if s.len() == 0 {
        Seq::empty()
    } else {
        (if s[0].0 > tick {
            seq![s[0]]
        } else {
            Seq::empty()
        }) + not_due(s.drop_first(), tick)
    }
}

/// The queues and the running thread after a reschedule: a runnable current
/// thread goes back to its queue, then the next thread (if any) runs.
pub open spec fn yield_spec(qs: Seq<Seq<Thread>>, cur: Option<Thread>) -> (
    Seq<Seq<Thread>>,
    Option<Thread>,
) {
    let qs1 = match cur {
        Some(t) => if t.state == ThreadState::Runnable {
            enqueue_spec(qs, t)
        } else {
            qs
        },
        None => qs,
    };
    (dequeue_spec(qs1).1, dequeue_spec(qs1).0)
}

proof fn lemma_enqueue_all_push(qs: Seq<Seq<Thread>>, ts: Seq<Thread>, t: Thread)
    ensures
        enqueue_all(qs, ts.push(t)) == enqueue_spec(enqueue_all(qs, ts), t),
    decreases ts.len(),
{
    if ts.len() == 0 {
        assert(ts.push(t)[0] == t);
        assert(ts.push(t).drop_first() =~= Seq::<Thread>::empty());
        assert(enqueue_all(enqueue_spec(qs, t), Seq::<Thread>::empty()) == enqueue_spec(qs, t));
    } else {
        assert(ts.push(t)[0] == ts[0]);
        assert(ts.push(t).drop_first() =~= ts.drop_first().push(t));
        lemma_enqueue_all_push(enqueue_spec(qs, ts[0]), ts.drop_first(), t);
    }
}

proof fn lemma_due_threads_len(s: Seq<(u64, Thread)>, tick: u64)
    ensures
        due_threads(s, tick).len() <= s.len(),
    decreases s.len(),
{
    if s.len() > 0 {
        lemma_due_threads_len(s.drop_first(), tick);
    }
}

/// Main scheduler structure.
pub struct Scheduler {
    /// Per-CPU run queues.
    runqueues: Vec<RunQueue>,
    /// All processes, by PID.
    processes: BTreeMap<usize, Process>,
    /// Sleeping threads with their wake-up tick.
    sleep_queue: VecDeque<(u64, Thread)>,
    /// Tick counter.
    tick: u64,
}

impl Scheduler {
    /// The run queue of CPU `cpu`.
    pub closed spec fn rq(&self, cpu: int) -> RunQueue {
        self.runqueues@[cpu]
    }

    /// The sleep queue.
    pub closed spec fn sleepers(&self) -> Seq<(u64, Thread)> {
        self.sleep_queue@
    }

    /// The tick counter.
    pub closed spec fn ticks(&self) -> u64 {
        self.tick
    }

    /// The processes by PID.
    pub closed spec fn process_map(&self) -> Map<usize, Process> {
        self.processes@
    }

    /// One well-formed run queue per CPU.
    pub closed spec fn wf(&self) -> bool {
        &&& self.runqueues@.len() == MAX_CPUS
        &&& forall|i: int| 0 <= i < MAX_CPUS ==> #[trigger] self.runqueues@[i].wf()
    }

    /// A scheduler with empty run queues, no processes, nobody asleep, tick 0.
    pub fn new() -> (r: Self)
        ensures
            r.wf(),
            forall|i: int|
                0 <= i < MAX_CPUS ==> {
                    &&& #[trigger] r.rq(i).current_thread().is_none()
                    &&& r.rq(i).count() == 0
                },
            r.sleepers() == Seq::<(u64, Thread)>::empty(),
            r.process_map() == Map::<usize, Process>::empty(),
            r.ticks() == 0,
    {
        let mut runqueues: Vec<RunQueue> = Vec::new();
        let mut i: usize = 0;
        while i < MAX_CPUS
            invariant
                i <= MAX_CPUS,
                runqueues@.len() == i,
                forall|k: int|
                    0 <= k < i ==> {
                        &&& #[trigger] runqueues@[k].wf()
                        &&& runqueues@[k].current_thread().is_none()
                        &&& runqueues@[k].count() == 0
                    },
            decreases MAX_CPUS - i,
        {
            runqueues.push(RunQueue::new());
            i = i + 1;
        }
        let r = Scheduler {
            runqueues,
            processes: BTreeMap::new(),
            sleep_queue: VecDeque::new(),
            tick: 0,
        };
        assert forall|i: int| 0 <= i < MAX_CPUS implies #[trigger] r.rq(i).current_thread().is_none() && r.rq(i).count() == 0 by {
            assert(r.runqueues@[i].wf());
        }
        r
    }

    /// Register a process; its main thread (if any) joins this CPU's run queue.
    pub fn add_process(&mut self, process: Process)
        requires
            old(self).wf(),
            process.threads@.len() > 0 ==> old(self).rq(0).count() < usize::MAX,
        ensures
            final(self).wf(),
            final(self).rq(0).queues_view() == if process.threads@.len() > 0 {
                enqueue_spec(old(self).rq(0).queues_view(), process.threads@[0])
            } else {
                old(self).rq(0).queues_view()
            },
            final(self).rq(0).current_thread() == old(self).rq(0).current_thread(),
            forall|i: int| 1 <= i < MAX_CPUS ==> #[trigger] final(self).rq(i) == old(self).rq(i),
            final(self).process_map() == old(self).process_map().insert(process.pid, process),
            final(self).sleepers() == old(self).sleepers(),
            final(self).ticks() == old(self).ticks(),
    {
        let pid = process.pid;
        let main = process.main_thread();
        match main {
            Some(t) => {
                let cpu = cpu_id();
                self.runqueues[cpu].enqueue(t);
            },
            None => {},
        }
        self.processes.insert(pid, process);
    }

    /// Add a thread to this CPU's run queue.
    pub fn add_thread(&mut self, thread: Thread)
        requires
            old(self).wf(),
            old(self).rq(0).count() < usize::MAX,
        ensures
            final(self).wf(),
            final(self).rq(0).queues_view() == enqueue_spec(old(self).rq(0).queues_view(), thread),
            final(self).rq(0).current_thread() == old(self).rq(0).current_thread(),
            forall|i: int| 1 <= i < MAX_CPUS ==> #[trigger] final(self).rq(i) == old(self).rq(i),
            final(self).process_map() == old(self).process_map(),
            final(self).sleepers() == old(self).sleepers(),
            final(self).ticks() == old(self).ticks(),
    {
        let cpu = cpu_id();
        self.runqueues[cpu].enqueue(thread);
    }

    /// Reschedule this CPU: a runnable current thread goes back to its
    /// queue, then the next thread becomes current.
    pub fn yield_current(&mut self)
        requires
            old(self).wf(),
            old(self).rq(0).current_thread().is_some() ==> old(self).rq(0).count() < usize::MAX,
        ensures
            final(self).wf(),
            (final(self).rq(0).queues_view(), final(self).rq(0).current_thread()) == yield_spec(
                old(self).rq(0).queues_view(),
                old(self).rq(0).current_thread(),
            ),
            forall|i: int| 1 <= i < MAX_CPUS ==> #[trigger] final(self).rq(i) == old(self).rq(i),
            final(self).process_map() == old(self).process_map(),
            final(self).sleepers() == old(self).sleepers(),
            final(self).ticks() == old(self).ticks(),
    {
        let cpu = cpu_id();
        let cur = self.runqueues[cpu].take_current();
        match cur {
            Some(current) => {
                if current.is_runnable() {
                    self.runqueues[cpu].enqueue(current);
                }
            },
            None => {},
        }
        let next = self.runqueues[cpu].dequeue();
        match next {
            Some(t) => {
                self.runqueues[cpu].set_current(Some(t));
            },
            None => {},
        }
    }

    /// Wake the threads whose wake-up tick has come: they leave the sleep
    /// queue (the others keep their order) and, made runnable, join this
    /// CPU's run queue from the back of the sleep queue to the front.
    pub fn wake_sleeping(&mut self)
        requires
            old(self).wf(),
            old(self).rq(0).count() + old(self).sleepers().len() <= usize::MAX,
        ensures
            final(self).wf(),
            final(self).sleepers() == not_due(old(self).sleepers(), old(self).ticks()),
            final(self).rq(0).queues_view() == enqueue_all(
                old(self).rq(0).queues_view(),
                due_threads(old(self).sleepers(), old(self).ticks()),
            ),
            final(self).rq(0).count() == old(self).rq(0).count() + due_threads(
                old(self).sleepers(),
                old(self).ticks(),
            ).len(),
            final(self).rq(0).current_thread() == old(self).rq(0).current_thread(),
            forall|i: int| 1 <= i < MAX_CPUS ==> #[trigger] final(self).rq(i) == old(self).rq(i),
            final(self).process_map() == old(self).process_map(),
            final(self).ticks() == old(self).ticks(),
    {
        let tick = self.tick;
        let ghost s = self.sleep_queue@;
        let ghost q0 = self.rq(0).queues_view();
        let n = self.sleep_queue.len();
        let mut i = n;
        assert(s.subrange(n as int, n as int) =~= Seq::<(u64, Thread)>::empty());
        assert(s.subrange(0, n as int) + Seq::<(u64, Thread)>::empty() =~= s);
        while i > 0
            invariant
                i <= n,
                n == s.len(),
                tick == self.tick,
                self.tick == old(self).tick,
                s == old(self).sleep_queue@,
                q0 == old(self).rq(0).queues_view(),
                self.wf(),
                self.sleep_queue@ == s.subrange(0, i as int) + not_due(s.subrange(i as int, n as int), tick),
                self.rq(0).queues_view() == enqueue_all(q0, due_threads(s.subrange(i as int, n as int), tick)),
                self.rq(0).count() == old(self).rq(0).count() + due_threads(s.subrange(i as int, n as int), tick).len(),
                due_threads(s.subrange(i as int, n as int), tick).len() <= n - i,
                self.rq(0).current_thread() == old(self).rq(0).current_thread(),
                forall|k: int| 1 <= k < MAX_CPUS ==> #[trigger] self.runqueues@[k] == old(self).runqueues@[k],
                self.processes@ == old(self).processes@,
                old(self).rq(0).count() + n <= usize::MAX,
            decreases i,
        {
            i = i - 1;
            let ghost rest = s.subrange(i + 1, n as int);
            assert(s.subrange(i as int, n as int).drop_first() =~= rest);
            assert(s.subrange(i as int, n as int)[0] == s[i as int]);
            let ghost prefix = self.sleep_queue@;
            assert(prefix[i as int] == s[i as int]);
            let wake_time = self.sleep_queue[i].0;
            if wake_time <= tick {
                let removed = self.sleep_queue.remove(i);
                match removed {
                    Some(entry) => {
                        let (_, mut thread) = entry;
                        thread.set_state(ThreadState::Runnable);
                        let ghost rq_before = self.runqueues@;
                        let cpu = cpu_id();
                        self.runqueues[cpu].enqueue(thread);
                        proof {
                            assert(self.runqueues@ == rq_before.update(0, self.runqueues@[0]));
                            assert forall|k: int| 1 <= k < MAX_CPUS implies #[trigger] self.runqueues@[k] == old(self).runqueues@[k] by {
                                assert(self.runqueues@[k] == rq_before[k]);
                            }
                            lemma_enqueue_all_push(q0, due_threads(rest, tick), runnable(s[i as int].1));
                            assert(due_threads(s.subrange(i as int, n as int), tick) =~= due_threads(rest, tick).push(runnable(s[i as int].1)));
                            assert(self.sleep_queue@ =~= s.subrange(0, i as int) + not_due(rest, tick));
                            assert(not_due(s.subrange(i as int, n as int), tick) =~= not_due(rest, tick));
                        }
                    },
                    None => {},
                }
            } else {
                proof {
                    assert(due_threads(s.subrange(i as int, n as int), tick) =~= due_threads(rest, tick));
                    assert(not_due(s.subrange(i as int, n as int), tick) =~= seq![s[i as int]] + not_due(rest, tick));
                    assert(self.sleep_queue@ =~= s.subrange(0, i as int) + not_due(s.subrange(i as int, n as int), tick));
                }
            }
        }
        assert(s.subrange(0, n as int) =~= s);
        assert(self.sleep_queue@ =~= not_due(s, tick));
    }

    /// Timer tick: advance the tick counter, wake the threads due by then,
    /// and reschedule when the running thread has used up its time slice.
    pub fn tick(&mut self)
        requires
            old(self).wf(),
            old(self).ticks() < u64::MAX,
            old(self).rq(0).count() + old(self).sleepers().len() < usize::MAX,
        ensures
            final(self).wf(),
            final(self).ticks() == old(self).ticks() + 1,
            final(self).sleepers() == not_due(old(self).sleepers(), (old(self).ticks() + 1) as u64),
            ({
                let qs1 = enqueue_all(
                    old(self).rq(0).queues_view(),
                    due_threads(old(self).sleepers(), (old(self).ticks() + 1) as u64),
                );
                let cur = old(self).rq(0).current_thread();
                if cur is Some && cur.unwrap().runtime >= TIME_SLICE_MS {
                    (final(self).rq(0).queues_view(), final(self).rq(0).current_thread())
                        == yield_spec(qs1, cur)
                } else {
                    final(self).rq(0).queues_view() == qs1 && final(self).rq(0).current_thread()
                        == cur
                }
            }),
            forall|i: int| 1 <= i < MAX_CPUS ==> #[trigger] final(self).rq(i) == old(self).rq(i),
            final(self).process_map() == old(self).process_map(),
    {
        self.tick = self.tick + 1;
        proof {
            lemma_due_threads_len(self.sleep_queue@, self.tick);
        }
        self.wake_sleeping();
        let cpu = cpu_id();
        let expired = match self.runqueues[cpu].current() {
            Some(current) => current.runtime >= TIME_SLICE_MS,
            None => false,
        };
        if expired {
            self.yield_current();
        }
    }

    /// Put the running thread to sleep for `ms` ticks: it joins the back of
    /// the sleep queue, sleeping until tick + `ms`, and the next thread runs.
    pub fn sleep_current(&mut self, ms: u64)
        requires
            old(self).wf(),
            old(self).rq(0).current_thread().is_some() ==> old(self).ticks() + ms <= u64::MAX,
        ensures
            final(self).wf(),
            match old(self).rq(0).current_thread() {
                Some(t) => {
                    let wake = (old(self).ticks() + ms) as u64;
                    &&& final(self).sleepers() == old(self).sleepers().push(
                        (wake, Thread { state: ThreadState::Sleeping, wake_time: wake, ..t }),
                    )
                    &&& (final(self).rq(0).queues_view(), final(self).rq(0).current_thread())
                        == yield_spec(old(self).rq(0).queues_view(), None)
                },
                None => {
                    &&& final(self).sleepers() == old(self).sleepers()
                    &&& final(self).rq(0).queues_view() == old(self).rq(0).queues_view()
                    &&& final(self).rq(0).current_thread().is_none()
                },
            },
            forall|i: int| 1 <= i < MAX_CPUS ==> #[trigger] final(self).rq(i) == old(self).rq(i),
            final(self).process_map() == old(self).process_map(),
            final(self).ticks() == old(self).ticks(),
    {
        let cpu = cpu_id();
        let cur = self.runqueues[cpu].take_current();
        match cur {
            Some(mut current) => {
                current.set_state(ThreadState::Sleeping);
                current.wake_time = self.tick + ms;
                let wake = current.wake_time;
                self.sleep_queue.push_back((wake, current));
                self.yield_current();
            },
            None => {},
        }
    }

    /// Scheduler statistics: queued threads over all CPUs (saturating),
    /// CPUs running a thread, sleeping threads, processes and the tick.
    pub fn stats(&self) -> (r: SchedulerStats)
        requires
            self.wf(),
        ensures
            r.total_threads == if queued_sum(self.all_rqs()) <= usize::MAX {
                queued_sum(self.all_rqs())
            } else {
                usize::MAX as int
            },
            r.running_threads == running_count(self.all_rqs()),
            r.sleeping_threads == self.sleepers().len(),
            r.total_processes == self.process_map().len(),
            r.tick == self.ticks(),
    {
        let mut total_threads: usize = 0;
        let mut running_threads: usize = 0;
        let mut i: usize = 0;
        while i < MAX_CPUS
            invariant
                i <= MAX_CPUS,
                self.runqueues@.len() == MAX_CPUS,
                total_threads == if queued_sum(self.runqueues@.subrange(0, i as int))
                    <= usize::MAX {
                    queued_sum(self.runqueues@.subrange(0, i as int))
                } else {
                    usize::MAX as int
                },
                running_threads == running_count(self.runqueues@.subrange(0, i as int)),
                running_threads <= i,
            decreases MAX_CPUS - i,
        {
            let rq = &self.runqueues[i];
            proof {
                let s = self.runqueues@.subrange(0, i + 1);
                assert(s.drop_last() =~= self.runqueues@.subrange(0, i as int));
                lemma_queued_sum_nonneg(self.runqueues@.subrange(0, i as int));
            }
            total_threads = total_threads.saturating_add(rq.len());
            if rq.current.is_some() {
                running_threads = running_threads + 1;
            }
            i = i + 1;
        }
        assert(self.runqueues@.subrange(0, MAX_CPUS as int) =~= self.runqueues@);
        SchedulerStats {
            total_threads,
            running_threads,
            sleeping_threads: self.sleep_queue.len(),
            total_processes: self.processes.len(),
            tick: self.tick,
        }
    }

    /// The run queues of all CPUs.
    pub closed spec fn all_rqs(&self) -> Seq<RunQueue> {
        self.runqueues@
    }
}

/// Number of threads queued in the run queues `s`.
pub open spec fn queued_sum(s: Seq<RunQueue>) -> int
    decreases s.len(),
{
    if s.len() == 0 {
        0
    } else {
        queued_sum(s.drop_last()) + s.last().count()
    }
}

/// Number of run queues of `s` with a running thread.
pub open spec fn running_count(s: Seq<RunQueue>) -> int
    decreases s.len(),
{
    if s.len() == 0 {
        0
    } else {
        running_count(s.drop_last()) + if s.last().current_thread().is_some() {
            1int
        } else {
            0int
        }
    }
}

proof fn lemma_queued_sum_nonneg(s: Seq<RunQueue>)
    ensures
        queued_sum(s) >= 0,
    decreases s.len(),
{
    if s.len() > 0 {
        lemma_queued_sum_nonneg(s.drop_last());
    }
}

/// Waking sleepers neither loses nor duplicates a thread: every entry of the
/// sleep queue either stays (its wake-up tick is still ahead) or is woken
/// and made runnable.
pub proof fn lemma_wake_conserves_threads(s: Seq<(u64, Thread)>, tick: u64)
    ensures
        not_due(s, tick).len() + due_threads(s, tick).len() == s.len(),
        forall|i: int| 0 <= i < not_due(s, tick).len() ==> #[trigger] not_due(s, tick)[i].0 > tick,
        forall|i: int|
            0 <= i < due_threads(s, tick).len() ==> #[trigger] due_threads(s, tick)[i].state
                == ThreadState::Runnable,
    decreases s.len(),
{
    if s.len() > 0 {
        lemma_wake_conserves_threads(s.drop_first(), tick);
        let nd = not_due(s.drop_first(), tick);
        let dt = due_threads(s.drop_first(), tick);
        if s[0].0 > tick {
            assert forall|i: int| 0 <= i < not_due(s, tick).len() implies #[trigger] not_due(s, tick)[i].0 > tick by {
                if i > 0 {
                    assert(not_due(s, tick)[i] == nd[i - 1]);
                }
            }
            assert(due_threads(s, tick) =~= dt);
        } else {
            assert(not_due(s, tick) =~= nd);
            assert forall|i: int| 0 <= i < due_threads(s, tick).len() implies #[trigger] due_threads(s, tick)[i].state == ThreadState::Runnable by {
                if i < dt.len() {
                    assert(due_threads(s, tick)[i] == dt[i]);
                }
            }
        }
    }
}

/// A thread queued on an idle run queue is the next one to run, and taking
/// it leaves the queues empty again.
pub proof fn lemma_enqueue_then_dequeue(qs: Seq<Seq<Thread>>, t: Thread)
    requires
        qs.len() == NUM_QUEUES,
        forall|i: int| 0 <= i < NUM_QUEUES ==> #[trigger] qs[i].len() == 0,
        t.priority.spec_value() <= 99,
    ensures
        dequeue_spec(enqueue_spec(qs, t)).0 == Some(t),
        dequeue_spec(enqueue_spec(qs, t)).1 =~= qs,
{
    let e = enqueue_spec(qs, t);
    let k = queue_index(t);
    assert(0 <= k < NUM_QUEUES);
    lemma_highest_nonempty(e, NUM_QUEUES as int);
    assert(e[k].len() == 1);
    assert(highest_nonempty(e, NUM_QUEUES as int) == Some(k)) by {
        match highest_nonempty(e, NUM_QUEUES as int) {
            Some(j) => {
                if j != k {
                    assert(e[j] == qs[j]);
                    if j < k {
                        assert(e[k].len() == 0);
                    }
                }
            },
            None => {
                assert(e[k].len() == 0);
            },
        }
    }
    assert(e[k][0] == t);
    assert(e[k].drop_first() =~= qs[k]);
    assert(e.update(k, e[k].drop_first()) =~= qs);
}

/// Priorities 0 to 99 fall into ten bands of ten (0-9, 10-19, ..., 90-99),
/// and a thread of a higher band runs before one of a lower band, whatever
/// order they were queued in: after queueing `a` then `b` on an idle run
/// queue, the one of the higher band runs first and the other next.
pub proof fn lemma_higher_band_first(qs: Seq<Seq<Thread>>, a: Thread, b: Thread)
    requires
        qs.len() == NUM_QUEUES,
        forall|i: int| 0 <= i < NUM_QUEUES ==> #[trigger] qs[i].len() == 0,
        a.priority.spec_value() <= 99,
        b.priority.spec_value() <= 99,
        a.priority.spec_value() / 10 != b.priority.spec_value() / 10,
    ensures
        dequeue_spec(enqueue_spec(enqueue_spec(qs, a), b)).0 == Some(
            if a.priority.spec_value() / 10 > b.priority.spec_value() / 10 {
                a
            } else {
                b
            },
        ),
        dequeue_spec(dequeue_spec(enqueue_spec(enqueue_spec(qs, a), b)).1).0 == Some(
            if a.priority.spec_value() / 10 > b.priority.spec_value() / 10 {
                b
            } else {
                a
            },
        ),
{
    let pa = a.priority.spec_value() as int;
    let pb = b.priority.spec_value() as int;
    lemma_band(pa);
    lemma_band(pb);
    let ka = queue_index(a);
    let kb = queue_index(b);
    let (hi, lo, th, tl) = if ka > kb {
        (ka, kb, a, b)
    } else {
        (kb, ka, b, a)
    };
    let e2 = enqueue_spec(enqueue_spec(qs, a), b);
    assert(e2[hi] =~= seq![th]);
    assert(e2[lo] =~= seq![tl]);
    assert forall|j: int| 0 <= j < NUM_QUEUES && j != hi && j != lo implies #[trigger] e2[j].len() == 0 by {
        assert(e2[j] == qs[j]);
    }
    lemma_highest_nonempty(e2, NUM_QUEUES as int);
    assert(highest_nonempty(e2, NUM_QUEUES as int) == Some(hi)) by {
        match highest_nonempty(e2, NUM_QUEUES as int) {
            Some(j) => {
                if j < hi {
                    assert(e2[hi].len() == 0);
                }
            },
            None => {
                assert(e2[hi].len() == 0);
            },
        }
    }
    let d = e2.update(hi, e2[hi].drop_first());
    assert(d[hi].len() == 0);
    assert(d[lo] =~= seq![tl]);
    lemma_highest_nonempty(d, NUM_QUEUES as int);
    assert(highest_nonempty(d, NUM_QUEUES as int) == Some(lo)) by {
        match highest_nonempty(d, NUM_QUEUES as int) {
            Some(j) => {
                if j < lo {
                    assert(d[lo].len() == 0);
                } else if j > lo && j != hi {
                    assert(d[j] == e2[j]);
                }
            },
            None => {
                assert(d[lo].len() == 0);
            },
        }
    }
}

proof fn lemma_band(p: int)
    requires
        0 <= p <= 99,
    ensures
        p * 10 / 100 == p / 10,
        0 <= p / 10 < 10,
{
    assert(p * 10 / 100 == p / 10) by (nonlinear_arith)
        requires
            0 <= p <= 99,
    ;
}

/// Number of threads a dequeue leaves in the queues, plus the one it hands
/// out.
proof fn lemma_dequeue_total(qs: Seq<Seq<Thread>>)
    requires
        qs.len() == NUM_QUEUES,
    ensures
        total_len(dequeue_spec(qs).1) + (if dequeue_spec(qs).0 is Some { 1int } else { 0int }) == total_len(qs),
        dequeue_spec(qs).1.len() == NUM_QUEUES,
{
    lemma_highest_nonempty(qs, NUM_QUEUES as int);
    match highest_nonempty(qs, NUM_QUEUES as int) {
        Some(i) => {
            lemma_total_len_update(qs, i, qs[i].drop_first());
        },
        None => {
            lemma_total_len_zero(qs);
        },
    }
}

/// Yielding neither loses nor duplicates a thread: the queued threads plus
/// the running one after a yield are those queued before, plus the current
/// thread when it is still runnable; a current thread that is not runnable
/// leaves the run queue. A runnable current thread on an otherwise idle run
/// queue runs again.
pub proof fn lemma_yield_conserves_threads(qs: Seq<Seq<Thread>>, cur: Option<Thread>)
    requires
        qs.len() == NUM_QUEUES,
        cur is Some ==> cur->0.priority.spec_value() <= 99,
    ensures
        total_len(yield_spec(qs, cur).0) + (if yield_spec(qs, cur).1 is Some { 1int } else { 0int })
            == total_len(qs) + (if cur is Some && cur->0.state == ThreadState::Runnable {
            1int
        } else {
            0int
        }),
        total_len(qs) == 0 && cur is Some && cur->0.state == ThreadState::Runnable ==> yield_spec(
            qs,
            cur,
        ).1 == cur,
{
    match cur {
        Some(t) => {
            if t.state == ThreadState::Runnable {
                lemma_band(t.priority.spec_value() as int);
                let k = queue_index(t);
                lemma_total_len_update(qs, k, qs[k].push(t));
                lemma_dequeue_total(enqueue_spec(qs, t));
                if total_len(qs) == 0 {
                    lemma_total_len_empty(qs);
                    lemma_enqueue_then_dequeue(qs, t);
                }
            } else {
                lemma_dequeue_total(qs);
            }
        },
        None => {
            lemma_dequeue_total(qs);
        },
    }
}

proof fn lemma_total_len_empty(qs: Seq<Seq<Thread>>)
    requires
        total_len(qs) == 0,
    ensures
        forall|j: int| 0 <= j < qs.len() ==> #[trigger] qs[j].len() == 0,
    decreases qs.len(),
{
    if qs.len() > 0 {
        lemma_total_len_nonneg(qs.drop_last());
        lemma_total_len_empty(qs.drop_last());
        assert forall|j: int| 0 <= j < qs.len() implies #[trigger] qs[j].len() == 0 by {
            if j < qs.len() - 1 {
                assert(qs[j] == qs.drop_last()[j]);
            }
        }
    }
}

/// Within one priority, threads run in the order they were queued: after
/// queueing `a` then `b` of the same priority on an idle run queue, `a` runs
/// first and `b` is next.
pub proof fn lemma_same_priority_fifo(qs: Seq<Seq<Thread>>, a: Thread, b: Thread)
    requires
        qs.len() == NUM_QUEUES,
        forall|i: int| 0 <= i < NUM_QUEUES ==> #[trigger] qs[i].len() == 0,
        a.priority.spec_value() <= 99,
        b.priority == a.priority,
    ensures
        dequeue_spec(enqueue_spec(enqueue_spec(qs, a), b)).0 == Some(a),
        dequeue_spec(dequeue_spec(enqueue_spec(enqueue_spec(qs, a), b)).1).0 == Some(b),
{
    let k = queue_index(a);
    assert(0 <= k < NUM_QUEUES);
    let e1 = enqueue_spec(qs, a);
    let e2 = enqueue_spec(e1, b);
    assert(e2[k] =~= seq![a, b]);
    lemma_highest_nonempty(e2, NUM_QUEUES as int);
    assert(highest_nonempty(e2, NUM_QUEUES as int) == Some(k)) by {
        match highest_nonempty(e2, NUM_QUEUES as int) {
            Some(j) => {
                if j != k {
                    assert(e2[j] == qs[j]);
                    if j < k {
                        assert(e2[k].len() == 0);
                    }
                }
            },
            None => {
                assert(e2[k].len() == 0);
            },
        }
    }
    let d = e2.update(k, e2[k].drop_first());
    assert(d[k] =~= seq![b]);
    lemma_highest_nonempty(d, NUM_QUEUES as int);
    assert(highest_nonempty(d, NUM_QUEUES as int) == Some(k)) by {
        match highest_nonempty(d, NUM_QUEUES as int) {
            Some(j) => {
                if j != k {
                    assert(d[j] == qs[j]);
                    if j < k {
                        assert(d[k].len() == 0);
                    }
                }
            },
            None => {
                assert(d[k].len() == 0);
            },
        }
    }
}

} // verus!
