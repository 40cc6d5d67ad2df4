use aurora_kernel::sched::process::{Process, ProcessState};
use aurora_kernel::sched::scheduler::{RunQueue, Scheduler, SchedulerStats};
use aurora_kernel::sched::thread::{Priority, Thread, ThreadState};
use aurora_kernel::sched::{current_process_id, current_thread_id, spawn_init, wake_sleeping_threads, yield_now};

fn kthread(tid: usize, prio: u8) -> Thread {
    let mut t = Thread::new_kernel(tid, 1, 0x1000, 0x8000);
    t.set_priority(Priority::new(prio));
    t
}

#[test]
fn thread_construction() {
    let t = Thread::new_kernel(7, 1, 0x1000, 0x9000);
    assert_eq!(t.name, "thread-7");
    assert_eq!(t.context.rip, 0x1000);
    assert_eq!(t.context.rsp, 0x9000);
    assert_eq!(t.context.rflags, 0x202);
    assert_eq!(t.get_priority().value(), 50);
    assert!(t.is_runnable());
    let u = Thread::new_user(12, 3, 0x40_0000, 0x7fff_0000, 0x9000);
    assert_eq!(u.name, "user-thread-12");
    assert_eq!(u.user_stack, Some(0x7fff_0000));
    assert_eq!(u.context.rsp, 0x7fff_0000);
}

#[test]
fn priority_clamped() {
    assert_eq!(Priority::new(250).value(), 99);
    assert_eq!(Priority::lowest().value(), 0);
    assert_eq!(Priority::normal().value(), 50);
    assert_eq!(Priority::highest().value(), 99);
}

#[test]
fn thread_state_changes() {
    let mut t = kthread(1, 50);
    t.set_state(ThreadState::Blocked);
    assert_eq!(t.get_state(), ThreadState::Blocked);
    assert!(!t.is_runnable());
}

#[test]
fn run_queue_priority_then_fifo() {
    let mut rq = RunQueue::new();
    assert!(rq.is_empty());
    rq.enqueue(kthread(1, 10));
    rq.enqueue(kthread(2, 90));
    rq.enqueue(kthread(3, 10));
    assert_eq!(rq.len(), 3);
    assert_eq!(rq.peek().map(|t| t.tid), Some(2));
    assert_eq!(rq.dequeue().map(|t| t.tid), Some(2));
    assert_eq!(rq.dequeue().map(|t| t.tid), Some(1));
    assert_eq!(rq.dequeue().map(|t| t.tid), Some(3));
    assert!(rq.dequeue().is_none());
    rq.set_current(Some(kthread(4, 50)));
    assert_eq!(rq.current().map(|t| t.tid), Some(4));
}

#[test]
fn process_basics() {
    let mut p = Process::new(5, 1);
    assert_eq!(p.cwd, "/");
    assert!(p.main_thread().is_none());
    p.add_thread(kthread(9, 50));
    assert_eq!(p.main_thread().map(|t| t.tid), Some(9));
    assert!(p.is_alive());
    p.set_state(ProcessState::Zombie);
    assert_eq!(p.get_state(), ProcessState::Zombie);
    assert!(!p.is_alive());
    let init = Process::new_init();
    assert_eq!((init.pid, init.ppid), (1, 0));
}

#[test]
fn scheduler_round_trip() {
    let mut s = Scheduler::new();
    spawn_init(&mut s);
    assert_eq!(s.stats().total_processes, 1);
    s.add_thread(kthread(1, 50));
    s.add_thread(kthread(2, 50));
    let st = s.stats();
    assert_eq!(st.total_threads, 2);
    assert_eq!(st.running_threads, 0);
    yield_now(&mut s);
    let st = s.stats();
    assert_eq!(st.total_threads, 1);
    assert_eq!(st.running_threads, 1);
    s.sleep_current(5);
    assert_eq!(s.stats().sleeping_threads, 1);
    assert_eq!(s.stats().running_threads, 1);
    assert_eq!(s.stats().total_threads, 0);
    for _ in 0..4 {
        s.tick();
    }
    assert_eq!(s.stats().sleeping_threads, 1);
    s.tick();
    assert_eq!(s.stats().tick, 5);
    assert_eq!(s.stats().sleeping_threads, 0);
    assert_eq!(s.stats().total_threads, 1);
    wake_sleeping_threads(&mut s);
    assert_eq!(s.stats().sleeping_threads, 0);
}

#[test]
fn stats_text() {
    let st = SchedulerStats { total_threads: 3, running_threads: 1, sleeping_threads: 2, total_processes: 4, tick: 99 };
    assert_eq!(st.to_string(), "Scheduler: 3 threads (1 running, 2 sleeping), 4 processes, tick 99");
}

#[test]
fn no_current_ids() {
    assert_eq!(current_thread_id(), None);
    assert_eq!(current_process_id(), None);
}

#[test]
fn pids_start_after_init() {
    let mut pids = aurora_kernel::sched::PidAllocator::new();
    assert_eq!(aurora_kernel::sched::allocate_pid(&mut pids), 2);
    assert_eq!(aurora_kernel::sched::allocate_pid(&mut pids), 3);
}
