use std::cell::RefCell;
use std::rc::Rc;
use std::sync::{Arc, Mutex};

use webserver::channel::Message;
use webserver::pool::{Shutdown, ThreadPool, WorkerState};

type Job = Box<dyn FnOnce()>;

fn state_of<T>(pool: &ThreadPool<T>, worker: usize) -> WorkerState {
    pool.worker(worker).unwrap().state()
}

#[test]
fn new_creates_exactly_n_idle_workers() {
    for n in 1..=8usize {
        let pool: ThreadPool<u32> = ThreadPool::new(n);
        assert_eq!(pool.size(), n);
        for i in 0..n {
            let w = pool.worker(i).unwrap();
            assert_eq!(w.id(), i);
            assert_eq!(w.state(), WorkerState::Idle);
        }
        assert!(pool.worker(n).is_none());
        assert_eq!(pool.pending_jobs(), 0);
        assert!(!pool.is_closing());
    }
}

#[test]
fn two_tasks_on_four_workers_count_to_two() {
    let counter = Arc::new(Mutex::new(0u32));
    let mut pool: ThreadPool<Job> = ThreadPool::new(4);
    for _ in 0..2 {
        let c = Arc::clone(&counter);
        let job: Job = Box::new(move || {
            *c.lock().unwrap() += 1;
        });
        assert!(pool.execute(job).is_ok());
    }
    assert_eq!(pool.pending_jobs(), 2);
    for worker in [2usize, 3usize] {
        match pool.receive(worker) {
            Some(Message::NewJob(job)) => job(),
            _ => panic!("worker {} should have received a job", worker),
        }
        assert_eq!(state_of(&pool, worker), WorkerState::Running);
    }
    assert!(pool.finish(2));
    assert!(pool.finish(3));
    assert_eq!(*counter.lock().unwrap(), 2);
    assert_eq!(pool.pending_jobs(), 0);
    assert!(pool.receive(0).is_none());
}

#[test]
fn one_worker_runs_tasks_in_submission_order() {
    let record: Rc<RefCell<Vec<&'static str>>> = Rc::new(RefCell::new(Vec::new()));
    let mut pool: ThreadPool<Job> = ThreadPool::new(1);
    let a = Rc::clone(&record);
    let b = Rc::clone(&record);
    assert!(pool.execute(Box::new(move || a.borrow_mut().push("A"))).is_ok());
    assert!(pool.execute(Box::new(move || b.borrow_mut().push("B"))).is_ok());
    let first = match pool.receive(0) {
        Some(Message::NewJob(job)) => job,
        _ => panic!("the first task should be handed out"),
    };
    // The only worker is busy: the second task waits.
    assert!(pool.receive(0).is_none());
    assert_eq!(pool.pending_jobs(), 1);
    first();
    assert!(pool.finish(0));
    match pool.receive(0) {
        Some(Message::NewJob(job)) => job(),
        _ => panic!("the second task should be handed out"),
    }
    assert!(pool.finish(0));
    assert_eq!(*record.borrow(), vec!["A", "B"]);
}

#[test]
fn two_workers_run_at_the_same_time() {
    let mut pool: ThreadPool<u32> = ThreadPool::new(2);
    assert!(pool.execute(10).is_ok());
    assert!(pool.execute(20).is_ok());
    assert!(matches!(pool.receive(0), Some(Message::NewJob(10))));
    assert!(matches!(pool.receive(1), Some(Message::NewJob(20))));
    assert_eq!(state_of(&pool, 0), WorkerState::Running);
    assert_eq!(state_of(&pool, 1), WorkerState::Running);
}

#[test]
fn run_loop_executes_every_waiting_task_in_order() {
    let record: Rc<RefCell<Vec<u32>>> = Rc::new(RefCell::new(Vec::new()));
    let mut pool: ThreadPool<Job> = ThreadPool::new(3);
    for t in [7u32, 8, 9] {
        let r = Rc::clone(&record);
        assert!(pool.execute(Box::new(move || r.borrow_mut().push(t))).is_ok());
    }
    // The channel runs empty and the worker would block: it has not exited.
    assert!(!pool.run_loop(1));
    assert_eq!(*record.borrow(), vec![7, 8, 9]);
    assert_eq!(state_of(&pool, 1), WorkerState::Idle);
    assert_eq!(pool.pending_jobs(), 0);
    assert!(!pool.run_loop(3));
}

#[test]
fn run_loop_leaves_at_terminate() {
    let counter = Rc::new(RefCell::new(0u32));
    let mut pool: ThreadPool<Job> = ThreadPool::new(2);
    let c = Rc::clone(&counter);
    assert!(pool.execute(Box::new(move || *c.borrow_mut() += 1)).is_ok());
    assert!(pool.begin_shutdown());
    assert!(pool.run_loop(1));
    assert_eq!(*counter.borrow(), 1);
    assert_eq!(state_of(&pool, 1), WorkerState::Terminating);
    assert_eq!(state_of(&pool, 0), WorkerState::Idle);
    // A worker that has left its loop does not move.
    assert!(pool.run_loop(1));
    assert!(pool.run_loop(0));
    assert_eq!(state_of(&pool, 0), WorkerState::Terminating);
}

#[test]
fn shutdown_completes_with_a_busy_worker() {
    let record: Rc<RefCell<Vec<&'static str>>> = Rc::new(RefCell::new(Vec::new()));
    let mut pool: ThreadPool<Job> = ThreadPool::new(2);
    let r = Rc::clone(&record);
    assert!(pool.execute(Box::new(move || r.borrow_mut().push("long"))).is_ok());
    let long = match pool.receive(0) {
        Some(Message::NewJob(job)) => job,
        _ => panic!("the task should be handed out"),
    };
    assert_eq!(state_of(&pool, 0), WorkerState::Running);
    // Shutdown begins while worker 0 is busy: it has to wait for it.
    assert_eq!(pool.shutdown(), Shutdown::WaitingFor(0));
    assert!(pool.is_closing());
    long();
    assert!(pool.finish(0));
    // The task is complete: shutdown goes through.
    assert_eq!(pool.shutdown(), Shutdown::Done);
    assert_eq!(*record.borrow(), vec!["long"]);
    assert_eq!(state_of(&pool, 0), WorkerState::Joined);
    assert_eq!(state_of(&pool, 1), WorkerState::Joined);
    assert_eq!(pool.pending_jobs(), 0);
}

#[test]
fn shutdown_waits_for_a_later_busy_worker() {
    let mut pool: ThreadPool<Job> = ThreadPool::new(3);
    assert!(pool.execute(Box::new(|| {})).is_ok());
    let job = match pool.receive(1) {
        Some(Message::NewJob(job)) => job,
        _ => panic!("the task should be handed out"),
    };
    assert_eq!(pool.shutdown(), Shutdown::WaitingFor(1));
    assert_eq!(state_of(&pool, 0), WorkerState::Joined);
    assert_eq!(state_of(&pool, 1), WorkerState::Running);
    assert_eq!(state_of(&pool, 2), WorkerState::Idle);
    job();
    assert!(pool.finish(1));
    assert_eq!(pool.shutdown(), Shutdown::Done);
    for i in 0..3 {
        assert_eq!(state_of(&pool, i), WorkerState::Joined);
    }
}

#[test]
fn shutdown_executes_waiting_tasks_in_order() {
    let record: Rc<RefCell<Vec<u32>>> = Rc::new(RefCell::new(Vec::new()));
    let mut pool: ThreadPool<Job> = ThreadPool::new(3);
    for t in [7u32, 8, 9] {
        let r = Rc::clone(&record);
        assert!(pool.execute(Box::new(move || r.borrow_mut().push(t))).is_ok());
    }
    assert_eq!(pool.shutdown(), Shutdown::Done);
    assert_eq!(*record.borrow(), vec![7, 8, 9]);
    for i in 0..3 {
        assert_eq!(state_of(&pool, i), WorkerState::Joined);
    }
    assert!(pool.is_closing());
    assert_eq!(pool.pending_jobs(), 0);
}

#[test]
fn submit_after_shutdown_is_refused() {
    let ran = Rc::new(RefCell::new(false));
    let mut pool: ThreadPool<Job> = ThreadPool::new(2);
    assert_eq!(pool.shutdown(), Shutdown::Done);
    let r = Rc::clone(&ran);
    let refused = pool.execute(Box::new(move || *r.borrow_mut() = true));
    // The task comes back to the caller, unexecuted.
    assert!(refused.is_err());
    assert_eq!(pool.pending_jobs(), 0);
    assert!(pool.receive(0).is_none());
    assert!(!pool.finish(0));
    assert!(pool.run_loop(0));
    assert!(!*ran.borrow());
}

#[test]
fn task_sent_during_shutdown_is_stranded() {
    let mut pool: ThreadPool<u32> = ThreadPool::new(1);
    assert!(pool.execute(4).is_ok());
    assert!(pool.begin_shutdown());
    // A worker is still there to receive: the send goes through.
    assert_eq!(pool.execute(5), Ok(()));
    assert_eq!(pool.pending_jobs(), 1);
    assert_eq!(pool.stranded_jobs(), 1);
    assert!(matches!(pool.receive(0), Some(Message::NewJob(4))));
    assert!(pool.finish(0));
    assert!(matches!(pool.receive(0), Some(Message::Terminate)));
    // The worker is gone, the late task stays on the channel.
    assert!(pool.receive(0).is_none());
    assert_eq!(pool.stranded_jobs(), 1);
    assert_eq!(pool.execute(6), Err(6));
    assert_eq!(pool.stranded_jobs(), 1);
    assert!(pool.join(0));
}

#[test]
fn shutdown_twice_changes_nothing() {
    let counter = Rc::new(RefCell::new(0u32));
    let mut pool: ThreadPool<Job> = ThreadPool::new(3);
    let c = Rc::clone(&counter);
    assert!(pool.execute(Box::new(move || *c.borrow_mut() += 1)).is_ok());
    assert_eq!(pool.shutdown(), Shutdown::Done);
    assert_eq!(pool.shutdown(), Shutdown::Done);
    assert_eq!(*counter.borrow(), 1);
    for i in 0..3 {
        assert_eq!(state_of(&pool, i), WorkerState::Joined);
        assert!(pool.join(i));
        assert_eq!(state_of(&pool, i), WorkerState::Joined);
    }
    assert_eq!(pool.size(), 3);
    assert_eq!(pool.pending_jobs(), 0);
}

#[test]
fn first_pass_sends_one_terminate_per_worker() {
    let mut pool: ThreadPool<u32> = ThreadPool::new(2);
    assert!(pool.execute(4).is_ok());
    assert!(pool.begin_shutdown());
    assert!(pool.begin_shutdown());
    assert!(pool.is_closing());
    assert_eq!(pool.pending_jobs(), 1);
    // A live worker cannot be joined yet.
    assert!(!pool.join(0));
    assert!(matches!(pool.receive(0), Some(Message::NewJob(4))));
    assert!(matches!(pool.receive(1), Some(Message::Terminate)));
    assert_eq!(state_of(&pool, 1), WorkerState::Terminating);
    assert!(pool.join(1));
    assert_eq!(state_of(&pool, 1), WorkerState::Joined);
    assert!(pool.finish(0));
    assert!(matches!(pool.receive(0), Some(Message::Terminate)));
    // Exactly two were sent: nothing is left.
    assert!(pool.receive(0).is_none());
    assert!(pool.join(0));
    assert!(!pool.join(2));
}

#[test]
fn failed_worker_is_lost_and_not_replaced() {
    let mut pool: ThreadPool<u32> = ThreadPool::new(2);
    assert!(pool.execute(1).is_ok());
    assert!(pool.execute(2).is_ok());
    assert!(matches!(pool.receive(0), Some(Message::NewJob(1))));
    // Only a running worker can fail.
    assert!(!pool.fail(1));
    assert!(!pool.fail(2));
    assert!(pool.fail(0));
    assert_eq!(state_of(&pool, 0), WorkerState::Failed);
    assert!(!pool.fail(0));
    assert!(!pool.finish(0));
    assert!(pool.receive(0).is_none());
    assert!(!pool.join(0));
    // The other worker carries on alone.
    assert_eq!(pool.size(), 2);
    assert!(matches!(pool.receive(1), Some(Message::NewJob(2))));
    assert!(pool.finish(1));
    assert!(pool.execute(3).is_ok());
    assert!(matches!(pool.receive(1), Some(Message::NewJob(3))));
}

#[test]
fn shutdown_reports_the_worker_that_cannot_be_joined() {
    let mut pool: ThreadPool<Job> = ThreadPool::new(3);
    assert!(pool.execute(Box::new(|| {})).is_ok());
    assert!(matches!(pool.receive(1), Some(Message::NewJob(_))));
    assert!(pool.fail(1));
    assert_eq!(pool.shutdown(), Shutdown::JoinFailed(1));
    assert_eq!(state_of(&pool, 0), WorkerState::Joined);
    assert_eq!(state_of(&pool, 1), WorkerState::Failed);
    assert_eq!(state_of(&pool, 2), WorkerState::Idle);
    // Asking again does not get past the failed worker.
    assert_eq!(pool.shutdown(), Shutdown::JoinFailed(1));
    assert_eq!(state_of(&pool, 2), WorkerState::Idle);
}

#[test]
fn channel_is_closed_when_every_worker_has_failed() {
    let mut pool: ThreadPool<u32> = ThreadPool::new(1);
    assert!(pool.execute(1).is_ok());
    assert!(pool.execute(2).is_ok());
    assert!(matches!(pool.receive(0), Some(Message::NewJob(1))));
    assert!(pool.fail(0));
    // Nobody is left to receive: sends fail, and so does the first pass.
    assert_eq!(pool.execute(3), Err(3));
    assert!(!pool.begin_shutdown());
    assert!(!pool.is_closing());
    assert_eq!(pool.pending_jobs(), 1);

    let mut jobs: ThreadPool<Job> = ThreadPool::new(1);
    assert!(jobs.execute(Box::new(|| {})).is_ok());
    assert!(matches!(jobs.receive(0), Some(Message::NewJob(_))));
    assert!(jobs.fail(0));
    assert_eq!(jobs.shutdown(), Shutdown::JoinFailed(0));
    assert!(!jobs.is_closing());
}
