//! The coordination core of a fixed-size worker pool.
//!
//! The pool owns a FIFO work channel and a fixed set of workers. Everything
//! that is a decision lives here: what a worker does with the message it
//! receives, when a submission is refused, and the two passes of shutdown.
//! Threads, locks and blocking are left to the caller, which performs the
//! step the pool hands out and reports back.

use crate::channel::{Channel, Message};
use crate::pool_model::{
    lemma_close_wf, lemma_fail_wf, lemma_finish_wf, lemma_join_wf, lemma_live_count_bounds,
    lemma_live_count_update, lemma_receive_wf, lemma_unexited_count_bounds,
    lemma_serve_one, lemma_submit_wf, lemma_torn_down, live_count, tasks_of, PoolState,
};
use vstd::prelude::*;

verus! {

/// Where a worker stands in its life.
#[derive(Clone, Copy, PartialEq, Eq, Debug, Structural)]
pub enum WorkerState {
    /// Waiting for the next message.
    Idle,
    /// Executing a task; it receives nothing until the task is finished.
    Running,
    /// Has received `Terminate` and left its loop; ready to be joined.
    Terminating,
    /// Joined by the pool; its thread handle is consumed.
    Joined,
    /// Its task failed and took the worker's thread with it. The worker
    /// receives nothing more, and a join of it fails.
    Failed,
}

impl WorkerState {
    /// A live worker is in its loop: it will receive again.
    pub open spec fn is_live(self) -> bool {
        self is Idle || self is Running
    }

    /// A worker has exited when it has left its loop on a `Terminate`.
    pub open spec fn has_exited(self) -> bool {
        self is Terminating || self is Joined
    }

    /// The steps that a worker in this state has yet to take before it has
    /// left its loop, not counting the tasks that wait: a running worker
    /// completes its task and receives, an idle one receives.
    pub open spec fn rank(self) -> nat {
        match self {
            WorkerState::Running => 2,
            WorkerState::Idle => 1,
            _ => 0,
        }
    }
}

/// One worker of the pool: a stable identifier and its current state.
#[derive(Clone, Copy, Debug)]
pub struct Worker {
    id: usize,
    state: WorkerState,
}

impl Worker {
    /// The identifier given at construction.
    pub closed spec fn spec_id(self) -> usize {
        self.id
    }

    /// The worker's current state.
    pub closed spec fn spec_state(self) -> WorkerState {
        self.state
    }

    fn new(id: usize) -> (w: Worker)
        ensures
            w.spec_id() == id,
            w.spec_state() == WorkerState::Idle,
    {
        Worker { id, state: WorkerState::Idle }
    }

    /// The identifier given at construction.
    pub fn id(&self) -> (id: usize)
        ensures
            id == self.spec_id(),
    {
        self.id
    }

    /// The worker's current state.
    pub fn state(&self) -> (s: WorkerState)
        ensures
            s == self.spec_state(),
    {
        self.state
    }
}

/// A fixed set of workers behind one FIFO work channel.
pub struct ThreadPool<T> {
    workers: Vec<Worker>,
    channel: Channel<T>,
    terminates: usize,
    late: usize,
    closing: bool,
    pending: Ghost<Seq<T>>,
    stranded: Ghost<Seq<T>>,
    submitted: Ghost<Seq<T>>,
    dispatched: Ghost<Seq<(int, T)>>,
    current: Ghost<Seq<Option<int>>>,
    done: Ghost<Seq<bool>>,
}

impl<T> View for ThreadPool<T> {
    type V = PoolState<T>;

    closed spec fn view(&self) -> PoolState<T> {
        PoolState {
            workers: Seq::new(self.workers@.len(), |i: int| self.workers@[i].state),
            current: self.current@,
            pending: self.pending@,
            terminates: self.terminates as nat,
            stranded: self.stranded@,
            closing: self.closing,
            submitted: self.submitted@,
            dispatched: self.dispatched@,
            done: self.done@,
        }
    }
}

impl<T> ThreadPool<T> {
    /// The stored channel and workers agree with the mathematical state.
    pub closed spec fn consistent(&self) -> bool {
        &&& self.channel@.queue == self@.queue()
        &&& self.channel@.receivers == live_count(self@.workers)
        &&& self.late == self.stranded@.len()
        &&& forall|i: int| 0 <= i < self.workers@.len() ==> (#[trigger] self.workers@[i]).id == i
    }

    /// Validity of a pool: every constructor establishes it and every method
    /// keeps it.
    pub open spec fn wf(&self) -> bool {
        self.consistent() && self@.wf()
    }

    /// Creates a pool of `thread_amount` idle workers, numbered from 0, with an
    /// empty channel.
    pub fn new(thread_amount: usize) -> (pool: ThreadPool<T>)
        requires
            thread_amount > 0,
        ensures
            pool.wf(),
            pool@ == PoolState::<T>::fresh(thread_amount as nat),
            pool@.workers.len() == thread_amount,
    {
        let mut workers: Vec<Worker> = Vec::with_capacity(thread_amount);
        let mut i: usize = 0;
        while i < thread_amount
            invariant
                i <= thread_amount,
                workers@.len() == i,
                forall|k: int|
                    0 <= k < i ==> (#[trigger] workers@[k]).id == k && workers@[k].state
                        == WorkerState::Idle,
            decreases thread_amount - i,
        {
            workers.push(Worker::new(i));
            i += 1;
        }
        let pool = ThreadPool {
            workers,
            channel: Channel::new(thread_amount),
            terminates: 0,
            late: 0,
            closing: false,
            pending: Ghost(Seq::empty()),
            stranded: Ghost(Seq::empty()),
            submitted: Ghost(Seq::empty()),
            dispatched: Ghost(Seq::empty()),
            current: Ghost(Seq::new(thread_amount as nat, |i: int| None::<int>)),
            done: Ghost(Seq::empty()),
        };
        proof {
            assert(pool@.workers =~= PoolState::<T>::fresh(thread_amount as nat).workers);
            assert(pool.channel@.queue =~= pool@.queue());
            lemma_live_count_bounds(pool@.workers);
            lemma_unexited_count_bounds(pool@.workers);
            assert(tasks_of(pool@.dispatched) + pool@.pending + pool@.stranded =~= pool@.submitted);
        }
        pool
    }

    /// The number of workers, fixed at construction.
    pub fn size(&self) -> (n: usize)
        ensures
            n == self@.workers.len(),
    {
        self.workers.len()
    }

    /// Worker `worker`, or `None` where the pool has no such worker.
    pub fn worker(&self, worker: usize) -> (w: Option<Worker>)
        requires
            self.wf(),
        ensures
            worker < self@.workers.len() <==> w is Some,
            w matches Some(x) ==> x.spec_id() == worker && x.spec_state()
                == self@.workers[worker as int],
    {
        if worker < self.workers.len() {
            Some(self.workers[worker])
        } else {
            None
        }
    }

    /// The number of tasks waiting on the channel.
    pub fn pending_jobs(&self) -> (n: usize)
        requires
            self.wf(),
        ensures
            n == self@.pending.len(),
    {
        self.channel.len() - self.terminates - self.late
    }

    /// The number of tasks that were accepted after shutdown had begun and
    /// that no worker will take.
    pub fn stranded_jobs(&self) -> (n: usize)
        requires
            self.wf(),
        ensures
            n == self@.stranded.len(),
    {
        self.late
    }

    /// Whether shutdown has begun.
    pub fn is_closing(&self) -> (b: bool)
        ensures
            b == self@.closing,
    {
        self.closing
    }

    /// Submits `task`: it is sent on the channel, behind everything that is on
    /// it. The send fails, and hands the task back, only where the consuming
    /// side is gone, that is when every worker has left its loop. A task sent
    /// after shutdown has begun lands behind the `Terminate` messages and is
    /// never executed.
    pub fn execute(&mut self, task: T) -> (r: Result<(), T>)
        requires
            old(self).wf(),
        ensures
            final(self).wf(),
            old(self)@.torn_down() ==> r == Err::<(), T>(task) && final(self)@ == old(self)@,
            !old(self)@.torn_down() ==> r is Ok && final(self)@ == old(self)@.submit(task),
    {
        proof {
            lemma_torn_down(self@);
            lemma_submit_wf(self@, task);
        }
        if self.channel.receivers() == 0 {
            return Err(task);
        }
        let sent = self.channel.send(Message::NewJob(task));
        assert(sent is Ok);
        if self.closing {
            self.stranded = Ghost(self.stranded@.push(task));
            let queued = self.channel.len();
            assert(self.late < queued);
            self.late = self.late + 1;
        } else {
            self.pending = Ghost(self.pending@.push(task));
        }
        self.submitted = Ghost(self.submitted@.push(task));
        proof {
            assert(self.channel@.queue =~= self@.queue());
        }
        Ok(())
    }

    /// Worker `worker` asks for the next message. An idle worker gets the
    /// message at the front of the channel and moves on: to `Running` with a
    /// task, out of its loop with `Terminate`. On an empty channel, or for a
    /// worker that is not idle, nothing happens and the result is `None`.
    pub fn receive(&mut self, worker: usize) -> (r: Option<Message<T>>)
        requires
            old(self).wf(),
        ensures
            final(self).wf(),
            old(self)@.can_receive(worker as int) ==> r == Some(old(self)@.front()) && final(self)@
                == old(self)@.receive(worker as int),
            !old(self)@.can_receive(worker as int) ==> r is None && final(self)@ == old(self)@,
    {
        if worker >= self.workers.len() {
            return None;
        }
        let w = self.workers[worker];
        match w.state {
            WorkerState::Idle => {},
            _ => {
                return None;
            },
        }
        proof {
            lemma_unexited_count_bounds(self@.workers);
            assert(!self@.workers[worker as int].has_exited());
        }
        match self.channel.receive() {
            None => None,
            Some(Message::NewJob(task)) => {
                proof {
                    lemma_receive_wf(self@, worker as int);
                }
                let ghost before = self@;
                self.workers.set(worker, Worker { id: w.id, state: WorkerState::Running });
                self.pending = Ghost(self.pending@.drop_first());
                self.current = Ghost(
                    self.current@.update(worker as int, Some(self.dispatched@.len() as int)),
                );
                self.dispatched = Ghost(self.dispatched@.push((worker as int, task)));
                self.done = Ghost(self.done@.push(false));
                proof {
                    assert(self@.workers =~= before.receive(worker as int).workers);
                    lemma_live_count_update(before.workers, worker as int, WorkerState::Running);
                    assert(self.channel@.queue =~= self@.queue());
                }
                Some(Message::NewJob(task))
            },
            Some(Message::Terminate) => {
                proof {
                    lemma_receive_wf(self@, worker as int);
                }
                let ghost before = self@;
                self.workers.set(worker, Worker { id: w.id, state: WorkerState::Terminating });
                self.terminates = self.terminates - 1;
                self.channel.drop_receiver();
                proof {
                    assert(self@.workers =~= before.receive(worker as int).workers);
                    lemma_live_count_update(
                        before.workers,
                        worker as int,
                        WorkerState::Terminating,
                    );
                    assert(self.channel@.queue =~= self@.queue());
                }
                Some(Message::Terminate)
            },
        }
    }

    /// Worker `worker` reports that its task is complete and becomes idle
    /// again. For a worker that is not running nothing happens and the result
    /// is `false`.
    pub fn finish(&mut self, worker: usize) -> (done: bool)
        requires
            old(self).wf(),
        ensures
            final(self).wf(),
            done == old(self)@.is_running(worker as int),
            done ==> final(self)@ == old(self)@.finish(worker as int),
            !done ==> final(self)@ == old(self)@,
    {
        if worker >= self.workers.len() {
            return false;
        }
        let w = self.workers[worker];
        match w.state {
            WorkerState::Running => {},
            _ => {
                return false;
            },
        }
        proof {
            lemma_finish_wf(self@, worker as int);
        }
        let ghost before = self@;
        self.workers.set(worker, Worker { id: w.id, state: WorkerState::Idle });
        self.done = Ghost(self.done@.update(self.current@[worker as int].unwrap(), true));
        self.current = Ghost(self.current@.update(worker as int, None));
        proof {
            assert(self@.workers =~= before.finish(worker as int).workers);
            lemma_live_count_update(before.workers, worker as int, WorkerState::Idle);
        }
        true
    }

    /// Worker `worker` reports that its task failed and that its thread is
    /// lost with it. The pool does not replace the worker: it has one
    /// receiver less from now on. For a worker that is not running nothing
    /// happens and the result is `false`.
    pub fn fail(&mut self, worker: usize) -> (lost: bool)
        requires
            old(self).wf(),
        ensures
            final(self).wf(),
            lost == old(self)@.is_running(worker as int),
            lost ==> final(self)@ == old(self)@.fail(worker as int),
            !lost ==> final(self)@ == old(self)@,
    {
        if worker >= self.workers.len() {
            return false;
        }
        let w = self.workers[worker];
        match w.state {
            WorkerState::Running => {},
            _ => {
                return false;
            },
        }
        proof {
            lemma_fail_wf(self@, worker as int);
            lemma_live_count_bounds(self@.workers);
            assert(self@.workers[worker as int].is_live());
        }
        let ghost before = self@;
        self.workers.set(worker, Worker { id: w.id, state: WorkerState::Failed });
        self.channel.drop_receiver();
        proof {
            assert(self@.workers =~= before.fail(worker as int).workers);
            lemma_live_count_update(before.workers, worker as int, WorkerState::Failed);
        }
        true
    }

    /// The first pass of shutdown: sends one `Terminate` per worker. A second
    /// call sends nothing. Where every worker has failed before the first
    /// call, the channel is closed and nothing can be sent: the pool stays
    /// as it is. The result says whether the pass is done.
    pub fn begin_shutdown(&mut self) -> (sent: bool)
        requires
            old(self).wf(),
        ensures
            final(self).wf(),
            final(self)@ == old(self)@.close(),
            sent == final(self)@.closing,
    {
        if self.closing {
            return true;
        }
        proof {
            lemma_close_wf(self@);
            lemma_torn_down(self@);
        }
        if self.channel.receivers() == 0 {
            return false;
        }
        let n = self.workers.len();
        let ghost before = self@;
        let mut sent: usize = 0;
        while sent < n
            invariant
                sent <= n,
                n == self.workers@.len(),
                self.workers@ == old(self).workers@,
                self.terminates == 0,
                self@ == before,
                before.stranded.len() == 0,
                self.late == 0,
                self.channel@.receivers == old(self).channel@.receivers,
                self.channel@.receivers > 0,
                self.channel@.queue.len() == before.pending.len() + sent,
                forall|i: int|
                    0 <= i < self.channel@.queue.len() ==> #[trigger] self.channel@.queue[i] == if i
                        < before.pending.len() {
                        Message::NewJob(before.pending[i])
                    } else {
                        Message::Terminate
                    },
            decreases n - sent,
        {
            let accepted = self.channel.send(Message::Terminate);
            assert(accepted is Ok);
            sent += 1;
        }
        self.terminates = n;
        self.closing = true;
        proof {
            assert(self@.workers =~= before.workers);
            assert(self.channel@.queue =~= self@.queue());
        }
        true
    }

    /// One step of the second pass of shutdown: joins worker `worker` if it has
    /// left its loop. The result says whether the worker is joined after the
    /// call; joining a joined worker again changes nothing. For a worker that
    /// is still live, that has failed, or that the pool does not have, the
    /// result is `false`.
    pub fn join(&mut self, worker: usize) -> (joined: bool)
        requires
            old(self).wf(),
        ensures
            final(self).wf(),
            joined == (worker < old(self)@.workers.len() && old(self)@.workers[worker as int]
                .has_exited()),
            old(self)@.can_join(worker as int) ==> final(self)@ == old(self)@.join(worker as int),
            !old(self)@.can_join(worker as int) ==> final(self)@ == old(self)@,
    {
        if worker >= self.workers.len() {
            return false;
        }
        let w = self.workers[worker];
        match w.state {
            WorkerState::Terminating => {
                proof {
                    lemma_join_wf(self@, worker as int);
                }
                let ghost before = self@;
                self.workers.set(worker, Worker { id: w.id, state: WorkerState::Joined });
                proof {
                    assert(self@.workers =~= before.join(worker as int).workers);
                    lemma_live_count_update(before.workers, worker as int, WorkerState::Joined);
                }
                true
            },
            WorkerState::Joined => true,
            _ => false,
        }
    }

}

/// How a call of `shutdown` ended.
#[derive(Clone, Copy, PartialEq, Eq, Debug, Structural)]
pub enum Shutdown {
    /// Every worker is joined.
    Done,
    /// The worker named is executing a task, and a join of it would block
    /// until that task is complete.
    WaitingFor(usize),
    /// The worker named has failed and cannot be joined. Shutdown goes no
    /// further.
    JoinFailed(usize),
}

impl<T: FnOnce()> ThreadPool<T> {
    /// Every waiting task can be called.
    pub open spec fn runnable(&self) -> bool {
        forall|k: int|
            0 <= k < self@.pending.len() ==> call_requires(#[trigger] self@.pending[k], ())
    }

    /// The loop of worker `worker`, run until it would block: the worker takes
    /// message after message, executes each task to its end before it takes
    /// the next, and leaves the loop at the first `Terminate`. The result
    /// says whether the worker has left its loop on a `Terminate`. A worker
    /// that is not idle does not move.
    pub fn run_loop(&mut self, worker: usize) -> (exited: bool)
        requires
            old(self).wf(),
            old(self).runnable(),
        ensures
            final(self).wf(),
            final(self).runnable(),
            exited == (worker < final(self)@.workers.len() && final(self)@.workers[worker as int]
                .has_exited()),
            !old(self)@.is_idle(worker as int) ==> final(self)@ == old(self)@,
            old(self)@.is_idle(worker as int) ==> final(self)@ == if old(self)@.terminates > 0 {
                old(self)@.drained_by(worker as int).receive(worker as int)
            } else {
                old(self)@.drained_by(worker as int)
            },
    {
        if worker >= self.workers.len() {
            return false;
        }
        match self.workers[worker].state {
            WorkerState::Idle => {},
            WorkerState::Terminating => {
                return true;
            },
            WorkerState::Joined => {
                return true;
            },
            _ => {
                return false;
            },
        }
        let ghost start = self@;
        let ghost mut j: int = 0;
        proof {
            assert(start.served(worker as int, 0).pending =~= start.pending);
            assert(start.served(worker as int, 0).dispatched =~= start.dispatched);
            assert(start.served(worker as int, 0).done =~= start.done);
        }
        loop
            invariant
                self.wf(),
                start == old(self)@,
                start.wf(),
                start.is_idle(worker as int),
                0 <= j <= start.pending.len(),
                self@ == start.served(worker as int, j),
                forall|k: int|
                    0 <= k < start.pending.len() ==> call_requires(#[trigger] start.pending[k], ()),
            decreases start.pending.len() - j,
        {
            match self.receive(worker) {
                Some(Message::NewJob(task)) => {
                    assert(task == start.pending[j]);
                    task();
                    self.finish(worker);
                    proof {
                        lemma_serve_one(start, worker as int, j);
                        j = j + 1;
                    }
                },
                Some(Message::Terminate) => {
                    return true;
                },
                None => {
                    return false;
                },
            }
        }
    }

    /// The two passes of shutdown, run until a join would block or fails. The
    /// first pass sends one `Terminate` per worker, unless that was done
    /// before. The second joins the workers in the order of their identifiers:
    /// a worker that is waited for runs its loop to the end, so worker 0 takes
    /// every task that is still waiting. Where a worker is executing a task
    /// the call returns and names it; once that task is complete, another
    /// call goes on from there. Where a worker has failed, its join fails: the
    /// call returns and names it, and no later call gets past it. On a pool
    /// that is shut down nothing happens.
    pub fn shutdown(&mut self) -> (r: Shutdown)
        requires
            old(self).wf(),
            old(self).runnable(),
        ensures
            final(self).wf(),
            final(self).runnable(),
            r is Done <==> forall|j: int| !old(self)@.blocks_join(j),
            r is Done ==> final(self)@.is_shut_down() && final(self)@ == old(self)@.shut_down_below(
                old(self)@.workers.len() as int,
            ),
            r matches Shutdown::WaitingFor(w) ==> old(self)@.is_running(w as int) && (forall|j: int|
                0 <= j < w ==> !old(self)@.blocks_join(j)) && final(self)@
                == old(self)@.shut_down_below(w as int),
            r matches Shutdown::JoinFailed(w) ==> old(self)@.has_failed(w as int) && (forall|j: int|
                0 <= j < w ==> !old(self)@.blocks_join(j)) && final(self)@
                == old(self)@.shut_down_below(w as int),
    {
        let ghost start = self@;
        self.begin_shutdown();
        let n = self.workers.len();
        let mut i: usize = 0;
        proof {
            lemma_close_wf(start);
            let t = start.shut_down_below(0);
            assert(t.workers =~= start.workers);
        }
        while i < n
            invariant
                self.wf(),
                self.runnable(),
                start == old(self)@,
                start.wf(),
                n == start.workers.len(),
                i <= n,
                self@ == start.shut_down_below(i as int),
                forall|j: int| 0 <= j < i ==> !start.blocks_join(j),
            decreases n - i,
        {
            let ghost before = self@;
            match self.workers[i].state {
                WorkerState::Running => {
                    assert(start.blocks_join(i as int));
                    return Shutdown::WaitingFor(i);
                },
                WorkerState::Failed => {
                    assert(start.blocks_join(i as int));
                    return Shutdown::JoinFailed(i);
                },
                _ => {},
            }
            proof {
                lemma_unexited_count_bounds(before.workers);
                if !before.closing {
                    assert(start.torn_down());
                    assert(!start.workers[i as int].is_live());
                    assert(!before.workers[i as int].has_exited());
                }
                if before.workers[i as int] is Idle {
                    assert(!before.workers[i as int].has_exited());
                    assert(before.terminates > 0);
                }
                if i > 0 {
                    assert(before.workers[0].has_exited());
                    assert(before.pending.len() == 0);
                }
                assert(before.workers[i as int] == start.workers[i as int]);
            }
            self.run_loop(i);
            self.join(i);
            proof {
                let after = self@;
                let goal = start.shut_down_below(i + 1);
                assert(after.workers =~= goal.workers);
                if i > 0 {
                    assert(before.drained_by(i as int).pending =~= before.pending);
                    assert(before.drained_by(i as int).dispatched =~= before.dispatched);
                    assert(before.drained_by(i as int).done =~= before.done);
                } else {
                    assert(start.close().drained_by(0).pending =~= Seq::<T>::empty());
                }
                assert(after.pending =~= goal.pending);
                assert(after.dispatched =~= goal.dispatched);
                assert(after.done =~= goal.done);
                assert(after.current =~= goal.current);
            }
            i += 1;
        }
        proof {
            lemma_unexited_count_bounds(self@.workers);
            assert(self@.workers[0].has_exited());
            assert forall|j: int| !start.blocks_join(j) by {}
        }
        Shutdown::Done
    }
}

} // verus!
