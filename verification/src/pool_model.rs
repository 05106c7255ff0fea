//! The mathematical state of a worker pool and the steps that change it.
//!
//! A step is taken by one worker or by the pool's owner; the steps of
//! different workers may follow each other in any order. What is proved here
//! of single steps therefore holds of every interleaving.

use crate::channel::Message;
use crate::pool::WorkerState;
use vstd::prelude::*;

verus! {

/// Number of live workers in `ws`.
pub open spec fn live_count(ws: Seq<WorkerState>) -> nat
    decreases ws.len(),
{
    if ws.len() == 0 {
        0
    } else {
        live_count(ws.drop_last()) + if ws.last().is_live() { 1nat } else { 0nat }
    }
}

/// Number of workers in `ws` that have not left their loop on a `Terminate`.
pub open spec fn unexited_count(ws: Seq<WorkerState>) -> nat
    decreases ws.len(),
{
    if ws.len() == 0 {
        0
    } else {
        unexited_count(ws.drop_last()) + if ws.last().has_exited() { 0nat } else { 1nat }
    }
}

/// Sum of the ranks of the workers in `ws`.
pub open spec fn rank_sum(ws: Seq<WorkerState>) -> nat
    decreases ws.len(),
{
    if ws.len() == 0 {
        0
    } else {
        rank_sum(ws.drop_last()) + ws.last().rank()
    }
}

/// The tasks of a dispatch log, in order, without the workers.
pub open spec fn tasks_of<T>(log: Seq<(int, T)>) -> Seq<T> {
    Seq::new(log.len(), |k: int| log[k].1)
}

/// The mathematical state of a pool.
pub struct PoolState<T> {
    /// The state of each worker, by identifier.
    pub workers: Seq<WorkerState>,
    /// For each worker, the place in `dispatched` of the task that it is
    /// executing or has failed on, if there is one.
    pub current: Seq<Option<int>>,
    /// The tasks waiting on the channel, oldest first.
    pub pending: Seq<T>,
    /// The `Terminate` messages waiting on the channel, behind those tasks.
    pub terminates: nat,
    /// The tasks accepted after the first pass of shutdown. They wait behind
    /// the `Terminate` messages, where no worker will come to take them.
    pub stranded: Seq<T>,
    /// Whether the first pass of shutdown is done.
    pub closing: bool,
    /// Every task ever accepted, in order of submission.
    pub submitted: Seq<T>,
    /// Every task ever handed to a worker, with that worker, in order.
    pub dispatched: Seq<(int, T)>,
    /// For each task handed out, whether its execution is complete.
    pub done: Seq<bool>,
}

impl<T> PoolState<T> {
    /// A pool of `n` idle workers with nothing submitted.
    pub open spec fn fresh(n: nat) -> Self {
        PoolState {
            workers: Seq::new(n, |i: int| WorkerState::Idle),
            current: Seq::new(n, |i: int| None::<int>),
            pending: Seq::empty(),
            terminates: 0,
            stranded: Seq::empty(),
            closing: false,
            submitted: Seq::empty(),
            dispatched: Seq::empty(),
            done: Seq::empty(),
        }
    }

    /// The content of the work channel, front first.
    pub open spec fn queue(self) -> Seq<Message<T>> {
        Seq::new(
            self.pending.len() + self.terminates + self.stranded.len(),
            |i: int|
                if i < self.pending.len() {
                    Message::NewJob(self.pending[i])
                } else if i < self.pending.len() + self.terminates {
                    Message::Terminate
                } else {
                    Message::NewJob(self.stranded[i - self.pending.len() - self.terminates])
                },
        )
    }

    /// No worker has left its loop on a `Terminate`.
    pub open spec fn none_exited(self) -> bool {
        forall|i: int| 0 <= i < self.workers.len() ==> !(#[trigger] self.workers[i]).has_exited()
    }

    /// What holds of every state that a pool can reach.
    pub open spec fn wf(self) -> bool {
        &&& self.workers.len() > 0
        &&& self.current.len() == self.workers.len()
        &&& self.done.len() == self.dispatched.len()
        &&& forall|k: int|
            0 <= k < self.dispatched.len() ==> 0 <= (#[trigger] self.dispatched[k]).0
                < self.workers.len()
        &&& tasks_of(self.dispatched) + self.pending + self.stranded == self.submitted
        &&& forall|w: int|
            0 <= w < self.workers.len() ==> (((#[trigger] self.workers[w]) is Running
                || self.workers[w] is Failed) <==> self.current[w] is Some)
        &&& forall|w: int|
            0 <= w < self.workers.len() ==> (#[trigger] self.current[w] matches Some(k) ==> 0 <= k
                < self.dispatched.len() && self.dispatched[k].0 == w && !self.done[k])
        &&& forall|k: int|
            0 <= k < self.dispatched.len() && !(#[trigger] self.done[k])
                ==> self.current[self.dispatched[k].0] == Some(k)
        &&& self.pending.len() > 0 ==> self.none_exited()
        &&& if self.closing {
            self.terminates == unexited_count(self.workers)
        } else {
            self.terminates == 0 && self.stranded.len() == 0 && self.none_exited()
        }
    }

    /// The consuming side of the channel is gone: no worker is in its loop
    /// any more, each has left it on a `Terminate` or failed.
    pub open spec fn torn_down(self) -> bool {
        forall|i: int| 0 <= i < self.workers.len() ==> !(#[trigger] self.workers[i]).is_live()
    }

    /// The state after `task` was sent on the channel: behind everything that
    /// is on it.
    pub open spec fn submit(self, task: T) -> Self {
        if self.closing {
            PoolState {
                stranded: self.stranded.push(task),
                submitted: self.submitted.push(task),
                ..self
            }
        } else {
            PoolState {
                pending: self.pending.push(task),
                submitted: self.submitted.push(task),
                ..self
            }
        }
    }

    /// Whether worker `w` is waiting for a message.
    pub open spec fn is_idle(self, w: int) -> bool {
        0 <= w < self.workers.len() && self.workers[w] is Idle
    }

    /// Whether worker `w` would get a message if it asked now.
    pub open spec fn can_receive(self, w: int) -> bool {
        self.is_idle(w) && self.pending.len() + self.terminates > 0
    }

    /// The message at the front of the channel.
    pub open spec fn front(self) -> Message<T> {
        self.queue()[0]
    }

    /// The state after worker `w` took the front message.
    pub open spec fn receive(self, w: int) -> Self {
        if self.pending.len() > 0 {
            PoolState {
                workers: self.workers.update(w, WorkerState::Running),
                current: self.current.update(w, Some(self.dispatched.len() as int)),
                pending: self.pending.drop_first(),
                dispatched: self.dispatched.push((w, self.pending[0])),
                done: self.done.push(false),
                ..self
            }
        } else {
            PoolState {
                workers: self.workers.update(w, WorkerState::Terminating),
                terminates: (self.terminates - 1) as nat,
                ..self
            }
        }
    }

    /// Whether worker `w` is executing a task.
    pub open spec fn is_running(self, w: int) -> bool {
        0 <= w < self.workers.len() && self.workers[w] is Running
    }

    /// Whether worker `w` has failed.
    pub open spec fn has_failed(self, w: int) -> bool {
        0 <= w < self.workers.len() && self.workers[w] is Failed
    }

    /// Whether a join of worker `w` would not come back with the worker
    /// joined, even if the worker were handed every message it can take:
    /// it is executing a task, or it has failed.
    pub open spec fn blocks_join(self, w: int) -> bool {
        self.is_running(w) || self.has_failed(w)
    }

    /// The state after worker `w` completed its task.
    pub open spec fn finish(self, w: int) -> Self {
        PoolState {
            workers: self.workers.update(w, WorkerState::Idle),
            current: self.current.update(w, None),
            done: self.done.update(self.current[w].unwrap(), true),
            ..self
        }
    }

    /// The state after the task of worker `w` failed and took the worker's
    /// thread with it. The task stays incomplete and the worker stays with it.
    pub open spec fn fail(self, w: int) -> Self {
        PoolState { workers: self.workers.update(w, WorkerState::Failed), ..self }
    }

    /// The state after worker `w` took the first `j` waiting tasks one after
    /// the other and executed each to its end.
    pub open spec fn served(self, w: int, j: int) -> Self {
        PoolState {
            pending: self.pending.skip(j),
            dispatched: self.dispatched + Seq::new(j as nat, |k: int| (w, self.pending[k])),
            done: self.done + Seq::new(j as nat, |k: int| true),
            ..self
        }
    }

    /// The state after worker `w` took every waiting task and executed each to
    /// its end.
    pub open spec fn drained_by(self, w: int) -> Self {
        self.served(w, self.pending.len() as int)
    }

    /// The state after the first pass of shutdown: one `Terminate` per worker,
    /// once. Where the consuming side is gone nothing can be sent, and
    /// nothing changes.
    pub open spec fn close(self) -> Self {
        if self.closing || self.torn_down() {
            self
        } else {
            PoolState { terminates: self.workers.len(), closing: true, ..self }
        }
    }

    /// Whether worker `w` has left its loop and was not joined yet.
    pub open spec fn can_join(self, w: int) -> bool {
        0 <= w < self.workers.len() && self.workers[w] is Terminating
    }

    /// The state after worker `w` was joined.
    pub open spec fn join(self, w: int) -> Self {
        PoolState { workers: self.workers.update(w, WorkerState::Joined), ..self }
    }

    /// The state in which `shutdown` leaves the pool when it has joined the
    /// workers below `w`: the first pass is over, worker 0 has taken every task
    /// that was waiting unless it is itself yet to be joined, the workers
    /// below `w` are joined, and where the first pass could send, one
    /// `Terminate` is left for each worker that has not exited.
    pub open spec fn shut_down_below(self, w: int) -> Self {
        let base = if w > 0 {
            self.close().drained_by(0)
        } else {
            self.close()
        };
        let workers = Seq::new(
            self.workers.len(),
            |i: int|
                if i < w {
                    WorkerState::Joined
                } else {
                    self.workers[i]
                },
        );
        PoolState {
            workers,
            terminates: if base.closing {
                unexited_count(workers)
            } else {
                base.terminates
            },
            ..base
        }
    }

    /// Every worker has been joined and the channel is empty.
    pub open spec fn is_shut_down(self) -> bool {
        &&& self.closing
        &&& self.pending.len() == 0
        &&& self.terminates == 0
        &&& forall|i: int| 0 <= i < self.workers.len() ==> self.workers[i] is Joined
    }

    /// What is left to do before every worker has left its loop: two steps for
    /// each waiting task, and for each worker the steps to its next receive
    /// and that receive.
    pub open spec fn work_left(self) -> nat {
        2 * self.pending.len() + rank_sum(self.workers)
    }
}

/// Replacing one worker's state changes the number of live workers by that
/// worker's share alone.
pub proof fn lemma_live_count_update(ws: Seq<WorkerState>, i: int, s: WorkerState)
    requires
        0 <= i < ws.len(),
    ensures
        live_count(ws.update(i, s)) + (if ws[i].is_live() { 1nat } else { 0nat }) == live_count(ws)
            + (if s.is_live() { 1nat } else { 0nat }),
    decreases ws.len(),
{
    if i == ws.len() - 1 {
        assert(ws.update(i, s).drop_last() =~= ws.drop_last());
    } else {
        lemma_live_count_update(ws.drop_last(), i, s);
        assert(ws.update(i, s).drop_last() =~= ws.drop_last().update(i, s));
    }
}

/// Replacing one worker's state changes the number of workers that have not
/// exited by that worker's share alone.
pub proof fn lemma_unexited_count_update(ws: Seq<WorkerState>, i: int, s: WorkerState)
    requires
        0 <= i < ws.len(),
    ensures
        unexited_count(ws.update(i, s)) + (if ws[i].has_exited() { 0nat } else { 1nat })
            == unexited_count(ws) + (if s.has_exited() { 0nat } else { 1nat }),
    decreases ws.len(),
{
    if i == ws.len() - 1 {
        assert(ws.update(i, s).drop_last() =~= ws.drop_last());
    } else {
        lemma_unexited_count_update(ws.drop_last(), i, s);
        assert(ws.update(i, s).drop_last() =~= ws.drop_last().update(i, s));
    }
}

/// The number of workers that have not exited is the number of workers
/// where none has, zero where all have, and above zero where one has not.
pub proof fn lemma_unexited_count_bounds(ws: Seq<WorkerState>)
    ensures
        unexited_count(ws) <= ws.len(),
        (forall|i: int| 0 <= i < ws.len() ==> !(#[trigger] ws[i]).has_exited())
            ==> unexited_count(ws) == ws.len(),
        (forall|i: int| 0 <= i < ws.len() ==> (#[trigger] ws[i]).has_exited()) ==> unexited_count(
            ws,
        ) == 0,
        (exists|i: int| 0 <= i < ws.len() && !(#[trigger] ws[i]).has_exited()) ==> unexited_count(
            ws,
        ) > 0,
    decreases ws.len(),
{
    if ws.len() > 0 {
        let front = ws.drop_last();
        lemma_unexited_count_bounds(front);
        assert(forall|i: int| 0 <= i < front.len() ==> front[i] == ws[i]);
        if exists|i: int| 0 <= i < ws.len() && !(#[trigger] ws[i]).has_exited() {
            let i = choose|i: int| 0 <= i < ws.len() && !(#[trigger] ws[i]).has_exited();
            if i < front.len() {
                assert(!front[i].has_exited());
            }
        }
    }
}

/// Replacing one worker's state changes the sum of ranks by that worker's
/// share alone.
pub proof fn lemma_rank_sum_update(ws: Seq<WorkerState>, i: int, s: WorkerState)
    requires
        0 <= i < ws.len(),
    ensures
        rank_sum(ws.update(i, s)) + ws[i].rank() == rank_sum(ws) + s.rank(),
    decreases ws.len(),
{
    if i == ws.len() - 1 {
        assert(ws.update(i, s).drop_last() =~= ws.drop_last());
    } else {
        lemma_rank_sum_update(ws.drop_last(), i, s);
        assert(ws.update(i, s).drop_last() =~= ws.drop_last().update(i, s));
    }
}

/// The number of live workers is at most the number of workers; it is the
/// number of workers where all are live, zero where none is, and above zero
/// where one is.
pub proof fn lemma_live_count_bounds(ws: Seq<WorkerState>)
    ensures
        live_count(ws) <= ws.len(),
        (forall|i: int| 0 <= i < ws.len() ==> (#[trigger] ws[i]).is_live()) ==> live_count(ws)
            == ws.len(),
        (forall|i: int| 0 <= i < ws.len() ==> !(#[trigger] ws[i]).is_live()) ==> live_count(ws)
            == 0,
        (exists|i: int| 0 <= i < ws.len() && (#[trigger] ws[i]).is_live()) ==> live_count(ws) > 0,
    decreases ws.len(),
{
    if ws.len() > 0 {
        let front = ws.drop_last();
        lemma_live_count_bounds(front);
        assert(forall|i: int| 0 <= i < front.len() ==> front[i] == ws[i]);
        if exists|i: int| 0 <= i < ws.len() && (#[trigger] ws[i]).is_live() {
            let i = choose|i: int| 0 <= i < ws.len() && (#[trigger] ws[i]).is_live();
            if i < front.len() {
                assert(front[i].is_live());
            }
        }
    }
}

/// The sum of ranks is zero exactly where no worker is live.
pub proof fn lemma_rank_sum_zero(ws: Seq<WorkerState>)
    ensures
        rank_sum(ws) == 0 <==> forall|i: int| 0 <= i < ws.len() ==> !(#[trigger] ws[i]).is_live(),
    decreases ws.len(),
{
    if ws.len() > 0 {
        let front = ws.drop_last();
        lemma_rank_sum_zero(front);
        assert(forall|i: int| 0 <= i < front.len() ==> front[i] == ws[i]);
        if rank_sum(ws) == 0 {
            assert forall|i: int| 0 <= i < ws.len() implies !(#[trigger] ws[i]).is_live() by {
                if i < front.len() {
                    assert(!front[i].is_live());
                }
            }
        }
    }
}

/// Sending a task keeps the pool well formed.
pub proof fn lemma_submit_wf<T>(s: PoolState<T>, task: T)
    requires
        s.wf(),
    ensures
        s.submit(task).wf(),
{
    let t = s.submit(task);
    assert(tasks_of(t.dispatched) + t.pending + t.stranded =~= (tasks_of(s.dispatched) + s.pending
        + s.stranded).push(task));
}

/// The consuming side is gone exactly when the number of live workers is
/// zero.
pub proof fn lemma_torn_down<T>(s: PoolState<T>)
    ensures
        s.torn_down() <==> live_count(s.workers) == 0,
{
    lemma_live_count_bounds(s.workers);
}

/// A receive by any idle worker keeps the pool well formed, whatever the other
/// workers are doing.
pub proof fn lemma_receive_wf<T>(s: PoolState<T>, w: int)
    requires
        s.wf(),
        s.can_receive(w),
    ensures
        s.receive(w).wf(),
{
    let t = s.receive(w);
    if s.pending.len() > 0 {
        lemma_unexited_count_update(s.workers, w, WorkerState::Running);
        assert(tasks_of(t.dispatched) + t.pending + t.stranded =~= tasks_of(s.dispatched)
            + s.pending + s.stranded);
        assert forall|i: int| 0 <= i < t.workers.len() implies !(#[trigger] t.workers[i])
            .has_exited() by {
            assert(!s.workers[i].has_exited());
        }
        assert forall|k: int| 0 <= k < t.dispatched.len() && !(#[trigger] t.done[k])
            implies t.current[t.dispatched[k].0] == Some(k) by {
            if k < s.dispatched.len() {
                assert(!s.done[k]);
                assert(s.current[s.dispatched[k].0] is Some);
            }
        }
        assert forall|v: int| 0 <= v < t.workers.len() implies (#[trigger] t.current[v] matches
            Some(k) ==> 0 <= k < t.dispatched.len() && t.dispatched[k].0 == v && !t.done[k]) by {
            if v != w {
                assert(t.current[v] == s.current[v]);
            }
        }
    } else {
        lemma_unexited_count_update(s.workers, w, WorkerState::Terminating);
        assert forall|k: int| 0 <= k < t.dispatched.len() && !(#[trigger] t.done[k])
            implies t.current[t.dispatched[k].0] == Some(k) by {
            assert(!s.done[k]);
        }
    }
}

/// Completing a task keeps the pool well formed.
pub proof fn lemma_finish_wf<T>(s: PoolState<T>, w: int)
    requires
        s.wf(),
        s.is_running(w),
    ensures
        s.finish(w).wf(),
{
    let t = s.finish(w);
    let mine = s.current[w].unwrap();
    lemma_unexited_count_update(s.workers, w, WorkerState::Idle);
    assert(s.workers[w] is Running);
    assert forall|i: int| 0 <= i < t.workers.len() && !s.workers[i].has_exited() implies !(
    #[trigger] t.workers[i]).has_exited() by {}
    assert forall|v: int| 0 <= v < t.workers.len() implies (#[trigger] t.current[v] matches
        Some(k) ==> 0 <= k < t.dispatched.len() && t.dispatched[k].0 == v && !t.done[k]) by {
        if v != w {
            assert(t.current[v] == s.current[v]);
        }
    }
    assert forall|k: int| 0 <= k < t.dispatched.len() && !(#[trigger] t.done[k])
        implies t.current[t.dispatched[k].0] == Some(k) by {
        assert(!s.done[k]);
        assert(k != mine);
    }
}

/// The failure of a task keeps the pool well formed.
pub proof fn lemma_fail_wf<T>(s: PoolState<T>, w: int)
    requires
        s.wf(),
        s.is_running(w),
    ensures
        s.fail(w).wf(),
{
    let t = s.fail(w);
    lemma_unexited_count_update(s.workers, w, WorkerState::Failed);
    assert(s.workers[w] is Running);
    assert forall|i: int| 0 <= i < t.workers.len() && !s.workers[i].has_exited() implies !(
    #[trigger] t.workers[i]).has_exited() by {}
    assert forall|k: int| 0 <= k < t.dispatched.len() && !(#[trigger] t.done[k])
        implies t.current[t.dispatched[k].0] == Some(k) by {
        assert(!s.done[k]);
    }
}

/// The first pass of shutdown keeps the pool well formed: it sends as many
/// `Terminate` messages as there are workers, none of which has exited.
pub proof fn lemma_close_wf<T>(s: PoolState<T>)
    requires
        s.wf(),
    ensures
        s.close().wf(),
{
    lemma_unexited_count_bounds(s.workers);
}

/// Joining a worker that has left its loop keeps the pool well formed.
pub proof fn lemma_join_wf<T>(s: PoolState<T>, w: int)
    requires
        s.wf(),
        s.can_join(w),
    ensures
        s.join(w).wf(),
{
    let t = s.join(w);
    lemma_unexited_count_update(s.workers, w, WorkerState::Joined);
    assert(s.workers[w].has_exited());
    assert forall|k: int| 0 <= k < t.dispatched.len() && !(#[trigger] t.done[k])
        implies t.current[t.dispatched[k].0] == Some(k) by {
        assert(!s.done[k]);
    }
}

/// A task taken and at once completed by an idle worker is one more task
/// served by it.
pub proof fn lemma_serve_one<T>(s: PoolState<T>, w: int, j: int)
    requires
        s.wf(),
        s.is_idle(w),
        0 <= j < s.pending.len(),
    ensures
        s.served(w, j).receive(w).finish(w) == s.served(w, j + 1),
{
    let a = s.served(w, j);
    let b = a.receive(w).finish(w);
    let c = s.served(w, j + 1);
    assert(s.current[w] is None);
    assert(b.workers =~= c.workers);
    assert(b.current =~= c.current);
    assert(b.pending =~= c.pending);
    assert(b.dispatched =~= c.dispatched);
    assert(b.done =~= c.done);
}

} // verus!
