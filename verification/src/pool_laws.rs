//! Laws of the pool's state machine, stated over its mathematical state.

use crate::channel::Message;
use crate::pool::WorkerState;
use crate::pool_model::{
    lemma_fail_wf, lemma_rank_sum_update, lemma_rank_sum_zero, lemma_receive_wf,
    lemma_submit_wf, lemma_unexited_count_bounds, rank_sum, tasks_of, PoolState,
};
use vstd::prelude::*;

verus! {

/// A new pool of `n > 0` workers is well formed, has exactly `n` workers, and
/// all of them are idle.
pub proof fn law_fresh_pool<T>(n: nat)
    requires
        n > 0,
    ensures
        PoolState::<T>::fresh(n).wf(),
        PoolState::<T>::fresh(n).workers.len() == n,
        forall|i: int| 0 <= i < n ==> PoolState::<T>::fresh(n).is_idle(i),
{
    let s = PoolState::<T>::fresh(n);
    assert(tasks_of(s.dispatched) + s.pending + s.stranded =~= s.submitted);
}

/// Every task that was accepted is in exactly one place. The task submitted
/// as number `k` was handed to one worker of the pool, or it is still waiting
/// on the channel, or it was sent after shutdown had begun and is stranded.
/// Where it was handed out, its execution is complete, or it is the task that
/// its worker is executing or has failed on, and never both.
pub proof fn law_each_task_in_one_place<T>(s: PoolState<T>, k: int)
    requires
        s.wf(),
        0 <= k < s.submitted.len(),
    ensures
        s.dispatched.len() + s.pending.len() + s.stranded.len() == s.submitted.len(),
        k < s.dispatched.len() ==> ({
            let w = s.dispatched[k].0;
            &&& s.dispatched[k].1 == s.submitted[k]
            &&& 0 <= w < s.workers.len()
            &&& s.done[k] <==> !(s.blocks_join(w) && s.current[w] == Some(k))
        }),
        s.dispatched.len() <= k < s.dispatched.len() + s.pending.len() ==> s.pending[k
            - s.dispatched.len()] == s.submitted[k],
        s.dispatched.len() + s.pending.len() <= k ==> s.stranded[k - s.dispatched.len()
            - s.pending.len()] == s.submitted[k],
{
    let all = tasks_of(s.dispatched) + s.pending + s.stranded;
    assert(all.len() == s.dispatched.len() + s.pending.len() + s.stranded.len());
    if k < s.dispatched.len() {
        assert(all[k] == tasks_of(s.dispatched)[k]);
        let w = s.dispatched[k].0;
        assert((s.workers[w] is Running || s.workers[w] is Failed) <==> s.current[w] is Some);
    } else if k < s.dispatched.len() + s.pending.len() {
        assert(all[k] == s.pending[k - s.dispatched.len()]);
    } else {
        assert(all[k] == s.stranded[k - s.dispatched.len() - s.pending.len()]);
    }
}

/// A worker takes what was sent before shutdown began and nothing else: the
/// message it receives is the oldest waiting task or, when none is waiting, a
/// `Terminate`, and the stranded tasks stay where they are.
pub proof fn law_stranded_tasks_stay<T>(s: PoolState<T>, w: int)
    requires
        s.wf(),
        s.can_receive(w),
    ensures
        s.front() == if s.pending.len() > 0 {
            Message::NewJob(s.pending[0])
        } else {
            Message::Terminate
        },
        s.receive(w).stranded == s.stranded,
{
}

/// No worker executes two tasks at once: two tasks that were handed out and
/// are both incomplete are with different workers.
pub proof fn law_one_task_per_worker<T>(s: PoolState<T>, j: int, k: int)
    requires
        s.wf(),
        0 <= j < k < s.dispatched.len(),
        !s.done[j],
        !s.done[k],
    ensures
        s.dispatched[j].0 != s.dispatched[k].0,
{
}

/// A task that waits is taken by the first idle worker that asks, the oldest
/// first: whenever a task waits and worker `w` is idle, `w` can receive, and
/// what it receives is the oldest waiting task, which is then its own.
pub proof fn law_waiting_task_is_taken<T>(s: PoolState<T>, w: int)
    requires
        s.wf(),
        s.pending.len() > 0,
        s.is_idle(w),
    ensures
        s.can_receive(w),
        s.front() == Message::NewJob(s.pending[0]),
        s.receive(w).is_running(w),
        s.receive(w).dispatched.last() == (w, s.pending[0]),
        s.receive(w).current[w] == Some(s.dispatched.len() as int),
        s.receive(w).pending == s.pending.drop_first(),
{
}

/// A receive touches no worker but the one that receives: what the others are
/// doing neither hinders it nor is changed by it.
pub proof fn law_receive_is_local<T>(s: PoolState<T>, w: int, other: int)
    requires
        s.wf(),
        s.can_receive(w),
        0 <= other < s.workers.len(),
        other != w,
    ensures
        s.receive(w).workers[other] == s.workers[other],
        s.receive(w).current[other] == s.current[other],
        s.receive(w).workers.len() == s.workers.len(),
{
}

/// Two tasks submitted to a new pool of two or more workers can be executing
/// at the same time: worker 0 takes the first, and while it is still running,
/// worker 1 takes the second.
pub proof fn law_two_tasks_side_by_side<T>(n: nat, a: T, b: T)
    requires
        n >= 2,
    ensures
        ({
            let s = PoolState::<T>::fresh(n).submit(a).submit(b);
            let t = s.receive(0).receive(1);
            &&& s.can_receive(0)
            &&& s.receive(0).can_receive(1)
            &&& t.wf()
            &&& t.is_running(0)
            &&& t.is_running(1)
            &&& t.dispatched == seq![(0int, a), (1int, b)]
            &&& t.done == seq![false, false]
            &&& t.pending.len() == 0
        }),
{
    let f = PoolState::<T>::fresh(n);
    law_fresh_pool::<T>(n);
    lemma_submit_wf(f, a);
    lemma_submit_wf(f.submit(a), b);
    let s = f.submit(a).submit(b);
    assert(f.is_idle(0) && f.is_idle(1));
    lemma_receive_wf(s, 0);
    lemma_receive_wf(s.receive(0), 1);
    let t = s.receive(0).receive(1);
    assert(t.dispatched =~= seq![(0int, a), (1int, b)]);
    assert(t.done =~= seq![false, false]);
}

/// Once shutdown has begun no live worker is stranded: as long as one worker
/// has not received its `Terminate`, the channel holds a message, so an idle
/// worker receives at once and a running one will when its task is done.
pub proof fn law_no_worker_stranded<T>(s: PoolState<T>, w: int)
    requires
        s.wf(),
        s.closing,
        0 <= w < s.workers.len(),
        s.workers[w].is_live(),
    ensures
        s.pending.len() + s.terminates > 0,
        s.workers[w] is Idle ==> s.can_receive(w),
        s.workers[w] is Running ==> s.finish(w).can_receive(w),
{
    lemma_unexited_count_bounds(s.workers);
    assert(!s.workers[w].has_exited());
}

/// Every step of a worker, whichever worker takes it, leaves less to do: one
/// step less for a receive or a completed task, two for a failure. So from a
/// state with `work_left` steps to do, no order of steps is longer than that.
pub proof fn law_every_step_makes_progress<T>(s: PoolState<T>, w: int)
    requires
        s.wf(),
    ensures
        s.can_receive(w) ==> s.receive(w).work_left() + 1 == s.work_left(),
        s.is_running(w) ==> s.finish(w).work_left() + 1 == s.work_left(),
        s.is_running(w) ==> s.fail(w).work_left() + 2 == s.work_left(),
{
    if s.can_receive(w) {
        if s.pending.len() > 0 {
            lemma_rank_sum_update(s.workers, w, WorkerState::Running);
        } else {
            lemma_rank_sum_update(s.workers, w, WorkerState::Terminating);
        }
    }
    if s.is_running(w) {
        lemma_rank_sum_update(s.workers, w, WorkerState::Idle);
        lemma_rank_sum_update(s.workers, w, WorkerState::Failed);
    }
}

/// After the first pass of shutdown the pool is never stuck short of its end:
/// while a worker is live, some worker can take a step, and when none is
/// live, every worker has left its loop or failed, and no step is left to
/// any of them.
pub proof fn law_shutdown_cannot_deadlock<T>(s: PoolState<T>)
    requires
        s.wf(),
        s.closing,
    ensures
        !s.torn_down() ==> exists|w: int| s.can_receive(w) || s.is_running(w),
        s.torn_down() ==> rank_sum(s.workers) == 0 && forall|w: int|
            !s.can_receive(w) && !s.is_running(w),
{
    lemma_rank_sum_zero(s.workers);
    lemma_unexited_count_bounds(s.workers);
    if !s.torn_down() {
        let w = choose|w: int| 0 <= w < s.workers.len() && (#[trigger] s.workers[w]).is_live();
        assert(!s.workers[w].has_exited());
        assert(s.can_receive(w) || s.is_running(w));
    } else {
        assert forall|w: int| !s.can_receive(w) && !s.is_running(w) by {
            if 0 <= w < s.workers.len() {
                assert(!s.workers[w].is_live());
            }
        }
    }
}

/// A worker whose task has failed is lost to the pool and is not replaced:
/// it can neither receive, nor complete its task, nor be joined, and its task
/// stays incomplete. The other workers are as they were.
pub proof fn law_failed_worker_is_lost<T>(s: PoolState<T>, w: int, other: int)
    requires
        s.wf(),
        s.is_running(w),
        0 <= other < s.workers.len(),
        other != w,
    ensures
        s.fail(w).wf(),
        s.fail(w).has_failed(w),
        !s.fail(w).can_receive(w),
        !s.fail(w).is_running(w),
        !s.fail(w).can_join(w),
        s.fail(w).current[w] == s.current[w],
        s.fail(w).done == s.done,
        !s.done[s.current[w].unwrap()],
        s.fail(w).workers[other] == s.workers[other],
{
    lemma_fail_wf(s, w);
    assert(s.workers[w] is Running);
    assert(s.current[w] is Some);
}

/// The first pass of shutdown sends exactly one `Terminate` per worker, behind
/// every task that is waiting, and sends nothing when repeated.
pub proof fn law_one_terminate_per_worker<T>(s: PoolState<T>)
    requires
        s.wf(),
        !s.closing,
        !s.torn_down(),
    ensures
        s.close().terminates == s.workers.len(),
        s.close().pending == s.pending,
        s.close().queue() == s.queue() + Seq::new(
            s.workers.len(),
            |i: int| Message::<T>::Terminate,
        ),
        s.close().close() == s.close(),
{
    assert(s.close().queue() =~= s.queue() + Seq::new(
        s.workers.len(),
        |i: int| Message::<T>::Terminate,
    ));
}

/// Why shutdown has two passes. Take a pool of two workers, the first busy
/// with a task, and send a single `Terminate` meant for the first before
/// waiting for it: the second worker, being idle, takes that message. The
/// first worker completes its task, finds the channel empty, and can neither
/// receive nor be joined: whoever waits for it waits for ever.
pub proof fn law_one_pass_shutdown_strands<T>(task: T)
    ensures
        ({
            let busy = PoolState::<T>::fresh(2).submit(task).receive(0);
            let s = PoolState { terminates: 1, closing: true, ..busy };
            let t = s.receive(1).finish(0);
            &&& busy.wf()
            &&& busy.is_running(0)
            &&& s.can_receive(1)
            &&& s.receive(1).workers[1] is Terminating
            &&& t.is_idle(0)
            &&& !t.can_receive(0)
            &&& !t.can_join(0)
            &&& !t.is_running(0)
        }),
{
    let f = PoolState::<T>::fresh(2);
    law_fresh_pool::<T>(2);
    lemma_submit_wf(f, task);
    assert(f.is_idle(0));
    lemma_receive_wf(f.submit(task), 0);
}

/// A pool that is shut down stays so: no worker can receive, run or be joined
/// again, the first pass sends nothing more, and the consuming side is gone.
/// Every task that was ever accepted has been handed to a worker, but for
/// those that were sent after shutdown had begun, and each task that was
/// handed out is complete.
pub proof fn law_shut_down_is_final<T>(s: PoolState<T>, w: int)
    requires
        s.wf(),
        s.is_shut_down(),
    ensures
        !s.can_receive(w),
        !s.is_running(w),
        !s.can_join(w),
        s.close() == s,
        s.work_left() == 0,
        s.torn_down(),
        tasks_of(s.dispatched) + s.stranded == s.submitted,
        forall|k: int| 0 <= k < s.dispatched.len() ==> s.done[k],
{
    assert(tasks_of(s.dispatched) + s.pending + s.stranded =~= tasks_of(s.dispatched)
        + s.stranded);
    if 0 <= w < s.workers.len() {
        assert(s.workers[w] is Joined);
    }
    assert forall|k: int| 0 <= k < s.dispatched.len() implies s.done[k] by {
        let v = s.dispatched[k].0;
        assert(s.workers[v] is Joined);
        if !s.done[k] {
            assert(s.current[v] == Some(k));
        }
    }
    lemma_rank_sum_zero(s.workers);
    assert forall|i: int| 0 <= i < s.workers.len() implies !(#[trigger] s.workers[i]).is_live() by {
        assert(s.workers[i] is Joined);
    }
}

} // verus!
