//! The work channel: an unbounded first-in, first-out queue of messages that
//! any number of receivers share.

use std::collections::VecDeque;
use vstd::prelude::*;

verus! {

/// What travels on the work channel.
pub enum Message<T> {
    /// A task for whichever worker receives it.
    NewJob(T),
    /// Tells the worker that receives it to leave its loop.
    Terminate,
}

/// The mathematical state of a channel.
pub struct ChannelState<T> {
    /// The messages sent and not yet received, oldest first.
    pub queue: Seq<Message<T>>,
    /// The number of receivers that have not been dropped.
    pub receivers: nat,
}

impl<T> ChannelState<T> {
    /// The state after `message` was sent: it stands behind every message
    /// sent before it.
    pub open spec fn sent(self, message: Message<T>) -> Self {
        ChannelState { queue: self.queue.push(message), ..self }
    }

    /// The state after the oldest message was received.
    pub open spec fn received(self) -> Self {
        ChannelState { queue: self.queue.drop_first(), ..self }
    }

    /// The state after one receiver was dropped, if there was one left.
    pub open spec fn receiver_dropped(self) -> Self {
        ChannelState {
            receivers: if self.receivers > 0 {
                (self.receivers - 1) as nat
            } else {
                0
            },
            ..self
        }
    }
}

/// A queue of messages with a count of those who may still receive from it.
pub struct Channel<T> {
    queue: VecDeque<Message<T>>,
    receivers: usize,
}

impl<T> View for Channel<T> {
    type V = ChannelState<T>;

    closed spec fn view(&self) -> ChannelState<T> {
        ChannelState { queue: self.queue@, receivers: self.receivers as nat }
    }
}

impl<T> Channel<T> {
    /// An empty channel with `receivers` receivers.
    pub fn new(receivers: usize) -> (channel: Channel<T>)
        ensures
            channel@ == (ChannelState::<T> { queue: Seq::empty(), receivers: receivers as nat }),
    {
        Channel { queue: VecDeque::new(), receivers }
    }

    /// Sends `message`: it is queued behind every message sent before it. The
    /// send never waits. It fails, and hands the message back, only where
    /// every receiver has been dropped.
    pub fn send(&mut self, message: Message<T>) -> (r: Result<(), Message<T>>)
        ensures
            old(self)@.receivers == 0 ==> r == Err::<(), Message<T>>(message) && final(self)@
                == old(self)@,
            old(self)@.receivers > 0 ==> r is Ok && final(self)@ == old(self)@.sent(message),
    {
        if self.receivers == 0 {
            return Err(message);
        }
        self.queue.push_back(message);
        Ok(())
    }

    /// Takes the oldest message off the channel. Each message is handed out
    /// once, to the one who asked. On an empty channel the result is `None`:
    /// the receiver would have to wait.
    pub fn receive(&mut self) -> (r: Option<Message<T>>)
        ensures
            old(self)@.queue.len() == 0 ==> r is None && final(self)@ == old(self)@,
            old(self)@.queue.len() > 0 ==> r == Some(old(self)@.queue[0]) && final(self)@
                == old(self)@.received(),
    {
        let r = self.queue.pop_front();
        proof {
            if r is Some {
                assert(self.queue@ =~= old(self).queue@.drop_first());
            }
        }
        r
    }

    /// Drops one receiver, if there is one left. The messages stay where they
    /// are.
    pub fn drop_receiver(&mut self)
        ensures
            final(self)@ == old(self)@.receiver_dropped(),
    {
        if self.receivers > 0 {
            self.receivers = self.receivers - 1;
        }
    }

    /// The number of messages on the channel.
    pub fn len(&self) -> (n: usize)
        ensures
            n == self@.queue.len(),
    {
        self.queue.len()
    }

    /// The number of receivers that have not been dropped.
    pub fn receivers(&self) -> (n: usize)
        ensures
            n == self@.receivers,
    {
        self.receivers
    }
}

/// The state after `n` messages were received.
pub open spec fn received_times<T>(s: ChannelState<T>, n: nat) -> ChannelState<T>
    decreases n,
{
    if n == 0 {
        s
    } else {
        received_times(s.received(), (n - 1) as nat)
    }
}

/// Receiving `n` messages takes the `n` oldest off the channel and leaves
/// the others in their order.
pub proof fn lemma_received_times<T>(s: ChannelState<T>, n: nat)
    requires
        n <= s.queue.len(),
    ensures
        received_times(s, n).queue == s.queue.skip(n as int),
        received_times(s, n).receivers == s.receivers,
    decreases n,
{
    if n == 0 {
        assert(s.queue.skip(0) =~= s.queue);
    } else {
        lemma_received_times(s.received(), (n - 1) as nat);
        assert(s.queue.drop_first().skip(n - 1) =~= s.queue.skip(n as int));
    }
}

/// Messages leave a channel in the order in which they entered it, and each
/// leaves once. A message sent on a channel that holds `n` messages does not
/// change what the next `n` receives yield; the receive after those yields
/// the message itself, and with that it is gone.
pub proof fn law_first_in_first_out<T>(s: ChannelState<T>, message: Message<T>, k: int)
    requires
        0 <= k <= s.queue.len(),
    ensures
        k < s.queue.len() ==> received_times(s.sent(message), k as nat).queue[0] == received_times(
            s,
            k as nat,
        ).queue[0],
        received_times(s.sent(message), s.queue.len()).queue[0] == message,
        received_times(s.sent(message), s.queue.len() + 1).queue.len() == 0,
{
    lemma_received_times(s.sent(message), k as nat);
    lemma_received_times(s, k as nat);
    lemma_received_times(s.sent(message), s.queue.len());
    lemma_received_times(s.sent(message), s.queue.len() + 1);
}

} // verus!
