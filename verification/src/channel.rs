//! The bounded queue that carries samples from the producer to the consumer.
//!
//! Back-pressure policy: `push` never waits. On a full channel it reports
//! `Full` and queues nothing, so the real-time side decides for itself
//! whether to try again later or to let the sample go. Samples that were
//! accepted are delivered in the order of acceptance, each once.

use vstd::prelude::*;
use vstd::slice::slice_subrange;
use crate::ring::Ring;
use crate::sample::Sample;

verus! {

/// Why a sample was not accepted.
#[derive(Clone, Copy, Debug, PartialEq, Eq, Structural)]
pub enum ChannelError {
    /// The channel holds as many samples as it can.
    Full,
    /// The consumer has gone; nothing will be read any more.
    Disconnected,
}

/// A bounded first-in first-out channel of samples.
pub struct SampleChannel {
    ring: Ring,
    connected: bool,
}

impl SampleChannel {
    /// The queue under the channel is sound.
    pub closed spec fn wf(&self) -> bool {
        self.ring.wf()
    }

    /// The samples accepted and not yet delivered, oldest first.
    pub closed spec fn view(&self) -> Seq<Sample> {
        self.ring@
    }

    /// The number of samples the channel can hold.
    pub closed spec fn spec_capacity(&self) -> nat {
        self.ring.spec_capacity()
    }

    /// Whether the consumer is still there.
    pub closed spec fn spec_connected(&self) -> bool {
        self.connected
    }

    /// A well-formed channel holds no more than its capacity.
    pub proof fn lemma_bounded(&self)
        requires
            self.wf(),
        ensures
            self@.len() <= self.spec_capacity(),
    {
        self.ring.lemma_len_bounded();
    }

    /// An empty, connected channel that can hold `capacity` samples.
    pub fn new(capacity: usize) -> (channel: SampleChannel)
        ensures
            channel.wf(),
            channel@ == Seq::<Sample>::empty(),
            channel.spec_capacity() == capacity,
            channel.spec_connected(),
    {
        SampleChannel { ring: Ring::new(capacity), connected: true }
    }

    /// The number of samples the channel can hold.
    pub fn capacity(&self) -> (capacity: usize)
        ensures
            capacity == self.spec_capacity(),
    {
        self.ring.capacity()
    }

    /// The number of samples waiting for the consumer.
    pub fn len(&self) -> (len: usize)
        requires
            self.wf(),
        ensures
            len == self@.len(),
    {
        self.ring.len()
    }

    /// Whether the consumer is still there.
    pub fn is_connected(&self) -> (connected: bool)
        ensures
            connected == self.spec_connected(),
    {
        self.connected
    }

    /// Producer side: offers one sample.
    ///
    /// The sample is queued behind the others when the consumer is there and
    /// the channel has room. Otherwise the channel is left as it was and the
    /// reason is returned: `Disconnected` before `Full`.
    pub fn push(&mut self, sample: Sample) -> (pushed: Result<(), ChannelError>)
        requires
            old(self).wf(),
        ensures
            final(self).wf(),
            final(self).spec_capacity() == old(self).spec_capacity(),
            final(self).spec_connected() == old(self).spec_connected(),
            pushed == push_outcome(old(self)@, old(self).spec_capacity(), old(self).spec_connected()),
            pushed is Ok ==> final(self)@ == old(self)@.push(sample),
            pushed is Err ==> final(self)@ == old(self)@,
    {
        if !self.connected {
            return Err(ChannelError::Disconnected);
        }
        if self.ring.push(sample) {
            Ok(())
        } else {
            Err(ChannelError::Full)
        }
    }

    /// Producer side: offers the samples of `batch` in order and stops at the
    /// first that is not accepted.
    ///
    /// Returns how many were queued and, if that is not all of them, why the
    /// next one was not.
    pub fn push_batch(&mut self, batch: &[Sample]) -> (pushed: (usize, Result<(), ChannelError>))
        requires
            old(self).wf(),
        ensures
            final(self).wf(),
            final(self).spec_capacity() == old(self).spec_capacity(),
            final(self).spec_connected() == old(self).spec_connected(),
            pushed.0 == accepted_count(
                old(self)@,
                old(self).spec_capacity(),
                old(self).spec_connected(),
                batch@.len(),
            ),
            final(self)@ == old(self)@ + batch@.take(pushed.0 as int),
            pushed.0 == batch@.len() ==> pushed.1 is Ok,
            pushed.0 < batch@.len() ==> pushed.1 == push_outcome(
                final(self)@,
                old(self).spec_capacity(),
                old(self).spec_connected(),
            ) && pushed.1 is Err,
    {
        proof {
            self.ring.lemma_len_bounded();
        }
        let mut at: usize = 0;
        while at < batch.len()
            invariant
                self.wf(),
                self.spec_capacity() == old(self).spec_capacity(),
                self.spec_connected() == old(self).spec_connected(),
                at <= batch@.len(),
                self@ == old(self)@ + batch@.take(at as int),
                self@.len() <= self.spec_capacity(),
                at > 0 ==> self.spec_connected(),
            decreases batch@.len() - at,
        {
            let offered: Result<(), ChannelError> = self.push(batch[at]);
            match offered {
                Ok(()) => {
                    assert(batch@.take(at as int).push(batch@[at as int]) == batch@.take(at + 1));
                    at += 1;
                },
                Err(reason) => {
                    return (at, Err(reason));
                },
            }
        }
        (at, Ok(()))
    }

    /// Producer side: offers what is left of `batch` behind its first
    /// `sent` samples, and returns how many samples of the batch have been
    /// queued in all. A producer that was stopped by a full channel calls
    /// this again, with the count it was given, once there is room.
    ///
    /// The answer is `Ok` when nothing of the batch is left to queue, and
    /// else the reason why the next sample was not accepted.
    pub fn offer(&mut self, batch: &[Sample], sent: usize) -> (offered: (
        usize,
        Result<(), ChannelError>,
    ))
        requires
            old(self).wf(),
        ensures
            final(self).wf(),
            final(self).spec_capacity() == old(self).spec_capacity(),
            final(self).spec_connected() == old(self).spec_connected(),
            sent >= batch@.len() ==> offered == (sent, Ok::<(), ChannelError>(())) && final(self)@
                == old(self)@,
            sent < batch@.len() ==> {
                &&& offered.0 == sent + accepted_count(
                    old(self)@,
                    old(self).spec_capacity(),
                    old(self).spec_connected(),
                    (batch@.len() - sent) as nat,
                )
                &&& final(self)@ == old(self)@ + batch@.subrange(sent as int, offered.0 as int)
                &&& offered.0 == batch@.len() ==> offered.1 is Ok
                &&& offered.0 < batch@.len() ==> offered.1 == push_outcome(
                    final(self)@,
                    old(self).spec_capacity(),
                    old(self).spec_connected(),
                ) && offered.1 is Err
            },
    {
        if sent >= batch.len() {
            return (sent, Ok(()));
        }
        let rest: &[Sample] = slice_subrange(batch, sent, batch.len());
        let (queued, outcome) = self.push_batch(rest);
        proof {
            assert(rest@.take(queued as int) =~= batch@.subrange(sent as int, sent + queued));
        }
        (sent + queued, outcome)
    }

    /// Consumer side: takes the oldest waiting sample, without waiting for
    /// one.
    pub fn try_pop(&mut self) -> (popped: Option<Sample>)
        requires
            old(self).wf(),
        ensures
            final(self).wf(),
            final(self).spec_capacity() == old(self).spec_capacity(),
            final(self).spec_connected() == old(self).spec_connected(),
            old(self)@.len() == 0 ==> popped is None && final(self)@ == old(self)@,
            old(self)@.len() > 0 ==> popped == Some(old(self)@[0]) && final(self)@ == old(
                self,
            )@.drop_first(),
    {
        self.ring.pop()
    }

    /// Consumer side: the consumer leaves. Every later `push` fails with
    /// `Disconnected`; what was waiting is kept.
    pub fn disconnect(&mut self)
        requires
            old(self).wf(),
        ensures
            final(self).wf(),
            final(self).spec_capacity() == old(self).spec_capacity(),
            !final(self).spec_connected(),
            final(self)@ == old(self)@,
    {
        self.connected = false;
    }
}

/// What `push` answers on a channel that holds `queue`.
pub open spec fn push_outcome(queue: Seq<Sample>, capacity: nat, connected: bool) -> Result<
    (),
    ChannelError,
> {
    if !connected {
        Err(ChannelError::Disconnected)
    } else if queue.len() >= capacity {
        Err(ChannelError::Full)
    } else {
        Ok(())
    }
}

/// How many samples of a batch of `offered` a channel that holds `queue`
/// accepts: as many as there is room for, none without a consumer.
pub open spec fn accepted_count(
    queue: Seq<Sample>,
    capacity: nat,
    connected: bool,
    offered: nat,
) -> nat {
    if !connected || queue.len() >= capacity {
        0
    } else if offered <= capacity - queue.len() {
        offered
    } else {
        (capacity - queue.len()) as nat
    }
}

/// One operation on a channel: the producer offers a sample, or the
/// consumer asks for one.
pub enum ChannelOp {
    Push(Sample),
    TryPop,
}

/// What has happened on a channel since it was made.
pub struct ChannelTrace {
    /// The samples waiting in the channel, oldest first.
    pub queue: Seq<Sample>,
    /// The samples that `push` accepted, in the order of acceptance.
    pub accepted: Seq<Sample>,
    /// The samples that `try_pop` handed out, in the order of delivery.
    pub delivered: Seq<Sample>,
}

/// The trace after one more operation on a connected channel of the given
/// capacity, as the contracts of `push` and `try_pop` decide it.
pub open spec fn trace_step(trace: ChannelTrace, op: ChannelOp, capacity: nat) -> ChannelTrace {
    match op {
        ChannelOp::Push(sample) => if push_outcome(trace.queue, capacity, true) is Ok {
            ChannelTrace {
                queue: trace.queue.push(sample),
                accepted: trace.accepted.push(sample),
                delivered: trace.delivered,
            }
        } else {
            trace
        },
        ChannelOp::TryPop => if trace.queue.len() > 0 {
            ChannelTrace {
                queue: trace.queue.drop_first(),
                accepted: trace.accepted,
                delivered: trace.delivered.push(trace.queue[0]),
            }
        } else {
            trace
        },
    }
}

/// The trace of a new channel after `ops`, in order.
pub open spec fn trace_of(ops: Seq<ChannelOp>, capacity: nat) -> ChannelTrace
    decreases ops.len(),
{
    if ops.len() == 0 {
        ChannelTrace { queue: Seq::empty(), accepted: Seq::empty(), delivered: Seq::empty() }
    } else {
        trace_step(trace_of(ops.drop_last(), capacity), ops.last(), capacity)
    }
}

/// The ordering law of the channel. After any interleaving of pushes and
/// pops by one producer and one consumer, what was delivered, followed by
/// what still waits, is what was accepted: nothing is lost, nothing comes
/// twice, nothing changes place. The channel never holds more than its
/// capacity.
pub proof fn lemma_fifo_order(ops: Seq<ChannelOp>, capacity: nat)
    ensures
        trace_of(ops, capacity).delivered + trace_of(ops, capacity).queue == trace_of(
            ops,
            capacity,
        ).accepted,
        trace_of(ops, capacity).queue.len() <= capacity,
    decreases ops.len(),
{
    if ops.len() > 0 {
        lemma_fifo_order(ops.drop_last(), capacity);
        let after = trace_of(ops, capacity);
        assert(after.delivered + after.queue =~= after.accepted);
    }
}

/// Once the consumer has emptied the channel, it has received exactly the
/// accepted samples, in order.
pub proof fn lemma_drained_channel_delivered_all(ops: Seq<ChannelOp>, capacity: nat)
    requires
        trace_of(ops, capacity).queue.len() == 0,
    ensures
        trace_of(ops, capacity).delivered == trace_of(ops, capacity).accepted,
{
    lemma_fifo_order(ops, capacity);
    assert(trace_of(ops, capacity).delivered + trace_of(ops, capacity).queue =~= trace_of(
        ops,
        capacity,
    ).delivered);
}

/// One turn in the passing of a batch through a connected channel: the
/// producer offers what it still holds, or the consumer asks for a sample.
pub enum TransferOp {
    Offer,
    TryPop,
}

/// Where a batch stands on its way through the channel.
pub struct Transfer {
    /// What the producer still holds of the batch, in order.
    pub rest: Seq<Sample>,
    /// The samples waiting in the channel, oldest first.
    pub queue: Seq<Sample>,
    /// The samples that `try_pop` handed out, in the order of delivery.
    pub delivered: Seq<Sample>,
}

/// The transfer after one more turn, as the contracts of `push_batch` and
/// `try_pop` decide it: an offer moves as many samples from the front of
/// the rest to the back of the queue as there is room for.
pub open spec fn transfer_step(transfer: Transfer, op: TransferOp, capacity: nat) -> Transfer {
    match op {
        TransferOp::Offer => {
            let taken = accepted_count(transfer.queue, capacity, true, transfer.rest.len());
            Transfer {
                rest: transfer.rest.skip(taken as int),
                queue: transfer.queue + transfer.rest.take(taken as int),
                delivered: transfer.delivered,
            }
        },
        TransferOp::TryPop => if transfer.queue.len() > 0 {
            Transfer {
                rest: transfer.rest,
                queue: transfer.queue.drop_first(),
                delivered: transfer.delivered.push(transfer.queue[0]),
            }
        } else {
            transfer
        },
    }
}

/// The transfer of `batch` into a channel that holds `waiting`, after
/// `ops`, in order.
pub open spec fn transfer_of(
    waiting: Seq<Sample>,
    batch: Seq<Sample>,
    ops: Seq<TransferOp>,
    capacity: nat,
) -> Transfer
    decreases ops.len(),
{
    if ops.len() == 0 {
        Transfer { rest: batch, queue: waiting, delivered: Seq::empty() }
    } else {
        transfer_step(transfer_of(waiting, batch, ops.drop_last(), capacity), ops.last(), capacity)
    }
}

/// A batch passes through the channel whole and in order, however often
/// the producer has to offer the rest again. At every moment what was
/// delivered, what waits and what the producer still holds are, end to
/// end, what waited at first followed by the batch: each sample once,
/// nothing else, nothing out of place. Once the producer holds nothing,
/// all of the batch has gone in.
pub proof fn lemma_batch_passes_whole(
    waiting: Seq<Sample>,
    batch: Seq<Sample>,
    ops: Seq<TransferOp>,
    capacity: nat,
)
    requires
        waiting.len() <= capacity,
    ensures
        ({
            let transfer = transfer_of(waiting, batch, ops, capacity);
            &&& transfer.delivered + transfer.queue + transfer.rest == waiting + batch
            &&& transfer.queue.len() <= capacity
            &&& transfer.rest.len() == 0 ==> transfer.delivered + transfer.queue == waiting + batch
        }),
    decreases ops.len(),
{
    let transfer = transfer_of(waiting, batch, ops, capacity);
    if ops.len() == 0 {
        assert(transfer.delivered + transfer.queue + transfer.rest =~= waiting + batch);
    } else {
        lemma_batch_passes_whole(waiting, batch, ops.drop_last(), capacity);
        let before = transfer_of(waiting, batch, ops.drop_last(), capacity);
        assert(transfer.delivered + transfer.queue + transfer.rest =~= before.delivered
            + before.queue + before.rest);
    }
    if transfer.rest.len() == 0 {
        assert(transfer.delivered + transfer.queue + transfer.rest =~= transfer.delivered
            + transfer.queue);
    }
}

/// The producer never waits in vain: an offer made when the channel has
/// room and the producer still holds samples passes at least one of them.
pub proof fn lemma_offer_makes_progress(transfer: Transfer, capacity: nat)
    requires
        transfer.queue.len() < capacity,
        transfer.rest.len() > 0,
    ensures
        transfer_step(transfer, TransferOp::Offer, capacity).rest.len() < transfer.rest.len(),
{
}

} // verus!
