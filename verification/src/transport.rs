//! The outbound message queue.
//!
//! The queue owns every pending [`Message`] from enqueue until drain.
//! A drain removes, in insertion order, exactly the messages its
//! filter accepts and leaves the rest queued in their original order.
use crate::addr::PeerAddr;
use crate::message::Message;
use crate::message::MessageView;
use crate::payload::bytes_eq_slice;
use crate::urgency::Urgency;
use std::collections::VecDeque;
use vstd::prelude::*;

verus! {

/// A drain filter: which queued messages a drain removes. The send
/// engine uses `All`, or `UrgencyIs(Urgency::Immediate)` when the
/// network clock has released no frame this tick; a host may also
/// pick messages by their payload.
pub enum MessageFilter {
    /// Accepts every message.
    All,
    /// Accepts no message.
    Nothing,
    /// Accepts exactly the messages with this urgency.
    UrgencyIs(Urgency),
    /// Accepts exactly the messages whose payload equals these bytes.
    PayloadIs(Vec<u8>),
}

/// Whether `m` passes the filter `f`.
pub open spec fn filter_matches(f: MessageFilter, m: MessageView) -> bool {
    match f {
        MessageFilter::All => true,
        MessageFilter::Nothing => false,
        MessageFilter::UrgencyIs(u) => m.urgency == u,
        MessageFilter::PayloadIs(p) => m.payload == p@,
    }
}

/// The messages of `q` that a drain with filter `f` removes, in their
/// order in `q`.
pub open spec fn drained_of(q: Seq<Message>, f: MessageFilter) -> Seq<Message>
    decreases q.len(),
{
    if q.len() == 0 {
        Seq::empty()
    } else {
        let prefix = drained_of(q.drop_last(), f);
        if filter_matches(f, q.last()@) {
            prefix.push(q.last())
        } else {
            prefix
        }
    }
}

/// The messages of `q` that a drain with filter `f` leaves queued, in
/// their order in `q`.
pub open spec fn remaining_of(q: Seq<Message>, f: MessageFilter) -> Seq<Message>
    decreases q.len(),
{
    if q.len() == 0 {
        Seq::empty()
    } else {
        let prefix = remaining_of(q.drop_last(), f);
        if filter_matches(f, q.last()@) {
            prefix
        } else {
            prefix.push(q.last())
        }
    }
}

impl MessageFilter {
    /// Decides whether a message passes this filter.
    pub fn matches(&self, m: &Message) -> (r: bool)
        ensures
            r == filter_matches(*self, m@),
    {
        match self {
            MessageFilter::All => true,
            MessageFilter::Nothing => false,
            MessageFilter::UrgencyIs(u) => m.urgency == *u,
            MessageFilter::PayloadIs(p) => bytes_eq_slice(&m.payload, p.as_slice()),
        }
    }
}

/// Extending a queue by one message extends its drain result by that
/// message exactly when the message passes the filter, and its
/// remainder exactly when it does not.
pub proof fn lemma_drain_unrolls(q: Seq<Message>, f: MessageFilter, m: Message)
    ensures
        drained_of(q.push(m), f) == if filter_matches(f, m@) {
            drained_of(q, f).push(m)
        } else {
            drained_of(q, f)
        },
        remaining_of(q.push(m), f) == if filter_matches(f, m@) {
            remaining_of(q, f)
        } else {
            remaining_of(q, f).push(m)
        },
{
    assert(q.push(m).drop_last() =~= q);
    assert(q.push(m).last() == m);
}

/// The filter a send phase gated by the network clock should drain
/// with: an immediate message is always eligible, a scheduled one
/// only when at least one network frame ran this host tick.
pub fn send_filter(should_send_now: bool) -> (f: MessageFilter)
    ensures
        forall|m: MessageView| #[trigger]
            filter_matches(f, m) <==> (m.urgency == Urgency::Immediate || should_send_now),
{
    if should_send_now {
        MessageFilter::All
    } else {
        MessageFilter::UrgencyIs(Urgency::Immediate)
    }
}

/// A drain that accepts everything returns the whole queue in its
/// original order and leaves nothing behind, and draining what is
/// left returns nothing: a full drain is exhaustive and idempotent.
pub proof fn lemma_full_drain(q: Seq<Message>)
    ensures
        drained_of(q, MessageFilter::All) == q,
        remaining_of(q, MessageFilter::All) == Seq::<Message>::empty(),
        drained_of(remaining_of(q, MessageFilter::All), MessageFilter::All) == Seq::<
            Message,
        >::empty(),
    decreases q.len(),
{
    if q.len() == 0 {
    } else {
        lemma_full_drain(q.drop_last());
        assert(q.drop_last().push(q.last()) =~= q);
        lemma_drain_unrolls(q.drop_last(), MessageFilter::All, q.last());
    }
}

/// A drain splits the queue into exactly the messages its filter
/// accepts and exactly those it rejects: every drained message passes
/// the filter, every remaining one fails it, and together they hold
/// precisely the queue's messages, each part in the queue's order.
pub proof fn lemma_drain_partitions(q: Seq<Message>, f: MessageFilter)
    ensures
        forall|i: int|
            0 <= i < drained_of(q, f).len() ==> filter_matches(f, #[trigger] drained_of(q, f)[i]@),
        forall|i: int|
            0 <= i < remaining_of(q, f).len() ==> !filter_matches(
                f,
                #[trigger] remaining_of(q, f)[i]@,
            ),
        drained_of(q, f).len() + remaining_of(q, f).len() == q.len(),
        drained_of(q, f).to_multiset().add(remaining_of(q, f).to_multiset()) == q.to_multiset(),
    decreases q.len(),
{
    broadcast use vstd::seq_lib::group_to_multiset_ensures;

    if q.len() == 0 {
        assert(drained_of(q, f).to_multiset().add(remaining_of(q, f).to_multiset())
            =~= q.to_multiset());
    } else {
        lemma_drain_partitions(q.drop_last(), f);
        assert(q.drop_last().push(q.last()) =~= q);
        lemma_drain_unrolls(q.drop_last(), f, q.last());
        assert(drained_of(q, f).to_multiset().add(remaining_of(q, f).to_multiset())
            =~= q.to_multiset());
    }
}

/// The positions in `q` of the messages that a drain with filter `f`
/// removes, in increasing order.
pub open spec fn drained_positions(q: Seq<Message>, f: MessageFilter) -> Seq<int>
    decreases q.len(),
{
    if q.len() == 0 {
        Seq::empty()
    } else {
        let prefix = drained_positions(q.drop_last(), f);
        if filter_matches(f, q.last()@) {
            prefix.push(q.len() - 1)
        } else {
            prefix
        }
    }
}

/// The positions in `q` of the messages that a drain with filter `f`
/// leaves queued, in increasing order.
pub open spec fn remaining_positions(q: Seq<Message>, f: MessageFilter) -> Seq<int>
    decreases q.len(),
{
    if q.len() == 0 {
        Seq::empty()
    } else {
        let prefix = remaining_positions(q.drop_last(), f);
        if filter_matches(f, q.last()@) {
            prefix
        } else {
            prefix.push(q.len() - 1)
        }
    }
}

/// A drain preserves relative order on both sides: the drained
/// messages are the queue's messages at a strictly increasing
/// sequence of positions, and so are the remaining ones.
pub proof fn lemma_drain_preserves_order(q: Seq<Message>, f: MessageFilter)
    ensures
        drained_positions(q, f).len() == drained_of(q, f).len(),
        forall|k: int|
            0 <= k < drained_of(q, f).len() ==> 0 <= #[trigger] drained_positions(q, f)[k]
                < q.len() && drained_of(q, f)[k] == q[drained_positions(q, f)[k]],
        forall|k1: int, k2: int|
            0 <= k1 < k2 < drained_of(q, f).len() ==> drained_positions(q, f)[k1]
                < drained_positions(q, f)[k2],
        remaining_positions(q, f).len() == remaining_of(q, f).len(),
        forall|k: int|
            0 <= k < remaining_of(q, f).len() ==> 0 <= #[trigger] remaining_positions(q, f)[k]
                < q.len() && remaining_of(q, f)[k] == q[remaining_positions(q, f)[k]],
        forall|k1: int, k2: int|
            0 <= k1 < k2 < remaining_of(q, f).len() ==> remaining_positions(q, f)[k1]
                < remaining_positions(q, f)[k2],
    decreases q.len(),
{
    if q.len() == 0 {
    } else {
        let d = q.drop_last();
        lemma_drain_preserves_order(d, f);
        assert(d.push(q.last()) =~= q);
        lemma_drain_unrolls(d, f, q.last());
        assert(forall|k: int| 0 <= k < d.len() ==> q[k] == d[k]);
    }
}

/// Owner of the queue of messages to be sent, and the interface
/// through which the tick phases enqueue messages.
pub struct Transport {
    messages: VecDeque<Message>,
}

impl View for Transport {
    type V = Seq<Message>;

    closed spec fn view(&self) -> Seq<Message> {
        self.messages@
    }
}

impl Transport {
    /// Creates an empty `Transport`.
    #[must_use]
    pub fn new() -> (t: Transport)
        ensures
            t@ == Seq::<Message>::empty(),
    {
        Transport { messages: VecDeque::new() }
    }

    /// Creates a `Message` and pushes it onto the back of the queue,
    /// to be sent by a later drain.
    pub fn send(&mut self, destination: PeerAddr, payload: &[u8], urgency: Urgency)
        ensures
            final(self)@ == old(self)@.push(final(self)@.last()),
            final(self)@.last()@ == (MessageView { destination, payload: payload@, urgency }),
    {
        let message = Message::new(destination, payload, urgency);
        self.messages.push_back(message);
    }

    /// Returns true if there are messages enqueued to be sent.
    #[must_use]
    pub fn has_messages(&self) -> (r: bool)
        ensures
            r == (self@.len() > 0),
    {
        self.messages.len() > 0
    }

    /// Returns a reference to the owned messages.
    #[must_use]
    pub fn get_messages(&self) -> (r: &VecDeque<Message>)
        ensures
            r@ == self@,
    {
        &self.messages
    }

    /// Removes and returns, in insertion order, every queued message
    /// that `filter` accepts; the others stay queued in their
    /// original order. A drain whose filter matches nothing returns
    /// an empty vector and leaves the queue unchanged, so draining is
    /// safe to call every tick.
    pub fn drain_messages_to_send(&mut self, filter: &MessageFilter) -> (drained: Vec<Message>)
        ensures
            drained@ == drained_of(old(self)@, *filter),
            final(self)@ == remaining_of(old(self)@, *filter),
    {
        let ghost q0 = self.messages@;
        let ghost mut j: int = 0;
        let mut drained: Vec<Message> = Vec::new();
        let mut i: usize = 0;
        while i != self.messages.len()
            invariant
                0 <= j <= q0.len(),
                i == remaining_of(q0.subrange(0, j), *filter).len(),
                drained@ == drained_of(q0.subrange(0, j), *filter),
                self.messages@ == remaining_of(q0.subrange(0, j), *filter) + q0.subrange(
                    j,
                    q0.len() as int,
                ),
                i <= self.messages@.len(),
            decreases q0.len() - j,
        {
            proof {
                assert(self.messages@[i as int] == q0[j]);
                assert(q0.subrange(0, j + 1) =~= q0.subrange(0, j).push(q0[j]));
                lemma_drain_unrolls(q0.subrange(0, j), *filter, q0[j]);
            }
            if filter.matches(&self.messages[i]) {
                let removed = self.messages.remove(i);
                proof {
                    assert(self.messages@ =~= remaining_of(q0.subrange(0, j + 1), *filter)
                        + q0.subrange(j + 1, q0.len() as int));
                }
                if let Some(m) = removed {
                    drained.push(m);
                }
            } else {
                i = i + 1;
                proof {
                    assert(self.messages@ =~= remaining_of(q0.subrange(0, j + 1), *filter)
                        + q0.subrange(j + 1, q0.len() as int));
                }
            }
            proof {
                j = j + 1;
            }
        }
        proof {
            assert(q0.subrange(0, j) =~= q0);
            assert(q0.subrange(j, q0.len() as int) =~= Seq::<Message>::empty());
            assert(self.messages@ =~= remaining_of(q0, *filter));
        }
        drained
    }
}

impl Default for Transport {
    /// An empty queue.
    fn default() -> (t: Transport)
        ensures
            t@ == Seq::<Message>::empty(),
    {
        Transport { messages: VecDeque::new() }
    }
}

} // verus!
