//! The in-process publisher: an outbox of messages for the downstream
//! channel, deduplicated by message id (the instruction id).
use vstd::prelude::*;
use crate::domain::{PaymentType, PublishFailure};

verus! {

#[derive(Debug)]
pub struct PublishedMessage {
    pub routing_key: String,
    pub message_id: u128,
    pub payment_type: PaymentType,
}

/// Confirmation that a message is durably held for delivery.
#[derive(Debug, Clone, Copy, PartialEq, Eq, Structural)]
pub struct Acknowledgment {
    pub message_id: u128,
    /// The message was already held; nothing new was stored.
    pub duplicate: bool,
}

pub open spec fn holds(ms: Seq<PublishedMessage>, id: u128) -> bool {
    exists|i: int| 0 <= i < ms.len() && #[trigger] ms[i].message_id == id
}

/// How often `id` occurs in `s`.
pub open spec fn count(s: Seq<u128>, id: u128) -> nat
    decreases s.len(),
{
    if s.len() == 0 {
        0
    } else {
        count(s.drop_last(), id) + if s.last() == id {
            1nat
        } else {
            0nat
        }
    }
}

pub proof fn lemma_count_push(s: Seq<u128>, x: u128, id: u128)
    ensures
        count(s.push(x), id) == count(s, id) + if x == id {
            1nat
        } else {
            0nat
        },
{
    assert(s.push(x).drop_last() =~= s);
}

#[derive(Debug)]
pub struct InMemoryPublisher {
    /// Messages held for delivery, at most one per message id.
    pub messages: Vec<PublishedMessage>,
    /// The message id of every publish call, in order.
    pub attempts: Vec<u128>,
    /// Whether the channel acknowledges publishes.
    pub online: bool,
}

impl InMemoryPublisher {
    pub open spec fn wf(&self) -> bool {
        forall|i: int, j: int|
            0 <= i < self.messages@.len() && 0 <= j < self.messages@.len() && #[trigger] self.messages@[i].message_id
                == #[trigger] self.messages@[j].message_id ==> i == j
    }

    pub open spec fn delivered(&self, id: u128) -> bool {
        holds(self.messages@, id)
    }

    pub fn new(online: bool) -> (r: Self)
        ensures
            r.wf(),
            r.messages@.len() == 0,
            r.attempts@.len() == 0,
            r.online == online,
    {
        InMemoryPublisher { messages: Vec::new(), attempts: Vec::new(), online }
    }

    /// Switches the channel's availability.
    pub fn set_online(&mut self, online: bool)
        ensures
            final(self).online == online,
            final(self).messages@ == old(self).messages@,
            final(self).attempts@ == old(self).attempts@,
    {
        self.online = online;
    }

    /// Whether the channel's deduplication record holds this message id.
    pub fn has_message(&self, id: u128) -> (r: bool)
        ensures
            r == self.delivered(id),
    {
        let mut i: usize = 0;
        while i < self.messages.len()
            invariant
                i <= self.messages@.len(),
                forall|j: int| 0 <= j < i ==> #[trigger] self.messages@[j].message_id != id,
            decreases self.messages.len() - i,
        {
            if self.messages[i].message_id == id {
                return true;
            }
            i = i + 1;
        }
        false
    }

    /// Hands a message to the channel. Every call is recorded; a message id
    /// the channel already holds is acknowledged without storing it again.
    pub fn publish(&mut self, routing_key: &str, message_id: u128, payment_type: PaymentType) -> (r: Result<
        Acknowledgment,
        PublishFailure,
    >)
        requires
            old(self).wf(),
        ensures
            final(self).wf(),
            final(self).online == old(self).online,
            final(self).attempts@ == old(self).attempts@.push(message_id),
            !old(self).online ==> r == Err::<Acknowledgment, PublishFailure>(PublishFailure::Unavailable)
                && final(self).messages@ == old(self).messages@,
            old(self).online && old(self).delivered(message_id) ==> r == Ok::<Acknowledgment, PublishFailure>(
                Acknowledgment { message_id, duplicate: true },
            ) && final(self).messages@ == old(self).messages@,
            old(self).online && !old(self).delivered(message_id) ==> r == Ok::<Acknowledgment, PublishFailure>(
                Acknowledgment { message_id, duplicate: false },
            ) && final(self).messages@.len() == old(self).messages@.len() + 1
                && final(self).messages@.drop_last() == old(self).messages@
                && final(self).messages@.last().routing_key@ == routing_key@
                && final(self).messages@.last().message_id == message_id
                && final(self).messages@.last().payment_type == payment_type,
    {
        self.attempts.push(message_id);
        if !self.online {
            return Err(PublishFailure::Unavailable);
        }
        if self.has_message(message_id) {
            return Ok(Acknowledgment { message_id, duplicate: true });
        }
        let m = PublishedMessage { routing_key: String::from_str(routing_key), message_id, payment_type };
        let ghost ms = self.messages@;
        self.messages.push(m);
        assert(self.messages@.drop_last() =~= ms);
        assert forall|i: int, j: int|
            0 <= i < self.messages@.len() && 0 <= j < self.messages@.len() && #[trigger] self.messages@[i].message_id
                == #[trigger] self.messages@[j].message_id implies i == j by {
            if i < ms.len() {
                assert(ms[i].message_id == self.messages@[i].message_id);
            }
            if j < ms.len() {
                assert(ms[j].message_id == self.messages@[j].message_id);
            }
        }
        Ok(Acknowledgment { message_id, duplicate: false })
    }
    /// Records that the channel acknowledged a message handed to it outside
    /// this process; a message id already held is not stored again.
    pub fn record_delivery(&mut self, routing_key: &str, message_id: u128, payment_type: PaymentType) -> (r: bool)
        requires
            old(self).wf(),
        ensures
            final(self).wf(),
            final(self).online == old(self).online,
            final(self).attempts@ == old(self).attempts@,
            r == !old(self).delivered(message_id),
            old(self).delivered(message_id) ==> final(self).messages@ == old(self).messages@,
            !old(self).delivered(message_id) ==> final(self).messages@.len() == old(self).messages@.len() + 1
                && final(self).messages@.drop_last() == old(self).messages@
                && final(self).messages@.last().routing_key@ == routing_key@
                && final(self).messages@.last().message_id == message_id
                && final(self).messages@.last().payment_type == payment_type,
    {
        if self.has_message(message_id) {
            return false;
        }
        let m = PublishedMessage { routing_key: String::from_str(routing_key), message_id, payment_type };
        let ghost ms = self.messages@;
        self.messages.push(m);
        assert(self.messages@.drop_last() =~= ms);
        assert forall|i: int, j: int|
            0 <= i < self.messages@.len() && 0 <= j < self.messages@.len() && #[trigger] self.messages@[i].message_id
                == #[trigger] self.messages@[j].message_id implies i == j by {
            if i < ms.len() {
                assert(ms[i].message_id == self.messages@[i].message_id);
            }
            if j < ms.len() {
                assert(ms[j].message_id == self.messages@[j].message_id);
            }
        }
        true
    }
}

} // verus!
