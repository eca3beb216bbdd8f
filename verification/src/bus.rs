//! The broadcast bus: one bounded queue of pending messages per subscriber.
//!
//! A published message is appended to the queue of every subscriber there is
//! at that moment. A queue never holds more than the bus's capacity: where it
//! is full, its oldest message makes room. A subscriber reads its queue from
//! the front, so it sees the messages in the order of their publication, with
//! gaps where it fell behind.

use vstd::prelude::*;
use std::collections::VecDeque;
use crate::keyed::{
    by_key, distinct, holds, lemma_count, lemma_found, lemma_push, lemma_remove, lemma_replace, lemma_same_keys,
    lemma_slot, slot,
};
use crate::message::{ServerMessage, ServerMessageView};

verus! {

/// Names one subscription of a [`Bus`].
#[derive(Clone, Copy, Debug, PartialEq, Eq, Structural)]
pub struct SubscriberId {
    pub raw: u64,
}

struct Subscription {
    id: u64,
    queue: VecDeque<ServerMessage>,
}

/// The bus.
pub struct Bus {
    capacity: usize,
    issued: u64,
    subscriptions: Vec<Subscription>,
    published: Ghost<Seq<ServerMessageView>>,
}

/// What a [`Bus`] holds, as mathematical values.
pub ghost struct BusView {
    /// The most that one subscriber's queue holds.
    pub capacity: nat,
    /// How many subscriptions were handed out so far.
    pub issued: nat,
    /// The pending messages of each subscriber, oldest first.
    pub queues: Map<u64, Seq<ServerMessageView>>,
    /// Every message published so far, oldest first.
    pub published: Seq<ServerMessageView>,
}

/// A queue after one more message arrived at it.
pub open spec fn enqueue(queue: Seq<ServerMessageView>, message: ServerMessageView, capacity: nat) -> Seq<
    ServerMessageView,
> {
    if queue.len() < capacity {
        queue.push(message)
    } else {
        queue.skip(1).push(message)
    }
}

impl BusView {
    /// The bus after `message` was published.
    pub open spec fn publish(self, message: ServerMessageView) -> BusView {
        BusView {
            queues: Map::new(
                |id: u64| self.queues.contains_key(id),
                |id: u64| enqueue(self.queues[id], message, self.capacity),
            ),
            published: self.published.push(message),
            ..self
        }
    }

    /// The bus after one more subscription was handed out.
    pub open spec fn subscribe(self) -> BusView {
        BusView {
            issued: self.issued + 1,
            queues: self.queues.insert(self.issued as u64, Seq::empty()),
            ..self
        }
    }

    /// The bus after a subscription ended.
    pub open spec fn unsubscribe(self, id: u64) -> BusView {
        BusView { queues: self.queues.remove(id), ..self }
    }

    /// The bus after a subscriber took the message at the front of its queue.
    pub open spec fn take(self, id: u64) -> BusView {
        BusView { queues: self.queues.insert(id, self.queues[id].skip(1)), ..self }
    }
}

/// What is left of a queue that holds at most `capacity` messages: all of
/// it where it fits, and else its newest `capacity` messages.
pub open spec fn newest(queue: Seq<ServerMessageView>, capacity: nat) -> Seq<ServerMessageView> {
    if queue.len() <= capacity {
        queue
    } else {
        queue.skip(queue.len() - capacity)
    }
}

impl BusView {
    /// The bus after the messages of `stream` were published, first to
    /// last.
    pub open spec fn publish_all(self, stream: Seq<ServerMessageView>) -> BusView
        decreases stream.len(),
    {
        if stream.len() == 0 {
            self
        } else {
            self.publish_all(stream.drop_last()).publish(stream.last())
        }
    }

    /// The bounds that a bus keeps: a capacity that is not zero, and no
    /// queue longer than it.
    pub open spec fn bounded(self) -> bool {
        &&& self.capacity > 0
        &&& forall|id: u64| #[trigger] self.queues.contains_key(id) ==> self.queues[id].len() <= self.capacity
    }
}

/// Publishing reaches every subscriber there is, and nobody else: the
/// subscribers stay the same, and the message is the newest in the queue of
/// each. A queue with room has it appended and loses nothing; a full queue
/// loses its oldest message, and no other.
pub proof fn law_publish_reaches_every_subscriber(bus: BusView, message: ServerMessageView)
    requires
        bus.bounded(),
    ensures
        bus.publish(message).bounded(),
        bus.publish(message).queues.dom() == bus.queues.dom(),
        bus.publish(message).published == bus.published.push(message),
        forall|id: u64| #[trigger]
            bus.queues.contains_key(id) ==> bus.publish(message).queues[id].last() == message,
        forall|id: u64| #[trigger]
            bus.queues.contains_key(id) && bus.queues[id].len() < bus.capacity ==> bus.publish(message).queues[id]
                == bus.queues[id].push(message),
        forall|id: u64| #[trigger]
            bus.queues.contains_key(id) && bus.queues[id].len() == bus.capacity ==> bus.publish(message).queues[id]
                == bus.queues[id].skip(1).push(message),
{
    assert(bus.publish(message).queues.dom() =~= bus.queues.dom());
}

/// A subscriber sees a stream of published messages in the order of their
/// publication: after the stream its queue is what it was, followed by the
/// stream, cut down to the newest messages that the capacity has room for.
/// With room for all of them, nothing is missing.
pub proof fn law_stream_arrives_in_order(bus: BusView, stream: Seq<ServerMessageView>, id: u64)
    requires
        bus.bounded(),
        bus.queues.contains_key(id),
    ensures
        bus.publish_all(stream).bounded(),
        bus.publish_all(stream).queues.contains_key(id),
        bus.publish_all(stream).queues[id] == newest(bus.queues[id] + stream, bus.capacity),
        bus.queues[id].len() + stream.len() <= bus.capacity ==> bus.publish_all(stream).queues[id] == bus.queues[id]
            + stream,
        bus.publish_all(stream).published == bus.published + stream,
        bus.publish_all(stream).capacity == bus.capacity,
    decreases stream.len(),
{
    if stream.len() == 0 {
        assert(bus.queues[id] + stream =~= bus.queues[id]);
        assert(bus.published + stream =~= bus.published);
    } else {
        let earlier = stream.drop_last();
        let before = bus.publish_all(earlier);
        law_stream_arrives_in_order(bus, earlier, id);
        law_publish_reaches_every_subscriber(before, stream.last());
        let all = bus.queues[id] + stream;
        let sofar = bus.queues[id] + earlier;
        assert(all =~= sofar.push(stream.last()));
        assert(before.publish(stream.last()).queues[id] =~= newest(all, bus.capacity));
        assert(bus.published + stream =~= (bus.published + earlier).push(stream.last()));
    }
}

/// What a subscriber takes from its queue is what was published to it, in
/// the order of publication: a subscriber with an empty queue and room for
/// two messages, to which first one and then another message is published,
/// takes the first and then the other.
pub proof fn law_taken_in_order(bus: BusView, first: ServerMessageView, second: ServerMessageView, id: u64)
    requires
        bus.bounded(),
        bus.capacity >= 2,
        bus.queues.contains_key(id),
        bus.queues[id].len() == 0,
    ensures
        bus.publish(first).publish(second).queues[id][0] == first,
        bus.publish(first).publish(second).take(id).queues[id][0] == second,
        bus.publish(first).publish(second).take(id).take(id).queues[id].len() == 0,
{
    law_publish_reaches_every_subscriber(bus, first);
    law_publish_reaches_every_subscriber(bus.publish(first), second);
}

/// A subscription sees nothing of what was published before it was handed
/// out, and everything that is published after: its queue starts empty, and
/// the next message that is published is the first in it.
pub proof fn law_no_replay(bus: BusView, message: ServerMessageView)
    requires
        bus.bounded(),
    ensures
        bus.subscribe().queues[bus.issued as u64].len() == 0,
        bus.subscribe().published == bus.published,
        bus.subscribe().publish(message).queues[bus.issued as u64] == seq![message],
{
    assert(bus.subscribe().publish(message).queues[bus.issued as u64] =~= seq![message]);
}

spec fn pending_of(queue: Seq<ServerMessage>) -> Seq<ServerMessageView> {
    Seq::new(queue.len(), |i: int| queue[i]@)
}

/// What tells the subscriptions apart: their ids.
spec fn id_of() -> spec_fn(Subscription) -> u64 {
    |subscription: Subscription| subscription.id
}

/// What a subscription stands for: the messages that wait in its queue.
spec fn waiting() -> spec_fn(Subscription) -> Seq<ServerMessageView> {
    |subscription: Subscription| pending_of(subscription.queue@)
}

spec fn queues_of(subscriptions: Seq<Subscription>) -> Map<u64, Seq<ServerMessageView>> {
    by_key(subscriptions, id_of(), waiting())
}

impl Bus {
    /// No two subscriptions share an id, every id was handed out by this
    /// bus, and no queue is longer than the capacity, which is not zero.
    pub closed spec fn wf(&self) -> bool {
        &&& self.capacity > 0
        &&& distinct(self.subscriptions@, id_of())
        &&& forall|i: int| 0 <= i < self.subscriptions@.len() ==> (#[trigger] self.subscriptions@[i]).id < self.issued
        &&& forall|i: int|
            0 <= i < self.subscriptions@.len() ==> (#[trigger] self.subscriptions@[i]).queue@.len() <= self.capacity
    }

    /// What the bus holds.
    pub closed spec fn view(&self) -> BusView {
        BusView {
            capacity: self.capacity as nat,
            issued: self.issued as nat,
            queues: queues_of(self.subscriptions@),
            published: self.published@,
        }
    }

    /// What holds of every well-formed bus.
    pub proof fn lemma_bounds(&self)
        requires
            self.wf(),
        ensures
            self@.capacity > 0,
            self@.issued <= u64::MAX,
            self@.queues.dom().finite(),
            forall|id: u64| #[trigger] self@.queues.contains_key(id) ==> id < self@.issued,
            forall|id: u64| #[trigger] self@.queues.contains_key(id) ==> self@.queues[id].len() <= self@.capacity,
    {
        let subscriptions = self.subscriptions@;
        assert forall|id: u64| #[trigger] self@.queues.contains_key(id) implies id < self@.issued
            && self@.queues[id].len() <= self@.capacity by {
            lemma_found(subscriptions, id_of(), id);
            let s = slot(subscriptions, id_of(), id);
            assert(subscriptions[s].id == id);
        }
        lemma_count(subscriptions, id_of(), waiting());
    }

    /// A bus without subscribers, whose queues will hold up to `capacity`
    /// messages each.
    pub fn new(capacity: usize) -> (bus: Bus)
        requires
            capacity > 0,
        ensures
            bus.wf(),
            bus@.capacity == capacity,
            bus@.issued == 0,
            bus@.queues =~= Map::empty(),
            bus@.published =~= Seq::empty(),
    {
        let bus = Bus { capacity, issued: 0, subscriptions: Vec::new(), published: Ghost(Seq::empty()) };
        assert(bus@.queues =~= Map::empty());
        bus
    }

    /// The most that one subscriber's queue holds.
    pub fn capacity(&self) -> (capacity: usize)
        ensures
            capacity == self@.capacity,
    {
        self.capacity
    }

    fn find(&self, id: u64) -> (found: Option<usize>)
        requires
            self.wf(),
        ensures
            found matches Some(i) ==> i < self.subscriptions@.len() && self.subscriptions@[i as int].id == id && slot(
                self.subscriptions@,
                id_of(),
                id,
            ) == i,
            found is Some <==> holds(self.subscriptions@, id_of(), id),
    {
        let mut i: usize = 0;
        while i < self.subscriptions.len()
            invariant
                0 <= i <= self.subscriptions@.len(),
                distinct(self.subscriptions@, id_of()),
                forall|j: int| 0 <= j < i ==> (#[trigger] self.subscriptions@[j]).id != id,
            decreases self.subscriptions.len() - i,
        {
            if self.subscriptions[i].id == id {
                proof {
                    lemma_slot(self.subscriptions@, id_of(), i as int);
                }
                return Some(i);
            }
            i += 1;
        }
        proof {
            if holds(self.subscriptions@, id_of(), id) {
                lemma_found(self.subscriptions@, id_of(), id);
                let s = slot(self.subscriptions@, id_of(), id);
                assert(self.subscriptions@[s].id != id);
            }
        }
        None
    }

    /// Whether the subscription exists.
    pub fn is_subscribed(&self, id: SubscriberId) -> (b: bool)
        requires
            self.wf(),
        ensures
            b == self@.queues.contains_key(id.raw),
    {
        self.find(id.raw).is_some()
    }

    /// How many messages wait for the subscriber; 0 where there is no such
    /// subscription.
    pub fn pending(&self, id: SubscriberId) -> (n: usize)
        requires
            self.wf(),
        ensures
            self@.queues.contains_key(id.raw) ==> n == self@.queues[id.raw].len(),
            !self@.queues.contains_key(id.raw) ==> n == 0,
    {
        match self.find(id.raw) {
            Some(i) => self.subscriptions[i].queue.len(),
            None => 0,
        }
    }

    /// How many subscriptions there are.
    pub fn subscriber_count(&self) -> (n: usize)
        requires
            self.wf(),
        ensures
            n == self@.queues.dom().len(),
    {
        proof {
            lemma_count(self.subscriptions@, id_of(), waiting());
        }
        self.subscriptions.len()
    }

    /// Hands out a new subscription, with an empty queue: it will see what
    /// is published from now on. `None` where the bus has handed out all
    /// the ids there are.
    pub fn subscribe(&mut self) -> (id: Option<SubscriberId>)
        requires
            old(self).wf(),
        ensures
            final(self).wf(),
            old(self)@.issued == u64::MAX ==> id is None && final(self)@ == old(self)@,
            old(self)@.issued < u64::MAX ==> id == Some(SubscriberId { raw: old(self)@.issued as u64 })
                && !old(self)@.queues.contains_key(old(self)@.issued as u64)
                && final(self)@ == old(self)@.subscribe(),
    {
        if self.issued == u64::MAX {
            return None;
        }
        let raw = self.issued;
        let ghost before = self.subscriptions@;
        let fresh = Subscription { id: raw, queue: VecDeque::new() };
        proof {
            if holds(before, id_of(), raw) {
                lemma_found(before, id_of(), raw);
                assert(before[slot(before, id_of(), raw)].id < self.issued);
            }
            lemma_push(before, id_of(), waiting(), fresh);
            assert(pending_of(fresh.queue@) =~= Seq::empty());
        }
        self.subscriptions.push(fresh);
        self.issued = raw + 1;
        proof {
            let after = self.subscriptions@;
            assert forall|i: int| 0 <= i < after.len() implies (#[trigger] after[i]).id < self.issued
                && after[i].queue@.len() <= self.capacity by {
                if i < before.len() {
                    assert(after[i] == before[i]);
                }
            }
        }
        Some(SubscriberId { raw })
    }

    /// Ends a subscription, and says whether there was one. What waited in
    /// its queue is dropped.
    pub fn unsubscribe(&mut self, id: SubscriberId) -> (ended: bool)
        requires
            old(self).wf(),
        ensures
            final(self).wf(),
            ended == old(self)@.queues.contains_key(id.raw),
            final(self)@ == old(self)@.unsubscribe(id.raw),
    {
        let ghost before = self.subscriptions@;
        match self.find(id.raw) {
            None => {
                assert(queues_of(before).remove(id.raw) =~= queues_of(before));
                false
            },
            Some(i) => {
                let _ = self.subscriptions.remove(i);
                proof {
                    let after = self.subscriptions@;
                    let at = i as int;
                    lemma_remove(before, id_of(), waiting(), at);
                    assert forall|j: int| 0 <= j < after.len() implies (#[trigger] after[j]).id < self.issued
                        && after[j].queue@.len() <= self.capacity by {
                        let from = if j < at { j } else { j + 1 };
                        assert(after[j] == before[from]);
                    }
                }
                true
            },
        }
    }

    /// Publishes a message: it joins the queue of every subscriber there
    /// is. Returns how many there are.
    pub fn publish(&mut self, message: ServerMessage) -> (reached: usize)
        requires
            old(self).wf(),
        ensures
            final(self).wf(),
            final(self)@ == old(self)@.publish(message@),
            reached == old(self)@.queues.dom().len(),
    {
        let ghost before = self.subscriptions@;
        let n = self.subscriptions.len();
        let mut i: usize = 0;
        while i < n
            invariant
                0 <= i <= n,
                n == before.len(),
                self.subscriptions@.len() == n,
                self.capacity == old(self).capacity,
                self.capacity > 0,
                self.issued == old(self).issued,
                self.published == old(self).published,
                forall|j: int| 0 <= j < n ==> (#[trigger] self.subscriptions@[j]).id == before[j].id,
                forall|j: int| i <= j < n ==> (#[trigger] self.subscriptions@[j]) == before[j],
                forall|j: int|
                    0 <= j < i ==> pending_of((#[trigger] self.subscriptions@[j]).queue@) == enqueue(
                        pending_of(before[j].queue@),
                        message@,
                        self.capacity as nat,
                    ),
                forall|j: int| 0 <= j < n ==> (#[trigger] before[j]).queue@.len() <= self.capacity,
                forall|j: int| 0 <= j < i ==> (#[trigger] self.subscriptions@[j]).queue@.len() <= self.capacity,
            decreases n - i,
        {
            let ghost mid = self.subscriptions@;
            let ghost queue0 = mid[i as int].queue@;
            assert(mid[i as int] == before[i as int]);
            let copy = message.clone();
            if self.subscriptions[i].queue.len() >= self.capacity {
                let _ = self.subscriptions[i].queue.pop_front();
            }
            self.subscriptions[i].queue.push_back(copy);
            proof {
                let queue1 = self.subscriptions@[i as int].queue@;
                if queue0.len() < self.capacity {
                    assert(queue1 == queue0.push(copy));
                    assert(pending_of(queue1) =~= pending_of(queue0).push(message@));
                } else {
                    assert(queue1 == queue0.subrange(1, queue0.len() as int).push(copy));
                    assert(pending_of(queue1) =~= pending_of(queue0).skip(1).push(message@));
                }
                assert forall|j: int| 0 <= j < n implies (#[trigger] self.subscriptions@[j]).id == before[j].id by {
                    if j != i {
                        assert(self.subscriptions@[j] == mid[j]);
                    }
                }
                assert forall|j: int| i + 1 <= j < n implies (#[trigger] self.subscriptions@[j]) == before[j] by {
                    assert(self.subscriptions@[j] == mid[j]);
                }
                assert forall|j: int| 0 <= j < i + 1 implies pending_of((#[trigger] self.subscriptions@[j]).queue@)
                    == enqueue(pending_of(before[j].queue@), message@, self.capacity as nat)
                    && self.subscriptions@[j].queue@.len() <= self.capacity by {
                    if j < i {
                        assert(self.subscriptions@[j] == mid[j]);
                    }
                }
            }
            i += 1;
        }
        proof {
            let after = self.subscriptions@;
            self.published@ = self.published@.push(message@);
            assert forall|j: int| 0 <= j < before.len() implies id_of()(#[trigger] after[j]) == id_of()(
                before[j],
            ) by {
                assert(after[j].id == before[j].id);
            }
            lemma_same_keys(before, after, id_of(), waiting());
            assert forall|id: u64| holds(before, id_of(), id) implies #[trigger] queues_of(after)[id] == enqueue(
                queues_of(before)[id],
                message@,
                self.capacity as nat,
            ) by {
                lemma_found(before, id_of(), id);
                let s = slot(before, id_of(), id);
                assert(pending_of(after[s].queue@) == enqueue(
                    pending_of(before[s].queue@),
                    message@,
                    self.capacity as nat,
                ));
            }
            assert(queues_of(after) =~= old(self)@.publish(message@).queues);
            lemma_count(before, id_of(), waiting());
        }
        n
    }

    /// Takes the oldest message out of a subscriber's queue. `None` where
    /// nothing waits for it, or where there is no such subscription.
    pub fn next_message(&mut self, id: SubscriberId) -> (message: Option<ServerMessage>)
        requires
            old(self).wf(),
        ensures
            final(self).wf(),
            old(self)@.queues.contains_key(id.raw) && old(self)@.queues[id.raw].len() > 0 ==> message is Some
                && message->Some_0@ == old(self)@.queues[id.raw][0] && final(self)@ == old(self)@.take(id.raw),
            !(old(self)@.queues.contains_key(id.raw) && old(self)@.queues[id.raw].len() > 0) ==> message is None
                && final(self)@ == old(self)@,
    {
        let ghost before = self.subscriptions@;
        match self.find(id.raw) {
            None => None,
            Some(i) => {
                let message = self.subscriptions[i].queue.pop_front();
                proof {
                    let after = self.subscriptions@;
                    let at = i as int;
                    assert forall|j: int| 0 <= j < before.len() && j != at implies #[trigger] after[j]
                        == before[j] by {}
                    assert(after[at].id == before[at].id);
                    lemma_replace(before, after, id_of(), waiting(), at);
                    lemma_slot(before, id_of(), at);
                    assert forall|j: int| 0 <= j < after.len() implies (#[trigger] after[j]).id < self.issued
                        && after[j].queue@.len() <= self.capacity by {
                        if j != at {
                            assert(after[j] == before[j]);
                        }
                    }
                    if message is Some {
                        assert(pending_of(after[at].queue@) =~= pending_of(before[at].queue@).skip(1));
                    } else {
                        assert(after[at].queue@ == before[at].queue@);
                        assert(queues_of(after) =~= queues_of(before));
                    }
                }
                message
            },
        }
    }
}

} // verus!
