//! The realtime broadcast hub: a bounded multi-subscriber event log.
//!
//! Every published event gets the next position in one log. The hub keeps
//! only the newest `capacity` events; each subscriber holds a cursor, its next
//! position to read. A subscriber that falls further behind than the buffer
//! reaches is told how many events it missed and resumes at the oldest one
//! kept. Publishing never looks at a cursor, so a subscriber that never reads
//! costs the others nothing.
use vstd::prelude::*;

verus! {

/// An event for live subscribers.
#[derive(Debug)]
pub enum WsMessage {
    /// One usage event was recorded; `cost` is in cents.
    UsageUpdate { user_id: u128, cost: u64, tokens: i32, timestamp: String },
    /// A budget threshold was crossed.
    AlertNotification { user_id: u128, alert_type: String, message: String },
    /// A forecast was stored; costs are in cents.
    PredictionUpdate { user_id: u128, daily_cost: u128, weekly_cost: u128, monthly_cost: u128 },
}

impl WsMessage {
    /// A copy of the event.
    pub fn duplicate(&self) -> (r: Self)
        ensures
            r == *self,
    {
        match self {
            WsMessage::UsageUpdate { user_id, cost, tokens, timestamp } => WsMessage::UsageUpdate {
                user_id: *user_id,
                cost: *cost,
                tokens: *tokens,
                timestamp: timestamp.clone(),
            },
            WsMessage::AlertNotification { user_id, alert_type, message } => {
                WsMessage::AlertNotification {
                    user_id: *user_id,
                    alert_type: alert_type.clone(),
                    message: message.clone(),
                }
            },
            WsMessage::PredictionUpdate { user_id, daily_cost, weekly_cost, monthly_cost } => {
                WsMessage::PredictionUpdate {
                    user_id: *user_id,
                    daily_cost: *daily_cost,
                    weekly_cost: *weekly_cost,
                    monthly_cost: *monthly_cost,
                }
            },
        }
    }
}

/// What a subscriber gets when it reads.
#[derive(Debug)]
pub enum Received {
    /// The next event in publication order.
    Event(WsMessage),
    /// This many events were dropped before the subscriber read them; the
    /// next read resumes at the oldest event kept.
    Lagged(u64),
    /// Nothing new has been published.
    Empty,
    /// No subscriber holds this id.
    Closed,
}

/// The abstract state of a hub.
pub ghost struct HubState {
    /// Most events kept for readers.
    pub capacity: nat,
    /// Every event ever published, in order.
    pub log: Seq<WsMessage>,
    /// Position of the oldest event still kept.
    pub start: nat,
    /// Each subscriber slot: the cursor of a connected subscriber, or `None`.
    pub cursors: Seq<Option<u64>>,
}

impl HubState {
    pub open spec fn well_formed(self) -> bool {
        &&& self.capacity >= 1
        &&& self.start <= self.log.len()
        &&& self.log.len() - self.start <= self.capacity
        &&& forall|i: int|
            0 <= i < self.cursors.len() ==> (#[trigger] self.cursors[i] matches Some(c) ==> c
                <= self.log.len())
    }

    pub open spec fn connected(self, id: nat) -> bool {
        id < self.cursors.len() && self.cursors[id as int] is Some
    }

    /// The events subscriber `id` will still observe, in order.
    pub open spec fn pending(self, id: nat) -> Seq<WsMessage> {
        if self.connected(id) {
            let c = self.cursors[id as int]->Some_0 as int;
            let from = if c < self.start {
                self.start as int
            } else {
                c
            };
            self.log.subrange(from, self.log.len() as int)
        } else {
            Seq::empty()
        }
    }

    /// Whether subscriber `id` has fallen behind the oldest event kept.
    pub open spec fn lagging(self, id: nat) -> bool {
        self.connected(id) && self.cursors[id as int]->Some_0 < self.start
    }

    /// The state after publishing `e`: the oldest event is dropped once more
    /// than `capacity` are kept. Cursors do not move.
    pub open spec fn published(self, e: WsMessage) -> HubState {
        let log = self.log.push(e);
        HubState {
            log,
            start: if log.len() - self.start > self.capacity {
                self.start + 1
            } else {
                self.start
            },
            ..self
        }
    }

    /// The state after publishing each of `es` in order.
    pub open spec fn published_all(self, es: Seq<WsMessage>) -> HubState
        decreases es.len(),
    {
        if es.len() == 0 {
            self
        } else {
            self.published_all(es.drop_last()).published(es.last())
        }
    }

    /// A slot a new subscriber may take: a free one, or one past the end.
    pub open spec fn vacant(self, id: nat) -> bool {
        id == self.cursors.len() || (id < self.cursors.len() && self.cursors[id as int] is None)
    }

    /// The state after a subscriber takes slot `id`, starting after every
    /// event published so far.
    pub open spec fn subscribed(self, id: nat) -> HubState {
        let fresh = Some(self.log.len() as u64);
        HubState {
            cursors: if id == self.cursors.len() {
                self.cursors.push(fresh)
            } else {
                self.cursors.update(id as int, fresh)
            },
            ..self
        }
    }

    /// The state after subscriber `id` disconnects.
    pub open spec fn unsubscribed(self, id: nat) -> HubState {
        if id < self.cursors.len() {
            HubState { cursors: self.cursors.update(id as int, None), ..self }
        } else {
            self
        }
    }

    /// The state after subscriber `id` reads once.
    pub open spec fn after_receive(self, id: nat) -> HubState {
        if !self.connected(id) {
            self
        } else if self.lagging(id) {
            HubState { cursors: self.cursors.update(id as int, Some(self.start as u64)), ..self }
        } else if self.cursors[id as int]->Some_0 == self.log.len() {
            self
        } else {
            HubState {
                cursors: self.cursors.update(
                    id as int,
                    Some((self.cursors[id as int]->Some_0 + 1) as u64),
                ),
                ..self
            }
        }
    }
}

/// A published event reaches every subscriber connected when it was
/// published, after the events it already had pending, and stays the newest
/// event it has pending; unless the subscriber had let the buffer fill, it
/// loses nothing.
pub proof fn lemma_publish_reaches_connected(h: HubState, e: WsMessage, id: nat)
    requires
        h.well_formed(),
        h.connected(id),
    ensures
        h.published(e).well_formed(),
        h.published(e).connected(id),
        h.published(e).pending(id).last() == e,
        h.pending(id).len() < h.capacity ==> h.published(e).pending(id) == h.pending(id).push(e),
{
    let p = h.published(e);
    assert forall|i: int| 0 <= i < p.cursors.len() implies (#[trigger] p.cursors[i] matches Some(
        c,
    ) ==> c <= p.log.len()) by {
        assert(h.cursors[i] == p.cursors[i]);
    }
    if h.pending(id).len() < h.capacity {
        assert(p.pending(id) =~= h.pending(id).push(e));
    }
}

proof fn lemma_published_all_shape(h: HubState, es: Seq<WsMessage>)
    requires
        h.well_formed(),
    ensures
        h.published_all(es).well_formed(),
        h.published_all(es).capacity == h.capacity,
        h.published_all(es).cursors == h.cursors,
        h.published_all(es).log == h.log + es,
        h.published_all(es).start == if h.log.len() + es.len() - h.capacity > h.start {
            h.log.len() + es.len() - h.capacity
        } else {
            h.start as int
        },
    decreases es.len(),
{
    if es.len() > 0 {
        let prev = h.published_all(es.drop_last());
        lemma_published_all_shape(h, es.drop_last());
        assert(prev.log.push(es.last()) =~= h.log + es);
        let p = prev.published(es.last());
        assert forall|i: int| 0 <= i < p.cursors.len() implies (#[trigger] p.cursors[i] matches Some(
            c,
        ) ==> c <= p.log.len()) by {
            assert(prev.cursors[i] == p.cursors[i]);
        }
    } else {
        assert(h.log + es =~= h.log);
    }
}

/// A subscriber that connects observes only events published after it
/// connected, in publication order: what it has pending is always the newest
/// part of those events, and all of them while no more than `capacity` have
/// been published.
pub proof fn lemma_subscriber_sees_only_later_events(h: HubState, id: nat, es: Seq<WsMessage>)
    requires
        h.well_formed(),
        h.vacant(id),
        h.log.len() < u64::MAX,
    ensures
        h.subscribed(id).published_all(es).pending(id) =~= es.subrange(
            es.len() - h.subscribed(id).published_all(es).pending(id).len(),
            es.len() as int,
        ),
        es.len() <= h.capacity ==> h.subscribed(id).published_all(es).pending(id) == es,
{
    let s = h.subscribed(id);
    assert forall|i: int| 0 <= i < s.cursors.len() implies (#[trigger] s.cursors[i] matches Some(
        c,
    ) ==> c <= s.log.len()) by {
        if i != id {
            assert(h.cursors[i] == s.cursors[i]);
        }
    }
    lemma_published_all_shape(s, es);
    let f = s.published_all(es);
    assert(f.connected(id));
    let from = if h.log.len() < f.start {
        f.start as int
    } else {
        h.log.len() as int
    };
    assert(f.pending(id) =~= (h.log + es).subrange(from, (h.log.len() + es.len()) as int));
    assert(f.pending(id) =~= es.subrange(from - h.log.len(), es.len() as int));
    if es.len() <= h.capacity {
        assert(f.pending(id) =~= es);
    }
}

/// Publishing is the same whatever the subscribers have read: the kept
/// events depend only on what was kept before, and no cursor moves.
pub proof fn lemma_publish_ignores_readers(h1: HubState, h2: HubState, e: WsMessage)
    requires
        h1.capacity == h2.capacity,
        h1.log == h2.log,
        h1.start == h2.start,
    ensures
        h1.published(e).log == h2.published(e).log,
        h1.published(e).start == h2.published(e).start,
        h1.published(e).cursors == h1.cursors,
        h2.published(e).cursors == h2.cursors,
{
}

/// One subscriber reading changes nothing that any other subscriber will
/// observe.
pub proof fn lemma_receive_is_isolated(h: HubState, id: nat, other: nat)
    requires
        h.well_formed(),
        id != other,
    ensures
        h.after_receive(id).well_formed(),
        h.after_receive(id).log == h.log,
        h.after_receive(id).connected(other) == h.connected(other),
        h.after_receive(id).pending(other) == h.pending(other),
{
    let a = h.after_receive(id);
    assert forall|i: int| 0 <= i < a.cursors.len() implies (#[trigger] a.cursors[i] matches Some(
        c,
    ) ==> c <= a.log.len()) by {
        if i != id {
            assert(h.cursors[i] == a.cursors[i]);
        }
    }
    if h.connected(other) {
        assert(a.cursors[other as int] == h.cursors[other as int]);
    }
}

/// A bounded broadcast channel with one cursor per subscriber.
pub struct BroadcastHub {
    capacity: usize,
    buffer: Vec<WsMessage>,
    start: u64,
    end: u64,
    cursors: Vec<Option<u64>>,
    log: Ghost<Seq<WsMessage>>,
}

impl View for BroadcastHub {
    type V = HubState;

    closed spec fn view(&self) -> HubState {
        HubState {
            capacity: self.capacity as nat,
            log: self.log@,
            start: self.start as nat,
            cursors: self.cursors@,
        }
    }
}

impl BroadcastHub {
    /// The hub's representation matches its abstract state.
    pub closed spec fn well_formed(&self) -> bool {
        &&& self@.well_formed()
        &&& self.end == self.log@.len()
        &&& self.buffer@ == self.log@.subrange(self.start as int, self.end as int)
    }

    /// A well-formed hub's abstract state is well formed, and its log length
    /// fits the hub's event counter, so the laws on `HubState` apply to it.
    pub proof fn lemma_view_well_formed(&self)
        requires
            self.well_formed(),
        ensures
            self@.well_formed(),
            self@.log.len() <= u64::MAX,
    {
    }

    /// A hub that keeps at most `capacity` unread events.
    pub fn new(capacity: usize) -> (r: Self)
        requires
            capacity >= 1,
        ensures
            r.well_formed(),
            r@.capacity == capacity,
            r@.log.len() == 0,
            r@.start == 0,
            r@.cursors.len() == 0,
    {
        let r = BroadcastHub {
            capacity,
            buffer: Vec::new(),
            start: 0,
            end: 0,
            cursors: Vec::new(),
            log: Ghost(Seq::empty()),
        };
        assert(r.log@.subrange(0, 0) =~= Seq::<WsMessage>::empty());
        r
    }

    /// How many events have been published.
    pub fn published_count(&self) -> (r: u64)
        requires
            self.well_formed(),
        ensures
            r == self@.log.len(),
    {
        self.end
    }

    /// Publishes `event` to every connected subscriber. Never waits and never
    /// fails; when the buffer is full the oldest event is dropped.
    pub fn publish(&mut self, event: WsMessage)
        requires
            old(self).well_formed(),
            old(self)@.log.len() < u64::MAX,
        ensures
            final(self).well_formed(),
            final(self)@ == old(self)@.published(event),
    {
        proof {
            self.log@ = self.log@.push(event);
        }
        self.buffer.push(event);
        self.end = self.end + 1;
        if self.buffer.len() > self.capacity {
            self.buffer.remove(0);
            self.start = self.start + 1;
        }
        assert(self.buffer@ =~= self.log@.subrange(self.start as int, self.end as int));
        assert(self@ =~= old(self)@.published(event));
    }

    /// Publishes each of `events` in order.
    pub fn publish_all(&mut self, events: Vec<WsMessage>)
        requires
            old(self).well_formed(),
            old(self)@.log.len() + events.len() < u64::MAX,
        ensures
            final(self).well_formed(),
            final(self)@ == old(self)@.published_all(events@),
    {
        let ghost all = events@;
        let mut rest = events;
        let ghost mut done: Seq<WsMessage> = Seq::empty();
        assert(old(self)@.published_all(Seq::empty()) == old(self)@);
        while rest.len() > 0
            invariant
                self.well_formed(),
                self@.log.len() == old(self)@.log.len() + done.len(),
                done.len() + rest@.len() == all.len(),
                old(self)@.log.len() + all.len() < u64::MAX,
                done =~= all.subrange(0, done.len() as int),
                rest@ =~= all.subrange(done.len() as int, all.len() as int),
                self@ == old(self)@.published_all(done),
            decreases rest.len(),
        {
            let e = rest.remove(0);
            proof {
                done = done.push(e);
                assert(done.drop_last() =~= all.subrange(0, done.len() - 1));
            }
            self.publish(e);
        }
        assert(done =~= all);
    }

    /// Connects a new subscriber, which observes only events published from
    /// now on, and returns its id.
    pub fn subscribe(&mut self) -> (r: usize)
        requires
            old(self).well_formed(),
        ensures
            final(self).well_formed(),
            old(self)@.vacant(r as nat),
            final(self)@ == old(self)@.subscribed(r as nat),
    {
        let mut i: usize = 0;
        while i < self.cursors.len()
            invariant
                i <= self.cursors.len(),
                *self == *old(self),
                self.well_formed(),
                forall|j: int| 0 <= j < i ==> self.cursors@[j] is Some,
            decreases self.cursors.len() - i,
        {
            if self.cursors[i].is_none() {
                self.cursors.set(i, Some(self.end));
                assert(self.cursors@ =~= old(self)@.cursors.update(i as int, Some(self.end)));
                assert(self@ =~= old(self)@.subscribed(i as nat));
                return i;
            }
            i = i + 1;
        }
        self.cursors.push(Some(self.end));
        assert(self@ =~= old(self)@.subscribed(i as nat));
        i
    }

    /// Disconnects subscriber `id`; its slot may be reused.
    pub fn unsubscribe(&mut self, id: usize)
        requires
            old(self).well_formed(),
        ensures
            final(self).well_formed(),
            final(self)@ == old(self)@.unsubscribed(id as nat),
    {
        if id < self.cursors.len() {
            self.cursors.set(id, None);
            assert(self@ =~= old(self)@.unsubscribed(id as nat));
        }
    }

    /// Reads the next event for subscriber `id`.
    pub fn receive(&mut self, id: usize) -> (r: Received)
        requires
            old(self).well_formed(),
        ensures
            final(self).well_formed(),
            final(self)@ == old(self)@.after_receive(id as nat),
            !old(self)@.connected(id as nat) ==> r is Closed,
            old(self)@.lagging(id as nat) ==> r == Received::Lagged(
                (old(self)@.start - old(self)@.cursors[id as int]->Some_0) as u64,
            ),
            old(self)@.connected(id as nat) && !old(self)@.lagging(id as nat) ==> {
                &&& old(self)@.pending(id as nat).len() == 0 ==> r is Empty
                &&& old(self)@.pending(id as nat).len() > 0 ==> r == Received::Event(
                    old(self)@.pending(id as nat)[0],
                )
            },
    {
        if id >= self.cursors.len() {
            return Received::Closed;
        }
        match self.cursors[id] {
            None => Received::Closed,
            Some(c) => {
                if c < self.start {
                    self.cursors.set(id, Some(self.start));
                    assert(self@ =~= old(self)@.after_receive(id as nat));
                    Received::Lagged(self.start - c)
                } else if c == self.end {
                    Received::Empty
                } else {
                    let e = self.buffer[(c - self.start) as usize].duplicate();
                    self.cursors.set(id, Some(c + 1));
                    assert(self@ =~= old(self)@.after_receive(id as nat));
                    Received::Event(e)
                }
            },
        }
    }
}

} // verus!
