//! The broadcast bus: a single publish path feeding one bounded FIFO queue
//! per subscriber.
//!
//! Delivery is at-most-once and best-effort: when a subscriber's queue is
//! full, its oldest unread event is dropped so that publishing never stalls.
//! A subscriber observes events in publish order, and one that never lagged
//! has observed exactly the events published since it subscribed — that is
//! the well-formedness invariant every operation preserves, stated on its
//! own in [`lemma_fifo_delivery`].

use vstd::prelude::*;
use crate::models::Event;
use crate::models::EventV;

verus! {

/// Mathematical image of a [`Subscriber`].
#[verifier::ext_equal]
pub ghost struct SubscriberV {
    pub id: u64,
    pub queue: Seq<EventV>,
    pub dropped: nat,
    pub start: nat,
    pub delivered: Seq<EventV>,
}

/// One subscription: a bounded queue fed by every publish, plus the ghost
/// record of when it subscribed and what it has received.
pub struct Subscriber {
    pub id: u64,
    pub queue: Vec<Event>,
    pub dropped: u64,
    pub start: Ghost<nat>,
    pub delivered: Ghost<Seq<EventV>>,
}

impl View for Subscriber {
    type V = SubscriberV;

    open spec fn view(&self) -> SubscriberV {
        SubscriberV {
            id: self.id,
            queue: self.queue@.map(|i: int, e: Event| e@),
            dropped: self.dropped as nat,
            start: self.start@,
            delivered: self.delivered@,
        }
    }
}

/// Mathematical image of a [`Bus`].
#[verifier::ext_equal]
pub ghost struct BusV {
    pub capacity: nat,
    pub next_id: u64,
    pub subs: Seq<SubscriberV>,
    pub history: Seq<EventV>,
}

/// The fan-out primitive: all events pass through `publish`, every
/// subscriber holds its own bounded queue.
pub struct Bus {
    pub capacity: usize,
    pub next_id: u64,
    pub subs: Vec<Subscriber>,
    pub history: Ghost<Seq<EventV>>,
}

impl View for Bus {
    type V = BusV;

    open spec fn view(&self) -> BusV {
        BusV {
            capacity: self.capacity as nat,
            next_id: self.next_id,
            subs: self.subs@.map(|i: int, s: Subscriber| s@),
            history: self.history@,
        }
    }
}

/// How one subscriber's queue changes under a single publish: the event is
/// appended, after dropping the oldest queued event if the queue was full.
pub open spec fn sub_publish_step(s0: SubscriberV, s1: SubscriberV, e: EventV, capacity: nat) -> bool {
    &&& s1.id == s0.id
    &&& s1.start == s0.start
    &&& s1.delivered == s0.delivered
    &&& (if s0.queue.len() < capacity {
        s1.queue == s0.queue.push(e) && s1.dropped == s0.dropped
    } else {
        s1.queue == s0.queue.drop_first().push(e) && s1.dropped > 0
    })
}

/// How the whole bus changes under a single publish: the event enters the
/// history and every subscriber's queue takes one [`sub_publish_step`].
pub open spec fn publish_step(b0: BusV, b1: BusV, e: EventV) -> bool {
    &&& b1.capacity == b0.capacity
    &&& b1.next_id == b0.next_id
    &&& b1.history == b0.history.push(e)
    &&& b1.subs.len() == b0.subs.len()
    &&& forall|i: int|
        0 <= i < b0.subs.len() ==> sub_publish_step(b0.subs[i], b1.subs[i], e, b0.capacity)
}

proof fn lemma_skip_push<A>(h: Seq<A>, st: int, e: A)
    requires
        0 <= st <= h.len(),
    ensures
        h.push(e).skip(st) == h.skip(st).push(e),
{
    assert(h.push(e).skip(st) =~= h.skip(st).push(e));
}

/// The subscribers of `b0` still stand unchanged in `b2` after `extra`
/// events were published: identity, subscription point and delivery record
/// are untouched, and a subscriber that never lagged and had room for
/// `extra` more events still has not lagged.
pub open spec fn subs_preserved(b0: BusV, b2: BusV, extra: nat) -> bool {
    forall|i: int|
        0 <= i < b0.subs.len() ==> {
            &&& (#[trigger] b2.subs[i]).id == b0.subs[i].id
            &&& b2.subs[i].start == b0.subs[i].start
            &&& b2.subs[i].delivered == b0.subs[i].delivered
            &&& (b0.subs[i].dropped == 0 && b0.subs[i].queue.len() + extra <= b0.capacity
                ==> b2.subs[i].dropped == 0)
        }
}

/// Composes two publishes: the history grows by both events in order and
/// every subscriber is preserved in the sense of [`subs_preserved`].
pub proof fn lemma_publish_two(b0: BusV, b1: BusV, b2: BusV, e1: EventV, e2: EventV)
    requires
        publish_step(b0, b1, e1),
        publish_step(b1, b2, e2),
    ensures
        b2.capacity == b0.capacity,
        b2.next_id == b0.next_id,
        b2.history == b0.history.push(e1).push(e2),
        b2.subs.len() == b0.subs.len(),
        subs_preserved(b0, b2, 2),
{
    assert forall|i: int|
        0 <= i < b0.subs.len() implies {
        &&& (#[trigger] b2.subs[i]).id == b0.subs[i].id
        &&& b2.subs[i].start == b0.subs[i].start
        &&& b2.subs[i].delivered == b0.subs[i].delivered
        &&& (b0.subs[i].dropped == 0 && b0.subs[i].queue.len() + 2 <= b0.capacity
            ==> b2.subs[i].dropped == 0)
    } by {
        assert(sub_publish_step(b0.subs[i], b1.subs[i], e1, b0.capacity));
        assert(sub_publish_step(b1.subs[i], b2.subs[i], e2, b1.capacity));
    }
}

impl Bus {
    pub open spec fn wf(self) -> bool {
        &&& self@.capacity >= 1
        &&& forall|i: int|
            0 <= i < self@.subs.len() ==> (#[trigger] self@.subs[i]).queue.len() <= self@.capacity
        &&& forall|i: int, j: int|
            0 <= i < j < self@.subs.len() ==> self@.subs[i].id != self@.subs[j].id
        &&& forall|i: int| 0 <= i < self@.subs.len() ==> (#[trigger] self@.subs[i]).id < self@.next_id
        &&& forall|i: int|
            0 <= i < self@.subs.len() ==> (#[trigger] self@.subs[i]).start <= self@.history.len()
        &&& forall|i: int|
            0 <= i < self@.subs.len() ==> ((#[trigger] self@.subs[i]).dropped == 0
                ==> self@.subs[i].delivered + self@.subs[i].queue == self@.history.skip(
                self@.subs[i].start as int,
            ))
    }

    pub open spec fn has_sub(self, sid: u64) -> bool {
        exists|i: int| 0 <= i < self@.subs.len() && (#[trigger] self@.subs[i]).id == sid
    }

    /// Position of subscription `sid`; meaningful only when present.
    pub open spec fn sub_index(self, sid: u64) -> int {
        choose|i: int| 0 <= i < self@.subs.len() && (#[trigger] self@.subs[i]).id == sid
    }

    /// The subscriber registered under `sid`; meaningful only when present.
    pub open spec fn sub(self, sid: u64) -> SubscriberV {
        self@.subs[self.sub_index(sid)]
    }

    /// A bus with no subscribers and an empty history.
    pub fn new(capacity: usize) -> (b: Bus)
        requires
            capacity >= 1,
        ensures
            b.wf(),
            b@.capacity == capacity,
            b@.next_id == 0,
            b@.subs.len() == 0,
            b@.history.len() == 0,
    {
        let b = Bus {
            capacity,
            next_id: 0,
            subs: Vec::new(),
            history: Ghost(Seq::empty()),
        };
        proof {
            assert(b@.subs =~= Seq::<SubscriberV>::empty());
        }
        b
    }

    fn find_sub(&self, sid: u64) -> (r: Option<usize>)
        ensures
            match r {
                Some(i) => i < self@.subs.len() && self@.subs[i as int].id == sid,
                None => !self.has_sub(sid),
            },
    {
        let n = self.subs.len();
        for i in 0..n
            invariant
                n == self.subs@.len(),
                forall|k: int| 0 <= k < i ==> (#[trigger] self@.subs[k]).id != sid,
        {
            if self.subs[i].id == sid {
                return Some(i);
            }
        }
        None
    }

    /// Opens a subscription.  The new subscriber will observe exactly the
    /// events published after this call (no replay), in publish order.
    /// Returns `None` only when the identifier space is exhausted.
    pub fn subscribe(&mut self) -> (r: Option<u64>)
        requires
            old(self).wf(),
        ensures
            final(self).wf(),
            final(self)@.capacity == old(self)@.capacity,
            final(self)@.history == old(self)@.history,
            match r {
                Some(sid) => {
                    &&& !old(self).has_sub(sid)
                    &&& final(self).has_sub(sid)
                    &&& final(self).sub_index(sid) == old(self)@.subs.len()
                    &&& final(self)@.subs == old(self)@.subs.push(
                        SubscriberV {
                            id: sid,
                            queue: Seq::empty(),
                            dropped: 0,
                            start: old(self)@.history.len(),
                            delivered: Seq::empty(),
                        },
                    )
                },
                None => old(self)@.next_id == u64::MAX && final(self)@ == old(self)@,
            },
    {
        if self.next_id == u64::MAX {
            return None;
        }
        let sid = self.next_id;
        self.next_id = self.next_id + 1;
        let sub = Subscriber {
            id: sid,
            queue: Vec::new(),
            dropped: 0,
            start: Ghost(self.history@.len()),
            delivered: Ghost(Seq::empty()),
        };
        self.subs.push(sub);
        proof {
            let target = SubscriberV {
                id: sid,
                queue: Seq::empty(),
                dropped: 0,
                start: old(self)@.history.len(),
                delivered: Seq::empty(),
            };
            assert(self@.subs =~~= old(self)@.subs.push(target));
            assert(self@.history.skip(self@.history.len() as int) =~= Seq::<EventV>::empty());
            let n = old(self)@.subs.len();
            assert(self@.subs[n as int].id == sid);
            assert(self.sub_index(sid) == n) by {
                let j = self.sub_index(sid);
                if j != n {
                    assert(old(self)@.subs[j].id == sid);
                }
            }
        }
        Some(sid)
    }

    /// Publishes an event: appends it to the history and to every
    /// subscriber's queue, dropping a full subscriber's oldest unread
    /// event rather than stalling.  Never refuses.
    pub fn publish(&mut self, ev: Event)
        requires
            old(self).wf(),
        ensures
            final(self).wf(),
            publish_step(old(self)@, final(self)@, ev@),
    {
        self.history = Ghost(self.history@.push(ev@));
        let n = self.subs.len();
        for i in 0..n
            invariant
                old(self).wf(),
                n == self.subs@.len(),
                n == old(self)@.subs.len(),
                self@.capacity == old(self)@.capacity,
                self@.next_id == old(self)@.next_id,
                self@.history == old(self)@.history.push(ev@),
                self.capacity == old(self).capacity,
                forall|k: int|
                    0 <= k < i ==> sub_publish_step(
                        old(self)@.subs[k],
                        #[trigger] self@.subs[k],
                        ev@,
                        old(self)@.capacity,
                    ),
                forall|k: int| i <= k < n ==> #[trigger] self@.subs[k] == old(self)@.subs[k],
        {
            let ghost pre_subs = self@.subs;
            let mut s = self.subs.remove(i);
            proof {
                assert(s@ == pre_subs[i as int]);
                assert(s@ == old(self)@.subs[i as int]);
            }
            if s.queue.len() == self.capacity {
                s.queue.remove(0);
                if s.dropped < u64::MAX {
                    s.dropped = s.dropped + 1;
                }
            }
            s.queue.push(ev.clone());
            self.subs.insert(i, s);
            proof {
                assert(self@.subs =~~= pre_subs.update(i as int, s@));
                let s0 = old(self)@.subs[i as int];
                let s1 = self@.subs[i as int];
                if s0.queue.len() < old(self)@.capacity {
                    assert(s1.queue =~= s0.queue.push(ev@));
                } else {
                    assert(s1.queue =~= s0.queue.drop_first().push(ev@));
                }
                assert(sub_publish_step(s0, s1, ev@, old(self)@.capacity));
            }
        }
        proof {
            assert forall|i: int|
                0 <= i < self@.subs.len() && (#[trigger] self@.subs[i]).dropped == 0 implies
                self@.subs[i].delivered + self@.subs[i].queue == self@.history.skip(
                    self@.subs[i].start as int,
                ) by {
                let s0 = old(self)@.subs[i];
                let s1 = self@.subs[i];
                assert(sub_publish_step(s0, s1, ev@, old(self)@.capacity));
                assert(s0.queue.len() < old(self)@.capacity && s0.dropped == 0);
                assert(s0.delivered + s0.queue == old(self)@.history.skip(s0.start as int));
                assert(s0.start <= old(self)@.history.len());
                lemma_skip_push(old(self)@.history, s0.start as int, ev@);
                assert(s1.delivered + s1.queue =~= old(self)@.history.skip(s0.start as int).push(
                    ev@,
                ));
                assert(s1.delivered + s1.queue =~= self@.history.skip(s1.start as int));
            }
        }
    }

    /// Takes the oldest queued event of subscription `sid`, if any.
    pub fn recv(&mut self, sid: u64) -> (r: Option<Event>)
        requires
            old(self).wf(),
        ensures
            final(self).wf(),
            final(self)@.capacity == old(self)@.capacity,
            final(self)@.next_id == old(self)@.next_id,
            final(self)@.history == old(self)@.history,
            !old(self).has_sub(sid) ==> r is None && final(self)@ == old(self)@,
            old(self).has_sub(sid) ==> ({
                let k = old(self).sub_index(sid);
                let s0 = old(self)@.subs[k];
                &&& final(self)@.subs.len() == old(self)@.subs.len()
                &&& forall|i: int|
                    0 <= i < old(self)@.subs.len() && i != k ==> #[trigger] final(self)@.subs[i]
                        == old(self)@.subs[i]
                &&& final(self)@.subs[k].id == s0.id
                &&& final(self)@.subs[k].start == s0.start
                &&& final(self)@.subs[k].dropped == s0.dropped
                &&& (if s0.queue.len() == 0 {
                    r is None && final(self)@.subs[k] == s0
                } else {
                    &&& (match r {
                        Some(e) => e@ == s0.queue[0],
                        None => false,
                    })
                    &&& final(self)@.subs[k].queue == s0.queue.drop_first()
                    &&& final(self)@.subs[k].delivered == s0.delivered.push(s0.queue[0])
                })
            }),
    {
        let i = match self.find_sub(sid) {
            Some(i) => i,
            None => {
                return None;
            },
        };
        proof {
            assert(old(self).sub_index(sid) == i as int) by {
                let j = old(self).sub_index(sid);
                assert(0 <= j < old(self)@.subs.len() && old(self)@.subs[j].id == sid);
            }
        }
        if self.subs[i].queue.len() == 0 {
            return None;
        }
        let ghost pre_subs = self@.subs;
        let mut s = self.subs.remove(i);
        let e = s.queue.remove(0);
        proof {
            s.delivered@ = s.delivered@.push(e@);
        }
        self.subs.insert(i, s);
        proof {
            assert(self@.subs =~~= pre_subs.update(i as int, s@));
            let s0 = old(self)@.subs[i as int];
            let s1 = self@.subs[i as int];
            assert(s1.queue =~= s0.queue.drop_first());
            assert(e@ == s0.queue[0]);
            if s0.dropped == 0 {
                assert(s1.delivered + s1.queue =~= self@.history.skip(s1.start as int));
            }
        }
        Some(e)
    }

    /// Closes subscription `sid`; later publishes no longer reach it.
    pub fn unsubscribe(&mut self, sid: u64) -> (r: bool)
        requires
            old(self).wf(),
        ensures
            final(self).wf(),
            final(self)@.capacity == old(self)@.capacity,
            final(self)@.next_id == old(self)@.next_id,
            final(self)@.history == old(self)@.history,
            r == old(self).has_sub(sid),
            r ==> final(self)@.subs == old(self)@.subs.remove(old(self).sub_index(sid)),
            !r ==> final(self)@ == old(self)@,
    {
        match self.find_sub(sid) {
            Some(i) => {
                self.subs.remove(i);
                proof {
                    assert(old(self).sub_index(sid) == i as int) by {
                        let j = old(self).sub_index(sid);
                        assert(0 <= j < old(self)@.subs.len() && old(self)@.subs[j].id == sid);
                    }
                    assert(self@.subs =~~= old(self)@.subs.remove(i as int));
                    assert(old(self).has_sub(sid));
                }
                true
            },
            None => false,
        }
    }
}

/// Law: a subscriber that never lagged (no event of its queue was ever
/// dropped) has received, followed by what is still queued, exactly the
/// sequence of events published since its subscription began, in publish
/// order.
pub proof fn lemma_fifo_delivery(b: Bus, i: int)
    requires
        b.wf(),
        0 <= i < b@.subs.len(),
        b@.subs[i].dropped == 0,
    ensures
        b@.subs[i].delivered + b@.subs[i].queue == b@.history.skip(b@.subs[i].start as int),
{
}

} // verus!
