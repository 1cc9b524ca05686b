use vstd::prelude::*;
use std::collections::VecDeque;

verus! {

/// What a subscriber receives.
#[derive(Debug, PartialEq, Eq)]
pub enum Received<T> {
    Item(T),
    /// The subscriber fell behind: this many of the oldest items were dropped.
    Lagged(u64),
    Empty,
}

/// One subscriber: a bounded ring of items not yet received.
pub struct Subscriber<T> {
    ring: VecDeque<T>,
    capacity: usize,
    missed: u64,
}

/// A subscriber as values.
pub struct SubscriberModel<T> {
    pub ring: Seq<T>,
    pub capacity: nat,
    pub missed: u64,
}

/// The subscriber after `item` is published: when its ring is full the oldest
/// item makes room and counts as missed.
pub open spec fn published<T>(s: SubscriberModel<T>, item: T) -> SubscriberModel<T> {
    if s.ring.len() >= s.capacity {
        SubscriberModel {
            ring: s.ring.drop_first().push(item),
            missed: if s.missed == u64::MAX { u64::MAX } else { (s.missed + 1) as u64 },
            ..s
        }
    } else {
        SubscriberModel { ring: s.ring.push(item), ..s }
    }
}

/// The subscriber after publishing `items` in order.
pub open spec fn published_all<T>(s: SubscriberModel<T>, items: Seq<T>) -> SubscriberModel<T>
    decreases items.len(),
{
    if items.len() == 0 {
        s
    } else {
        published(published_all(s, items.drop_last()), items.last())
    }
}

/// Broadcasts items to subscribers, each with its own bounded ring; publishing
/// never waits: a full ring drops its oldest item and reports the lag.
pub struct Hub<T> {
    subscribers: Vec<Subscriber<T>>,
}

impl<T: Copy> Hub<T> {
    /// The subscribers as values, by id.
    pub closed spec fn view(&self) -> Seq<SubscriberModel<T>> {
        self.subscribers@.map_values(|s: Subscriber<T>| SubscriberModel {
            ring: s.ring@,
            capacity: s.capacity as nat,
            missed: s.missed,
        })
    }

    /// Every ring holds at most its capacity, which is positive.
    pub closed spec fn wf(&self) -> bool {
        forall|i: int| 0 <= i < self@.len() ==> 0 < (#[trigger] self@[i]).capacity
            && self@[i].ring.len() <= self@[i].capacity
    }

    /// A hub with no subscriber.
    pub fn new() -> (r: Hub<T>)
        ensures
            r.wf(),
            r@.len() == 0,
    {
        Hub { subscribers: Vec::new() }
    }

    /// Adds a subscriber whose ring holds `capacity` items; returns its id.
    pub fn subscribe(&mut self, capacity: usize) -> (r: usize)
        requires
            old(self).wf(),
            capacity > 0,
        ensures
            final(self).wf(),
            r == old(self)@.len(),
            final(self)@ == old(self)@.push(SubscriberModel { ring: Seq::empty(), capacity: capacity as nat, missed: 0 }),
    {
        let id = self.subscribers.len();
        self.subscribers.push(Subscriber { ring: VecDeque::new(), capacity, missed: 0 });
        assert(self@ =~= old(self)@.push(SubscriberModel { ring: Seq::empty(), capacity: capacity as nat, missed: 0 }));
        id
    }

    /// Hands `item` to every subscriber.
    pub fn publish(&mut self, item: T)
        requires
            old(self).wf(),
        ensures
            final(self).wf(),
            final(self)@.len() == old(self)@.len(),
            forall|i: int| 0 <= i < old(self)@.len() ==> #[trigger] final(self)@[i] == published(old(self)@[i], item),
    {
        let ghost pre = self@;
        let n = self.subscribers.len();
        let mut done: Vec<Subscriber<T>> = Vec::new();
        let mut i: usize = 0;
        while i < n
            invariant
                n == pre.len(),
                i <= n,
                self.subscribers@.len() == n - i,
                done@.len() == i,
                forall|j: int| 0 <= j < n - i ==> #[trigger] (Hub { subscribers: self.subscribers })@[j] == pre[i + j],
                forall|j: int| 0 <= j < i ==> #[trigger] (Hub { subscribers: done })@[j] == published(pre[j], item),
                forall|j: int| 0 <= j < n ==> 0 < (#[trigger] pre[j]).capacity && pre[j].ring.len() <= pre[j].capacity,
            decreases n - i,
        {
            let ghost before = (Hub { subscribers: self.subscribers })@;
            let mut s = self.subscribers.remove(0);
            assert(before[0] == pre[i as int]);
            proof {
                assert forall|j: int| 0 <= j < n - i - 1 implies #[trigger] (Hub { subscribers: self.subscribers })@[j] == pre[i + 1 + j] by {
                    assert(before[j + 1] == pre[i + j + 1]);
                }
            }
            if s.ring.len() >= s.capacity {
                let _ = s.ring.pop_front();
                s.missed = if s.missed == u64::MAX { u64::MAX } else { s.missed + 1 };
            }
            s.ring.push_back(item);
            let ghost done_before = (Hub { subscribers: done })@;
            done.push(s);
            proof {
                assert forall|j: int| 0 <= j < i + 1 implies #[trigger] (Hub { subscribers: done })@[j] == published(pre[j], item) by {
                    if j < i {
                        assert((Hub { subscribers: done })@[j] == done_before[j]);
                    } else {
                        assert((Hub { subscribers: done })@[j].ring =~= published(pre[j], item).ring);
                    }
                }
            }
            i = i + 1;
        }
        self.subscribers = done;
        proof {
            assert forall|j: int| 0 <= j < self@.len() implies 0 < (#[trigger] self@[j]).capacity
                && self@[j].ring.len() <= self@[j].capacity by {
                assert(self@[j] == published(pre[j], item));
            }
        }
    }

    /// The next event for subscriber `id`: first the count of items it missed,
    /// if any, then its items oldest first.
    pub fn receive(&mut self, id: usize) -> (r: Received<T>)
        requires
            old(self).wf(),
            id < old(self)@.len(),
        ensures
            final(self).wf(),
            final(self)@.len() == old(self)@.len(),
            forall|i: int| 0 <= i < old(self)@.len() && i != id ==> #[trigger] final(self)@[i] == old(self)@[i],
            ({
                let s = old(self)@[id as int];
                if s.missed > 0 {
                    r == Received::<T>::Lagged(s.missed)
                        && final(self)@[id as int] == SubscriberModel { missed: 0, ..s }
                } else if s.ring.len() == 0 {
                    r == Received::<T>::Empty && final(self)@[id as int] == s
                } else {
                    r == Received::Item(s.ring[0])
                        && final(self)@[id as int] == SubscriberModel { ring: s.ring.drop_first(), ..s }
                }
            }),
    {
        let ghost pre = self@;
        let mut s = self.subscribers.remove(id);
        let r = if s.missed > 0 {
            let n = s.missed;
            s.missed = 0;
            Received::Lagged(n)
        } else {
            match s.ring.pop_front() {
                Some(x) => Received::Item(x),
                None => Received::Empty,
            }
        };
        self.subscribers.insert(id, s);
        proof {
            assert forall|i: int| 0 <= i < pre.len() && i != id implies #[trigger] self@[i] == pre[i] by {}
            let s0 = pre[id as int];
            if s0.missed == 0 && s0.ring.len() > 0 {
                assert(self@[id as int].ring =~= s0.ring.drop_first());
            }
            assert forall|j: int| 0 <= j < self@.len() implies 0 < (#[trigger] self@[j]).capacity
                && self@[j].ring.len() <= self@[j].capacity by {
                if j != id {
                    assert(self@[j] == pre[j]);
                }
            }
        }
        r
    }
}

/// A subscriber receives the published items in publish order: publishing
/// items that fit its ring appends them to it in order, and drops nothing.
pub proof fn lemma_publish_order<T>(s: SubscriberModel<T>, items: Seq<T>)
    requires
        s.ring.len() + items.len() <= s.capacity,
    ensures
        published_all(s, items).ring == s.ring + items,
        published_all(s, items).missed == s.missed,
        published_all(s, items).capacity == s.capacity,
    decreases items.len(),
{
    if items.len() > 0 {
        lemma_publish_order(s, items.drop_last());
        let mid = published_all(s, items.drop_last());
        assert(mid.ring.len() < mid.capacity);
        assert(s.ring + items.drop_last() + seq![items.last()] =~= s.ring + items);
        assert((s.ring + items.drop_last()).push(items.last()) =~= s.ring + items);
    } else {
        assert(s.ring + items =~= s.ring);
    }
}

} // verus!
