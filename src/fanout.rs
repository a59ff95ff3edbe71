//! Fan-out of one tuner stream to its users.  Each user has a bounded buffer;
//! a user whose buffer is full when a chunk arrives is disconnected instead of
//! holding back the source or the other users.
use vstd::prelude::*;

verus! {

/// A user of the stream and the number of chunks waiting in its buffer.
#[derive(Clone, Copy, Debug, PartialEq, Eq, Structural)]
pub struct Subscriber {
    pub user_id: u64,
    pub pending: usize,
}

/// The subscribers that keep up after one more chunk, in order, each with one
/// more chunk pending.
pub open spec fn kept_after_chunk(subs: Seq<Subscriber>, capacity: usize) -> Seq<Subscriber>
    decreases subs.len(),
{
    if subs.len() == 0 {
        Seq::empty()
    } else {
        let rest = kept_after_chunk(subs.drop_last(), capacity);
        let s = subs.last();
        if s.pending < capacity {
            rest.push(Subscriber { user_id: s.user_id, pending: (s.pending + 1) as usize })
        } else {
            rest
        }
    }
}

/// The users whose buffers were full when the chunk came, in order.
pub open spec fn overflowed(subs: Seq<Subscriber>, capacity: usize) -> Seq<u64>
    decreases subs.len(),
{
    if subs.len() == 0 {
        Seq::empty()
    } else {
        let rest = overflowed(subs.drop_last(), capacity);
        let s = subs.last();
        if s.pending < capacity {
            rest
        } else {
            rest.push(s.user_id)
        }
    }
}

/// Keeps the subscribers other than `user_id`.
pub open spec fn other_than(user_id: u64) -> spec_fn(Subscriber) -> bool {
    |s: Subscriber| s.user_id != user_id
}

/// The buffers of a stream's users.
pub struct Broadcaster {
    capacity: usize,
    subscribers: Vec<Subscriber>,
}

impl Broadcaster {
    pub closed spec fn spec_capacity(&self) -> usize {
        self.capacity
    }

    pub closed spec fn spec_subscribers(&self) -> Seq<Subscriber> {
        self.subscribers@
    }

    /// No buffer holds more than the capacity.
    pub open spec fn wf(&self) -> bool {
        forall|k: int|
            0 <= k < self.spec_subscribers().len() ==> (#[trigger] self.spec_subscribers()[k]).pending
                <= self.spec_capacity()
    }

    pub fn new(capacity: usize) -> (r: Self)
        ensures
            r.wf(),
            r.spec_capacity() == capacity,
            r.spec_subscribers().len() == 0,
    {
        Broadcaster { capacity, subscribers: Vec::new() }
    }

    pub fn subscribers(&self) -> (r: &Vec<Subscriber>)
        ensures
            r@ == self.spec_subscribers(),
    {
        &self.subscribers
    }

    /// Adds a user with an empty buffer.
    pub fn subscribe(&mut self, user_id: u64)
        requires
            old(self).wf(),
        ensures
            final(self).wf(),
            final(self).spec_capacity() == old(self).spec_capacity(),
            final(self).spec_subscribers() == old(self).spec_subscribers().push(
                Subscriber { user_id, pending: 0 },
            ),
    {
        self.subscribers.push(Subscriber { user_id, pending: 0 });
        assert forall|k: int| 0 <= k < self.subscribers@.len() implies (
        #[trigger] self.subscribers@[k]).pending <= self.capacity by {
            if k < old(self).subscribers@.len() {
                assert(self.subscribers@[k] == old(self).spec_subscribers()[k]);
            }
        }
    }

    /// One chunk for every user: users with room get it, the others are
    /// dropped and returned.
    pub fn broadcast(&mut self) -> (dropped: Vec<u64>)
        requires
            old(self).wf(),
        ensures
            final(self).wf(),
            final(self).spec_capacity() == old(self).spec_capacity(),
            final(self).spec_subscribers() == kept_after_chunk(
                old(self).spec_subscribers(),
                old(self).spec_capacity(),
            ),
            dropped@ == overflowed(old(self).spec_subscribers(), old(self).spec_capacity()),
    {
        let cap = self.capacity;
        let ghost subs = self.subscribers@;
        assert forall|j: int| 0 <= j < subs.len() implies (#[trigger] subs[j]).pending <= cap by {
            assert(self.spec_subscribers()[j] == subs[j]);
        }
        let mut kept: Vec<Subscriber> = Vec::new();
        let mut dropped: Vec<u64> = Vec::new();
        let mut k: usize = 0;
        while k < self.subscribers.len()
            invariant
                0 <= k <= subs.len(),
                self.subscribers@ == subs,
                self.capacity == cap,
                forall|j: int| 0 <= j < subs.len() ==> (#[trigger] subs[j]).pending <= cap,
                kept@ == kept_after_chunk(subs.subrange(0, k as int), cap),
                dropped@ == overflowed(subs.subrange(0, k as int), cap),
                forall|j: int| 0 <= j < kept@.len() ==> (#[trigger] kept@[j]).pending <= cap,
            decreases subs.len() - k,
        {
            proof {
                assert(subs.subrange(0, k as int + 1).drop_last() =~= subs.subrange(0, k as int));
            }
            let s = self.subscribers[k];
            if s.pending < cap {
                kept.push(Subscriber { user_id: s.user_id, pending: s.pending + 1 });
            } else {
                dropped.push(s.user_id);
            }
            k = k + 1;
        }
        assert(subs.subrange(0, k as int) =~= subs);
        self.subscribers = kept;
        dropped
    }

    /// The user took one chunk out of its buffer.
    pub fn consumed(&mut self, user_id: u64)
        requires
            old(self).wf(),
        ensures
            final(self).wf(),
            final(self).spec_capacity() == old(self).spec_capacity(),
            final(self).spec_subscribers().len() == old(self).spec_subscribers().len(),
            forall|k: int|
                0 <= k < old(self).spec_subscribers().len() ==> {
                    let o = old(self).spec_subscribers()[k];
                    #[trigger] final(self).spec_subscribers()[k] == if o.user_id == user_id
                        && o.pending > 0 {
                        Subscriber { user_id, pending: (o.pending - 1) as usize }
                    } else {
                        o
                    }
                },
    {
        let mut k: usize = 0;
        let ghost subs = self.subscribers@;
        while k < self.subscribers.len()
            invariant
                0 <= k <= subs.len(),
                self.subscribers@.len() == subs.len(),
                self.capacity == old(self).capacity,
                subs == old(self).subscribers@,
                forall|j: int| 0 <= j < subs.len() ==> (#[trigger] subs[j]).pending <= self.capacity,
                forall|j: int|
                    0 <= j < subs.len() ==> {
                        let o = subs[j];
                        #[trigger] self.subscribers@[j] == if j < k && o.user_id == user_id
                            && o.pending > 0 {
                            Subscriber { user_id, pending: (o.pending - 1) as usize }
                        } else {
                            o
                        }
                    },
            decreases subs.len() - k,
        {
            let s = self.subscribers[k];
            if s.user_id == user_id && s.pending > 0 {
                self.subscribers.set(k, Subscriber { user_id, pending: s.pending - 1 });
            }
            k = k + 1;
        }
    }

    /// Removes a user; returns whether it was there.
    pub fn unsubscribe(&mut self, user_id: u64) -> (r: bool)
        requires
            old(self).wf(),
        ensures
            final(self).wf(),
            final(self).spec_capacity() == old(self).spec_capacity(),
            r == exists|k: int|
                0 <= k < old(self).spec_subscribers().len() && (
                #[trigger] old(self).spec_subscribers()[k]).user_id == user_id,
            final(self).spec_subscribers() == old(self).spec_subscribers().filter(other_than(user_id)),
    {
        let ghost subs = self.subscribers@;
        let mut rest: Vec<Subscriber> = Vec::new();
        let mut found = false;
        let mut k: usize = 0;
        while k < self.subscribers.len()
            invariant
                0 <= k <= subs.len(),
                self.subscribers@ == subs,
                rest@ == subs.subrange(0, k as int).filter(other_than(user_id)),
                found == exists|j: int| 0 <= j < k && (#[trigger] subs[j]).user_id == user_id,
                forall|j: int| 0 <= j < rest@.len() ==> (#[trigger] rest@[j]).pending <= self.capacity,
                forall|j: int| 0 <= j < subs.len() ==> (#[trigger] subs[j]).pending <= self.capacity,
            decreases subs.len() - k,
        {
            proof {
                let t = subs.subrange(0, k as int + 1);
                assert(t.drop_last() =~= subs.subrange(0, k as int));
                subs.subrange(0, k as int).lemma_filter_push(subs[k as int], other_than(user_id));
                assert(t =~= subs.subrange(0, k as int).push(subs[k as int]));
            }
            let s = self.subscribers[k];
            if s.user_id == user_id {
                found = true;
            } else {
                rest.push(s);
            }
            proof {
                assert(other_than(user_id)(s) == (s.user_id != user_id));
                assert(subs[k as int] == s);
            }
            k = k + 1;
        }
        assert(subs.subrange(0, k as int) =~= subs);
        self.subscribers = rest;
        found
    }
}

} // verus!
