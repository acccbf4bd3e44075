//! A bounded first-in first-out queue of samples over a fixed arena.

use vstd::prelude::*;
use crate::sample::Sample;

verus! {

/// Position in an arena of `capacity` slots that lies `offset` slots after
/// `head`, wrapping at the end.
spec fn slot_of(head: int, offset: int, capacity: int) -> int {
    if head + offset < capacity {
        head + offset
    } else {
        head + offset - capacity
    }
}

/// A bounded queue: an arena allocated once, a read index and a count.
///
/// The write index is implied: it lies `len` slots after `head`.
pub struct Ring {
    slots: Vec<Sample>,
    head: usize,
    len: usize,
}

impl Ring {
    /// The indices lie inside the arena.
    pub closed spec fn wf(&self) -> bool {
        &&& self.len <= self.slots.len()
        &&& self.head <= self.slots.len()
        &&& (self.slots.len() > 0 ==> self.head < self.slots.len())
    }

    /// The queued samples, oldest first.
    pub closed spec fn view(&self) -> Seq<Sample> {
        Seq::new(
            self.len as nat,
            |i: int| self.slots[slot_of(self.head as int, i, self.slots.len() as int)],
        )
    }

    /// The number of samples the queue can hold.
    pub closed spec fn spec_capacity(&self) -> nat {
        self.slots.len() as nat
    }

    /// A well-formed queue holds no more than its capacity.
    pub proof fn lemma_len_bounded(&self)
        requires
            self.wf(),
        ensures
            self@.len() <= self.spec_capacity(),
    {
    }

    /// An empty queue that can hold `capacity` samples.
    pub fn new(capacity: usize) -> (ring: Ring)
        ensures
            ring.wf(),
            ring@ == Seq::<Sample>::empty(),
            ring.spec_capacity() == capacity,
    {
        let mut slots: Vec<Sample> = Vec::new();
        let mut i: usize = 0;
        while i < capacity
            invariant
                i <= capacity,
                slots.len() == i,
            decreases capacity - i,
        {
            slots.push(Sample::silence());
            i += 1;
        }
        let ring = Ring { slots, head: 0, len: 0 };
        assert(ring@ =~= Seq::<Sample>::empty());
        ring
    }

    /// The number of samples the queue can hold.
    pub fn capacity(&self) -> (capacity: usize)
        ensures
            capacity == self.spec_capacity(),
    {
        self.slots.len()
    }

    /// The number of queued samples.
    pub fn len(&self) -> (len: usize)
        requires
            self.wf(),
        ensures
            len == self@.len(),
            len <= self.spec_capacity(),
    {
        self.len
    }

    /// Whether nothing is queued.
    pub fn is_empty(&self) -> (empty: bool)
        ensures
            empty == (self@.len() == 0),
    {
        self.len == 0
    }

    /// Whether no further sample fits.
    pub fn is_full(&self) -> (full: bool)
        ensures
            full == (self@.len() == self.spec_capacity()),
    {
        self.len == self.slots.len()
    }

    /// Queues `sample` behind the others if there is room.
    ///
    /// Returns whether it was queued; a full queue is left as it was.
    pub fn push(&mut self, sample: Sample) -> (queued: bool)
        requires
            old(self).wf(),
        ensures
            final(self).wf(),
            queued == (old(self)@.len() < old(self).spec_capacity()),
            queued ==> final(self)@ == old(self)@.push(sample),
            !queued ==> final(self)@ == old(self)@,
            final(self).spec_capacity() == old(self).spec_capacity(),
    {
        let capacity: usize = self.slots.len();
        if self.len == capacity {
            return false;
        }
        let room: usize = capacity - self.head;
        let at: usize = if self.len < room {
            self.head + self.len
        } else {
            self.len - room
        };
        self.slots.set(at, sample);
        self.len = self.len + 1;
        assert(self@ =~= old(self)@.push(sample));
        true
    }

    /// Takes the oldest sample out, if there is one.
    pub fn pop(&mut self) -> (oldest: Option<Sample>)
        requires
            old(self).wf(),
        ensures
            final(self).wf(),
            old(self)@.len() == 0 ==> oldest is None && final(self)@ == old(self)@,
            old(self)@.len() > 0 ==> oldest == Some(old(self)@[0]) && final(self)@ == old(
                self,
            )@.drop_first(),
            final(self).spec_capacity() == old(self).spec_capacity(),
    {
        if self.len == 0 {
            return None;
        }
        let sample: Sample = self.slots[self.head];
        let next: usize = if self.head + 1 == self.slots.len() {
            0
        } else {
            self.head + 1
        };
        self.head = next;
        self.len = self.len - 1;
        assert(self@ =~= old(self)@.drop_first());
        Some(sample)
    }

    /// Forgets every queued sample; the arena stays allocated.
    pub fn clear(&mut self)
        requires
            old(self).wf(),
        ensures
            final(self).wf(),
            final(self)@ == Seq::<Sample>::empty(),
            final(self).spec_capacity() == old(self).spec_capacity(),
    {
        self.len = 0;
        assert(self@ =~= Seq::<Sample>::empty());
    }
}

} // verus!
