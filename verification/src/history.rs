use vstd::prelude::*;

use std::collections::VecDeque;

use crate::transaction::Transaction;

verus! {

/// What one insertion does to a newest-first history of capacity `cap`:
/// nothing can be kept when the capacity is zero; below capacity the item
/// becomes the new head; at capacity the oldest element (the last one) is
/// evicted and the item becomes the new head.
pub open spec fn pushed<T>(h: Seq<T>, cap: int, item: T) -> Seq<T> {
    if cap <= 0 {
        h
    } else if h.len() < cap {
        seq![item] + h
    } else {
        seq![item] + h.drop_last()
    }
}

/// A fixed-capacity, newest-first container of the most recent items. The
/// capacity is set at construction and never changes; once the container is
/// full, inserting a new item evicts the oldest one.
#[derive(Debug)]
pub struct RingBuffer<T> {
    items: VecDeque<T>,
    cap: usize,
}

impl<T> View for RingBuffer<T> {
    type V = Seq<T>;

    closed spec fn view(&self) -> Seq<T> {
        self.items@
    }
}

impl<T> RingBuffer<T> {
    /// The fixed capacity chosen at construction.
    pub closed spec fn spec_cap(&self) -> usize {
        self.cap
    }

    /// The container never holds more items than its capacity.
    pub open spec fn inv(&self) -> bool {
        self@.len() <= self.spec_cap()
    }

    /// An empty history that will retain at most `size` items.
    pub fn with_capacity(size: usize) -> (r: Self)
        ensures
            r@ == Seq::<T>::empty(),
            r.spec_cap() == size,
            r.inv(),
    {
        RingBuffer { items: VecDeque::with_capacity(size), cap: size }
    }

    /// How many items are currently retained.
    pub fn len(&self) -> (r: usize)
        ensures
            r == self@.len(),
    {
        self.items.len()
    }

    /// The fixed capacity chosen at construction.
    pub fn capacity(&self) -> (r: usize)
        ensures
            r == self.spec_cap(),
    {
        self.cap
    }

    /// A shared reference to the item at position `i`; position 0 is the
    /// newest item.
    pub fn get(&self, i: usize) -> (r: &T)
        requires
            i < self@.len(),
        ensures
            *r == self@[i as int],
    {
        &self.items[i]
    }

    /// Inserts `item` as the new newest element, evicting the oldest one
    /// first when the container is already at capacity. Always succeeds.
    pub fn push(&mut self, item: T)
        requires
            old(self).inv(),
        ensures
            final(self).inv(),
            final(self).spec_cap() == old(self).spec_cap(),
            final(self)@ == pushed(old(self)@, old(self).spec_cap() as int, item),
    {
        if self.cap == 0 {
            return ;
        }
        if self.items.len() >= self.cap {
            self.items.pop_back();
        }
        self.items.push_front(item);
    }
}

impl<T> Default for RingBuffer<T> {
    /// An empty history with the standard capacity of ten items.
    fn default() -> (r: Self)
        ensures
            r@ == Seq::<T>::empty(),
            r.spec_cap() == 10,
            r.inv(),
    {
        RingBuffer::with_capacity(10)
    }
}

impl RingBuffer<Transaction> {
    /// A point-in-time copy of the contents in stored (newest-first) order;
    /// later mutations of the history do not affect a snapshot already taken.
    pub fn snapshot(&self) -> (r: Vec<Transaction>)
        ensures
            r@ == self@,
    {
        let n = self.items.len();
        let mut out: Vec<Transaction> = Vec::new();
        let mut i: usize = 0;
        while i < n
            invariant
                n == self@.len(),
                i <= n,
                out@ == self@.take(i as int),
            decreases n - i,
        {
            out.push(self.items[i].clone());
            i += 1;
            proof {
                assert(out@ =~= self@.take(i as int));
            }
        }
        proof {
            assert(self@.take(n as int) =~= self@);
        }
        out
    }
}

} // verus!
