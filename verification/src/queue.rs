//! Bounded first-in/first-out hand-off queue.
//!
//! One queue carries validated requests from the transport handlers to the
//! dispatch task, another the reply slots awaiting the device.  Each end is
//! touched by exactly one execution context, so the queue needs no lock;
//! here the queue is modelled as a single owned value whose contract pins
//! the order of its contents.

use vstd::prelude::*;

verus! {

/// A bounded FIFO: element zero of the view is the oldest element, the one
/// a dequeue hands out next.
pub struct Fifo<T> {
    items: Vec<T>,
    capacity: usize,
}

impl<T> View for Fifo<T> {
    type V = Seq<T>;

    closed spec fn view(&self) -> Seq<T> {
        self.items@
    }
}

impl<T> Fifo<T> {
    /// The fixed number of slots the queue was created with.
    pub closed spec fn cap(&self) -> nat {
        self.capacity as nat
    }

    /// The queue never holds more elements than it has slots.
    pub closed spec fn wf(&self) -> bool {
        self.items@.len() <= self.capacity
    }

    /// An empty queue with the given number of slots.
    pub fn new(capacity: usize) -> (q: Fifo<T>)
        ensures
            q@ == Seq::<T>::empty(),
            q.cap() == capacity,
            q.wf(),
    {
        Fifo { items: Vec::new(), capacity }
    }

    pub fn len(&self) -> (n: usize)
        ensures
            n == self@.len(),
    {
        self.items.len()
    }

    pub fn is_empty(&self) -> (b: bool)
        ensures
            b == (self@.len() == 0),
    {
        self.items.len() == 0
    }

    pub fn is_full(&self) -> (b: bool)
        ensures
            b == (self@.len() >= self.cap()),
    {
        self.items.len() >= self.capacity
    }

    /// Appends an element at the back, or hands it back when every slot is
    /// taken.
    pub fn enqueue(&mut self, item: T) -> (r: Result<(), T>)
        requires
            old(self).wf(),
        ensures
            final(self).cap() == old(self).cap(),
            final(self).wf(),
            old(self)@.len() < old(self).cap() ==> r is Ok && final(self)@ == old(self)@.push(
                item,
            ),
            old(self)@.len() >= old(self).cap() ==> (r matches Err(it) && it == item
                && final(self)@ == old(self)@),
    {
        if self.items.len() >= self.capacity {
            Err(item)
        } else {
            self.items.push(item);
            Ok(())
        }
    }

    /// Removes and returns the oldest element, if there is one.
    pub fn dequeue(&mut self) -> (r: Option<T>)
        requires
            old(self).wf(),
        ensures
            final(self).cap() == old(self).cap(),
            final(self).wf(),
            old(self)@.len() == 0 ==> r is None && final(self)@ == old(self)@,
            old(self)@.len() > 0 ==> r == Some(old(self)@[0]) && final(self)@ == old(self)@.skip(
                1,
            ),
    {
        if self.items.len() == 0 {
            None
        } else {
            let item = self.items.remove(0);
            proof {
                assert(self.items@ =~= old(self).items@.skip(1));
            }
            Some(item)
        }
    }
}

} // verus!
