use vstd::prelude::*;

use std::collections::VecDeque;

verus! {

/// A first-in, first-out queue.
pub struct Queue<T> {
    inner: VecDeque<T>,
}

impl<T> View for Queue<T> {
    type V = Seq<T>;

    /// The items from the front of the queue to its back.
    closed spec fn view(&self) -> Seq<T> {
        self.inner@
    }
}

impl<T> Queue<T> {
    pub fn new() -> (r: Self)
        ensures
            r@ == Seq::<T>::empty(),
    {
        Queue { inner: VecDeque::new() }
    }

    /// Adds `value` at the back.
    pub fn enqueue(&mut self, value: T)
        ensures
            final(self)@ == old(self)@.push(value),
    {
        self.inner.push_back(value);
    }

    /// Takes the front item off, or returns `None` on an empty queue.
    pub fn dequeue(&mut self) -> (r: Option<T>)
        ensures
            old(self)@.len() == 0 ==> r is None && final(self)@ == old(self)@,
            old(self)@.len() > 0 ==> r == Some(old(self)@[0]) && final(self)@ == old(
                self,
            )@.drop_first(),
    {
        self.inner.pop_front()
    }

    /// The front item, or `None` on an empty queue.
    pub fn peek(&self) -> (r: Option<&T>)
        ensures
            r is None <==> self@.len() == 0,
            r matches Some(v) ==> *v == self@[0],
    {
        if self.inner.len() == 0 {
            None
        } else {
            Some(&self.inner[0])
        }
    }

    /// The number of items.
    pub fn size(&self) -> (r: usize)
        ensures
            r == self@.len(),
    {
        self.inner.len()
    }
}

} // verus!
