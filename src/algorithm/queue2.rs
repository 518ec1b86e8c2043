use vstd::prelude::*;

verus! {

const DEFAULT_CAPACITY: usize = 10;

const GROW_FACTOR: usize = 2;

/// A first-in, first-out queue of bytes over one growable buffer. Items sit
/// in the buffer from `inner_start` on; dequeuing moves the start forward, and
/// a full buffer is replaced by a larger one that starts at zero.
pub struct Queue {
    size: usize,
    inner: Vec<u8>,
    inner_start: usize,
}

impl View for Queue {
    type V = Seq<u8>;

    /// The items from the front of the queue to its back.
    closed spec fn view(&self) -> Seq<u8> {
        self.inner@.subrange(self.inner_start as int, self.inner_start + self.size)
    }
}

impl Queue {
    /// The items lie inside the buffer.
    pub closed spec fn wf(&self) -> bool {
        &&& self.inner_start + self.size <= self.inner@.len()
        &&& self.inner@.len() <= usize::MAX
    }

    pub fn new() -> (r: Self)
        ensures
            r.wf(),
            r@ == Seq::<u8>::empty(),
    {
        let mut inner: Vec<u8> = Vec::with_capacity(DEFAULT_CAPACITY);
        let mut k: usize = 0;
        while k < DEFAULT_CAPACITY
            invariant
                k <= DEFAULT_CAPACITY,
                inner@.len() == k,
            decreases DEFAULT_CAPACITY - k,
        {
            inner.push(0);
            k += 1;
        }
        let r = Queue { size: 0, inner, inner_start: 0 };
        assert(r@ =~= Seq::<u8>::empty());
        r
    }

    /// Moves the items to the start of a new buffer of twice the used
    /// capacity, and at least twice the default capacity.
    fn resize(&mut self)
        requires
            old(self).wf(),
            old(self).size == old(self).inner@.len() - old(self).inner_start,
            old(self).size < usize::MAX / 4,
        ensures
            final(self).wf(),
            final(self)@ == old(self)@,
            final(self).inner_start + final(self).size < final(self).inner@.len(),
    {
        let used = self.inner.len() - self.inner_start;
        let new_capacity = if used > DEFAULT_CAPACITY {
            used
        } else {
            DEFAULT_CAPACITY
        } * GROW_FACTOR;
        let mut slice: Vec<u8> = Vec::with_capacity(new_capacity);
        let mut i: usize = 0;
        while i < new_capacity
            invariant
                self.wf(),
                self.size == used,
                used == self.inner@.len() - self.inner_start,
                used < new_capacity,
                i <= new_capacity,
                slice@.len() == i,
                forall|x: int|
                    0 <= x < i && x < used ==> #[trigger] slice@[x] == self.inner@[self.inner_start
                        + x],
            decreases new_capacity - i,
        {
            if i < used {
                slice.push(self.inner[self.inner_start + i]);
            } else {
                slice.push(0);
            }
            i += 1;
        }
        let ghost before = self@;
        self.inner = slice;
        self.inner_start = 0;
        assert(self@ =~= before);
    }

    /// Adds `value` at the back, growing the buffer when it is full.
    pub fn enqueue(&mut self, value: u8)
        requires
            old(self).wf(),
            old(self)@.len() < usize::MAX / 4,
        ensures
            final(self).wf(),
            final(self)@ == old(self)@.push(value),
    {
        if self.size == self.inner.len() - self.inner_start {
            self.resize();
        }
        let ghost before = self@;
        self.inner.set(self.inner_start + self.size, value);
        self.size += 1;
        assert(self@ =~= before.push(value));
    }

    /// Takes the front item off, or returns `None` on an empty queue.
    pub fn dequeue(&mut self) -> (r: Option<u8>)
        requires
            old(self).wf(),
        ensures
            final(self).wf(),
            old(self)@.len() == 0 ==> r is None && final(self)@ == old(self)@,
            old(self)@.len() > 0 ==> r == Some(old(self)@[0]) && final(self)@ == old(
                self,
            )@.drop_first(),
    {
        if self.size == 0 {
            return None;
        }
        let ghost before = self@;
        self.inner_start += 1;
        self.size -= 1;
        assert(self@ =~= before.drop_first());
        Some(self.inner[self.inner_start - 1])
    }

    /// The front item, or `None` on an empty queue.
    pub fn peek(&self) -> (r: Option<&u8>)
        requires
            self.wf(),
        ensures
            r is None <==> self@.len() == 0,
            r matches Some(v) ==> *v == self@[0],
    {
        if self.size == 0 {
            return None;
        }
        Some(&self.inner[self.inner_start])
    }

    /// The number of items.
    pub fn size(&self) -> (r: usize)
        requires
            self.wf(),
        ensures
            r == self@.len(),
    {
        self.size
    }
}

} // verus!
