use vstd::prelude::*;

verus! {

/// A last-in, first-out stack.
pub struct Stack<T> {
    inner: Vec<T>,
}

impl<T> View for Stack<T> {
    type V = Seq<T>;

    /// The items from the bottom of the stack to its top.
    closed spec fn view(&self) -> Seq<T> {
        self.inner@
    }
}

impl<T> Stack<T> {
    pub fn new() -> (r: Self)
        ensures
            r@ == Seq::<T>::empty(),
    {
        Stack { inner: Vec::new() }
    }

    /// Puts `value` on top.
    pub fn push(&mut self, value: T)
        ensures
            final(self)@ == old(self)@.push(value),
    {
        self.inner.push(value);
    }

    /// Takes the top item off, or returns `None` on an empty stack.
    pub fn pop(&mut self) -> (r: Option<T>)
        ensures
            old(self)@.len() == 0 ==> r is None && final(self)@ == old(self)@,
            old(self)@.len() > 0 ==> r == Some(old(self)@.last()) && final(self)@ == old(
                self,
            )@.drop_last(),
    {
        self.inner.pop()
    }

    /// The item at the bottom of the stack, the first one pushed, or `None`
    /// on an empty stack.
    pub fn peek(&self) -> (r: Option<&T>)
        ensures
            r is None <==> self@.len() == 0,
            r matches Some(v) ==> *v == self@[0],
    {
        if self.inner.len() == 0 {
            None
        } else {
            Some(&self.inner[0])
        }
    }

    /// The number of items.
    pub fn size(&self) -> (r: usize)
        ensures
            r == self@.len(),
    {
        self.inner.len()
    }
}

} // verus!
