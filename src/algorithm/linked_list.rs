use vstd::prelude::*;

verus! {

/// Failures of list operations.
#[derive(Debug, Clone, Copy, PartialEq, Eq, Structural)]
pub enum LinkedListError {
    /// The position lies past the end of the list.
    OutOfBounds,
}

/// One entry of a list.
#[derive(Debug, PartialEq)]
pub struct Node<T> {
    pub value: T,
}

impl<T> Node<T> {
    pub fn new(value: T) -> (r: Self)
        ensures
            r.value == value,
    {
        Node { value }
    }
}

/// A list of values kept in the order of their positions.
pub struct LinkedList<T> {
    nodes: Vec<Node<T>>,
}

impl<T> View for LinkedList<T> {
    type V = Seq<T>;

    /// The values from the head of the list to its tail.
    closed spec fn view(&self) -> Seq<T> {
        self.nodes@.map_values(|n: Node<T>| n.value)
    }
}

impl<T> LinkedList<T> {
    pub fn new() -> (r: Self)
        ensures
            r@ == Seq::<T>::empty(),
    {
        let r = LinkedList { nodes: Vec::new() };
        assert(r@ =~= Seq::<T>::empty());
        r
    }

    /// The number of entries.
    pub fn size(&self) -> (r: usize)
        ensures
            r == self@.len(),
    {
        self.nodes.len()
    }

    /// The entry at position `at`, or `None` when the list is not that long.
    pub fn get(&self, at: usize) -> (r: Option<&Node<T>>)
        ensures
            r is Some <==> at < self@.len(),
            r matches Some(node) ==> node.value == self@[at as int],
    {
        if at < self.nodes.len() {
            Some(&self.nodes[at])
        } else {
            None
        }
    }

    /// The first entry, or `None` on an empty list.
    pub fn head(&self) -> (r: Option<&Node<T>>)
        ensures
            r is Some <==> self@.len() > 0,
            r matches Some(node) ==> node.value == self@[0],
    {
        self.get(0)
    }

    /// Inserts `value` so that it ends up at position `to`, shifting the
    /// entries from `to` on one place back. Any position up to the length is
    /// accepted, the length itself meaning the end; a larger one is refused
    /// with `OutOfBounds` and leaves the list as it was.
    pub fn insert(&mut self, value: T, to: usize) -> (r: Result<(), LinkedListError>)
        ensures
            r is Err <==> to > old(self)@.len(),
            r matches Err(e) ==> e == LinkedListError::OutOfBounds && final(self)@ == old(self)@,
            r is Ok ==> final(self)@ == old(self)@.insert(to as int, value),
    {
        if self.nodes.len() < to {
            return Err(LinkedListError::OutOfBounds);
        }
        let ghost before = self.nodes@;
        self.nodes.insert(to, Node::new(value));
        assert(self@ =~= old(self)@.insert(to as int, value)) by {
            assert(self.nodes@ == before.insert(to as int, Node { value }));
        }
        Ok(())
    }

    /// Appends `value` at the end.
    pub fn push(&mut self, value: T) -> (r: Result<(), LinkedListError>)
        ensures
            r is Ok,
            final(self)@ == old(self)@.push(value),
    {
        let len = self.nodes.len();
        let r = self.insert(value, len);
        assert(old(self)@.insert(len as int, value) =~= old(self)@.push(value));
        r
    }
}

} // verus!
