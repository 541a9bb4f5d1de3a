//! A last-in, first-out stack over a growable array.
use vstd::prelude::*;

verus! {

/// A stack whose top is the last element of its contents.
pub struct SimpleStack<T> {
    stack: Vec<T>,
}

impl<T> View for SimpleStack<T> {
    type V = Seq<T>;

    /// The items, bottom first.
    closed spec fn view(&self) -> Seq<T> {
        self.stack@
    }
}

impl<T> SimpleStack<T> {
    /// An empty stack.
    pub fn new() -> (r: SimpleStack<T>)
        ensures
            r@ == Seq::<T>::empty(),
    {
        SimpleStack { stack: Vec::new() }
    }

    /// Puts `item` on top.
    pub fn push(&mut self, item: T)
        ensures
            final(self)@ == old(self)@.push(item),
    {
        self.stack.push(item);
    }

    /// Takes the top item off, or returns `None` on an empty stack.
    pub fn pop(&mut self) -> (r: Option<T>)
        ensures
            old(self)@.len() == 0 ==> r is None && final(self)@ == old(self)@,
            old(self)@.len() > 0 ==> r == Some(old(self)@.last()) && final(self)@
                == old(self)@.drop_last(),
    {
        self.stack.pop()
    }

    /// The number of items held.
    pub fn len(&self) -> (r: usize)
        ensures
            r == self@.len(),
    {
        self.stack.len()
    }

    /// Whether no item is held.
    pub fn is_empty(&self) -> (r: bool)
        ensures
            r == (self@.len() == 0),
    {
        self.stack.len() == 0
    }
}

} // verus!
