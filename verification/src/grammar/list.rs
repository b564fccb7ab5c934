//! Lists that hold at least one item.

use vstd::prelude::*;

verus! {

/// A list that is never empty: its head, then the items of its tail. The two
/// may be of different types, as where the tail carries an operator with each
/// of its items.
#[derive(Debug)]
pub struct List<H, T = H>(pub H, pub Vec<T>);

/// What a [`List`] holds, item by item.
pub struct ListView<H, T> {
    pub head: H,
    pub tail: Seq<T>,
}

impl<H, T> List<H, T> {
    pub fn new(head: H, tail: Vec<T>) -> (list: List<H, T>)
        ensures
            list.0 == head,
            list.1 == tail,
    {
        List(head, tail)
    }

    /// The first item.
    pub fn head(&self) -> (head: &H)
        ensures
            *head == self.0,
    {
        &self.0
    }

    /// The items behind the first, in order.
    pub fn tail(&self) -> (tail: &[T])
        ensures
            tail@ == self.1@,
    {
        self.1.as_slice()
    }
}

} // verus!
