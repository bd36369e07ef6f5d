//! A first-in-first-out queue.

use std::collections::VecDeque;
use vstd::prelude::*;

verus! {

/// The element that the next removal from a queue holding `items` yields:
/// the one inserted longest ago, or nothing if the queue is empty.
pub open spec fn front_of<T>(items: Seq<T>) -> Option<T> {
    if items.len() == 0 {
        None
    } else {
        Some(items.first())
    }
}

/// What a queue holding `items` holds after one removal: everything but the
/// element inserted longest ago. An empty queue stays as it is.
pub open spec fn without_front<T>(items: Seq<T>) -> Seq<T> {
    if items.len() == 0 {
        items
    } else {
        items.drop_first()
    }
}

/// A queue of `T`. Elements leave in the order in which they came.
pub struct Queue<T> {
    items: VecDeque<T>,
}

impl<T> View for Queue<T> {
    type V = Seq<T>;

    /// The elements in insertion order: the front comes first, the back last.
    closed spec fn view(&self) -> Seq<T> {
        self.items@
    }
}

impl<T> Queue<T> {
    /// Creates a queue that holds nothing.
    pub fn new() -> (queue: Self)
        ensures
            queue@ == Seq::<T>::empty(),
    {
        Queue { items: VecDeque::new() }
    }

    /// Appends `item` at the back of the queue.
    pub fn enqueue(&mut self, item: T)
        ensures
            final(self)@ == old(self)@.push(item),
    {
        self.items.push_back(item);
    }

    /// Removes the front element and returns it. On an empty queue nothing
    /// changes and the result is `None`.
    pub fn dequeue(&mut self) -> (front: Option<T>)
        ensures
            front == front_of(old(self)@),
            final(self)@ == without_front(old(self)@),
    {
        if self.is_empty() {
            None
        } else {
            self.items.pop_front()
        }
    }

    /// Tells whether the queue holds no element.
    pub fn is_empty(&self) -> (empty: bool)
        ensures
            empty == (self@.len() == 0),
    {
        self.items.len() == 0
    }
}

} // verus!
