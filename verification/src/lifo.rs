//! A last-in-first-out stack.

use vstd::prelude::*;

verus! {

/// The element that the next removal from a stack holding `items` yields:
/// the most recently inserted one, or nothing if the stack is empty.
pub open spec fn top_of<T>(items: Seq<T>) -> Option<T> {
    if items.len() == 0 {
        None
    } else {
        Some(items.last())
    }
}

/// What a stack holding `items` holds after one removal: everything but the
/// most recently inserted element. An empty stack stays as it is.
pub open spec fn without_top<T>(items: Seq<T>) -> Seq<T> {
    if items.len() == 0 {
        items
    } else {
        items.drop_last()
    }
}

/// A stack of `T`. Elements leave in the reverse of the order in which they
/// came.
pub struct Stack<T> {
    items: Vec<T>,
}

impl<T> View for Stack<T> {
    type V = Seq<T>;

    /// The elements in insertion order: the bottom comes first, the top last.
    closed spec fn view(&self) -> Seq<T> {
        self.items@
    }
}

impl<T> Stack<T> {
    /// Creates a stack that holds nothing.
    pub fn new() -> (stack: Self)
        ensures
            stack@ == Seq::<T>::empty(),
    {
        Stack { items: Vec::new() }
    }

    /// Puts `item` on top of the stack.
    pub fn push(&mut self, item: T)
        ensures
            final(self)@ == old(self)@.push(item),
    {
        self.items.push(item);
    }

    /// Removes the top element and returns it. On an empty stack nothing
    /// changes and the result is `None`.
    pub fn pop(&mut self) -> (top: Option<T>)
        ensures
            top == top_of(old(self)@),
            final(self)@ == without_top(old(self)@),
    {
        if self.is_empty() {
            None
        } else {
            self.items.pop()
        }
    }

    /// Tells whether the stack holds no element.
    pub fn is_empty(&self) -> (empty: bool)
        ensures
            empty == (self@.len() == 0),
    {
        self.items.is_empty()
    }
}

} // verus!
