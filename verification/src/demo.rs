//! The demonstration: the same ascending run of integers goes into a stack
//! and into a queue, both are drained, and the two listings show the run
//! reversed by the stack and preserved by the queue.

use crate::fifo::Queue;
use crate::lifo::Stack;
use crate::text::{listing, listing_text};
use vstd::prelude::*;
use vstd::string::StringExecFns;

verus! {

/// How many integers the demonstration inserts.
pub const ITEM_COUNT: i32 = 50;

/// The integers from 1 to `count` in ascending order; nothing if `count` is
/// less than 1.
pub open spec fn ascending(count: int) -> Seq<i32> {
    Seq::new(
        if count > 0 {
            count as nat
        } else {
            0
        },
        |i: int| (i + 1) as i32,
    )
}

/// The text of the demonstration for the integers from 1 to `count`: under
/// the heading `Stack:` the listing of the run reversed, under the heading
/// `Queue:` the listing of the run itself, each heading and each listing on a
/// line of its own.
pub open spec fn report_text(count: int) -> Seq<char> {
    "Stack:\n"@ + listing_text(ascending(count).reverse()) + "\n"@ + "Queue:\n"@ + listing_text(
        ascending(count),
    ) + "\n"@
}

/// Inserts the integers from 1 to `count`, in ascending order, into a new
/// stack and a new queue.
pub fn fill(count: i32) -> (filled: (Stack<i32>, Queue<i32>))
    ensures
        filled.0@ == ascending(count as int),
        filled.1@ == ascending(count as int),
{
    let mut stack: Stack<i32> = Stack::new();
    let mut queue: Queue<i32> = Queue::new();
    let mut last: i32 = 0;
    while last < count
        invariant
            0 <= last,
            last <= count || last == 0,
            stack@ == ascending(last as int),
            queue@ == ascending(last as int),
        decreases count - last,
    {
        last += 1;
        stack.push(last);
        queue.enqueue(last);
        assert(ascending(last - 1).push(last) =~= ascending(last as int));
    }
    assert(ascending(last as int) =~= ascending(count as int));
    (stack, queue)
}

/// Pops until the stack is empty. The elements come out in the reverse of
/// the order in which they went in.
pub fn drain_stack<T>(stack: &mut Stack<T>) -> (drained: Vec<T>)
    ensures
        drained@ == old(stack)@.reverse(),
        final(stack)@ == Seq::<T>::empty(),
{
    let mut drained: Vec<T> = Vec::new();
    while !stack.is_empty()
        invariant
            stack@.len() + drained@.len() == old(stack)@.len(),
            stack@ == old(stack)@.take(stack@.len() as int),
            drained@ == old(stack)@.skip(stack@.len() as int).reverse(),
        decreases stack@.len(),
    {
        let ghost held = stack@;
        let ghost earlier = drained@;
        let top = stack.pop();
        match top {
            Some(item) => {
                drained.push(item);
            },
            None => {},
        }
        proof {
            assert(stack@ =~= old(stack)@.take(stack@.len() as int));
            assert(drained@ =~= old(stack)@.skip(stack@.len() as int).reverse());
        }
    }
    proof {
        assert(old(stack)@.skip(0) =~= old(stack)@);
        assert(stack@ =~= Seq::<T>::empty());
    }
    drained
}

/// Dequeues until the queue is empty. The elements come out in the order in
/// which they went in.
pub fn drain_queue<T>(queue: &mut Queue<T>) -> (drained: Vec<T>)
    ensures
        drained@ == old(queue)@,
        final(queue)@ == Seq::<T>::empty(),
{
    let mut drained: Vec<T> = Vec::new();
    while !queue.is_empty()
        invariant
            drained@ + queue@ == old(queue)@,
        decreases queue@.len(),
    {
        let front = queue.dequeue();
        match front {
            Some(item) => {
                drained.push(item);
            },
            None => {},
        }
        proof {
            assert(drained@ + queue@ =~= old(queue)@);
        }
    }
    proof {
        assert(queue@ =~= Seq::<T>::empty());
        assert(drained@ =~= drained@ + queue@);
    }
    drained
}

/// Runs the demonstration for the integers from 1 to `count` and returns its
/// text.
pub fn report(count: i32) -> (text: String)
    ensures
        text@ == report_text(count as int),
{
    let (mut stack, mut queue) = fill(count);
    let popped = drain_stack(&mut stack);
    let dequeued = drain_queue(&mut queue);
    let mut text = String::from_str("Stack:\n");
    text.append(listing(&popped).as_str());
    text.append("\n");
    text.append("Queue:\n");
    text.append(listing(&dequeued).as_str());
    text.append("\n");
    text
}

} // verus!
