//! What holds of every run of insertions and removals.
//!
//! The runs are written over the sequences that model the containers, with
//! the same operations that the contracts of [`Stack`](crate::lifo::Stack)
//! and [`Queue`](crate::fifo::Queue) use: `Seq::push` for an insertion,
//! `top_of` and `without_top` for a removal from a stack, `front_of` and
//! `without_front` for a removal from a queue.

use crate::fifo::{front_of, without_front};
use crate::lifo::{top_of, without_top};
use vstd::prelude::*;

verus! {

/// What a container holding `held` holds after each element of `items` was
/// inserted, the first one first.
pub open spec fn after_inserts<T>(held: Seq<T>, items: Seq<T>) -> Seq<T>
    decreases items.len(),
{
    if items.len() == 0 {
        held
    } else {
        after_inserts(held.push(items.first()), items.drop_first())
    }
}

/// The results of `count` removals in a row from a stack holding `held`.
pub open spec fn pops<T>(held: Seq<T>, count: nat) -> Seq<Option<T>>
    decreases count,
{
    if count == 0 {
        Seq::empty()
    } else {
        seq![top_of(held)] + pops(without_top(held), (count - 1) as nat)
    }
}

/// What a stack holding `held` holds after `count` removals in a row.
pub open spec fn after_pops<T>(held: Seq<T>, count: nat) -> Seq<T>
    decreases count,
{
    if count == 0 {
        held
    } else {
        after_pops(without_top(held), (count - 1) as nat)
    }
}

/// The results of `count` removals in a row from a queue holding `held`.
pub open spec fn dequeues<T>(held: Seq<T>, count: nat) -> Seq<Option<T>>
    decreases count,
{
    if count == 0 {
        Seq::empty()
    } else {
        seq![front_of(held)] + dequeues(without_front(held), (count - 1) as nat)
    }
}

/// What a queue holding `held` holds after `count` removals in a row.
pub open spec fn after_dequeues<T>(held: Seq<T>, count: nat) -> Seq<T>
    decreases count,
{
    if count == 0 {
        held
    } else {
        after_dequeues(without_front(held), (count - 1) as nat)
    }
}

/// Each element of `items` as the result of a removal that found it.
pub open spec fn each_present<T>(items: Seq<T>) -> Seq<Option<T>> {
    Seq::new(items.len(), |i: int| Some(items[i]))
}

/// Inserting a run of elements appends them in their order.
pub proof fn lemma_inserts_append<T>(held: Seq<T>, items: Seq<T>)
    ensures
        after_inserts(held, items) == held + items,
    decreases items.len(),
{
    if items.len() == 0 {
        assert(held + items =~= held);
    } else {
        lemma_inserts_append(held.push(items.first()), items.drop_first());
        assert(held.push(items.first()) + items.drop_first() =~= held + items);
    }
}

/// Removing from a stack as many elements as lie above `held` yields them
/// last to first and leaves `held`.
proof fn lemma_pops_of_appended<T>(held: Seq<T>, items: Seq<T>)
    ensures
        pops(held + items, items.len()) == each_present(items.reverse()),
        after_pops(held + items, items.len()) == held,
    decreases items.len(),
{
    if items.len() == 0 {
        assert(held + items =~= held);
        assert(each_present(items.reverse()) =~= Seq::<Option<T>>::empty());
    } else {
        let rest = items.drop_last();
        lemma_pops_of_appended(held, rest);
        assert(without_top(held + items) =~= held + rest);
        assert(top_of(held + items) == Some(items.last()));
        assert(seq![Some(items.last())] + each_present(rest.reverse()) =~= each_present(
            items.reverse(),
        ));
    }
}

/// Pushing any number of elements onto a stack and then popping as many
/// yields the pushed elements in the exact reverse of the order in which they
/// were pushed, and leaves the stack as it was before the first push.
pub proof fn law_pops_reverse_pushes<T>(held: Seq<T>, items: Seq<T>)
    ensures
        pops(after_inserts(held, items), items.len()) == each_present(items.reverse()),
        after_pops(after_inserts(held, items), items.len()) == held,
{
    lemma_inserts_append(held, items);
    lemma_pops_of_appended(held, items);
}

/// Removing from a queue no more elements than it holds yields them first to
/// last and leaves the others.
proof fn lemma_dequeues_take<T>(held: Seq<T>, count: nat)
    requires
        count <= held.len(),
    ensures
        dequeues(held, count) == each_present(held.take(count as int)),
        after_dequeues(held, count) == held.skip(count as int),
    decreases count,
{
    if count == 0 {
        assert(each_present(held.take(0)) =~= Seq::<Option<T>>::empty());
        assert(held.skip(0) =~= held);
    } else {
        let rest = held.drop_first();
        lemma_dequeues_take(rest, (count - 1) as nat);
        assert(seq![Some(held.first())] + each_present(rest.take(count - 1)) =~= each_present(
            held.take(count as int),
        ));
        assert(rest.skip(count - 1) =~= held.skip(count as int));
    }
}

/// Enqueuing any number of elements on a new queue and then dequeuing as many
/// yields the elements in exactly the order in which they were enqueued, and
/// leaves the queue empty.
pub proof fn law_dequeues_repeat_enqueues<T>(items: Seq<T>)
    ensures
        dequeues(after_inserts(Seq::empty(), items), items.len()) == each_present(items),
        after_dequeues(after_inserts(Seq::empty(), items), items.len()) == Seq::<T>::empty(),
{
    lemma_inserts_append(Seq::empty(), items);
    assert(Seq::<T>::empty() + items =~= items);
    lemma_dequeues_take(items, items.len());
    assert(items.take(items.len() as int) =~= items);
    assert(items.skip(items.len() as int) =~= Seq::<T>::empty());
}

/// On a queue that already holds something, the elements held before leave
/// first: as many removals as the queue then holds yield the old elements and
/// then the new ones, each group in the order in which it came.
pub proof fn law_dequeues_keep_arrival_order<T>(held: Seq<T>, items: Seq<T>)
    ensures
        dequeues(after_inserts(held, items), held.len() + items.len()) == each_present(
            held + items,
        ),
        after_dequeues(after_inserts(held, items), held.len() + items.len()) == Seq::<T>::empty(),
{
    let all = held + items;
    lemma_inserts_append(held, items);
    lemma_dequeues_take(all, all.len());
    assert(all.take(all.len() as int) =~= all);
    assert(all.skip(all.len() as int) =~= Seq::<T>::empty());
}

/// How many elements a stack holds after `count` removals in a row: one less
/// for each removal, until none is left.
pub proof fn lemma_after_pops_len<T>(held: Seq<T>, count: nat)
    ensures
        after_pops(held, count).len() == if count <= held.len() {
            held.len() - count
        } else {
            0
        },
    decreases count,
{
    if count > 0 {
        lemma_after_pops_len(without_top(held), (count - 1) as nat);
    }
}

/// How many elements a queue holds after `count` removals in a row: one less
/// for each removal, until none is left.
pub proof fn lemma_after_dequeues_len<T>(held: Seq<T>, count: nat)
    ensures
        after_dequeues(held, count).len() == if count <= held.len() {
            held.len() - count
        } else {
            0
        },
    decreases count,
{
    if count > 0 {
        lemma_after_dequeues_len(without_front(held), (count - 1) as nat);
    }
}

/// After a run of pushes and then a run of pops, a stack is empty exactly
/// when at least as many elements were popped as it held after the pushes.
/// So a stack that was new before is not empty while fewer were popped than
/// pushed, and empty again once the last element has left.
pub proof fn law_stack_empty_iff_all_popped<T>(held: Seq<T>, items: Seq<T>, count: nat)
    ensures
        after_pops(after_inserts(held, items), count).len() == 0 <==> count >= held.len()
            + items.len(),
{
    lemma_inserts_append(held, items);
    lemma_after_pops_len(held + items, count);
}

/// After a run of enqueues and then a run of dequeues, a queue is empty
/// exactly when at least as many elements were dequeued as it held after the
/// enqueues. So a queue that was new before is not empty while fewer were
/// dequeued than enqueued, and empty again once the last element has left.
pub proof fn law_queue_empty_iff_all_dequeued<T>(held: Seq<T>, items: Seq<T>, count: nat)
    ensures
        after_dequeues(after_inserts(held, items), count).len() == 0 <==> count >= held.len()
            + items.len(),
{
    lemma_inserts_append(held, items);
    lemma_after_dequeues_len(held + items, count);
}

/// A container holds nothing when it is new, and something right after an
/// insertion, whatever it held before.
pub proof fn law_not_empty_after_insert<T>(held: Seq<T>, item: T)
    ensures
        Seq::<T>::empty().len() == 0,
        held.push(item).len() != 0,
{
}

/// A pop right after a push yields the pushed element and leaves the stack
/// as it was before the push.
pub proof fn law_pop_undoes_push<T>(held: Seq<T>, item: T)
    ensures
        top_of(held.push(item)) == Some(item),
        without_top(held.push(item)) == held,
{
    assert(held.push(item).drop_last() =~= held);
}

/// An enqueue on a queue that holds something does not change which element
/// leaves next; on an empty queue the enqueued element is the next to leave.
pub proof fn law_enqueue_keeps_front<T>(held: Seq<T>, item: T)
    ensures
        held.len() > 0 ==> front_of(held.push(item)) == front_of(held),
        held.len() > 0 ==> without_front(held.push(item)) == without_front(held).push(item),
        held.len() == 0 ==> front_of(held.push(item)) == Some(item),
        held.len() == 0 ==> without_front(held.push(item)) == held,
{
    if held.len() > 0 {
        assert(held.push(item).drop_first() =~= held.drop_first().push(item));
    } else {
        assert(held.push(item).drop_first() =~= held);
    }
}

/// A removal from a new container finds nothing and leaves it as it was:
/// empty, and so answering every further removal in the same way.
pub proof fn law_removal_from_new_finds_nothing<T>(count: nat)
    ensures
        top_of(Seq::<T>::empty()) == None::<T>,
        without_top(Seq::<T>::empty()) == Seq::<T>::empty(),
        front_of(Seq::<T>::empty()) == None::<T>,
        without_front(Seq::<T>::empty()) == Seq::<T>::empty(),
        pops(Seq::<T>::empty(), count) == Seq::new(count, |i: int| None::<T>),
        after_pops(Seq::<T>::empty(), count) == Seq::<T>::empty(),
        dequeues(Seq::<T>::empty(), count) == Seq::new(count, |i: int| None::<T>),
        after_dequeues(Seq::<T>::empty(), count) == Seq::<T>::empty(),
    decreases count,
{
    if count > 0 {
        let earlier = (count - 1) as nat;
        law_removal_from_new_finds_nothing::<T>(earlier);
        assert(seq![None::<T>] + Seq::new(earlier, |i: int| None::<T>) =~= Seq::new(
            count,
            |i: int| None::<T>,
        ));
    } else {
        assert(Seq::<Option<T>>::empty() =~= Seq::new(count, |i: int| None::<T>));
    }
}

/// Pushes and pops may alternate: after `a` and `b` were pushed, a pop
/// yields `b`; after `c` was pushed then, two pops yield `c` and `a`, in that
/// order, and the stack is as it was before.
pub proof fn law_interleaved_pops<T>(held: Seq<T>, a: T, b: T, c: T)
    ensures
        ({
            let two = held.push(a).push(b);
            let refilled = without_top(two).push(c);
            let one = without_top(refilled);
            &&& top_of(two) == Some(b)
            &&& top_of(refilled) == Some(c)
            &&& top_of(one) == Some(a)
            &&& without_top(one) == held
        }),
{
    let two = held.push(a).push(b);
    assert(without_top(two) =~= held.push(a));
    let refilled = without_top(two).push(c);
    assert(without_top(refilled) =~= held.push(a));
    assert(without_top(held.push(a)) =~= held);
}

} // verus!
