use stack_queue::demo::{drain_queue, drain_stack, fill, report, ITEM_COUNT};
use stack_queue::fifo::Queue;
use stack_queue::lifo::Stack;
use stack_queue::text::{append_decimal, decimal, listing};

#[test]
fn demo_inserts_fifty() {
    assert_eq!(ITEM_COUNT, 50);
}

#[test]
fn fill_inserts_ascending_run() {
    let (mut stack, mut queue) = fill(3);
    assert_eq!(stack.pop(), Some(3));
    assert_eq!(stack.pop(), Some(2));
    assert_eq!(stack.pop(), Some(1));
    assert_eq!(stack.pop(), None);
    assert_eq!(queue.dequeue(), Some(1));
    assert_eq!(queue.dequeue(), Some(2));
    assert_eq!(queue.dequeue(), Some(3));
    assert_eq!(queue.dequeue(), None);
}

#[test]
fn fill_with_no_count_inserts_nothing() {
    for count in [0, -1, -50, i32::MIN] {
        let (stack, queue) = fill(count);
        assert!(stack.is_empty());
        assert!(queue.is_empty());
    }
}

#[test]
fn drained_stack_comes_out_reversed() {
    let mut stack = Stack::new();
    for item in [10, 20, 30, 40] {
        stack.push(item);
    }
    assert_eq!(drain_stack(&mut stack), vec![40, 30, 20, 10]);
    assert!(stack.is_empty());
    assert_eq!(drain_stack(&mut stack), Vec::<i32>::new());
}

#[test]
fn drained_queue_comes_out_in_order() {
    let mut queue = Queue::new();
    for item in [10, 20, 30, 40] {
        queue.enqueue(item);
    }
    assert_eq!(drain_queue(&mut queue), vec![10, 20, 30, 40]);
    assert!(queue.is_empty());
    assert_eq!(drain_queue(&mut queue), Vec::<i32>::new());
}

#[test]
fn fifty_drained_from_both() {
    let (mut stack, mut queue) = fill(ITEM_COUNT);
    let descending: Vec<i32> = (1..=50).rev().collect();
    let ascending: Vec<i32> = (1..=50).collect();
    assert_eq!(drain_stack(&mut stack), descending);
    assert_eq!(drain_queue(&mut queue), ascending);
    assert!(stack.is_empty());
    assert!(queue.is_empty());
}

#[test]
fn report_of_fifty() {
    let expected = "Stack:\n\
        50, 49, 48, 47, 46, 45, 44, 43, 42, 41, 40, 39, 38, 37, 36, 35, 34, 33, 32, 31, \
        30, 29, 28, 27, 26, 25, 24, 23, 22, 21, 20, 19, 18, 17, 16, 15, 14, 13, 12, 11, \
        10, 9, 8, 7, 6, 5, 4, 3, 2, 1, \n\
        Queue:\n\
        1, 2, 3, 4, 5, 6, 7, 8, 9, 10, 11, 12, 13, 14, 15, 16, 17, 18, 19, 20, \
        21, 22, 23, 24, 25, 26, 27, 28, 29, 30, 31, 32, 33, 34, 35, 36, 37, 38, 39, 40, \
        41, 42, 43, 44, 45, 46, 47, 48, 49, 50, \n";
    assert_eq!(report(ITEM_COUNT), expected);
}

#[test]
fn report_of_three() {
    assert_eq!(report(3), "Stack:\n3, 2, 1, \nQueue:\n1, 2, 3, \n");
}

#[test]
fn report_of_nothing() {
    assert_eq!(report(0), "Stack:\n\nQueue:\n\n");
    assert_eq!(report(-7), "Stack:\n\nQueue:\n\n");
}

#[test]
fn report_matches_printing_each_removal() {
    let mut expected = String::from("Stack:\n");
    for item in (1..=12).rev() {
        expected.push_str(&format!("{}, ", item));
    }
    expected.push_str("\nQueue:\n");
    for item in 1..=12 {
        expected.push_str(&format!("{}, ", item));
    }
    expected.push('\n');
    assert_eq!(report(12), expected);
}

#[test]
fn decimal_of_single_digits() {
    let expected = ["0", "1", "2", "3", "4", "5", "6", "7", "8", "9"];
    for (value, text) in expected.iter().enumerate() {
        assert_eq!(decimal(value as i32), *text);
    }
}

#[test]
fn decimal_of_chosen_values() {
    assert_eq!(decimal(10), "10");
    assert_eq!(decimal(50), "50");
    assert_eq!(decimal(100), "100");
    assert_eq!(decimal(909), "909");
    assert_eq!(decimal(1234567890), "1234567890");
    assert_eq!(decimal(-1), "-1");
    assert_eq!(decimal(-10), "-10");
    assert_eq!(decimal(-305), "-305");
    assert_eq!(decimal(i32::MAX), "2147483647");
    assert_eq!(decimal(i32::MIN), "-2147483648");
}

#[test]
fn decimal_agrees_with_std_formatting() {
    let mut value: i32 = i32::MIN;
    loop {
        assert_eq!(decimal(value), format!("{}", value));
        match value.checked_add(7_654_321) {
            Some(next) => value = next,
            None => break,
        }
    }
    for value in -1100..=1100 {
        assert_eq!(decimal(value), format!("{}", value));
    }
}

#[test]
fn append_decimal_keeps_what_was_there() {
    let mut out = String::from("n = ");
    append_decimal(&mut out, -42);
    assert_eq!(out, "n = -42");
    append_decimal(&mut out, 0);
    assert_eq!(out, "n = -420");
}

#[test]
fn listing_ends_each_value_with_comma_and_space() {
    assert_eq!(listing(&vec![]), "");
    assert_eq!(listing(&vec![5]), "5, ");
    assert_eq!(listing(&vec![1, 2, 3]), "1, 2, 3, ");
    assert_eq!(listing(&vec![-1, 0, 100]), "-1, 0, 100, ");
}
