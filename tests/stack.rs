use lists::stack::Stack;

#[test]
fn push_pop() {
    let mut stack = Stack::new();
    stack.push(1);
    stack.push(2);
    stack.push(3);

    assert_eq!(stack.pop(), Some(3));
    assert_eq!(stack.pop(), Some(2));
    assert_eq!(stack.pop(), Some(1));
    assert_eq!(stack.pop(), None);
}

#[test]
fn peek() {
    let mut stack = Stack::new();
    stack.push(1);

    assert_eq!(stack.peek(), Some(&1));
}

#[test]
fn stack_into_iter() {
    let mut stack = Stack::new();
    stack.push(8);
    stack.push(10);
    stack.push(12);

    let mut iter = stack.into_iter();
    assert_eq!(iter.next(), Some(12));
    assert_eq!(iter.next(), Some(10));
    assert_eq!(iter.next(), Some(8));
}

#[test]
fn iter() {
    let mut stack = Stack::new();
    stack.push(8);
    stack.push(10);
    stack.push(12);

    let mut iter = stack.iter();
    assert_eq!(iter.next(), Some(&12));
    assert_eq!(iter.next(), Some(&10));
    assert_eq!(iter.next(), Some(&8));
}

#[test]
fn mut_iter() {
    let mut stack = Stack::new();
    stack.push(8);
    stack.push(10);
    stack.push(12);

    let mut iter = stack.iter_mut();
    assert_eq!(iter.next(), Some(&mut 12));
    assert_eq!(iter.next(), Some(&mut 10));
    assert_eq!(iter.next(), Some(&mut 8));
}

#[test]
fn main_into_iter() {
    let mut stack = Stack::new();
    stack.push(8);
    stack.push(10);
    stack.push(12);

    assert_eq!(stack.into_iter().next(), Some(12));
}

#[test]
fn peek_then_pop_agree() {
    let mut stack: Stack<i32> = Stack::new();
    stack.push(1);
    assert_eq!(stack.peek(), Some(&1));
    assert_eq!(stack.pop(), Some(1));
    assert_eq!(stack.peek(), None);
}

#[test]
fn pop_on_empty_stays_empty() {
    let mut stack: Stack<i32> = Stack::new();
    assert_eq!(stack.pop(), None);
    assert_eq!(stack.peek(), None);
    stack.push(-4);
    assert_eq!(stack.pop(), Some(-4));
    assert_eq!(stack.pop(), None);
}

#[test]
fn pops_reverse_many_pushes() {
    let mut stack: Stack<u32> = Stack::new();
    for v in 0..100u32 {
        stack.push(v);
    }
    for v in (0..100u32).rev() {
        assert_eq!(stack.peek(), Some(&v));
        assert_eq!(stack.pop(), Some(v));
    }
    assert_eq!(stack.pop(), None);
}

#[test]
fn iterators_end_and_leave_stack_whole() {
    let mut stack: Stack<i32> = Stack::new();
    stack.push(1);
    stack.push(2);

    let mut iter = stack.iter();
    assert_eq!(iter.next(), Some(&2));
    assert_eq!(iter.next(), Some(&1));
    assert_eq!(iter.next(), None);
    assert_eq!(iter.next(), None);

    let mut iter_mut = stack.iter_mut();
    assert_eq!(iter_mut.next(), Some(&mut 2));
    assert_eq!(iter_mut.next(), Some(&mut 1));
    assert_eq!(iter_mut.next(), None);

    assert_eq!(stack.pop(), Some(2));
    assert_eq!(stack.pop(), Some(1));
    assert_eq!(stack.pop(), None);
}

#[test]
fn iter_mut_changes_in_place() {
    let mut stack: Stack<i32> = Stack::new();
    stack.push(1);
    stack.push(2);
    stack.push(3);

    let mut iter = stack.iter_mut();
    while let Some(v) = iter.next() {
        *v *= 10;
    }

    let mut drained = stack.into_iter();
    assert_eq!(drained.next(), Some(30));
    assert_eq!(drained.next(), Some(20));
    assert_eq!(drained.next(), Some(10));
    assert_eq!(drained.next(), None);
}

#[test]
fn dropping_a_long_stack() {
    let mut stack: Stack<u64> = Stack::new();
    for v in 0..1_000_000u64 {
        stack.push(v);
    }
    assert_eq!(stack.peek(), Some(&999_999));
    drop(stack);
}
