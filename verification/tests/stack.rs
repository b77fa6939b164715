use containers::error::ContainerError;
use containers::stack::Stack;
use containers::INITIAL_CAPACITY;

#[test]
fn stack_new_is_empty() {
    let s: Stack<usize> = Stack::new();
    assert_eq!(s.length(), 0);
    assert_eq!(s.capacity(), INITIAL_CAPACITY);
}

// Pushing 0 ..= n - 1 in order and then popping n times yields
// n - 1, n - 2, ..., 0.
#[test]
fn stack_lifo_order() {
    let mut s: Stack<usize> = Stack::new();
    let n: usize = 2000;
    for i in 0..n {
        s.push(i);
        assert!(s.length() <= s.capacity());
    }
    assert_eq!(s.length(), n);
    for i in (0..n).rev() {
        assert_eq!(s.pop(), Ok(i));
        assert!(s.length() <= s.capacity());
    }
    assert_eq!(s.length(), 0);
}

// Pushing one element past the initial capacity doubles the capacity
// and keeps every element retrievable in LIFO order.
#[test]
fn stack_growth_doubles_capacity() {
    let mut s: Stack<usize> = Stack::new();
    for i in 0..1024 {
        s.push(i);
    }
    assert_eq!(s.capacity(), 1024);
    s.push(1024);
    assert_eq!(s.capacity(), 2048);
    assert_eq!(s.length(), 1025);
    for i in (0..1025).rev() {
        assert_eq!(s.pop(), Ok(i));
    }
}

#[test]
fn stack_top_reads_without_removing() {
    let mut s: Stack<usize> = Stack::new();
    s.push(5);
    s.push(6);
    assert_eq!(s.top(), Ok(6));
    assert_eq!(s.length(), 2);
    assert_eq!(s.pop(), Ok(6));
    assert_eq!(s.top(), Ok(5));
}

#[test]
fn stack_set_top_overwrites_top() {
    let mut s: Stack<usize> = Stack::new();
    s.push(1);
    s.push(2);
    assert_eq!(s.set_top(20), Ok(()));
    assert_eq!(s.pop(), Ok(20));
    assert_eq!(s.pop(), Ok(1));
}

// Popping or reading an empty stack reports the documented error and
// leaves the stack unchanged.
#[test]
fn stack_boundary_errors() {
    let mut s: Stack<usize> = Stack::new();
    assert_eq!(s.pop(), Err(ContainerError::EmptyContainer));
    assert_eq!(s.top(), Err(ContainerError::EmptyContainer));
    assert_eq!(s.set_top(1), Err(ContainerError::EmptyContainer));
    assert_eq!(s.length(), 0);

    s.push(3);
    assert_eq!(s.pop(), Ok(3));
    assert_eq!(s.pop(), Err(ContainerError::EmptyContainer));
}

// A second growth doubles the capacity again: the capacity never
// shrinks and follows the doubling schedule.
#[test]
fn stack_capacity_is_monotone_across_growths() {
    let mut s: Stack<usize> = Stack::new();
    let mut seen: usize = s.capacity();
    for i in 0..2049 {
        s.push(i);
        assert!(s.capacity() >= seen);
        seen = s.capacity();
    }
    assert_eq!(s.capacity(), 4096);
    for i in (0..2049).rev() {
        assert_eq!(s.pop(), Ok(i));
    }
}
