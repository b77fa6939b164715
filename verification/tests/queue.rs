use containers::error::ContainerError;
use containers::queue::Queue;
use containers::INITIAL_CAPACITY;

#[test]
fn queue_new_is_empty() {
    let q: Queue<usize> = Queue::new();
    assert_eq!(q.length(), 0);
    assert_eq!(q.capacity(), INITIAL_CAPACITY);
}

// Pushing 0 ..= n - 1 in order and then popping n times yields
// 0, 1, ..., n - 1.
#[test]
fn queue_fifo_order() {
    let mut q: Queue<usize> = Queue::new();
    let n: usize = 2000;
    for i in 0..n {
        q.push_back(i);
        assert!(q.length() <= q.capacity());
    }
    assert_eq!(q.length(), n);
    for i in 0..n {
        assert_eq!(q.pop_front(), Ok(i));
        assert!(q.length() <= q.capacity());
    }
    assert_eq!(q.length(), 0);
}

// Pushing one element past what the initial buffer can hold doubles the
// capacity and keeps every element retrievable in FIFO order. One slot
// of the buffer is a guard, so growth triggers at 1023 elements.
#[test]
fn queue_growth_doubles_capacity() {
    let mut q: Queue<usize> = Queue::new();
    for i in 0..1023 {
        q.push_back(i);
    }
    assert_eq!(q.capacity(), 1024);
    for i in 1023..1025 {
        q.push_back(i);
    }
    assert_eq!(q.capacity(), 2048);
    assert_eq!(q.length(), 1025);
    for i in 0..1025 {
        assert_eq!(q.pop_front(), Ok(i));
    }
}

// Growth that hits a queue whose occupied region wraps around the end
// of the buffer must not scramble the element order: the growth step
// deliberately copies the region into an unwrapped layout starting at
// slot 0, rather than leaving the elements at their old offsets.
#[test]
fn queue_growth_while_wrapped_preserves_order() {
    let mut q: Queue<usize> = Queue::new();
    // Advance the front cursor deep into the buffer.
    for i in 0..1000 {
        q.push_back(i);
    }
    for i in 0..1000 {
        assert_eq!(q.pop_front(), Ok(i));
    }
    // Fill until the occupied region wraps and the next push must grow.
    for i in 0..1023 {
        q.push_back(i);
    }
    assert_eq!(q.capacity(), 1024);
    q.push_back(1023);
    assert_eq!(q.capacity(), 2048);
    assert_eq!(q.length(), 1024);
    for i in 0..1024 {
        assert_eq!(q.pop_front(), Ok(i));
    }
    assert_eq!(q.length(), 0);
}

#[test]
fn queue_interleaved_operations_keep_fifo() {
    let mut q: Queue<usize> = Queue::new();
    q.push_back(1);
    q.push_back(2);
    assert_eq!(q.pop_front(), Ok(1));
    q.push_back(3);
    assert_eq!(q.pop_front(), Ok(2));
    assert_eq!(q.pop_front(), Ok(3));
    assert_eq!(q.pop_front(), Err(ContainerError::EmptyContainer));
}

// Popping an empty queue reports the documented error and leaves the
// queue unchanged.
#[test]
fn queue_boundary_errors() {
    let mut q: Queue<usize> = Queue::new();
    assert_eq!(q.pop_front(), Err(ContainerError::EmptyContainer));
    assert_eq!(q.length(), 0);

    q.push_back(8);
    assert_eq!(q.pop_front(), Ok(8));
    assert_eq!(q.pop_front(), Err(ContainerError::EmptyContainer));
}

// Sustained interleaving of pushes and pops cycles the cursors around
// the buffer many times without disturbing the FIFO order.
#[test]
fn queue_sustained_wrap_cycles_keep_fifo() {
    let mut q: Queue<usize> = Queue::new();
    let mut next_in: usize = 0;
    let mut next_out: usize = 0;
    for _ in 0..5000 {
        for _ in 0..3 {
            q.push_back(next_in);
            next_in += 1;
        }
        for _ in 0..2 {
            assert_eq!(q.pop_front(), Ok(next_out));
            next_out += 1;
        }
        assert!(q.length() <= q.capacity());
    }
    while next_out < next_in {
        assert_eq!(q.pop_front(), Ok(next_out));
        next_out += 1;
    }
    assert_eq!(q.length(), 0);
}
