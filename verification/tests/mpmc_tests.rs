use core::mem;
use velocityx::queue::mpmc::{BoundedMpmcQueue, MpmcQueue, UnboundedMpmcQueue};

#[test]
fn test_bounded_queue_basic_operations() {
    let mut queue: MpmcQueue<i32> = MpmcQueue::new(4);

    // Test empty queue
    assert_eq!(queue.len(), 0);
    assert!(queue.is_empty());
    assert_eq!(queue.pop(), None);

    // Test push and pop
    assert!(queue.push(1).is_ok());
    assert_eq!(queue.len(), 1);
    assert!(!queue.is_empty());

    assert_eq!(queue.pop(), Some(1));
    assert_eq!(queue.len(), 0);
    assert!(queue.is_empty());
}

#[test]
fn test_bounded_queue_capacity_rounding() {
    let queue: MpmcQueue<i32> = MpmcQueue::new(5);
    assert_eq!(queue.capacity(), 8); // Rounded up to power of 2

    let queue: MpmcQueue<i32> = MpmcQueue::new(16);
    assert_eq!(queue.capacity(), 16); // Already power of 2
}

#[test]
fn test_bounded_queue_full_behavior() {
    let mut queue: MpmcQueue<i32> = MpmcQueue::new(2);

    // Fill the queue
    assert!(queue.push(1).is_ok());
    assert!(queue.push(2).is_ok());
    assert_eq!(queue.len(), 2);

    // Try to push into full queue
    assert!(queue.push(3).is_err());

    // Pop one item and try again
    assert_eq!(queue.pop(), Some(1));
    assert!(queue.push(3).is_ok());
    assert_eq!(queue.pop(), Some(2));
    assert_eq!(queue.pop(), Some(3));
    assert_eq!(queue.pop(), None);
}

#[test]
fn test_bounded_queue_wrap_around() {
    let mut queue: MpmcQueue<i32> = MpmcQueue::new(4);

    for i in 0..10 {
        assert!(queue.push(i).is_ok());
        assert_eq!(queue.pop(), Some(i));
    }

    assert_eq!(queue.len(), 0);
    assert!(queue.is_empty());
}

#[test]
fn test_bounded_queue_fifo_ordering() {
    let mut queue: MpmcQueue<i32> = MpmcQueue::new(10);

    for i in 0..5 {
        assert!(queue.push(i).is_ok());
    }

    for i in 0..5 {
        assert_eq!(queue.pop(), Some(i));
    }

    assert_eq!(queue.pop(), None);
}

#[test]
fn test_bounded_queue_properties() {
    let mut queue: MpmcQueue<i32> = MpmcQueue::new(10);

    // Property: len() == number of items pushed - number of items popped
    let mut pushed = 0;
    let mut popped = 0;

    for i in 0..100 {
        if queue.push(i).is_ok() {
            pushed += 1;
        }

        if i % 2 == 0 && queue.pop().is_some() {
            popped += 1;
        }

        assert_eq!(queue.len(), pushed - popped);
    }
}

#[test]
fn test_unbounded_queue_basic_operations() {
    let mut queue: UnboundedMpmcQueue<i32> = UnboundedMpmcQueue::new();

    assert_eq!(queue.len(), 0);
    assert!(queue.is_empty());
    assert_eq!(queue.pop(), None);

    assert!(queue.push(1).is_ok());
    assert_eq!(queue.len(), 1);
    assert!(!queue.is_empty());

    assert_eq!(queue.pop(), Some(1));
    assert_eq!(queue.len(), 0);
    assert!(queue.is_empty());
}

#[test]
fn test_unbounded_queue_fifo_ordering() {
    let mut queue: UnboundedMpmcQueue<i32> = UnboundedMpmcQueue::new();

    for i in 0..10 {
        assert!(queue.push(i).is_ok());
    }

    for i in 0..10 {
        assert_eq!(queue.pop(), Some(i));
    }

    assert_eq!(queue.pop(), None);
}

#[test]
fn test_unbounded_queue_properties() {
    let mut queue: UnboundedMpmcQueue<i32> = UnboundedMpmcQueue::new();

    let mut pushed = 0;
    let mut popped = 0;

    for i in 0..100 {
        queue.push(i).unwrap();
        pushed += 1;

        if i % 2 == 0 && queue.pop().is_some() {
            popped += 1;
        }

        assert_eq!(queue.len(), pushed - popped);
    }
}

#[test]
fn mpmc_test_cache_alignment() {
    assert_eq!(mem::align_of::<MpmcQueue<i32>>(), 64);
}

#[test]
fn mpmc_test_debug_format() {
    let bounded: MpmcQueue<i32> = MpmcQueue::new(10);

    let debug_str = format!("{:?}", bounded);
    assert!(debug_str.contains("MpmcQueue"));
}

#[test]
fn test_bounded_batches() {
    let mut queue: BoundedMpmcQueue<i32> = BoundedMpmcQueue::new(5);
    assert_eq!(queue.capacity(), 8);
    assert_eq!(queue.push_batch(vec![1, 2, 3, 4, 5]), 5);
    assert_eq!(queue.push_batch(vec![6, 7, 8, 9, 10]), 3);
    assert_eq!(queue.len(), 8);
    assert_eq!(queue.try_push(11), Err(velocityx::Error::WouldBlock));
    assert_eq!(queue.pop_batch(3), vec![1, 2, 3]);
    assert_eq!(queue.pop_batch(100), vec![4, 5, 6, 7, 8]);
    assert_eq!(queue.pop_batch(2), Vec::<i32>::new());
    assert_eq!(queue.try_pop(), None);
}

#[test]
fn test_bounded_clone_is_empty() {
    let mut queue: MpmcQueue<i32> = MpmcQueue::new(3);
    queue.push(1).unwrap();
    let copy = queue.clone();
    assert_eq!(copy.capacity(), 4);
    assert!(copy.is_empty());
    let mut unbounded = UnboundedMpmcQueue::new();
    unbounded.try_push(5).unwrap();
    let unbounded_copy = unbounded.clone();
    assert!(unbounded_copy.is_empty());
    assert_eq!(unbounded.try_pop(), Some(5));
}
