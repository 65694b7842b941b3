use std::sync::atomic::{AtomicUsize, Ordering};
use velocityx::queue::mpmc;
use velocityx::queue::MpmcQueue;
use velocityx::MetricsCollector;

#[test]
fn mpmc_simple_test_basic_operations() {
    let mut queue: MpmcQueue<i32> = MpmcQueue::new(3);

    assert!(queue.is_empty());
    assert_eq!(queue.len(), 0);
    assert_eq!(queue.pop(), None);

    queue.push(1).unwrap();
    queue.push(2).unwrap();
    queue.push(3).unwrap();

    assert_eq!(queue.len(), 3);
    assert!(!queue.is_empty());

    assert_eq!(queue.push(4), Err(velocityx::Error::WouldBlock));

    assert_eq!(queue.pop(), Some(1));
    assert_eq!(queue.pop(), Some(2));
    assert_eq!(queue.pop(), Some(3));
    assert_eq!(queue.pop(), None);

    assert!(queue.is_empty());
    assert_eq!(queue.len(), 0);
}

#[test]
fn test_mpmc_drop_safety() {
    static DROP_COUNT: AtomicUsize = AtomicUsize::new(0);

    struct DropCounter {
        #[allow(dead_code)]
        id: usize,
    }

    impl Drop for DropCounter {
        fn drop(&mut self) {
            DROP_COUNT.fetch_add(1, Ordering::Relaxed);
        }
    }

    let mut queue: MpmcQueue<DropCounter> = MpmcQueue::new(100);

    // Push items
    for i in 0..50 {
        queue.push(DropCounter { id: i }).unwrap();
    }

    // Drop some items
    for _ in 0..25 {
        queue.pop();
    }

    // Drop the queue
    drop(queue);

    // All remaining items should be dropped
    assert_eq!(DROP_COUNT.load(Ordering::Relaxed), 50);
}

#[test]
fn bounded_mpmc_drop_safety() {
    static DROP_COUNT: AtomicUsize = AtomicUsize::new(0);

    struct DropCounter {
        #[allow(dead_code)]
        id: usize,
    }

    impl Drop for DropCounter {
        fn drop(&mut self) {
            DROP_COUNT.fetch_add(1, Ordering::Relaxed);
        }
    }

    let mut queue: mpmc::MpmcQueue<DropCounter> = mpmc::MpmcQueue::new(100);

    // Push items
    for i in 0..50 {
        queue.push(DropCounter { id: i }).unwrap();
    }

    // Drop some items
    for _ in 0..25 {
        queue.pop();
    }

    // Drop the queue
    drop(queue);

    // All remaining items should be dropped
    assert_eq!(DROP_COUNT.load(Ordering::Relaxed), 50);
}

#[test]
fn test_mpmc_capacity_edge_cases() {
    // Test capacity of 1
    let mut queue: mpmc::MpmcQueue<i32> = mpmc::MpmcQueue::new(1);
    assert_eq!(queue.capacity(), 1);
    assert!(queue.push(1).is_ok());
    assert!(queue.push(2).is_err());
    assert_eq!(queue.pop(), Some(1));
    assert!(queue.push(3).is_ok());

    // Test large capacity
    let queue: mpmc::MpmcQueue<i32> = mpmc::MpmcQueue::new(1000000);
    assert!(queue.capacity() >= 1000000);
    assert!(queue.capacity().is_power_of_two());
}

#[test]
fn test_simple_queue_batches_and_metrics() {
    let mut queue: MpmcQueue<u64> = MpmcQueue::new(4);
    assert_eq!(queue.push_batch(vec![1, 2, 3, 4, 5, 6]), 4);
    assert_eq!(queue.try_push(7), Err(velocityx::Error::WouldBlock));
    assert_eq!(queue.try_pop(), Some(1));
    assert_eq!(queue.pop_batch(2), vec![2, 3]);
    assert_eq!(queue.pop_batch(10), vec![4]);
    assert_eq!(queue.pop(), None);

    // Batches are not recorded; the failed push, the two single pops and
    // the failed pop are.
    let metrics = queue.metrics();
    assert_eq!(metrics.total_operations, 3);
    assert_eq!(metrics.successful_operations, 1);
    assert_eq!(metrics.failed_operations, 2);
    assert_eq!(metrics.contended_operations, 0);

    assert!(queue.is_metrics_enabled());
    queue.set_metrics_enabled(false);
    assert!(!queue.is_metrics_enabled());
    queue.reset_metrics();
    assert_eq!(queue.metrics().total_operations, 0);
}

#[test]
fn mpmc_simple_metrics_disabled_records_nothing() {
    let mut queue: MpmcQueue<i32> = MpmcQueue::new(1);
    assert!(queue.push(1).is_ok());
    let before = queue.metrics();
    assert_eq!(before.total_operations, 1);

    queue.set_metrics_enabled(false);
    assert!(queue.push(2).is_err()); // full
    assert!(queue.try_push(3).is_err());
    assert_eq!(queue.pop(), Some(1));
    assert_eq!(queue.try_pop(), None);
    let after = queue.metrics();
    assert_eq!(after.total_operations, before.total_operations);
    assert_eq!(after.successful_operations, before.successful_operations);
    assert_eq!(after.failed_operations, before.failed_operations);

    queue.set_metrics_enabled(true);
    assert!(queue.push(4).is_ok());
    assert_eq!(queue.metrics().total_operations, 2);
}

#[test]
fn mpmc_len_counts_pushes_minus_pops_within_capacity() {
    let mut queue: mpmc::MpmcQueue<i32> = mpmc::MpmcQueue::new(10);
    let mut pushed: usize = 0;
    let mut popped: usize = 0;
    for i in 0..100 {
        if queue.push(i).is_ok() {
            pushed += 1;
        }
        if i % 2 == 0 && queue.pop().is_some() {
            popped += 1;
        }
        assert_eq!(queue.len(), pushed - popped);
        assert!(queue.len() <= queue.capacity());
    }
}

#[test]
fn mpmc_simple_clone_copies_elements_and_switch() {
    let mut queue: MpmcQueue<String> = MpmcQueue::new(3);
    queue.push("a".to_string()).unwrap();
    queue.push("b".to_string()).unwrap();
    queue.set_metrics_enabled(false);
    let mut copy = queue.clone();
    assert_eq!(copy.len(), 2);
    assert!(!copy.is_metrics_enabled());
    assert_eq!(copy.metrics().total_operations, 0);
    assert_eq!(copy.pop(), Some("a".to_string()));
    assert_eq!(copy.pop(), Some("b".to_string()));
    assert_eq!(copy.pop(), None);
    // The original keeps its own elements.
    assert_eq!(queue.len(), 2);
    assert_eq!(queue.pop(), Some("a".to_string()));
}
