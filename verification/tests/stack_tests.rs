use velocityx::stack::LockFreeStack;
use velocityx::MetricsCollector;

#[test]
fn lock_free_test_basic_operations() {
    let mut stack = LockFreeStack::new();

    // Test empty stack
    assert!(stack.is_empty());
    assert_eq!(stack.len(), 0);
    assert_eq!(stack.pop(), None);

    // Test push and pop
    stack.push(1);
    stack.push(2);
    stack.push(3);

    assert!(!stack.is_empty());
    assert_eq!(stack.len(), 3);

    assert_eq!(stack.pop(), Some(3));
    assert_eq!(stack.pop(), Some(2));
    assert_eq!(stack.pop(), Some(1));
    assert_eq!(stack.pop(), None);

    assert!(stack.is_empty());
    assert_eq!(stack.len(), 0);
}

#[test]
fn test_batch_operations() {
    let mut stack = LockFreeStack::new();

    // Test batch push
    stack.push_batch(vec![1, 2, 3, 4, 5]);
    assert_eq!(stack.len(), 5);

    // Test batch pop
    let elements = stack.pop_batch(3);
    assert_eq!(elements.len(), 3);
    assert_eq!(stack.len(), 2);

    // Verify LIFO order
    assert_eq!(stack.pop(), Some(2));
    assert_eq!(stack.pop(), Some(1));
    assert_eq!(stack.pop(), None);
}

#[test]
fn test_metrics() {
    let mut stack = LockFreeStack::new();

    // Perform some operations
    stack.push(1);
    stack.push(2);
    stack.push(3);

    let _ = stack.pop();
    let _ = stack.pop();
    let _ = stack.pop();
    let _ = stack.pop(); // This will fail

    // Check metrics
    let metrics = stack.metrics();
    assert_eq!(metrics.total_operations, 7);
    assert_eq!(metrics.successful_operations, 6);
    assert_eq!(metrics.failed_operations, 1);
    let success_rate =
        (metrics.successful_operations as f64 / metrics.total_operations as f64) * 100.0;
    assert!(success_rate > 80.0);

    // Test metrics control
    stack.set_metrics_enabled(false);
    assert!(!stack.is_metrics_enabled());

    stack.reset_metrics();
    let reset_metrics = stack.metrics();
    assert_eq!(reset_metrics.total_operations, 0);
}

#[test]
fn test_stack_batch_order_and_failed_pop_in_batch() {
    let mut stack: LockFreeStack<i32> = LockFreeStack::default();
    stack.push_batch(vec![10, 20, 30]);
    assert_eq!(stack.pop_batch(2), vec![30, 20]);
    // Asking for more than is left ends the batch with a recorded failure.
    assert_eq!(stack.pop_batch(5), vec![10]);
    let metrics = stack.metrics();
    assert_eq!(metrics.successful_operations, 6);
    assert_eq!(metrics.failed_operations, 1);
    assert_eq!(metrics.total_operations, 7);
}

#[test]
fn lock_free_metrics_disabled_records_nothing() {
    let mut stack: LockFreeStack<i32> = LockFreeStack::new();
    stack.push(1);
    let before = stack.metrics();
    assert_eq!(before.total_operations, 1);

    stack.set_metrics_enabled(false);
    stack.push(2);
    stack.push_batch(vec![3, 4]);
    assert_eq!(stack.pop_batch(2), vec![4, 3]);
    assert_eq!(stack.pop(), Some(2));
    assert_eq!(stack.pop(), Some(1));
    assert_eq!(stack.pop(), None);
    let after = stack.metrics();
    assert_eq!(after.total_operations, before.total_operations);
    assert_eq!(after.successful_operations, before.successful_operations);
    assert_eq!(after.failed_operations, before.failed_operations);
}
