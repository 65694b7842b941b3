use velocityx::Error;
use velocityx::deque::WorkStealingDeque;
use velocityx::map::ConcurrentHashMap;
use velocityx::queue::MpmcQueue;

#[test]
fn test_error_handling() {
    // Test queue error handling
    let mut queue: MpmcQueue<i32> = MpmcQueue::new(1);
    assert!(queue.push(1).is_ok());
    assert_eq!(queue.push(2), Err(Error::WouldBlock));

    // Test map operations (should not error under normal conditions)
    let mut map: ConcurrentHashMap<i32, i32> = ConcurrentHashMap::new();
    assert_eq!(map.insert(1, 2), None);
    assert_eq!(map.insert(1, 3), Some(2));

    // Test deque error handling
    let mut deque: WorkStealingDeque<i32> = WorkStealingDeque::new(1);
    assert!(deque.push(1).is_ok());
    assert_eq!(deque.push(2), Err(Error::WouldBlock));

    println!("Error handling test passed!");
}

#[test]
fn test_api_compatibility() {
    // Test that all APIs are compatible and work as expected

    // Test queue API (the queue whose capacity is rounded up to a power of two)
    let mut queue: velocityx::queue::mpmc::MpmcQueue<i32> = velocityx::queue::mpmc::MpmcQueue::new(10);
    assert!(queue.push(1).is_ok());
    assert_eq!(queue.pop(), Some(1));
    assert_eq!(queue.len(), 0);
    assert!(queue.is_empty());
    assert_eq!(queue.capacity(), 16); // Rounded up to power of 2

    // Test map API
    let mut map: ConcurrentHashMap<String, i32> = ConcurrentHashMap::new();
    assert_eq!(map.insert("key".to_string(), 42), None);
    assert_eq!(map.get(&"key".to_string()), Some(&42));
    assert_eq!(map.len(), 1);
    assert!(!map.is_empty());
    assert_eq!(map.remove(&"key".to_string()), Some(42));

    // Test deque API
    let mut deque: WorkStealingDeque<i32> = WorkStealingDeque::new(10);
    assert!(deque.push(1).is_ok());
    assert_eq!(deque.pop(), Some(1));
    assert_eq!(deque.steal(), None);
    assert_eq!(deque.len(), 0);
    assert!(deque.is_empty());
    assert_eq!(deque.capacity(), 16); // Rounded up to power of 2

    // Test clone operations
    let queue2 = queue.clone();
    let map2 = map.clone();
    let deque2 = deque.clone();

    // Cloned structures should be independent but have same capacity
    assert_eq!(queue.capacity(), queue2.capacity());
    assert_eq!(map.capacity(), map2.capacity());
    assert_eq!(deque.capacity(), deque2.capacity());

    println!("API compatibility test passed!");
}
