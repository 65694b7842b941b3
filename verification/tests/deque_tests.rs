use core::mem;
use velocityx::deque::WorkStealingDeque;

#[test]
fn work_stealing_test_basic_operations() {
    let mut deque: WorkStealingDeque<i32> = WorkStealingDeque::new(4);

    // Test empty deque
    assert_eq!(deque.len(), 0);
    assert!(deque.is_empty());
    assert_eq!(deque.pop(), None);
    assert_eq!(deque.steal(), None);

    // Test push and pop
    assert!(deque.push(1).is_ok());
    assert_eq!(deque.len(), 1);
    assert!(!deque.is_empty());

    assert_eq!(deque.pop(), Some(1));
    assert_eq!(deque.len(), 0);
    assert!(deque.is_empty());
}

#[test]
fn test_lifo_behavior() {
    let mut deque: WorkStealingDeque<i32> = WorkStealingDeque::new(4);

    assert!(deque.push(1).is_ok());
    assert!(deque.push(2).is_ok());
    assert!(deque.push(3).is_ok());

    assert_eq!(deque.pop(), Some(3));
    assert_eq!(deque.pop(), Some(2));
    assert_eq!(deque.pop(), Some(1));
    assert_eq!(deque.pop(), None);
}

#[test]
fn test_fifo_stealing() {
    let mut deque: WorkStealingDeque<i32> = WorkStealingDeque::new(4);

    assert!(deque.push(1).is_ok());
    assert!(deque.push(2).is_ok());
    assert!(deque.push(3).is_ok());

    assert_eq!(deque.steal(), Some(1));
    assert_eq!(deque.steal(), Some(2));
    assert_eq!(deque.steal(), Some(3));
    assert_eq!(deque.steal(), None);
}

#[test]
fn test_mixed_operations() {
    let mut deque: WorkStealingDeque<i32> = WorkStealingDeque::new(4);

    assert!(deque.push(1).is_ok());
    assert!(deque.push(2).is_ok());
    assert!(deque.push(3).is_ok());

    assert_eq!(deque.pop(), Some(3));
    assert_eq!(deque.steal(), Some(1));
    assert_eq!(deque.pop(), Some(2));
    assert_eq!(deque.pop(), None);
    assert_eq!(deque.steal(), None);
}

#[test]
fn test_full_deque() {
    let mut deque: WorkStealingDeque<i32> = WorkStealingDeque::new(2);

    assert!(deque.push(1).is_ok());
    assert!(deque.push(2).is_ok());
    assert_eq!(deque.len(), 2);

    assert!(deque.push(3).is_err());

    assert_eq!(deque.pop(), Some(2));
    assert!(deque.push(3).is_ok());
    assert_eq!(deque.pop(), Some(3));
    assert_eq!(deque.pop(), Some(1));
}

#[test]
fn test_wrap_around() {
    let mut deque: WorkStealingDeque<i32> = WorkStealingDeque::new(4);

    for i in 0..10 {
        assert!(deque.push(i).is_ok());
        assert_eq!(deque.pop(), Some(i));
    }
}

#[test]
fn work_stealing_test_cache_alignment() {
    assert_eq!(mem::align_of::<WorkStealingDeque<i32>>(), 64);
}

#[test]
fn work_stealing_test_debug_format() {
    let deque: WorkStealingDeque<i32> = WorkStealingDeque::new(4);
    let debug_str = format!("{:?}", deque);
    assert!(debug_str.contains("WorkStealingDeque"));
    assert!(debug_str.contains("capacity"));
}

#[test]
fn test_empty_deque_edge_cases() {
    let mut deque: WorkStealingDeque<i32> = WorkStealingDeque::new(4);

    assert_eq!(deque.pop(), None);
    assert_eq!(deque.pop(), None);
    assert_eq!(deque.steal(), None);
    assert_eq!(deque.steal(), None);

    assert!(deque.push(42).is_ok());
    assert_eq!(deque.pop(), Some(42));

    assert_eq!(deque.pop(), None);
    assert_eq!(deque.steal(), None);
}

#[test]
fn test_work_stealing_deque_boundary_conditions() {
    // Test with capacity of 1
    let mut deque: WorkStealingDeque<i32> = WorkStealingDeque::new(1);
    assert_eq!(deque.capacity(), 1);

    // Fill and drain
    assert!(deque.push(42).is_ok());
    assert!(deque.push(43).is_err());
    assert_eq!(deque.pop(), Some(42));
    assert_eq!(deque.pop(), None);
    assert!(deque.push(44).is_ok());

    // Test stealing from single-item deque
    assert_eq!(deque.steal(), Some(44));
    assert_eq!(deque.steal(), None);

    // Test large capacity
    let large_deque: WorkStealingDeque<i32> = WorkStealingDeque::new(100000);
    assert!(large_deque.capacity() >= 100000);
    assert!(large_deque.capacity().is_power_of_two());
}

#[test]
fn test_deque_capacity_rounding_and_full_error() {
    let mut deque: WorkStealingDeque<u8> = WorkStealingDeque::new(3);
    assert_eq!(deque.capacity(), 4);
    for i in 0..4 {
        assert_eq!(deque.try_push(i), Ok(()));
    }
    assert_eq!(deque.try_push(9), Err(velocityx::Error::WouldBlock));
    assert_eq!(deque.len(), 4);
    assert_eq!(deque.try_steal(), Some(0));
    assert_eq!(deque.try_pop(), Some(3));
    assert_eq!(deque.len(), 2);
}

#[test]
fn test_deque_wrap_with_steals() {
    // The window of elements wraps around the end of the buffer.
    let mut deque: WorkStealingDeque<u32> = WorkStealingDeque::new(4);
    for round in 0..5u32 {
        for i in 0..3 {
            assert!(deque.push(round * 10 + i).is_ok());
        }
        assert_eq!(deque.steal(), Some(round * 10));
        assert_eq!(deque.steal(), Some(round * 10 + 1));
        assert_eq!(deque.pop(), Some(round * 10 + 2));
        assert!(deque.is_empty());
    }
}

#[test]
fn test_deque_clone_is_empty_with_same_capacity() {
    let mut deque: WorkStealingDeque<i32> = WorkStealingDeque::new(8);
    deque.push(1).unwrap();
    let copy = deque.clone();
    assert_eq!(copy.capacity(), 8);
    assert!(copy.is_empty());
    assert_eq!(deque.len(), 1);
}

#[test]
fn work_stealing_no_value_lost_or_repeated() {
    let mut deque: WorkStealingDeque<u32> = WorkStealingDeque::new(8);
    let mut taken: Vec<u32> = Vec::new();
    let mut pushed: Vec<u32> = Vec::new();
    for i in 0..40u32 {
        if deque.push(i).is_ok() {
            pushed.push(i);
        }
        if i % 3 == 0 {
            if let Some(v) = deque.steal() {
                taken.push(v);
            }
        }
        if i % 5 == 0 {
            if let Some(v) = deque.pop() {
                taken.push(v);
            }
        }
        assert!(deque.len() <= deque.capacity());
        assert_eq!(deque.len() + taken.len(), pushed.len());
    }
    while let Some(v) = deque.steal() {
        taken.push(v);
    }
    taken.sort();
    assert_eq!(taken, pushed);
}
