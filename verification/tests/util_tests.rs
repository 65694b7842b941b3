use velocityx::util::{align_to_cache_line, CachePadded};
use velocityx::Error;
use std::sync::atomic::{AtomicBool, AtomicIsize, AtomicUsize, Ordering};

#[test]
fn test_cache_line_alignment() {
    assert_eq!(align_to_cache_line(1), 64);
    assert_eq!(align_to_cache_line(64), 64);
    assert_eq!(align_to_cache_line(65), 128);
    assert_eq!(align_to_cache_line(127), 128);
    assert_eq!(align_to_cache_line(128), 128);
}

#[test]
fn test_cache_padded() {
    let padded = CachePadded::new(42);
    assert_eq!(*padded.get(), 42);

    let mut padded = padded;
    *padded.get_mut() = 100;
    assert_eq!(padded.into_inner(), 100);
}

#[test]
fn test_error_display() {
    assert_eq!(Error::WouldBlock.to_string().trim(), "Operation would block");
    assert_eq!(Error::Closed.to_string().trim(), "Data structure is closed");
    assert_eq!(
        Error::InvalidState.to_string().trim(),
        "Invalid operation for current state"
    );
    assert_eq!(Error::CapacityExceeded.to_string().trim(), "Capacity exceeded");
    assert_eq!(
        Error::Poisoned.to_string().trim(),
        "Data structure is poisoned due to thread panic"
    );
    assert_eq!(
        Error::InvalidArgument.to_string().trim(),
        "Invalid argument provided"
    );
    assert_eq!(Error::OutOfMemory.to_string().trim(), "Memory allocation failed");
    assert_eq!(Error::Timeout.to_string().trim(), "Operation timed out");
}

#[test]
fn test_align_to_cache_line_edges() {
    assert_eq!(align_to_cache_line(0), 0);
    assert_eq!(align_to_cache_line(63), 64);
    assert_eq!(align_to_cache_line(129), 192);
    assert_eq!(align_to_cache_line(usize::MAX - 63), usize::MAX - 63);
}

#[test]
fn test_cache_padded_inner_access() {
    let mut padded = CachePadded::new(vec![1, 2, 3]);
    padded.inner_mut().push(4);
    assert_eq!(padded.inner(), &vec![1, 2, 3, 4]);
    assert_eq!(std::mem::align_of::<CachePadded<u8>>(), 64);
}

#[test]
fn test_cache_padded_atomics() {
    let counter = CachePadded::new(AtomicUsize::new(5));
    counter.store(7, Ordering::SeqCst);
    assert_eq!(counter.load(Ordering::SeqCst), 7);
    assert_eq!(counter.compare_exchange(7, 9, Ordering::SeqCst, Ordering::SeqCst), Ok(7));
    assert_eq!(counter.compare_exchange(7, 11, Ordering::SeqCst, Ordering::SeqCst), Err(9));

    let signed = CachePadded::new(AtomicIsize::new(-1));
    signed.store(-5, Ordering::SeqCst);
    assert_eq!(signed.load(Ordering::SeqCst), -5);
    assert_eq!(signed.compare_exchange(-5, 3, Ordering::SeqCst, Ordering::SeqCst), Ok(-5));
    assert_eq!(signed.load(Ordering::SeqCst), 3);

    let flag = CachePadded::new(AtomicBool::new(false));
    assert_eq!(flag.compare_exchange(false, true, Ordering::SeqCst, Ordering::SeqCst), Ok(false));
    assert_eq!(flag.compare_exchange(false, true, Ordering::SeqCst, Ordering::SeqCst), Err(true));
    flag.store(false, Ordering::SeqCst);
    assert!(!flag.load(Ordering::SeqCst));
}
