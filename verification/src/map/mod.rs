//! Map implementations.
//!
//! - [`ConcurrentHashMap`]: a hash map of power-of-two many buckets that
//!   doubles its bucket count as it fills

pub mod concurrent;

pub use self::concurrent::ConcurrentHashMap;
