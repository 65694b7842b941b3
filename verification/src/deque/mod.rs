//! Deque (double-ended queue) implementations.
//!
//! - [`WorkStealingDeque`]: Chase-Lev style deque for work-stealing schedulers

pub mod work_stealing;

pub use self::work_stealing::WorkStealingDeque;
