//! Stack implementations.

pub mod lock_free;

pub use lock_free::LockFreeStack;
