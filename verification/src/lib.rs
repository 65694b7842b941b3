//! Concurrent-style data structures (bounded MPMC queues, a Chase-Lev style
//! work-stealing deque, a Treiber style stack, a bucketed hash map and
//! performance metrics) whose behaviour is stated by contracts over
//! mathematical views and proved by Verus.

pub mod bounded;
pub mod deque;
pub mod map;
pub mod metrics;
pub mod queue;
pub mod ring;
pub mod stack;
pub mod util;

pub use crate::deque::work_stealing::WorkStealingDeque;
pub use crate::map::concurrent::ConcurrentHashMap;
pub use crate::metrics::{MetricsCollector, PerformanceMetrics};
pub use crate::queue::MpmcQueue;
pub use crate::stack::LockFreeStack;

use vstd::prelude::*;

verus! {

/// Error values returned by the data structures of this crate.
#[derive(Debug, Clone, PartialEq, Eq, Structural)]
pub enum Error {
    /// Operation would block (queue full, etc.)
    WouldBlock,
    /// Queue or data structure is closed
    Closed,
    /// Invalid operation for current state
    InvalidState,
    /// Capacity exceeded (for bounded structures)
    CapacityExceeded,
    /// Data structure is poisoned (thread panic occurred)
    Poisoned,
    /// Invalid argument provided
    InvalidArgument,
    /// Memory allocation failed
    OutOfMemory,
    /// Operation timed out
    Timeout,
}

/// The human-readable message of each error variant.
pub open spec fn error_message(e: Error) -> Seq<char> {
    match e {
        Error::WouldBlock => "Operation would block"@,
        Error::Closed => "Data structure is closed"@,
        Error::InvalidState => "Invalid operation for current state"@,
        Error::CapacityExceeded => "Capacity exceeded"@,
        Error::Poisoned => "Data structure is poisoned due to thread panic"@,
        Error::InvalidArgument => "Invalid argument provided"@,
        Error::OutOfMemory => "Memory allocation failed"@,
        Error::Timeout => "Operation timed out"@,
    }
}

impl Error {
    /// The message that describes this error.
    pub fn to_string(&self) -> (s: String)
        ensures
            s@ == error_message(*self),
    {
        match self {
            Error::WouldBlock => String::from_str("Operation would block"),
            Error::Closed => String::from_str("Data structure is closed"),
            Error::InvalidState => String::from_str("Invalid operation for current state"),
            Error::CapacityExceeded => String::from_str("Capacity exceeded"),
            Error::Poisoned => String::from_str("Data structure is poisoned due to thread panic"),
            Error::InvalidArgument => String::from_str("Invalid argument provided"),
            Error::OutOfMemory => String::from_str("Memory allocation failed"),
            Error::Timeout => String::from_str("Operation timed out"),
        }
    }
}

/// Result type for the operations of this crate.
pub type Result<T> = core::result::Result<T, Error>;

} // verus!
