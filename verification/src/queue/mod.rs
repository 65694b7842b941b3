//! Queue implementations.
//!
//! - [`MpmcQueue`]: the default bounded multi-producer, multi-consumer queue,
//!   which holds exactly the requested number of elements
//! - [`mpmc::MpmcQueue`]: a bounded queue whose capacity is rounded up to a
//!   power of two, and [`mpmc::UnboundedMpmcQueue`]
//! - [`backoff`]: the decisions of the retry-with-timeout operations

pub mod backoff;
pub mod mpmc;
pub mod mpmc_simple;

pub use mpmc_simple::MpmcQueue;
