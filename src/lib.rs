//! A persistent first-in-first-out queue with worst-case constant-time
//! operations, built on shared immutable lists.
pub mod laws;
pub mod list;
pub mod queue;
pub mod schedule;

pub use queue::RTQ;
