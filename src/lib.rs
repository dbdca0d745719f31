//! A 64-bit monotonic clock built on the 24-bit SysTick down-counter.

pub mod hardware;
pub mod scaler;
pub mod schedule;
pub mod stress;
pub mod timer;
pub mod wraps;
