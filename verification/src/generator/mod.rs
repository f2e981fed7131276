//! Generation of random messages and the schedule by which they are sent.

pub mod random_bytes;
pub mod schedule;
pub mod types;
