//! Picking the winner of a race between a fixed number of operations.
//!
//! A race is observed in rounds. In each round the host polls every member in
//! order and reports which of them have completed; the library decides which
//! member wins (the leftmost one that is complete), wraps its value in a tagged
//! result, and says which members are to be cancelled.

pub mod laws;
pub mod race;
pub mod tagged;
