//! Serving page faults of a guest from the file that its memory was saved to.
//!
//! A page fault handler keeps the state of each guest page, decides from it what a fault asks
//! for, and reads and writes the messages that it exchanges with the monitor. The transfers
//! themselves are the caller's.

pub mod fill;
pub mod handler;
pub mod laws;
pub mod page;
pub mod protocol;
pub mod region;
