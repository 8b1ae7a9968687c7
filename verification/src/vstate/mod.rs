//! The state of a virtual machine.

pub mod guest_memfd;
