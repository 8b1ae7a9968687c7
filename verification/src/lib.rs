//! Verified parts of a virtual machine monitor: rate-limited logging, the requests to KVM for
//! guest memory that is backed by a `guest_memfd`, and the decisions of a page fault handler for
//! such memory.

pub mod logger;
pub mod rate_limiter;
pub mod uffd;
pub mod vstate;
