# vmm

Parts of a virtual machine monitor, verified with Verus.

- `src/rate_limiter` is a token bucket with continuous refill, with the proof of its rate limit.
- `src/logger` is rate-limited logging: a limiter for each callsite, the count of suppressed
  messages, and the lines and metrics that go with them.
- `src/vstate/guest_memfd` has the requests to KVM for guest memory in a `guest_memfd`: what is
  handed to each ioctl, and what its return value means.
- `src/uffd` has the decisions of a page fault handler: the state of each guest page, what a fault
  asks for, the messages, and the plan that fills all missing pages.

The library makes no system call but for the monotonic clock. `app` makes them: it writes to the
log, calls `ioctl` and `mmap`, and serves the sockets.

Each module's `laws.rs` holds what is proved across several operations.
