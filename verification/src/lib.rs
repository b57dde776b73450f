//! Verified core of a system-wide signal tracer.
//!
//! A kernel probe observes every invocation of the signal-sending syscall,
//! filters out existence probes (signal 0), and emits one fixed-size record
//! per observed send into a bounded per-processor ring.  Userspace consumers
//! drain their ring, decode the raw records and render one console line per
//! event.  This crate holds the record layout, the probe's decision logic,
//! the ring semantics and the rendering, each with a proved contract; the
//! kernel attachment and the async plumbing live outside it.

pub mod clock;
pub mod codec;
pub mod event;
pub mod pipeline;
pub mod probe;
pub mod render;
pub mod ring;
