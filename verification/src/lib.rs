//! A Harbor registry client library whose core is a verified retention
//! sweep: age-based selection of stale image tags, ordered deletion that
//! tolerates per-tag failure, and a bounded polling state machine that
//! watches the garbage-collection job reclaiming the freed space.
//!
//! Everything the sweep decides or computes lives here with a contract:
//! push-time parsing and rendering, the retention cutoff, tag selection,
//! deletion bookkeeping, the GC state machine, and the request plumbing's
//! computational side (auth token, URLs, query parameters). The network
//! itself stays outside the library.

pub mod client;
pub mod common;
pub mod deletion;
pub mod gc;
pub mod project;
pub mod sweep;
pub mod tag;
pub mod timestamp;
pub mod user;

pub use timestamp::Timestamp;
