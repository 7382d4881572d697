//! Verified decision logic for the async download programs: HTTP status
//! checks, `Content-Length` parsing, progress accounting for streamed
//! bodies, the retry schedule, and the gathering of concurrent results.
//! The network, disk and timer work is driven by the application around
//! this library, which feeds it plain values and acts on what it returns.

pub mod status;
pub mod content_length;
pub mod retry;
pub mod progress;
pub mod gather;
pub mod timeout;
