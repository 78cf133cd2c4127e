//! Bandwidth-limited sequential reading of a byte source.
//!
//! A [`reader::RateLimitedReader`] owns a token bucket configured in kilobytes
//! per second and hands out [`session::ReadSession`]s. A session decides, step
//! by step, what the code that owns the source has to do next: open it, wait
//! for a token, read a chunk, report progress. Waiting and reading are the
//! caller's; every decision is made here.

pub mod bucket;
pub mod cli;
pub mod laws;
pub mod model;
pub mod protocol;
pub mod rate;
pub mod reader;
pub mod session;
