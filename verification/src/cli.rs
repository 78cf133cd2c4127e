//! What a command line hands to the reader.

use vstd::prelude::*;

verus! {

/// Bytes per chunk when the caller names no other size.
pub const DEFAULT_CHUNK_SIZE: usize = 4096;

/// The arguments of one run.
pub struct CliArgs {
    /// Path of the file to read.
    pub file: String,
    /// Path to write what was read to, if any.
    pub output: Option<String>,
    /// Rate limit in kilobytes per second.
    pub rate: u32,
}

} // verus!
