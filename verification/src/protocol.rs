//! What a read session and its driver say to each other.
//!
//! The session issues a [`ReadAction`]; the driver performs it on the source
//! or the limiter and answers with a [`ReadEvent`].

use vstd::prelude::*;

verus! {

/// Tokens that one acquisition takes from the limiter. A read takes one
/// acquisition for every read from its source, so every chunk costs this many.
pub const TOKENS_PER_CHUNK: u32 = 1;

/// `std::io::Error`: the failure that a source reports. Verus carries such a
/// value from the event that brings it to the error that returns it, without
/// looking inside.
#[verifier::external_type_specification]
#[verifier::external_body]
pub struct ExIoError(std::io::Error);

/// Why a read ended without a result. Either way the failure of the source
/// is kept as it came.
#[derive(Debug)]
pub enum ReadError {
    /// The source could not be opened; no token was taken.
    SourceOpen(std::io::Error),
    /// A read from the source failed; what had been read is dropped.
    SourceRead(std::io::Error),
}

/// Where a running session stands: what it is waiting for.
#[derive(Debug, Clone, Copy, PartialEq, Eq, Structural)]
pub enum Phase {
    /// The source is not open yet.
    Opening,
    /// A token has been asked for.
    AwaitingToken,
    /// A chunk has been asked for.
    AwaitingChunk,
    /// The observer is being told how far the read has come.
    AwaitingReport,
}

/// What the driver has to do next.
#[derive(Debug, Clone, Copy, PartialEq, Eq)]
pub enum ReadAction {
    /// Open the source and, `with_length`, look up how long it is.
    OpenSource { with_length: bool },
    /// Wait until the limiter lets [`TOKENS_PER_CHUNK`] tokens through.
    AcquireToken,
    /// Read at most `max_len` bytes from the source.
    ReadChunk { max_len: usize },
    /// Tell the observer how many bytes have been read, and of how many.
    ReportProgress { bytes_read: usize, total: Option<u64> },
}

/// What the driver answers.
pub enum ReadEvent<'a> {
    /// The source is open; `total` is its length where the source knows it.
    Opened { total: Option<u64> },
    /// The source could not be opened.
    OpenFailed(std::io::Error),
    /// The limiter let [`TOKENS_PER_CHUNK`] tokens through.
    TokenAcquired,
    /// The source handed out these bytes; none at its end.
    ChunkRead(&'a [u8]),
    /// The source failed.
    ReadFailed(std::io::Error),
    /// The observer has been told.
    ProgressReported,
}

/// A [`ReadEvent`] as contracts see it: the bytes of its chunk are a sequence.
pub enum Event {
    /// The source is open; `total` is its length where the source knows it.
    Opened { total: Option<u64> },
    /// The source could not be opened.
    OpenFailed(std::io::Error),
    /// The limiter let [`TOKENS_PER_CHUNK`] tokens through.
    TokenAcquired,
    /// The source handed out these bytes; none at its end.
    ChunkRead(Seq<u8>),
    /// The source failed.
    ReadFailed(std::io::Error),
    /// The observer has been told.
    ProgressReported,
}

impl<'a> View for ReadEvent<'a> {
    type V = Event;

    open spec fn view(&self) -> Event {
        match *self {
            ReadEvent::Opened { total } => Event::Opened { total },
            ReadEvent::OpenFailed(error) => Event::OpenFailed(error),
            ReadEvent::TokenAcquired => Event::TokenAcquired,
            ReadEvent::ChunkRead(bytes) => Event::ChunkRead(bytes@),
            ReadEvent::ReadFailed(error) => Event::ReadFailed(error),
            ReadEvent::ProgressReported => Event::ProgressReported,
        }
    }
}

} // verus!
