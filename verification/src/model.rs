//! The read session as a mathematical state machine.
//!
//! [`step`] is the transition that [`crate::session::ReadSession::step`]
//! carries out; [`run`] folds it over the events of a whole read, and
//! [`actions`] lists what the driver was asked to do on the way.

use vstd::prelude::*;
use crate::protocol::{Event, Phase, ReadAction, ReadError};

verus! {

/// The state of a running session.
pub struct SessionModel {
    /// Most bytes asked of the source in one read.
    pub chunk_size: usize,
    /// Whether the observer is told after each chunk.
    pub progress: bool,
    /// Length of the source, where it is known.
    pub total: Option<u64>,
    /// What the session is waiting for.
    pub phase: Phase,
    /// Sum of the lengths of the chunks appended so far.
    pub bytes_read: nat,
    /// The chunks appended so far, in the order they were read.
    pub buffer: Seq<u8>,
}

/// A session after some events: still running, or finished with its result.
pub enum Outcome {
    /// The read goes on from this state.
    Running(SessionModel),
    /// The read is over: it returned these bytes, or it failed.
    Finished(Result<Seq<u8>, ReadError>),
}

impl SessionModel {
    /// The chunk size is positive, and the count of bytes read is the length
    /// of the buffer.
    pub open spec fn wf(self) -> bool {
        &&& self.chunk_size > 0
        &&& self.bytes_read == self.buffer.len()
    }
}

/// A new session for chunks of at most `chunk_size` bytes, which is
/// positive: nothing read, the source not open.
pub open spec fn start(chunk_size: usize, progress: bool) -> SessionModel {
    SessionModel {
        chunk_size,
        progress,
        total: None,
        phase: Phase::Opening,
        bytes_read: 0,
        buffer: Seq::empty(),
    }
}

/// The action that a running session waits to see answered.
pub open spec fn pending(s: SessionModel) -> ReadAction {
    match s.phase {
        Phase::Opening => ReadAction::OpenSource { with_length: s.progress },
        Phase::AwaitingToken => ReadAction::AcquireToken,
        Phase::AwaitingChunk => ReadAction::ReadChunk { max_len: s.chunk_size },
        Phase::AwaitingReport => ReadAction::ReportProgress {
            bytes_read: s.bytes_read as usize,
            total: s.total,
        },
    }
}

/// Whether `event` answers the action that `s` is waiting on.
pub open spec fn answers(s: SessionModel, event: Event) -> bool {
    match (s.phase, event) {
        (Phase::Opening, Event::Opened { .. }) => true,
        (Phase::Opening, Event::OpenFailed(_)) => true,
        (Phase::AwaitingToken, Event::TokenAcquired) => true,
        (Phase::AwaitingChunk, Event::ChunkRead(bytes)) => bytes.len() <= s.chunk_size,
        (Phase::AwaitingChunk, Event::ReadFailed(_)) => true,
        (Phase::AwaitingReport, Event::ProgressReported) => true,
        _ => false,
    }
}

/// One transition. An event that does not answer the pending action changes
/// nothing, so that the same action is pending again.
pub open spec fn step(s: SessionModel, event: Event) -> Outcome {
    if !answers(s, event) {
        Outcome::Running(s)
    } else {
        match event {
            Event::Opened { total } => Outcome::Running(
                SessionModel { total, phase: Phase::AwaitingToken, ..s },
            ),
            Event::OpenFailed(error) => Outcome::Finished(Err(ReadError::SourceOpen(error))),
            Event::TokenAcquired => Outcome::Running(
                SessionModel { phase: Phase::AwaitingChunk, ..s },
            ),
            Event::ChunkRead(bytes) => if bytes.len() == 0 {
                Outcome::Finished(Ok(s.buffer))
            } else {
                Outcome::Running(
                    SessionModel {
                        phase: if s.progress {
                            Phase::AwaitingReport
                        } else {
                            Phase::AwaitingToken
                        },
                        bytes_read: s.bytes_read + bytes.len(),
                        buffer: s.buffer + bytes,
                        ..s
                    },
                )
            },
            Event::ReadFailed(error) => Outcome::Finished(Err(ReadError::SourceRead(error))),
            Event::ProgressReported => Outcome::Running(
                SessionModel { phase: Phase::AwaitingToken, ..s },
            ),
        }
    }
}

/// One event on a session that may have finished already: a finished session
/// stays as it is.
pub open spec fn advance(outcome: Outcome, event: Event) -> Outcome {
    match outcome {
        Outcome::Running(s) => step(s, event),
        Outcome::Finished(_) => outcome,
    }
}

/// The session after all of `events`, in order.
pub open spec fn run(outcome: Outcome, events: Seq<Event>) -> Outcome
    decreases events.len(),
{
    if events.len() == 0 {
        outcome
    } else {
        advance(run(outcome, events.drop_last()), events.last())
    }
}

/// The action that is pending in `outcome`, if it still runs.
pub open spec fn issued(outcome: Outcome) -> Seq<ReadAction> {
    match outcome {
        Outcome::Running(s) => seq![pending(s)],
        Outcome::Finished(_) => Seq::empty(),
    }
}

/// The actions that the driver performed to produce `events`: for each event,
/// the action that was pending when it came.
pub open spec fn actions(outcome: Outcome, events: Seq<Event>) -> Seq<ReadAction>
    decreases events.len(),
{
    if events.len() == 0 {
        Seq::empty()
    } else {
        actions(outcome, events.drop_last()) + issued(run(outcome, events.drop_last()))
    }
}

/// A session that waits for a token with `buffer` read so far.
pub open spec fn waiting(
    chunk_size: usize,
    progress: bool,
    total: Option<u64>,
    buffer: Seq<u8>,
) -> SessionModel {
    SessionModel {
        chunk_size,
        progress,
        total,
        phase: Phase::AwaitingToken,
        bytes_read: buffer.len(),
        buffer,
    }
}

/// Every chunk is one that a source may hand out, before its end, when asked
/// for at most `chunk_size` bytes: not empty and not longer than that.
pub open spec fn chunks_fit(chunks: Seq<Seq<u8>>, chunk_size: usize) -> bool {
    forall|i: int| 0 <= i < chunks.len() ==> 0 < (#[trigger] chunks[i]).len() <= chunk_size
}

/// The events of reading one chunk: a token, the chunk, and the report where
/// the session asks for one.
pub open spec fn round(chunk: Seq<u8>, progress: bool) -> Seq<Event> {
    if progress {
        seq![Event::TokenAcquired, Event::ChunkRead(chunk), Event::ProgressReported]
    } else {
        seq![Event::TokenAcquired, Event::ChunkRead(chunk)]
    }
}

/// The events of reading `chunks` one after the other.
pub open spec fn rounds(chunks: Seq<Seq<u8>>, progress: bool) -> Seq<Event>
    decreases chunks.len(),
{
    if chunks.len() == 0 {
        Seq::empty()
    } else {
        rounds(chunks.drop_last(), progress) + round(chunks.last(), progress)
    }
}

/// The events of a read from the opening of the source to its end: the source
/// opens, hands out `chunks`, and then answers one more read with no bytes.
pub open spec fn whole_read(total: Option<u64>, chunks: Seq<Seq<u8>>, progress: bool) -> Seq<
    Event,
> {
    seq![Event::Opened { total }] + rounds(chunks, progress) + seq![
        Event::TokenAcquired,
        Event::ChunkRead(Seq::empty()),
    ]
}

/// The actions of reading one chunk, after which `bytes_read` bytes are read:
/// a token is asked for, then the chunk, then the report where the session
/// makes one.
pub open spec fn actions_of_round(
    chunk_size: usize,
    total: Option<u64>,
    bytes_read: nat,
    progress: bool,
) -> Seq<ReadAction> {
    if progress {
        seq![
            ReadAction::AcquireToken,
            ReadAction::ReadChunk { max_len: chunk_size },
            ReadAction::ReportProgress { bytes_read: bytes_read as usize, total },
        ]
    } else {
        seq![ReadAction::AcquireToken, ReadAction::ReadChunk { max_len: chunk_size }]
    }
}

/// The actions of reading `chunks` one after the other.
pub open spec fn actions_of_rounds(
    chunk_size: usize,
    total: Option<u64>,
    chunks: Seq<Seq<u8>>,
    progress: bool,
) -> Seq<ReadAction>
    decreases chunks.len(),
{
    if chunks.len() == 0 {
        Seq::empty()
    } else {
        actions_of_rounds(chunk_size, total, chunks.drop_last(), progress) + actions_of_round(
            chunk_size,
            total,
            chunks.flatten().len(),
            progress,
        )
    }
}

/// The actions of a read from the opening of the source to its end.
pub open spec fn actions_of_whole_read(
    chunk_size: usize,
    total: Option<u64>,
    chunks: Seq<Seq<u8>>,
    progress: bool,
) -> Seq<ReadAction> {
    seq![ReadAction::OpenSource { with_length: progress }] + actions_of_rounds(
        chunk_size,
        total,
        chunks,
        progress,
    ) + seq![ReadAction::AcquireToken, ReadAction::ReadChunk { max_len: chunk_size }]
}

/// How many of `actions` ask for a token.
pub open spec fn token_count(actions: Seq<ReadAction>) -> nat
    decreases actions.len(),
{
    if actions.len() == 0 {
        0
    } else if actions.last() is AcquireToken {
        token_count(actions.drop_last()) + 1
    } else {
        token_count(actions.drop_last())
    }
}

/// The byte counts of the progress reports among `actions`, in order.
pub open spec fn progress_values(actions: Seq<ReadAction>) -> Seq<usize>
    decreases actions.len(),
{
    if actions.len() == 0 {
        Seq::empty()
    } else {
        match actions.last() {
            ReadAction::ReportProgress { bytes_read, .. } => progress_values(
                actions.drop_last(),
            ).push(bytes_read),
            _ => progress_values(actions.drop_last()),
        }
    }
}

} // verus!
