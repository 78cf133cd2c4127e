//! One read of a source, as a state machine that its driver steps.
//!
//! The driver asks a [`ReadSession`] for its [`ReadSession::next_action`],
//! performs it, and hands the answer to [`ReadSession::step`], until the step
//! returns the result of the read. What a step does is [`model::step`].

use vstd::prelude::*;
use crate::model::{self, Outcome, SessionModel};
use crate::protocol::{Phase, ReadAction, ReadError, ReadEvent};

verus! {

/// One read in progress. It owns the bytes read so far until the read ends.
pub struct ReadSession {
    chunk_size: usize,
    progress: bool,
    total_bytes_known: Option<u64>,
    phase: Phase,
    bytes_read_so_far: usize,
    output_buffer: Vec<u8>,
}

/// What a step leaves: the session, to go on with, or the result of the read.
pub enum Step {
    /// The read goes on: ask the session for its next action.
    Continue(ReadSession),
    /// The read is over: these are its bytes, or this is why it failed.
    Finished(Result<Vec<u8>, ReadError>),
}

impl View for ReadSession {
    type V = SessionModel;

    closed spec fn view(&self) -> SessionModel {
        SessionModel {
            chunk_size: self.chunk_size,
            progress: self.progress,
            total: self.total_bytes_known,
            phase: self.phase,
            bytes_read: self.bytes_read_so_far as nat,
            buffer: self.output_buffer@,
        }
    }
}

impl View for Step {
    type V = Outcome;

    open spec fn view(&self) -> Outcome {
        match *self {
            Step::Continue(session) => Outcome::Running(session@),
            Step::Finished(Ok(bytes)) => Outcome::Finished(Ok(bytes@)),
            Step::Finished(Err(error)) => Outcome::Finished(Err(error)),
        }
    }
}

impl ReadSession {
    #[verifier::type_invariant]
    spec fn inv(self) -> bool {
        &&& self.chunk_size > 0
        &&& self.bytes_read_so_far == self.output_buffer@.len()
    }

    /// A session that has read nothing and whose source is not open, for
    /// chunks of at most `chunk_size` bytes, which is positive. With
    /// `progress`, it asks for a report after every chunk.
    pub fn new(chunk_size: usize, progress: bool) -> (session: ReadSession)
        requires
            chunk_size > 0,
        ensures
            session@ == model::start(chunk_size, progress),
            session@.wf(),
    {
        ReadSession {
            chunk_size,
            progress,
            total_bytes_known: None,
            phase: Phase::Opening,
            bytes_read_so_far: 0,
            output_buffer: Vec::new(),
        }
    }

    /// What the driver has to do next. A read that is asked for is one of
    /// at least one byte.
    pub fn next_action(&self) -> (action: ReadAction)
        ensures
            action == model::pending(self@),
            action matches ReadAction::ReadChunk { max_len } ==> max_len > 0,
    {
        proof {
            use_type_invariant(self);
        }
        match self.phase {
            Phase::Opening => ReadAction::OpenSource { with_length: self.progress },
            Phase::AwaitingToken => ReadAction::AcquireToken,
            Phase::AwaitingChunk => ReadAction::ReadChunk { max_len: self.chunk_size },
            Phase::AwaitingReport => ReadAction::ReportProgress {
                bytes_read: self.bytes_read_so_far,
                total: self.total_bytes_known,
            },
        }
    }

    /// Takes the driver's answer and moves on. A chunk that is not empty is
    /// appended to the output. The read ends with the output on an empty
    /// chunk, and with an error, the output dropped, when the source fails.
    /// An event that does not answer the pending action changes nothing.
    pub fn step(self, event: ReadEvent<'_>) -> (next: Step)
        ensures
            next@ == model::step(self@, event@),
            next matches Step::Continue(session) ==> session@.wf(),
            next matches Step::Finished(Ok(bytes)) ==> bytes@.len() == self@.bytes_read,
    {
        proof {
            use_type_invariant(&self);
        }
        let ReadSession {
            chunk_size,
            progress,
            total_bytes_known,
            phase,
            bytes_read_so_far,
            output_buffer,
        } = self;
        match (phase, event) {
            (Phase::Opening, ReadEvent::Opened { total }) => Step::Continue(
                ReadSession {
                    chunk_size,
                    progress,
                    total_bytes_known: total,
                    phase: Phase::AwaitingToken,
                    bytes_read_so_far,
                    output_buffer,
                },
            ),
            (Phase::Opening, ReadEvent::OpenFailed(error)) => Step::Finished(
                Err(ReadError::SourceOpen(error)),
            ),
            (Phase::AwaitingToken, ReadEvent::TokenAcquired) => Step::Continue(
                ReadSession {
                    chunk_size,
                    progress,
                    total_bytes_known,
                    phase: Phase::AwaitingChunk,
                    bytes_read_so_far,
                    output_buffer,
                },
            ),
            (Phase::AwaitingChunk, ReadEvent::ChunkRead(bytes)) => {
                if bytes.len() == 0 {
                    Step::Finished(Ok(output_buffer))
                } else if bytes.len() <= chunk_size {
                    let mut output_buffer = output_buffer;
                    let ghost before = output_buffer@;
                    output_buffer.extend_from_slice(bytes);
                    assert(output_buffer@ =~= before + bytes@);
                    assert(bytes_read_so_far + bytes.len() == output_buffer.len());
                    Step::Continue(
                        ReadSession {
                            chunk_size,
                            progress,
                            total_bytes_known,
                            phase: if progress {
                                Phase::AwaitingReport
                            } else {
                                Phase::AwaitingToken
                            },
                            bytes_read_so_far: bytes_read_so_far + bytes.len(),
                            output_buffer,
                        },
                    )
                } else {
                    Step::Continue(
                        ReadSession {
                            chunk_size,
                            progress,
                            total_bytes_known,
                            phase,
                            bytes_read_so_far,
                            output_buffer,
                        },
                    )
                }
            },
            (Phase::AwaitingChunk, ReadEvent::ReadFailed(error)) => Step::Finished(
                Err(ReadError::SourceRead(error)),
            ),
            (Phase::AwaitingReport, ReadEvent::ProgressReported) => Step::Continue(
                ReadSession {
                    chunk_size,
                    progress,
                    total_bytes_known,
                    phase: Phase::AwaitingToken,
                    bytes_read_so_far,
                    output_buffer,
                },
            ),
            (phase, _) => Step::Continue(
                ReadSession {
                    chunk_size,
                    progress,
                    total_bytes_known,
                    phase,
                    bytes_read_so_far,
                    output_buffer,
                },
            ),
        }
    }

    /// Bytes appended to the output so far.
    pub fn bytes_read_so_far(&self) -> (count: usize)
        ensures
            count == self@.bytes_read,
            count == self@.buffer.len(),
    {
        proof {
            use_type_invariant(self);
        }
        self.bytes_read_so_far
    }

    /// Most bytes that the session asks of the source in one read.
    pub fn chunk_size(&self) -> (size: usize)
        ensures
            size == self@.chunk_size,
            size > 0,
    {
        proof {
            use_type_invariant(self);
        }
        self.chunk_size
    }

    /// Length of the source, once it is open and where it is known.
    pub fn total_bytes_known(&self) -> (total: Option<u64>)
        ensures
            total == self@.total,
    {
        self.total_bytes_known
    }
}

} // verus!
