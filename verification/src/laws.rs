//! What holds of every read, proved of the state machine in [`crate::model`].

use vstd::prelude::*;
use crate::model::{
    actions, actions_of_round, actions_of_rounds, actions_of_whole_read, advance, chunks_fit,
    issued, progress_values, round, rounds, run, start, step, token_count, waiting, whole_read,
    Outcome, SessionModel,
};
use crate::protocol::{Event, Phase, ReadAction, ReadError};

verus! {

/// One more event: the session advances by it, and the action that was
/// pending joins the actions.
proof fn lemma_run_push(outcome: Outcome, events: Seq<Event>, event: Event)
    ensures
        run(outcome, events.push(event)) == advance(run(outcome, events), event),
        actions(outcome, events.push(event)) == actions(outcome, events) + issued(
            run(outcome, events),
        ),
{
    assert(events.push(event).drop_last() =~= events);
}

/// Events in two parts: the second part runs from where the first ended.
proof fn lemma_run_append(outcome: Outcome, first: Seq<Event>, second: Seq<Event>)
    ensures
        run(outcome, first + second) == run(run(outcome, first), second),
        actions(outcome, first + second) == actions(outcome, first) + actions(
            run(outcome, first),
            second,
        ),
    decreases second.len(),
{
    if second.len() == 0 {
        assert(first + second =~= first);
        assert(actions(outcome, first) + Seq::<ReadAction>::empty() =~= actions(outcome, first));
    } else {
        lemma_run_append(outcome, first, second.drop_last());
        assert((first + second).drop_last() =~= first + second.drop_last());
        assert((first + second).last() == second.last());
        let middle = run(outcome, first);
        assert(actions(outcome, first + second) =~= actions(outcome, first) + (actions(
            middle,
            second.drop_last(),
        ) + issued(run(middle, second.drop_last()))));
    }
}

/// One more action adds one to the tokens when it asks for one.
proof fn lemma_token_count_push(actions: Seq<ReadAction>, action: ReadAction)
    ensures
        token_count(actions.push(action)) == token_count(actions) + if action is AcquireToken {
            1nat
        } else {
            0nat
        },
{
    assert(actions.push(action).drop_last() =~= actions);
}

/// The tokens of actions in two parts are those of the parts together.
proof fn lemma_token_count_append(first: Seq<ReadAction>, second: Seq<ReadAction>)
    ensures
        token_count(first + second) == token_count(first) + token_count(second),
    decreases second.len(),
{
    if second.len() == 0 {
        assert(first + second =~= first);
    } else {
        lemma_token_count_append(first, second.drop_last());
        assert((first + second).drop_last() =~= first + second.drop_last());
        assert((first + second).last() == second.last());
    }
}

/// One more action adds its byte count to the reports when it is a report.
proof fn lemma_progress_values_push(actions: Seq<ReadAction>, action: ReadAction)
    ensures
        progress_values(actions.push(action)) == match action {
            ReadAction::ReportProgress { bytes_read, .. } => progress_values(actions).push(
                bytes_read,
            ),
            _ => progress_values(actions),
        },
{
    assert(actions.push(action).drop_last() =~= actions);
}

/// The reports of actions in two parts are those of the parts, in order.
proof fn lemma_progress_values_append(first: Seq<ReadAction>, second: Seq<ReadAction>)
    ensures
        progress_values(first + second) == progress_values(first) + progress_values(second),
    decreases second.len(),
{
    if second.len() == 0 {
        assert(first + second =~= first);
        assert(progress_values(first) + Seq::<usize>::empty() =~= progress_values(first));
    } else {
        lemma_progress_values_append(first, second.drop_last());
        assert((first + second).drop_last() =~= first + second.drop_last());
        assert((first + second).last() == second.last());
        match second.last() {
            ReadAction::ReportProgress { bytes_read, .. } => {
                assert(progress_values(first + second) =~= progress_values(first)
                    + progress_values(second.drop_last()).push(bytes_read));
            },
            _ => {},
        }
    }
}

/// The tokens and the reports among the actions of one round.
proof fn lemma_count_round(chunk_size: usize, total: Option<u64>, bytes_read: nat, progress: bool)
    ensures
        token_count(actions_of_round(chunk_size, total, bytes_read, progress)) == 1,
        progress_values(actions_of_round(chunk_size, total, bytes_read, progress)) == if progress {
            seq![bytes_read as usize]
        } else {
            Seq::<usize>::empty()
        },
{
    let a0 = Seq::<ReadAction>::empty();
    let a1 = a0.push(ReadAction::AcquireToken);
    let a2 = a1.push(ReadAction::ReadChunk { max_len: chunk_size });
    let report = ReadAction::ReportProgress { bytes_read: bytes_read as usize, total };
    lemma_token_count_push(a0, ReadAction::AcquireToken);
    lemma_token_count_push(a1, ReadAction::ReadChunk { max_len: chunk_size });
    lemma_token_count_push(a2, report);
    lemma_progress_values_push(a0, ReadAction::AcquireToken);
    lemma_progress_values_push(a1, ReadAction::ReadChunk { max_len: chunk_size });
    lemma_progress_values_push(a2, report);
    if progress {
        assert(actions_of_round(chunk_size, total, bytes_read, progress) =~= a2.push(report));
        assert(progress_values(a2.push(report)) =~= seq![bytes_read as usize]);
    } else {
        assert(actions_of_round(chunk_size, total, bytes_read, progress) =~= a2);
    }
}

/// One more chunk makes what has been read longer by that chunk.
proof fn lemma_prefix_grows(chunks: Seq<Seq<u8>>, chunk_size: usize, count: int)
    requires
        chunks_fit(chunks, chunk_size),
        0 <= count < chunks.len(),
    ensures
        chunks.take(count + 1).flatten() == chunks.take(count).flatten() + chunks[count],
        chunks.take(count + 1).flatten().len() > chunks.take(count).flatten().len(),
{
    assert(chunks.take(count + 1) =~= chunks.take(count).push(chunks[count]));
    chunks.take(count).lemma_flatten_push(chunks[count]);
}

/// Every chunk between two points of a read adds at least one byte.
proof fn lemma_prefixes_increase(chunks: Seq<Seq<u8>>, chunk_size: usize, low: int, high: int)
    requires
        chunks_fit(chunks, chunk_size),
        0 <= low <= high <= chunks.len(),
    ensures
        chunks.take(low).flatten().len() + (high - low) <= chunks.take(high).flatten().len(),
    decreases high - low,
{
    if low < high {
        lemma_prefixes_increase(chunks, chunk_size, low, high - 1);
        lemma_prefix_grows(chunks, chunk_size, high - 1);
    }
}

/// All chunks but the last fit as well, and the last is the end of the bytes.
proof fn lemma_drop_last_fits(chunks: Seq<Seq<u8>>, chunk_size: usize)
    requires
        chunks_fit(chunks, chunk_size),
        chunks.len() > 0,
    ensures
        chunks_fit(chunks.drop_last(), chunk_size),
        chunks.flatten() == chunks.drop_last().flatten() + chunks.last(),
{
    let before = chunks.drop_last();
    assert forall|i: int| 0 <= i < before.len() implies 0 < (#[trigger] before[i]).len()
        <= chunk_size by {
        assert(before[i] == chunks[i]);
    }
    assert(chunks =~= before.push(chunks.last()));
    before.lemma_flatten_push(chunks.last());
}

/// The tokens and the reports among the actions of the rounds of `chunks`.
proof fn lemma_count_rounds(
    chunk_size: usize,
    total: Option<u64>,
    chunks: Seq<Seq<u8>>,
    progress: bool,
)
    ensures
        ({
            let all = actions_of_rounds(chunk_size, total, chunks, progress);
            let reports = progress_values(all);
            &&& token_count(all) == chunks.len()
            &&& reports.len() == if progress {
                chunks.len()
            } else {
                0
            }
            &&& forall|i: int|
                0 <= i < reports.len() ==> #[trigger] reports[i] == chunks.take(
                    i + 1,
                ).flatten().len() as usize
        }),
    decreases chunks.len(),
{
    if chunks.len() > 0 {
        let before = chunks.drop_last();
        let earlier = actions_of_rounds(chunk_size, total, before, progress);
        let last = actions_of_round(chunk_size, total, chunks.flatten().len(), progress);
        lemma_count_rounds(chunk_size, total, before, progress);
        lemma_count_round(chunk_size, total, chunks.flatten().len(), progress);
        lemma_token_count_append(earlier, last);
        lemma_progress_values_append(earlier, last);
        let reports = progress_values(actions_of_rounds(chunk_size, total, chunks, progress));
        assert(reports =~= progress_values(earlier) + progress_values(last));
        assert forall|i: int| 0 <= i < reports.len() implies #[trigger] reports[i] == chunks.take(
            i + 1,
        ).flatten().len() as usize by {
            if i < before.len() {
                assert(chunks.take(i + 1) =~= before.take(i + 1));
                assert(reports[i] == progress_values(earlier)[i]);
            } else {
                assert(chunks.take(i + 1) =~= chunks);
            }
        }
    }
}

/// One chunk, read by a session that waits for a token: the chunk is appended
/// and the session waits for the next token.
proof fn lemma_round(s: SessionModel, chunk: Seq<u8>)
    requires
        s.phase == Phase::AwaitingToken,
        0 < chunk.len() <= s.chunk_size,
    ensures
        run(Outcome::Running(s), round(chunk, s.progress)) == Outcome::Running(
            SessionModel { bytes_read: s.bytes_read + chunk.len(), buffer: s.buffer + chunk, ..s },
        ),
        actions(Outcome::Running(s), round(chunk, s.progress)) == actions_of_round(
            s.chunk_size,
            s.total,
            s.bytes_read + chunk.len(),
            s.progress,
        ),
{
    let o0 = Outcome::Running(s);
    let none = Seq::<Event>::empty();
    let e1 = none.push(Event::TokenAcquired);
    let e2 = e1.push(Event::ChunkRead(chunk));
    let e3 = e2.push(Event::ProgressReported);
    lemma_run_push(o0, none, Event::TokenAcquired);
    lemma_run_push(o0, e1, Event::ChunkRead(chunk));
    lemma_run_push(o0, e2, Event::ProgressReported);
    let expected = actions_of_round(
        s.chunk_size,
        s.total,
        s.bytes_read + chunk.len(),
        s.progress,
    );
    if s.progress {
        assert(round(chunk, s.progress) =~= e3);
        assert(actions(o0, e3) =~= expected);
    } else {
        assert(round(chunk, s.progress) =~= e2);
        assert(actions(o0, e2) =~= expected);
    }
}

/// The rounds of `chunks`, from a session that has its source open and has
/// read nothing.
proof fn lemma_rounds(chunk_size: usize, progress: bool, total: Option<u64>, chunks: Seq<Seq<u8>>)
    requires
        chunks_fit(chunks, chunk_size),
    ensures
        ({
            let opened = Outcome::Running(waiting(chunk_size, progress, total, Seq::empty()));
            let events = rounds(chunks, progress);
            &&& run(opened, events) == Outcome::Running(
                waiting(chunk_size, progress, total, chunks.flatten()),
            )
            &&& actions(opened, events) == actions_of_rounds(chunk_size, total, chunks, progress)
        }),
    decreases chunks.len(),
{
    let opened = Outcome::Running(waiting(chunk_size, progress, total, Seq::empty()));
    if chunks.len() == 0 {
        assert(chunks.flatten() =~= Seq::<u8>::empty());
    } else {
        let before = chunks.drop_last();
        let chunk = chunks.last();
        lemma_drop_last_fits(chunks, chunk_size);
        lemma_rounds(chunk_size, progress, total, before);
        lemma_round(waiting(chunk_size, progress, total, before.flatten()), chunk);
        lemma_run_append(opened, rounds(before, progress), round(chunk, progress));
    }
}

/// A whole read, from a new session: its result and its actions.
proof fn lemma_whole_read(
    chunk_size: usize,
    progress: bool,
    total: Option<u64>,
    chunks: Seq<Seq<u8>>,
)
    requires
        chunks_fit(chunks, chunk_size),
    ensures
        ({
            let new = Outcome::Running(start(chunk_size, progress));
            let open = seq![Event::Opened { total }];
            &&& run(new, open + rounds(chunks, progress)) == Outcome::Running(
                waiting(chunk_size, progress, total, chunks.flatten()),
            )
            &&& run(new, whole_read(total, chunks, progress)) == Outcome::Finished(
                Ok(chunks.flatten()),
            )
            &&& actions(new, whole_read(total, chunks, progress)) == actions_of_whole_read(
                chunk_size,
                total,
                chunks,
                progress,
            )
        }),
{
    let new = Outcome::Running(start(chunk_size, progress));
    let opened = Outcome::Running(waiting(chunk_size, progress, total, Seq::empty()));
    let read = Outcome::Running(waiting(chunk_size, progress, total, chunks.flatten()));
    let none = Seq::<Event>::empty();
    let open = none.push(Event::Opened { total });
    let middle = rounds(chunks, progress);
    let e1 = none.push(Event::TokenAcquired);
    let end = e1.push(Event::ChunkRead(Seq::empty()));
    assert(seq![Event::Opened { total }] =~= open);
    assert(whole_read(total, chunks, progress) =~= open + middle + end);

    lemma_run_push(new, none, Event::Opened { total });
    assert(actions(new, open) =~= seq![ReadAction::OpenSource { with_length: progress }]);
    lemma_rounds(chunk_size, progress, total, chunks);
    lemma_run_append(new, open, middle);
    lemma_run_push(read, none, Event::TokenAcquired);
    lemma_run_push(read, e1, Event::ChunkRead(Seq::empty()));
    assert(actions(read, end) =~= seq![
        ReadAction::AcquireToken,
        ReadAction::ReadChunk { max_len: chunk_size },
    ]);
    lemma_run_append(new, open + middle, end);
}

/// The tokens and the reports among the actions of a whole read.
proof fn lemma_count_whole_read(
    chunk_size: usize,
    total: Option<u64>,
    chunks: Seq<Seq<u8>>,
    progress: bool,
)
    ensures
        ({
            let all = actions_of_whole_read(chunk_size, total, chunks, progress);
            let reports = progress_values(all);
            &&& token_count(all) == chunks.len() + 1
            &&& reports.len() == if progress {
                chunks.len()
            } else {
                0
            }
            &&& forall|i: int|
                0 <= i < reports.len() ==> #[trigger] reports[i] == chunks.take(
                    i + 1,
                ).flatten().len() as usize
        }),
{
    let a0 = Seq::<ReadAction>::empty();
    let open = a0.push(ReadAction::OpenSource { with_length: progress });
    let middle = actions_of_rounds(chunk_size, total, chunks, progress);
    let e1 = a0.push(ReadAction::AcquireToken);
    let end = e1.push(ReadAction::ReadChunk { max_len: chunk_size });
    assert(actions_of_whole_read(chunk_size, total, chunks, progress) =~= open + middle + end);
    lemma_token_count_push(a0, ReadAction::OpenSource { with_length: progress });
    lemma_token_count_push(a0, ReadAction::AcquireToken);
    lemma_token_count_push(e1, ReadAction::ReadChunk { max_len: chunk_size });
    lemma_progress_values_push(a0, ReadAction::OpenSource { with_length: progress });
    lemma_progress_values_push(a0, ReadAction::AcquireToken);
    lemma_progress_values_push(e1, ReadAction::ReadChunk { max_len: chunk_size });
    lemma_count_rounds(chunk_size, total, chunks, progress);
    lemma_token_count_append(open, middle);
    lemma_token_count_append(open + middle, end);
    lemma_progress_values_append(open, middle);
    lemma_progress_values_append(open + middle, end);
    assert(progress_values(open + middle + end) =~= progress_values(middle));
}

/// While a session runs, the count of bytes it keeps is the length of its
/// buffer; when it finishes with a result, that is the length of the result.
pub proof fn lemma_step_keeps_count(s: SessionModel, event: Event)
    requires
        s.wf(),
    ensures
        match step(s, event) {
            Outcome::Running(next) => next.wf(),
            Outcome::Finished(Ok(bytes)) => bytes.len() == s.bytes_read,
            Outcome::Finished(Err(_)) => true,
        },
{
}

/// A read that reaches the end of its source returns the chunks that the
/// source handed out, joined in the order they were read. When the last
/// chunk is in, the session has counted as many bytes as the read returns.
pub proof fn lemma_read_returns_chunks_in_order(
    chunk_size: usize,
    progress: bool,
    total: Option<u64>,
    chunks: Seq<Seq<u8>>,
)
    requires
        chunk_size > 0,
        chunks_fit(chunks, chunk_size),
    ensures
        run(Outcome::Running(start(chunk_size, progress)), whole_read(total, chunks, progress))
            == Outcome::Finished(Ok(chunks.flatten())),
        run(
            Outcome::Running(start(chunk_size, progress)),
            seq![Event::Opened { total }] + rounds(chunks, progress),
        ) == Outcome::Running(
            SessionModel {
                chunk_size,
                progress,
                total,
                phase: Phase::AwaitingToken,
                bytes_read: chunks.flatten().len(),
                buffer: chunks.flatten(),
            },
        ),
{
    lemma_whole_read(chunk_size, progress, total, chunks);
}

/// Two reads of the same bytes with the same chunk size return the same
/// bytes, however the source cut them into chunks either time.
pub proof fn lemma_reread_returns_same_bytes(
    chunk_size: usize,
    first_progress: bool,
    first_total: Option<u64>,
    first_chunks: Seq<Seq<u8>>,
    second_progress: bool,
    second_total: Option<u64>,
    second_chunks: Seq<Seq<u8>>,
)
    requires
        chunk_size > 0,
        chunks_fit(first_chunks, chunk_size),
        chunks_fit(second_chunks, chunk_size),
        first_chunks.flatten() == second_chunks.flatten(),
    ensures
        run(
            Outcome::Running(start(chunk_size, first_progress)),
            whole_read(first_total, first_chunks, first_progress),
        ) == run(
            Outcome::Running(start(chunk_size, second_progress)),
            whole_read(second_total, second_chunks, second_progress),
        ),
{
    lemma_whole_read(chunk_size, first_progress, first_total, first_chunks);
    lemma_whole_read(chunk_size, second_progress, second_total, second_chunks);
}

/// The driver of a whole read is asked, in this order: to open the source;
/// for every chunk, to take a token, to read, and, where the session reports,
/// to report the bytes read up to and with that chunk; then to take one more
/// token and to make the read that finds the source at its end.
pub proof fn lemma_actions_in_order(
    chunk_size: usize,
    progress: bool,
    total: Option<u64>,
    chunks: Seq<Seq<u8>>,
)
    requires
        chunk_size > 0,
        chunks_fit(chunks, chunk_size),
    ensures
        actions(
            Outcome::Running(start(chunk_size, progress)),
            whole_read(total, chunks, progress),
        ) == actions_of_whole_read(chunk_size, total, chunks, progress),
{
    lemma_whole_read(chunk_size, progress, total, chunks);
}

/// A read that reports its progress makes one report per chunk: the bytes
/// read up to and with that chunk. The reports increase strictly, and the
/// last is the length of what the read returns. A read that does not report
/// makes none.
pub proof fn lemma_progress_increases(
    chunk_size: usize,
    progress: bool,
    total: Option<u64>,
    chunks: Seq<Seq<u8>>,
)
    requires
        chunk_size > 0,
        chunks_fit(chunks, chunk_size),
        chunks.flatten().len() <= usize::MAX,
    ensures
        ({
            let reports = progress_values(
                actions(
                    Outcome::Running(start(chunk_size, progress)),
                    whole_read(total, chunks, progress),
                ),
            );
            &&& !progress ==> reports.len() == 0
            &&& progress ==> reports.len() == chunks.len()
            &&& forall|i: int|
                0 <= i < reports.len() ==> #[trigger] reports[i] == chunks.take(
                    i + 1,
                ).flatten().len()
            &&& forall|i: int, j: int|
                0 <= i < j < reports.len() ==> (#[trigger] reports[i]) < (#[trigger] reports[j])
            &&& reports.len() > 0 ==> reports.last() == chunks.flatten().len()
        }),
{
    lemma_whole_read(chunk_size, progress, total, chunks);
    lemma_count_whole_read(chunk_size, total, chunks, progress);
    let reports = progress_values(
        actions(
            Outcome::Running(start(chunk_size, progress)),
            whole_read(total, chunks, progress),
        ),
    );
    assert(chunks.take(chunks.len() as int) =~= chunks);
    assert forall|i: int| 0 <= i < reports.len() implies #[trigger] reports[i] == chunks.take(
        i + 1,
    ).flatten().len() by {
        lemma_prefixes_increase(chunks, chunk_size, i + 1, chunks.len() as int);
    }
    assert forall|i: int, j: int| 0 <= i < j < reports.len() implies (#[trigger] reports[i]) < (
    #[trigger] reports[j]) by {
        lemma_prefixes_increase(chunks, chunk_size, i + 1, j + 1);
    }
}

/// A read takes one token for every chunk and one more for the read that
/// finds the source at its end.
pub proof fn lemma_one_token_per_read(
    chunk_size: usize,
    progress: bool,
    total: Option<u64>,
    chunks: Seq<Seq<u8>>,
)
    requires
        chunk_size > 0,
        chunks_fit(chunks, chunk_size),
    ensures
        token_count(
            actions(
                Outcome::Running(start(chunk_size, progress)),
                whole_read(total, chunks, progress),
            ),
        ) == chunks.len() + 1,
{
    lemma_whole_read(chunk_size, progress, total, chunks);
    lemma_count_whole_read(chunk_size, total, chunks, progress);
}

/// A source with no bytes is read to an empty result with exactly one token.
pub proof fn lemma_empty_source(chunk_size: usize, progress: bool, total: Option<u64>)
    requires
        chunk_size > 0,
    ensures
        run(
            Outcome::Running(start(chunk_size, progress)),
            whole_read(total, Seq::empty(), progress),
        ) == Outcome::Finished(Ok(Seq::<u8>::empty())),
        token_count(
            actions(
                Outcome::Running(start(chunk_size, progress)),
                whole_read(total, Seq::empty(), progress),
            ),
        ) == 1,
{
    let chunks = Seq::<Seq<u8>>::empty();
    lemma_whole_read(chunk_size, progress, total, chunks);
    lemma_count_whole_read(chunk_size, total, chunks, progress);
    assert(chunks.flatten() =~= Seq::<u8>::empty());
}

/// A source that cannot be opened ends the read before any token is asked for.
pub proof fn lemma_open_failure_takes_no_token(
    chunk_size: usize,
    progress: bool,
    error: std::io::Error,
)
    requires
        chunk_size > 0,
    ensures
        run(Outcome::Running(start(chunk_size, progress)), seq![Event::OpenFailed(error)])
            == Outcome::Finished(Err(ReadError::SourceOpen(error))),
        actions(Outcome::Running(start(chunk_size, progress)), seq![Event::OpenFailed(error)])
            == seq![ReadAction::OpenSource { with_length: progress }],
        token_count(
            actions(Outcome::Running(start(chunk_size, progress)), seq![Event::OpenFailed(error)]),
        ) == 0,
{
    let new = Outcome::Running(start(chunk_size, progress));
    lemma_run_push(new, Seq::empty(), Event::OpenFailed(error));
    lemma_token_count_push(Seq::empty(), ReadAction::OpenSource { with_length: progress });
    assert(actions(new, seq![Event::OpenFailed(error)]) =~= seq![
        ReadAction::OpenSource { with_length: progress },
    ]);
}

/// A source that fails after some chunks ends the read with that failure, and
/// nothing of what had been read is returned.
pub proof fn lemma_read_failure_drops_buffer(
    chunk_size: usize,
    progress: bool,
    total: Option<u64>,
    chunks: Seq<Seq<u8>>,
    error: std::io::Error,
)
    requires
        chunk_size > 0,
        chunks_fit(chunks, chunk_size),
    ensures
        run(
            Outcome::Running(start(chunk_size, progress)),
            seq![Event::Opened { total }] + rounds(chunks, progress) + seq![
                Event::TokenAcquired,
                Event::ReadFailed(error),
            ],
        ) == Outcome::Finished(Err(ReadError::SourceRead(error))),
{
    let new = Outcome::Running(start(chunk_size, progress));
    let read = Outcome::Running(waiting(chunk_size, progress, total, chunks.flatten()));
    let none = Seq::<Event>::empty();
    let open = seq![Event::Opened { total }];
    let e1 = none.push(Event::TokenAcquired);
    let end = e1.push(Event::ReadFailed(error));
    lemma_whole_read(chunk_size, progress, total, chunks);
    lemma_run_push(read, none, Event::TokenAcquired);
    lemma_run_push(read, e1, Event::ReadFailed(error));
    lemma_run_append(new, open + rounds(chunks, progress), end);
    assert(seq![Event::TokenAcquired, Event::ReadFailed(error)] =~= end);
}

} // verus!
