use std::io::{Error, ErrorKind};

use rate_limit::protocol::{ReadAction, ReadError, ReadEvent, TOKENS_PER_CHUNK};
use rate_limit::reader::RateLimitedReader;
use rate_limit::session::{ReadSession, Step};

/// What a driven read did: its result, and every action it was asked for.
struct Driven {
    result: Result<Vec<u8>, ReadError>,
    actions: Vec<ReadAction>,
}

impl Driven {
    fn tokens(&self) -> usize {
        self.actions.iter().filter(|a| matches!(a, ReadAction::AcquireToken)).count()
    }

    fn reports(&self) -> Vec<(usize, Option<u64>)> {
        let mut reports = Vec::new();
        for action in &self.actions {
            if let ReadAction::ReportProgress { bytes_read, total } = action {
                reports.push((*bytes_read, *total));
            }
        }
        reports
    }
}

/// Drives a session over bytes in memory. The source hands out at most
/// `most` bytes per read, and fails at the read numbered `fail_at`.
fn drive(
    mut session: ReadSession,
    source: &[u8],
    total: Option<u64>,
    most: usize,
    fail_at: Option<usize>,
) -> Driven {
    let mut actions = Vec::new();
    let mut position: usize = 0;
    let mut reads: usize = 0;
    loop {
        let action = session.next_action();
        actions.push(action);
        let event = match action {
            ReadAction::OpenSource { with_length } => {
                ReadEvent::Opened { total: if with_length { total } else { None } }
            },
            ReadAction::AcquireToken => ReadEvent::TokenAcquired,
            ReadAction::ReadChunk { max_len } => {
                reads += 1;
                if fail_at == Some(reads) {
                    ReadEvent::ReadFailed(Error::new(ErrorKind::UnexpectedEof, "source broke"))
                } else {
                    let end = source.len().min(position + max_len.min(most));
                    let chunk = &source[position..end];
                    position = end;
                    ReadEvent::ChunkRead(chunk)
                }
            },
            ReadAction::ReportProgress { .. } => ReadEvent::ProgressReported,
        };
        match session.step(event) {
            Step::Continue(next) => session = next,
            Step::Finished(result) => return Driven { result, actions },
        }
    }
}

fn fixture(len: usize) -> Vec<u8> {
    (0..len).map(|i| (i * 31 % 251) as u8).collect()
}

fn running(step: Step) -> ReadSession {
    match step {
        Step::Continue(session) => session,
        Step::Finished(_) => panic!("the read ended"),
    }
}

#[test]
fn round_trip_returns_the_source() {
    let source = fixture(10_000);
    let driven = drive(ReadSession::new(4096, false), &source, None, usize::MAX, None);
    assert_eq!(driven.result.unwrap(), source);
}

#[test]
fn chunks_are_joined_in_read_order() {
    let session = ReadSession::new(4, false);
    let session = running(session.step(ReadEvent::Opened { total: None }));
    let session = running(session.step(ReadEvent::TokenAcquired));
    let session = running(session.step(ReadEvent::ChunkRead(&[1, 2, 3])));
    assert_eq!(session.bytes_read_so_far(), 3);
    let session = running(session.step(ReadEvent::TokenAcquired));
    let session = running(session.step(ReadEvent::ChunkRead(&[4])));
    assert_eq!(session.bytes_read_so_far(), 4);
    let session = running(session.step(ReadEvent::TokenAcquired));
    let session = running(session.step(ReadEvent::ChunkRead(&[5, 6, 7, 8])));
    assert_eq!(session.bytes_read_so_far(), 8);
    let session = running(session.step(ReadEvent::TokenAcquired));
    match session.step(ReadEvent::ChunkRead(&[])) {
        Step::Finished(Ok(bytes)) => assert_eq!(bytes, vec![1, 2, 3, 4, 5, 6, 7, 8]),
        _ => panic!("the read did not end with its bytes"),
    }
}

#[test]
fn actions_of_a_read_without_progress() {
    let source = fixture(10);
    let driven = drive(ReadSession::new(4, false), &source, None, usize::MAX, None);
    assert_eq!(
        driven.actions,
        vec![
            ReadAction::OpenSource { with_length: false },
            ReadAction::AcquireToken,
            ReadAction::ReadChunk { max_len: 4 },
            ReadAction::AcquireToken,
            ReadAction::ReadChunk { max_len: 4 },
            ReadAction::AcquireToken,
            ReadAction::ReadChunk { max_len: 4 },
            ReadAction::AcquireToken,
            ReadAction::ReadChunk { max_len: 4 },
        ]
    );
    assert_eq!(driven.result.unwrap(), source);
}

#[test]
fn actions_of_a_read_with_progress() {
    let source = fixture(6);
    let driven = drive(ReadSession::new(4, true), &source, Some(6), usize::MAX, None);
    assert_eq!(
        driven.actions,
        vec![
            ReadAction::OpenSource { with_length: true },
            ReadAction::AcquireToken,
            ReadAction::ReadChunk { max_len: 4 },
            ReadAction::ReportProgress { bytes_read: 4, total: Some(6) },
            ReadAction::AcquireToken,
            ReadAction::ReadChunk { max_len: 4 },
            ReadAction::ReportProgress { bytes_read: 6, total: Some(6) },
            ReadAction::AcquireToken,
            ReadAction::ReadChunk { max_len: 4 },
        ]
    );
    assert_eq!(driven.result.unwrap(), source);
}

#[test]
fn one_token_per_chunk_and_one_for_the_end() {
    let source = fixture(10_000);
    let driven = drive(ReadSession::new(4096, false), &source, None, usize::MAX, None);
    assert_eq!(driven.tokens(), 4);
    let driven = drive(ReadSession::new(4096, true), &source, None, 1000, None);
    assert_eq!(driven.tokens(), 11);
}

#[test]
fn source_of_exactly_one_chunk_takes_two_tokens() {
    let source = fixture(4096);
    let driven = drive(ReadSession::new(4096, false), &source, None, usize::MAX, None);
    assert_eq!(driven.tokens(), 2);
    assert_eq!(driven.result.unwrap(), source);
}

#[test]
fn empty_source_takes_exactly_one_token() {
    let driven = drive(ReadSession::new(4096, false), &[], None, usize::MAX, None);
    assert_eq!(
        driven.actions,
        vec![
            ReadAction::OpenSource { with_length: false },
            ReadAction::AcquireToken,
            ReadAction::ReadChunk { max_len: 4096 },
        ]
    );
    assert_eq!(driven.tokens(), 1);
    assert_eq!(driven.result.unwrap(), Vec::<u8>::new());
}

#[test]
fn empty_source_with_progress_makes_no_report() {
    let driven = drive(ReadSession::new(4096, true), &[], Some(0), usize::MAX, None);
    assert_eq!(driven.tokens(), 1);
    assert!(driven.reports().is_empty());
    assert_eq!(driven.result.unwrap(), Vec::<u8>::new());
}

#[test]
fn reread_returns_identical_output() {
    let source = fixture(9_999);
    let first = drive(ReadSession::new(1024, false), &source, None, usize::MAX, None);
    let second = drive(ReadSession::new(1024, false), &source, None, usize::MAX, None);
    assert_eq!(first.result.unwrap(), second.result.unwrap());
}

#[test]
fn reread_with_short_reads_returns_identical_output() {
    let source = fixture(5_000);
    let whole = drive(ReadSession::new(1024, false), &source, None, usize::MAX, None);
    let short = drive(ReadSession::new(1024, true), &source, Some(5_000), 7, None);
    let whole = whole.result.unwrap();
    assert_eq!(whole, short.result.unwrap());
    assert_eq!(whole, source);
}

#[test]
fn progress_values_increase_and_end_at_the_output_length() {
    let source = fixture(10_000);
    let driven = drive(ReadSession::new(4096, true), &source, Some(10_000), usize::MAX, None);
    assert_eq!(
        driven.reports(),
        vec![(4096, Some(10_000)), (8192, Some(10_000)), (10_000, Some(10_000))]
    );
    assert_eq!(driven.result.unwrap().len(), 10_000);
}

#[test]
fn progress_with_short_reads_is_strictly_increasing() {
    let source = fixture(1_000);
    let driven = drive(ReadSession::new(64, true), &source, Some(1_000), 9, None);
    let reports = driven.reports();
    assert_eq!(reports.len(), 112);
    for pair in reports.windows(2) {
        assert!(pair[0].0 < pair[1].0);
    }
    assert_eq!(reports[0].0, 9);
    assert_eq!(reports.last().unwrap().0, driven.result.unwrap().len());
}

#[test]
fn progress_with_unknown_total_says_so() {
    let source = fixture(5);
    let driven = drive(ReadSession::new(4, true), &source, None, usize::MAX, None);
    assert_eq!(driven.reports(), vec![(4, None), (5, None)]);
}

#[test]
fn read_without_progress_makes_no_report() {
    let source = fixture(100);
    let driven = drive(ReadSession::new(10, false), &source, Some(100), usize::MAX, None);
    assert!(driven.reports().is_empty());
}

#[test]
fn report_comes_after_the_chunk_and_before_the_next_token() {
    let session = ReadSession::new(8, true);
    let session = running(session.step(ReadEvent::Opened { total: Some(3) }));
    assert_eq!(session.total_bytes_known(), Some(3));
    let session = running(session.step(ReadEvent::TokenAcquired));
    let session = running(session.step(ReadEvent::ChunkRead(&[7, 8, 9])));
    assert_eq!(session.bytes_read_so_far(), 3);
    assert_eq!(
        session.next_action(),
        ReadAction::ReportProgress { bytes_read: 3, total: Some(3) }
    );
    let session = running(session.step(ReadEvent::ProgressReported));
    assert_eq!(session.next_action(), ReadAction::AcquireToken);
}

#[test]
fn open_failure_ends_the_read_before_any_token() {
    let session = ReadSession::new(4096, false);
    assert_eq!(session.next_action(), ReadAction::OpenSource { with_length: false });
    let failure = Error::new(ErrorKind::NotFound, "no such file");
    match session.step(ReadEvent::OpenFailed(failure)) {
        Step::Finished(Err(ReadError::SourceOpen(error))) => {
            assert_eq!(error.kind(), ErrorKind::NotFound);
        },
        _ => panic!("the read did not end with the open failure"),
    }
}

#[test]
fn read_failure_drops_what_was_read() {
    let source = fixture(10_000);
    let driven = drive(ReadSession::new(4096, false), &source, None, usize::MAX, Some(3));
    assert_eq!(driven.tokens(), 3);
    match driven.result {
        Err(ReadError::SourceRead(error)) => assert_eq!(error.kind(), ErrorKind::UnexpectedEof),
        _ => panic!("the read did not end with the read failure"),
    }
}

#[test]
fn read_failure_on_first_chunk() {
    let driven = drive(ReadSession::new(16, true), &[1, 2, 3], Some(3), usize::MAX, Some(1));
    assert!(matches!(driven.result, Err(ReadError::SourceRead(_))));
    assert!(driven.reports().is_empty());
}

#[test]
fn event_that_answers_nothing_is_ignored() {
    let session = ReadSession::new(4, true);
    let session = running(session.step(ReadEvent::TokenAcquired));
    assert_eq!(session.next_action(), ReadAction::OpenSource { with_length: true });
    let session = running(session.step(ReadEvent::ChunkRead(&[1])));
    assert_eq!(session.next_action(), ReadAction::OpenSource { with_length: true });
    assert_eq!(session.bytes_read_so_far(), 0);
    let session = running(session.step(ReadEvent::Opened { total: None }));
    let session = running(session.step(ReadEvent::ProgressReported));
    assert_eq!(session.next_action(), ReadAction::AcquireToken);
    let session = running(session.step(ReadEvent::ReadFailed(Error::new(ErrorKind::Other, "x"))));
    assert_eq!(session.next_action(), ReadAction::AcquireToken);
    let session = running(session.step(ReadEvent::TokenAcquired));
    let session = running(session.step(ReadEvent::TokenAcquired));
    assert_eq!(session.next_action(), ReadAction::ReadChunk { max_len: 4 });
    let session = running(session.step(ReadEvent::OpenFailed(Error::new(ErrorKind::Other, "x"))));
    assert_eq!(session.next_action(), ReadAction::ReadChunk { max_len: 4 });
}

#[test]
fn chunk_longer_than_asked_for_is_ignored() {
    let session = ReadSession::new(2, false);
    let session = running(session.step(ReadEvent::Opened { total: None }));
    let session = running(session.step(ReadEvent::TokenAcquired));
    let session = running(session.step(ReadEvent::ChunkRead(&[1, 2, 3])));
    assert_eq!(session.bytes_read_so_far(), 0);
    assert_eq!(session.next_action(), ReadAction::ReadChunk { max_len: 2 });
    let session = running(session.step(ReadEvent::ChunkRead(&[1, 2])));
    assert_eq!(session.bytes_read_so_far(), 2);
    assert_eq!(session.next_action(), ReadAction::AcquireToken);
}

#[test]
fn smallest_chunk_size_reads_byte_by_byte() {
    let source = fixture(10);
    let driven = drive(ReadSession::new(1, true), &source, Some(10), usize::MAX, None);
    assert_eq!(driven.tokens(), 11);
    assert_eq!(driven.reports().len(), 10);
    assert_eq!(driven.result.unwrap(), source);
}

#[test]
fn rate_adjustment_between_reads_leaves_results_alone() {
    let source = fixture(2048);
    let mut reader = RateLimitedReader::new(512, 4096).unwrap();
    let first = drive(reader.read_file(), &source, None, usize::MAX, None);
    assert_eq!(first.tokens(), 2);
    let first = first.result.unwrap();
    assert_eq!(first, source);

    assert_eq!(reader.adjust_rate(256), Ok(()));
    assert_eq!(reader.rate_bytes_per_second(), 262_144);

    let second = drive(reader.read_file(), &source, None, usize::MAX, None);
    assert_eq!(second.tokens(), 2);
    assert_eq!(second.result.unwrap(), source);
    assert_eq!(first, source);
}

#[test]
fn read_paced_by_the_reader_bucket() {
    let source = fixture(10_000);
    let reader = RateLimitedReader::new(512, 4096).unwrap();
    let runtime = tokio::runtime::Builder::new_current_thread().build().unwrap();
    let one = std::num::NonZeroU32::new(TOKENS_PER_CHUNK).unwrap();
    let mut session = reader.read_file_with_progress();
    let mut position: usize = 0;
    let mut reported: Vec<usize> = Vec::new();
    let bytes = loop {
        let event = match session.next_action() {
            ReadAction::OpenSource { with_length } => {
                assert!(with_length);
                ReadEvent::Opened { total: Some(10_000) }
            },
            ReadAction::AcquireToken => {
                runtime.block_on(reader.bucket().limiter().inner.until_n_ready(one)).unwrap();
                ReadEvent::TokenAcquired
            },
            ReadAction::ReadChunk { max_len } => {
                let end = source.len().min(position + max_len);
                let chunk = &source[position..end];
                position = end;
                ReadEvent::ChunkRead(chunk)
            },
            ReadAction::ReportProgress { bytes_read, total } => {
                assert_eq!(total, Some(10_000));
                reported.push(bytes_read);
                ReadEvent::ProgressReported
            },
        };
        match session.step(event) {
            Step::Continue(next) => session = next,
            Step::Finished(result) => break result.unwrap(),
        }
    };
    assert_eq!(bytes, source);
    assert_eq!(reported, vec![4096, 8192, 10_000]);
}

#[test]
fn paced_read_takes_at_least_the_time_of_its_tokens() {
    let source = fixture(1100);
    let reader = RateLimitedReader::new(1, 1).unwrap();
    let runtime = tokio::runtime::Builder::new_current_thread().build().unwrap();
    let one = std::num::NonZeroU32::new(TOKENS_PER_CHUNK).unwrap();
    let mut session = reader.read_file();
    let mut position: usize = 0;
    let mut tokens: u32 = 0;
    let begin = std::time::Instant::now();
    let bytes = loop {
        let event = match session.next_action() {
            ReadAction::OpenSource { .. } => ReadEvent::Opened { total: None },
            ReadAction::AcquireToken => {
                runtime.block_on(reader.bucket().limiter().inner.until_n_ready(one)).unwrap();
                tokens += 1;
                ReadEvent::TokenAcquired
            },
            ReadAction::ReadChunk { max_len } => {
                let end = source.len().min(position + max_len);
                let chunk = &source[position..end];
                position = end;
                ReadEvent::ChunkRead(chunk)
            },
            ReadAction::ReportProgress { .. } => ReadEvent::ProgressReported,
        };
        match session.step(event) {
            Step::Continue(next) => session = next,
            Step::Finished(result) => break result.unwrap(),
        }
    };
    let elapsed = begin.elapsed();
    assert_eq!(bytes, source);
    assert_eq!(tokens, 1101);
    let one_token = std::time::Duration::from_nanos(1_000_000_000 / 1024);
    assert!(elapsed >= one_token * (tokens - 1024));
}
