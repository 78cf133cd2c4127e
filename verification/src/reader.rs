//! The reader: one token bucket and the chunk size of the reads it paces.

use vstd::prelude::*;
use crate::bucket::{is_per_second, TokenBucket};
use crate::model;
use crate::rate::{rate_in_bytes, rate_is_valid, RateError};
use crate::session::ReadSession;

verus! {

/// Reads sources chunk by chunk, one acquisition from its bucket per chunk.
pub struct RateLimitedReader {
    bucket: TokenBucket,
    chunk_size: usize,
}

impl RateLimitedReader {
    #[verifier::type_invariant]
    spec fn inv(self) -> bool {
        &&& self.chunk_size > 0
        &&& is_per_second(self.bucket.quota(), self.bucket.rate())
    }

    /// Bytes per second that the reader's bucket is configured with.
    pub closed spec fn rate(&self) -> u32 {
        self.bucket.rate()
    }

    /// Bytes per chunk.
    pub closed spec fn spec_chunk_size(&self) -> usize {
        self.chunk_size
    }

    /// The quota of the limiter in the reader's bucket.
    pub closed spec fn quota(&self) -> governor::Quota {
        self.bucket.quota()
    }

    /// A reader limited to `rate_kb` kilobytes per second, which reads chunks
    /// of at most `chunk_size` bytes. The chunk size is positive.
    pub fn new(rate_kb: u32, chunk_size: usize) -> (r: Result<RateLimitedReader, RateError>)
        requires
            chunk_size > 0,
        ensures
            r is Ok <==> rate_is_valid(rate_kb),
            r matches Ok(reader) ==> {
                &&& reader.rate() == rate_in_bytes(rate_kb)
                &&& is_per_second(reader.quota(), reader.rate())
                &&& reader.spec_chunk_size() == chunk_size
            },
            r matches Err(e) ==> e == RateError::InvalidRate,
    {
        match TokenBucket::configure(rate_kb) {
            Ok(bucket) => Ok(RateLimitedReader { bucket, chunk_size }),
            Err(e) => Err(e),
        }
    }

    /// Replaces the bucket by a new one for the new rate. An invalid rate is
    /// refused and leaves the reader as it was.
    pub fn adjust_rate(&mut self, new_rate_kb: u32) -> (r: Result<(), RateError>)
        ensures
            r is Ok <==> rate_is_valid(new_rate_kb),
            r is Ok ==> {
                &&& final(self).rate() == rate_in_bytes(new_rate_kb)
                &&& is_per_second(final(self).quota(), final(self).rate())
            },
            r matches Err(e) ==> e == RateError::InvalidRate && *final(self) == *old(self),
            final(self).spec_chunk_size() == old(self).spec_chunk_size(),
    {
        proof {
            use_type_invariant(&*self);
        }
        match TokenBucket::configure(new_rate_kb) {
            Ok(bucket) => {
                self.bucket = bucket;
                Ok(())
            },
            Err(e) => Err(e),
        }
    }

    /// Begins a read without progress reports.
    pub fn read_file(&self) -> (session: ReadSession)
        ensures
            session@ == model::start(self.spec_chunk_size(), false),
            session@.wf(),
    {
        proof {
            use_type_invariant(self);
        }
        ReadSession::new(self.chunk_size, false)
    }

    /// Begins a read that reports its progress after every chunk.
    pub fn read_file_with_progress(&self) -> (session: ReadSession)
        ensures
            session@ == model::start(self.spec_chunk_size(), true),
            session@.wf(),
    {
        proof {
            use_type_invariant(self);
        }
        ReadSession::new(self.chunk_size, true)
    }

    /// The bucket that paces this reader's reads. Its quota is that of the
    /// reader's rate.
    pub fn bucket(&self) -> (bucket: &TokenBucket)
        ensures
            bucket.rate() == self.rate(),
            bucket.quota() == self.quota(),
            is_per_second(bucket.quota(), bucket.rate()),
    {
        proof {
            use_type_invariant(self);
        }
        &self.bucket
    }

    /// Bytes per second that the reader is limited to.
    pub fn rate_bytes_per_second(&self) -> (rate: u32)
        ensures
            rate == self.rate(),
            rate > 0,
    {
        self.bucket.refill_rate()
    }

    /// Bytes per chunk.
    #[verifier::when_used_as_spec(spec_chunk_size)]
    pub fn chunk_size(&self) -> (size: usize)
        ensures
            size == self.spec_chunk_size(),
            size > 0,
    {
        proof {
            use_type_invariant(self);
        }
        self.chunk_size
    }
}

} // verus!
