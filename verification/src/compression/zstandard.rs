//! Zstandard, by the `zstd` crate.
use bytes::Bytes;
use std::io::Read;
use vstd::prelude::*;
use vstd::rwlock::RwLock;
use vstd::rwlock::RwLockPredicate;
use zstd::bulk::Compressor;

use super::front_of;
use super::initial_decompress_capacity;
use super::limit_error;
use super::limit_error_view;
use super::outcome_view;
use super::read_view;
use super::CompressionProvider;
use super::Outcome;
use super::ReadOutcome;
use super::ReadView;
use crate::buffer::bytes_from_vec;
use crate::buffer::BufferView;
use crate::error::plain_error;
use crate::error::ConnectError;
use crate::error::ErrorCode;
use crate::error::ErrorView;

verus! {

#[verifier::external_type_specification]
#[verifier::external_body]
pub struct ExCompressor<'a>(zstd::bulk::Compressor<'a>);

/// The level that a compressor was made with.
pub uninterp spec fn zstd_level(c: zstd::bulk::Compressor<'static>) -> i32;

/// What the frames of `data` stand for; nothing where they are malformed or
/// truncated.
pub uninterp spec fn zstd_decoded(data: Seq<u8>) -> Option<Seq<u8>>;

/// `zstd::bulk::Compressor::new` makes a compressor of a level. It may fail,
/// for instance for want of memory.
#[verifier::external_body]
fn compressor_new(level: i32) -> (c: Result<Compressor<'static>, String>)
    ensures
        c matches Ok(made) ==> zstd_level(made) == level,
{
    Compressor::new(level).map_err(|e| e.to_string())
}

/// `zstd::bulk::Compressor::compress` makes a frame that stands for `data`. A
/// frame begins with a magic number, so it is never empty. It may fail, for
/// instance for want of memory.
#[verifier::external_body]
fn compress_frame(c: &mut Compressor<'static>, data: &[u8]) -> (frame: Result<Vec<u8>, String>)
    ensures
        zstd_level(*final(c)) == zstd_level(*old(c)),
        frame matches Ok(f) ==> zstd_decoded(f@) == Some(data@) && f@.len() > 0,
{
    c.compress(data).map_err(|e| e.to_string())
}

/// Why reading frames failed.
pub enum ReadFailure {
    /// The decoder could not be made.
    Open(String),
    /// The decoder could not go on.
    Read(String),
}

/// `Read::read_to_end` of the first `at_most` bytes of a `zstd::Decoder` over
/// `data`, appended to `buf`. It may fail on sound data for want of memory. On
/// malformed data it fails unless that many bytes came out before. A vector
/// never holds more than `isize::MAX` bytes.
#[verifier::external_body]
fn zstd_read(data: &[u8], at_most: u64, buf: &mut Vec<u8>) -> (done: Result<(), ReadFailure>)
    requires
        old(buf)@.len() == 0,
    ensures
        final(buf)@.len() <= at_most,
        final(buf)@.len() <= isize::MAX,
        zstd_decoded(data@) matches Some(out) ==> (done is Ok ==> final(buf)@ == front_of(out, at_most as nat)),
        zstd_decoded(data@) is None ==> (done is Ok ==> final(buf)@.len() == at_most),
{
    let decoder = zstd::Decoder::new(data).map_err(|e| ReadFailure::Open(e.to_string()))?;
    decoder.take(at_most).read_to_end(buf).map(|_n| ()).map_err(|e| ReadFailure::Read(e.to_string()))
}

/// An error for frames that are malformed or truncated.
pub open spec fn is_bad_frame_error(e: ErrorView) -> bool {
    exists|cause: Seq<char>|
        e == plain_error(
            ErrorCode::InvalidArgument,
            #[trigger] ("zstd decompression failed: "@ + cause),
        )
}

/// An error for a compressor that could not be made.
pub open spec fn is_no_compressor_error(e: ErrorView) -> bool {
    exists|cause: Seq<char>|
        e == plain_error(
            ErrorCode::Internal,
            #[trigger] ("failed to create zstd compressor: "@ + cause),
        )
}

/// An error of the compressor.
pub open spec fn is_compress_error(e: ErrorView) -> bool {
    exists|cause: Seq<char>|
        e == plain_error(ErrorCode::Internal, #[trigger] ("zstd compression failed: "@ + cause))
}

/// What compressing may come to: frames that stand for the data, or an
/// internal error.
pub open spec fn zstd_compressed(data: Seq<u8>, r: Outcome) -> bool {
    match r {
        Ok(frame) => zstd_decoded(frame) == Some(data) && frame.len() > 0,
        Err(e) => is_no_compressor_error(e) || is_compress_error(e),
    }
}

/// What decompressing under a limit may come to. An error for bad frames may
/// come of sound ones too, for want of memory.
pub open spec fn zstd_decompressed(data: Seq<u8>, max: nat, r: Outcome) -> bool {
    match zstd_decoded(data) {
        Some(out) => {
            ||| r == (if out.len() > max {
                Outcome::Err(limit_error_view(max))
            } else {
                Outcome::Ok(out)
            })
            ||| r matches Err(e) && is_bad_frame_error(e)
        },
        None => r matches Err(e) && (e == limit_error_view(max) || is_bad_frame_error(e)),
    }
}

/// What was compressed is never read back as anything else: decompressing
/// frames that were made of `data` gives `data`, or an error.
pub proof fn lemma_zstd_round_trip(data: Seq<u8>, frame: Seq<u8>, max: nat, r: Outcome)
    requires
        zstd_compressed(data, Outcome::Ok(frame)),
        zstd_decompressed(frame, max, r),
    ensures
        r is Ok ==> r == Outcome::Ok(data),
        data.len() <= max ==> (r == Outcome::Ok(data) || (r matches Err(e) && is_bad_frame_error(e))),
{
}

/// Pooled compressors are of one level.
pub struct CompressorPool {
    /// The level.
    pub level: i32,
}

impl RwLockPredicate<Vec<Compressor<'static>>> for CompressorPool {
    open spec fn inv(self, v: Vec<Compressor<'static>>) -> bool {
        &&& v@.len() <= MAX_POOL_SIZE
        &&& forall|i: int| 0 <= i < v@.len() ==> zstd_level(#[trigger] v@[i]) == self.level
    }
}

/// The most idle compressors that the pool retains.
pub const MAX_POOL_SIZE: usize = 64;

/// Zstandard compression with pooled compressors. Decompression reads as a
/// stream, which handles any ratio without guessing the size of the output.
pub struct ZstdProvider {
    level: i32,
    compressors: RwLock<Vec<Compressor<'static>>, CompressorPool>,
}

impl Default for ZstdProvider {
    /// A provider at the default level.
    fn default() -> (provider: Self)
        ensures
            provider.compression_level() == Self::DEFAULT_LEVEL,
    {
        ZstdProvider::with_level(Self::DEFAULT_LEVEL)
    }
}

impl ZstdProvider {
    /// Default compression level: 3 (the zstd library default).
    pub const DEFAULT_LEVEL: i32 = 3;

    #[verifier::type_invariant]
    spec fn type_inv(self) -> bool {
        self.compressors.pred() == (CompressorPool { level: self.level })
    }

    /// The compression level.
    pub closed spec fn compression_level(&self) -> i32 {
        self.level
    }

    /// A provider at the default level.
    pub fn new() -> (provider: Self)
        ensures
            provider.compression_level() == Self::DEFAULT_LEVEL,
    {
        ZstdProvider::with_level(Self::DEFAULT_LEVEL)
    }

    /// A provider at the given level. Higher levels compress more and take
    /// longer.
    pub fn with_level(level: i32) -> (provider: Self)
        ensures
            provider.compression_level() == level,
    {
        ZstdProvider { level, compressors: RwLock::new(Vec::new(), Ghost(CompressorPool { level })) }
    }

    /// The level.
    pub fn level(&self) -> (level: i32)
        ensures
            level == self.compression_level(),
    {
        self.level
    }

    /// A compressor, from the pool where it has one.
    fn take_compressor(&self) -> (c: Result<Compressor<'static>, ConnectError>)
        ensures
            c matches Ok(made) ==> zstd_level(made) == self.compression_level(),
            c matches Err(e) ==> is_no_compressor_error(e@),
    {
        proof {
            use_type_invariant(self);
        }
        let (mut pool, handle) = self.compressors.acquire_write();
        let pooled = pool.pop();
        handle.release_write(pool);
        match pooled {
            Some(c) => Ok(c),
            None => match compressor_new(self.level) {
                Ok(c) => Ok(c),
                Err(cause) => {
                    let mut message = "failed to create zstd compressor: ".to_owned();
                    message.push_str(cause.as_str());
                    let err = ConnectError::internal(message);
                    assert(err@ == plain_error(
                        ErrorCode::Internal,
                        "failed to create zstd compressor: "@ + cause@,
                    ));
                    Err(err)
                },
            },
        }
    }

    /// Hand a compressor back to the pool, unless that is full.
    fn return_compressor(&self, c: Compressor<'static>)
        requires
            zstd_level(c) == self.compression_level(),
    {
        proof {
            use_type_invariant(self);
        }
        let (mut pool, handle) = self.compressors.acquire_write();
        if pool.len() < MAX_POOL_SIZE {
            pool.push(c);
        }
        handle.release_write(pool);
    }

    /// Read frames as a stream, up to one byte beyond the limit.
    fn decompress_impl(data: &[u8], max_size: usize) -> (r: Result<Bytes, ConnectError>)
        ensures
            zstd_decompressed(data@, max_size as nat, outcome_view(r)),
            r matches Ok(b) ==> b@.len() <= max_size,
    {
        let mut decompressed: Vec<u8> = Vec::with_capacity(
            initial_decompress_capacity(data.len(), 4, Some(max_size)),
        );
        let at_most: u64 = (max_size as u64).saturating_add(1);
        let done = zstd_read(data, at_most, &mut decompressed);
        ZstdProvider::limited_frames(done, decompressed, max_size)
    }

    /// What reading frames under a limit comes to, for what the decoder said
    /// and what came out of it.
    pub fn limited_frames(done: Result<(), ReadFailure>, buf: Vec<u8>, max_size: usize) -> (r: Result<
        Bytes,
        ConnectError,
    >)
        ensures
            outcome_view(r) == frames_limited(done, buf@, max_size as nat),
    {
        match done {
            Ok(()) => {
                if buf.len() > max_size {
                    return Err(limit_error(max_size));
                }
                Ok(bytes_from_vec(buf))
            },
            Err(ReadFailure::Open(cause)) => Err(bad_frames(cause.as_str())),
            Err(ReadFailure::Read(cause)) => Err(bad_frames(cause.as_str())),
        }
    }

    /// What reading frames comes to, for what the decoder said and what came
    /// out of it.
    pub fn read_frames(done: Result<(), ReadFailure>, buf: Vec<u8>) -> (r: Result<ReadOutcome, ConnectError>)
        ensures
            read_view(r) == frames_read(done, buf@),
    {
        match done {
            Ok(()) => Ok(ReadOutcome::Bytes(buf)),
            Err(ReadFailure::Open(cause)) => Err(bad_frames(cause.as_str())),
            Err(ReadFailure::Read(cause)) => Ok(ReadOutcome::Failed(cause)),
        }
    }
}

/// The error for frames that are malformed or truncated.
pub open spec fn bad_frame_error(cause: Seq<char>) -> ErrorView {
    plain_error(ErrorCode::InvalidArgument, "zstd decompression failed: "@ + cause)
}

/// What reading frames comes to: what came out, the failure of the decoder, or
/// the error where there was no decoder.
pub open spec fn frames_read(done: Result<(), ReadFailure>, out: Seq<u8>) -> Result<ReadView, ErrorView> {
    match done {
        Ok(()) => Ok(ReadView::Bytes(out)),
        Err(ReadFailure::Open(cause)) => Err(bad_frame_error(cause@)),
        Err(ReadFailure::Read(cause)) => Ok(ReadView::Failed(cause@)),
    }
}

/// What reading frames under a limit comes to: what came out where that keeps
/// to the limit, and else an error.
pub open spec fn frames_limited(done: Result<(), ReadFailure>, out: Seq<u8>, max: nat) -> Outcome {
    match done {
        Ok(()) => if out.len() > max {
            Err(limit_error_view(max))
        } else {
            Ok(out)
        },
        Err(ReadFailure::Open(cause)) => Err(bad_frame_error(cause@)),
        Err(ReadFailure::Read(cause)) => Err(bad_frame_error(cause@)),
    }
}

/// The error for frames that are malformed or truncated.
fn bad_frames(cause: &str) -> (err: ConnectError)
    ensures
        err@ == bad_frame_error(cause@),
{
    let mut message = "zstd decompression failed: ".to_owned();
    message.push_str(cause);
    ConnectError::invalid_argument(message)
}

impl CompressionProvider for ZstdProvider {
    open spec fn label(&self) -> Seq<char> {
        "zstd"@
    }

    open spec fn compresses(&self, data: Seq<u8>, r: Outcome) -> bool {
        zstd_compressed(data, r)
    }

    open spec fn reads(&self, data: Seq<u8>, at_most: nat, r: Result<ReadView, ErrorView>) -> bool {
        match zstd_decoded(data) {
            Some(out) => {
                ||| r == Ok::<ReadView, ErrorView>(ReadView::Bytes(front_of(out, at_most)))
                ||| r matches Ok(ReadView::Failed(_))
                ||| r matches Err(e) && is_bad_frame_error(e)
            },
            None => match r {
                Ok(ReadView::Bytes(b)) => b.len() == at_most,
                Ok(ReadView::Failed(_)) => true,
                Err(e) => is_bad_frame_error(e),
            },
        }
    }

    open spec fn decompresses(&self, data: Seq<u8>, max_size: nat, r: Outcome) -> bool {
        zstd_decompressed(data, max_size, r)
    }

    fn name(&self) -> (name: &'static str) {
        "zstd"
    }

    fn compress(&self, data: &[u8]) -> (r: Result<Bytes, ConnectError>) {
        let mut compressor = match self.take_compressor() {
            Ok(c) => c,
            Err(e) => return Err(e),
        };
        let made = compress_frame(&mut compressor, data);
        self.return_compressor(compressor);
        match made {
            Ok(frame) => Ok(bytes_from_vec(frame)),
            Err(cause) => {
                let mut message = "zstd compression failed: ".to_owned();
                message.push_str(cause.as_str());
                let err = ConnectError::internal(message);
                assert(err@ == plain_error(ErrorCode::Internal, "zstd compression failed: "@ + cause@));
                Err(err)
            },
        }
    }

    fn decompressor(&self, data: &[u8], at_most: u64) -> (r: Result<ReadOutcome, ConnectError>) {
        let mut buf: Vec<u8> = Vec::new();
        let done = zstd_read(data, at_most, &mut buf);
        ZstdProvider::read_frames(done, buf)
    }

    fn decompress_with_limit(&self, data: &[u8], max_size: usize) -> (r: Result<Bytes, ConnectError>)
        ensures
            zstd_decompressed(data@, max_size as nat, outcome_view(r)),
    {
        ZstdProvider::decompress_impl(data, max_size)
    }
}

} // verus!
