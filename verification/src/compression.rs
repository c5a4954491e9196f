//! Message compression: the providers of encodings, the registry that finds
//! them by name, and the policy that says when to compress.
use bytes::Bytes;
use vstd::prelude::*;

use crate::buffer::bytes_from_vec;
use crate::buffer::BufferView;
use crate::error::plain_error;
use crate::error::ConnectError;
use crate::error::ErrorCode;
use crate::error::ErrorView;
use crate::text::decimal;
use crate::text::push_decimal;

pub mod gzip;
pub mod registry;
pub mod zstandard;

pub use self::gzip::GzipProvider;
pub use self::registry::CompressionRegistry;
pub use self::zstandard::ZstdProvider;

verus! {

// ---------------------------------------------------------------------------
// Providers
// ---------------------------------------------------------------------------

/// What compressing or decompressing comes to, as bytes or the contents of an
/// error.
pub type Outcome = Result<Seq<u8>, ErrorView>;

/// The contents of a result.
pub open spec fn outcome_view(r: Result<Bytes, ConnectError>) -> Outcome {
    match r {
        Ok(b) => Ok(b@),
        Err(e) => Err(e@),
    }
}

/// What came out of reading decompressed bytes.
pub enum ReadOutcome {
    /// These bytes.
    Bytes(Vec<u8>),
    /// A failure, with its cause.
    Failed(String),
}

/// The contents of what came out of reading.
pub enum ReadView {
    /// These bytes.
    Bytes(Seq<u8>),
    /// A failure, with its cause.
    Failed(Seq<char>),
}

/// The contents of a result of reading.
pub open spec fn read_view(r: Result<ReadOutcome, ConnectError>) -> Result<ReadView, ErrorView> {
    match r {
        Ok(ReadOutcome::Bytes(b)) => Ok(ReadView::Bytes(b@)),
        Ok(ReadOutcome::Failed(cause)) => Ok(ReadView::Failed(cause@)),
        Err(e) => Err(e@),
    }
}

/// The first `at_most` bytes, or all where there are fewer.
pub open spec fn front_of(data: Seq<u8>, at_most: nat) -> Seq<u8> {
    if data.len() < at_most {
        data
    } else {
        data.take(at_most as int)
    }
}

/// The first `at_most` bytes are no more than a vector can hold.
pub open spec fn readable(data: Seq<u8>, at_most: nat) -> bool {
    data.len() <= isize::MAX || at_most <= isize::MAX
}

/// The text of the error for decompressed data over a limit.
pub open spec fn limit_text(max: nat) -> Seq<char> {
    "decompressed size exceeds limit "@ + decimal(max)
}

/// The error for decompressed data over a limit.
pub open spec fn limit_error_view(max: nat) -> ErrorView {
    plain_error(ErrorCode::ResourceExhausted, limit_text(max))
}

/// The error for decompressed data over a limit.
pub fn limit_error(max_size: usize) -> (err: ConnectError)
    ensures
        err@ == limit_error_view(max_size as nat),
{
    let mut message = "decompressed size exceeds limit ".to_owned();
    push_decimal(&mut message, max_size as u64);
    ConnectError::resource_exhausted(message)
}

/// One more than a limit, as far as 64 bits go.
pub open spec fn one_beyond(max: nat) -> nat {
    if max < u64::MAX {
        max + 1
    } else {
        max
    }
}

/// What reading one byte beyond a limit comes to.
pub open spec fn limited(read: Result<ReadView, ErrorView>, max: nat) -> Outcome {
    match read {
        Ok(ReadView::Bytes(b)) => if b.len() > max {
            Err(limit_error_view(max))
        } else {
            Ok(b)
        },
        Ok(ReadView::Failed(cause)) => Err(
            plain_error(ErrorCode::Internal, "decompression failed: "@ + cause),
        ),
        Err(e) => Err(e),
    }
}

/// A compression algorithm.
///
/// The only required methods are [`name`](Self::name),
/// [`compress`](Self::compress) and [`decompressor`](Self::decompressor). The
/// provided [`decompress_with_limit`](Self::decompress_with_limit) asks the
/// decompressor for no more than one byte beyond the limit, so that memory
/// stays bounded whatever the data claims.
pub trait CompressionProvider: Send + Sync {
    /// The encoding name of the algorithm.
    open spec fn label(&self) -> Seq<char> {
        arbitrary()
    }

    /// What compressing `data` may come to.
    open spec fn compresses(&self, data: Seq<u8>, r: Outcome) -> bool {
        true
    }

    /// What reading at most `at_most` bytes of the decompressed `data` may
    /// come to.
    open spec fn reads(&self, data: Seq<u8>, at_most: nat, r: Result<ReadView, ErrorView>) -> bool {
        true
    }

    /// What decompressing under a limit may come to, where the algorithm does
    /// that in its own way.
    open spec fn decompresses(&self, data: Seq<u8>, max_size: nat, r: Outcome) -> bool {
        false
    }

    /// The encoding name for this algorithm, as in Content-Encoding headers.
    fn name(&self) -> (name: &'static str)
        ensures
            name@ == self.label(),
    ;

    /// Compress the given data.
    fn compress(&self, data: &[u8]) -> (r: Result<Bytes, ConnectError>)
        ensures
            self.compresses(data@, outcome_view(r)),
    ;

    /// Read the first `at_most` bytes that `data` decompresses to, or all
    /// where there are fewer.
    fn decompressor(&self, data: &[u8], at_most: u64) -> (r: Result<ReadOutcome, ConnectError>)
        ensures
            self.reads(data@, at_most as nat, read_view(r)),
            r matches Ok(ReadOutcome::Bytes(b)) ==> b@.len() <= at_most,
    ;

    /// Decompress the given data, and refuse it where it exceeds `max_size`.
    fn decompress_with_limit(&self, data: &[u8], max_size: usize) -> (r: Result<Bytes, ConnectError>)
        ensures
            r matches Ok(b) ==> b@.len() <= max_size,
            self.decompresses(data@, max_size as nat, outcome_view(r)) || exists|read: Result<ReadView, ErrorView>| #[trigger]
                self.reads(data@, one_beyond(max_size as nat), read) && outcome_view(r) == limited(read, max_size as nat),
    {
        let at_most: u64 = (max_size as u64).saturating_add(1);
        let reading = self.decompressor(data, at_most);
        let ghost read = read_view(reading);
        assert(self.reads(data@, one_beyond(max_size as nat), read));
        match reading {
            Ok(ReadOutcome::Bytes(buf)) => {
                if buf.len() > max_size {
                    return Err(limit_error(max_size));
                }
                Ok(bytes_from_vec(buf))
            },
            Ok(ReadOutcome::Failed(cause)) => {
                let mut message = "decompression failed: ".to_owned();
                message.push_str(cause.as_str());
                Err(ConnectError::internal(message))
            },
            Err(e) => Err(e),
        }
    }
}

/// The capacity to begin a decompression buffer with: a multiple of the input
/// length, at least 256 bytes, and at most one byte beyond the limit.
pub fn initial_decompress_capacity(input_len: usize, multiplier: usize, max_size: Option<usize>) -> (capacity: usize)
    ensures
        capacity == initial_capacity(input_len as nat, multiplier as nat, max_size),
{
    proof {
        assert(0 <= input_len * multiplier <= u64::MAX * u64::MAX) by (nonlinear_arith)
            requires
                0 <= input_len <= u64::MAX,
                0 <= multiplier <= u64::MAX,
        ;
    }
    let product: u128 = input_len as u128 * multiplier as u128;
    let mut capacity: usize = if product > usize::MAX as u128 {
        usize::MAX
    } else if product < 256 {
        256
    } else {
        product as usize
    };
    if let Some(limit) = max_size {
        if limit < usize::MAX && capacity > limit + 1 {
            capacity = limit + 1;
        }
    }
    capacity
}

/// The smaller of two numbers.
pub open spec fn smaller(a: nat, b: nat) -> nat {
    if a < b {
        a
    } else {
        b
    }
}

/// The capacity to begin a decompression buffer with.
pub open spec fn initial_capacity(input_len: nat, multiplier: nat, max_size: Option<usize>) -> nat {
    let guess = smaller(input_len * multiplier, usize::MAX as nat);
    let floored = if guess < 256 {
        256
    } else {
        guess
    };
    match max_size {
        Some(limit) => smaller(floored, limit as nat + 1),
        None => floored,
    }
}

// ---------------------------------------------------------------------------
// When to compress
// ---------------------------------------------------------------------------

/// Default minimum message size for compression (1 KiB).
///
/// Below this threshold, compression typically adds overhead without
/// meaningful size reduction.
pub const DEFAULT_COMPRESSION_MIN_SIZE: usize = 1024;

/// Policy controlling when compression is applied.
#[derive(Debug, Clone, Copy)]
pub struct CompressionPolicy {
    /// Whether compression is enabled at all.
    pub enabled: bool,
    /// Minimum message size in bytes before compression is applied.
    pub min_size: usize,
}

impl Default for CompressionPolicy {
    /// Compress messages of at least [`DEFAULT_COMPRESSION_MIN_SIZE`].
    fn default() -> (policy: Self)
        ensures
            policy == (CompressionPolicy { enabled: true, min_size: DEFAULT_COMPRESSION_MIN_SIZE }),
    {
        CompressionPolicy { enabled: true, min_size: DEFAULT_COMPRESSION_MIN_SIZE }
    }
}

impl CompressionPolicy {
    /// Whether a message of the given size is compressed.
    pub open spec fn applies(self, message_size: nat) -> bool {
        self.enabled && message_size >= self.min_size
    }

    /// The policy under a per-call override.
    pub open spec fn overridden(self, override_compress: Option<bool>) -> CompressionPolicy {
        match override_compress {
            None => self,
            Some(true) => CompressionPolicy { enabled: true, min_size: 0 },
            Some(false) => CompressionPolicy { enabled: false, min_size: 0 },
        }
    }

    /// Create a policy that disables compression entirely.
    pub fn disabled() -> (policy: Self)
        ensures
            policy == (CompressionPolicy { enabled: false, min_size: 0 }),
    {
        CompressionPolicy { enabled: false, min_size: 0 }
    }

    /// Set the minimum message size for compression.
    pub fn min_size(self, size: usize) -> (policy: Self)
        ensures
            policy == (CompressionPolicy { min_size: size, ..self }),
    {
        CompressionPolicy { min_size: size, ..self }
    }

    /// Set the minimum message size for compression. The same as
    /// [`min_size`](Self::min_size).
    #[must_use]
    pub fn with_min_size(self, size: usize) -> (policy: Self)
        ensures
            policy == (CompressionPolicy { min_size: size, ..self }),
    {
        self.min_size(size)
    }

    /// Check whether compression should be applied for a message of the given
    /// size. A minimum of zero compresses even empty messages.
    pub fn should_compress(&self, message_size: usize) -> (compress: bool)
        ensures
            compress == self.applies(message_size as nat),
    {
        self.enabled && message_size >= self.min_size
    }

    /// Return an effective policy that accounts for a per-call override:
    /// `Some(true)` forces compression, `Some(false)` disables it.
    pub fn with_override(&self, override_compress: Option<bool>) -> (policy: Self)
        ensures
            policy == self.overridden(override_compress),
    {
        match override_compress {
            None => *self,
            Some(true) => CompressionPolicy { enabled: true, min_size: 0 },
            Some(false) => CompressionPolicy::disabled(),
        }
    }
}

} // verus!
