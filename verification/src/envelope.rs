//! Envelope framing of streamed messages.
//!
//! Each message is prefixed with a 5-byte header:
//! - 1 byte: flags (0x00 for data, 0x02 for end-stream)
//! - 4 bytes: message length (big-endian)
use bytes::Bytes;
use bytes::BytesMut;
use vstd::prelude::*;

use crate::buffer::bytes_advance;
use crate::buffer::BufferView;
use crate::error::plain_error;
use crate::error::ConnectError;
use crate::error::ErrorCode;
use crate::text::decimal;
use crate::text::push_decimal;

pub mod assembler;
pub mod decoder;
pub mod encoder;
pub mod flags;

verus! {

/// Size of the envelope header in bytes.
pub const HEADER_SIZE: usize = 5;

// ---------------------------------------------------------------------------
// The frame format
// ---------------------------------------------------------------------------

/// The number that four bytes stand for, most significant first.
pub open spec fn be32(b0: u8, b1: u8, b2: u8, b3: u8) -> nat {
    (b0 * 0x100_0000 + b1 * 0x1_0000 + b2 * 0x100 + b3) as nat
}

/// A number below 2^32 as four bytes, most significant first.
pub open spec fn be32_bytes(n: nat) -> Seq<u8> {
    seq![
        (n / 0x100_0000) as u8,
        (n / 0x1_0000 % 0x100) as u8,
        (n / 0x100 % 0x100) as u8,
        (n % 0x100) as u8,
    ]
}

/// The header of an envelope: its flags, then the length of its payload.
pub open spec fn header_bytes(flags: u8, length: nat) -> Seq<u8> {
    seq![flags] + be32_bytes(length)
}

/// An envelope on the wire.
pub open spec fn envelope_bytes(flags: u8, payload: Seq<u8>) -> Seq<u8> {
    header_bytes(flags, payload.len()) + payload
}

/// The payload length that a header declares.
pub open spec fn declared_length(bytes: Seq<u8>) -> nat
    recommends
        bytes.len() >= 5,
{
    be32(bytes[1], bytes[2], bytes[3], bytes[4])
}

/// What the front of a byte sequence holds.
pub enum Scan {
    /// Less than an envelope.
    Partial,
    /// A header that declares more than the limit.
    TooLarge { length: nat },
    /// A whole envelope, and what comes behind it.
    Whole { flags: u8, payload: Seq<u8>, rest: Seq<u8> },
}

/// Look for an envelope of at most `max` payload bytes at the front of
/// `bytes`. A header is judged before its payload is there.
pub open spec fn scanned(bytes: Seq<u8>, max: nat) -> Scan {
    if bytes.len() < 5 {
        Scan::Partial
    } else if declared_length(bytes) > max {
        Scan::TooLarge { length: declared_length(bytes) }
    } else if bytes.len() < 5 + declared_length(bytes) {
        Scan::Partial
    } else {
        Scan::Whole {
            flags: bytes[0],
            payload: bytes.subrange(5, 5 + declared_length(bytes) as int),
            rest: bytes.skip(5 + declared_length(bytes) as int),
        }
    }
}

/// The length that a header declares is the length that it was written with.
pub proof fn lemma_header_declares(flags: u8, length: nat, tail: Seq<u8>)
    requires
        length <= u32::MAX,
    ensures
        (header_bytes(flags, length) + tail).len() == 5 + tail.len(),
        (header_bytes(flags, length) + tail)[0] == flags,
        declared_length(header_bytes(flags, length) + tail) == length,
{
    let bytes = header_bytes(flags, length) + tail;
    assert(bytes[1] == (length / 0x100_0000) as u8);
    assert(bytes[2] == (length / 0x1_0000 % 0x100) as u8);
    assert(bytes[3] == (length / 0x100 % 0x100) as u8);
    assert(bytes[4] == (length % 0x100) as u8);
}

/// An envelope that was written is read back: the first envelope of its bytes,
/// whatever follows them, has its flags and its payload, and leaves exactly
/// what follows.
pub proof fn lemma_envelope_round_trip(flags: u8, payload: Seq<u8>, tail: Seq<u8>, max: nat)
    requires
        payload.len() <= u32::MAX,
        payload.len() <= max,
    ensures
        scanned(envelope_bytes(flags, payload) + tail, max) == (Scan::Whole { flags, payload, rest: tail }),
{
    let bytes = envelope_bytes(flags, payload) + tail;
    assert(bytes =~= header_bytes(flags, payload.len()) + (payload + tail));
    lemma_header_declares(flags, payload.len(), payload + tail);
    assert(bytes.subrange(5, 5 + payload.len() as int) =~= payload);
    assert(bytes.skip(5 + payload.len() as int) =~= tail);
}

/// What was found at the front does not change when more bytes arrive: they
/// only lengthen what comes behind it.
pub proof fn lemma_scan_extends(bytes: Seq<u8>, more: Seq<u8>, max: nat)
    ensures
        scanned(bytes, max) matches Scan::Whole { flags, payload, rest } ==> scanned(bytes + more, max)
            == (Scan::Whole { flags, payload, rest: rest + more }),
        scanned(bytes, max) matches Scan::TooLarge { length } ==> scanned(bytes + more, max)
            == (Scan::TooLarge { length }),
{
    let all = bytes + more;
    if bytes.len() >= 5 {
        assert(declared_length(all) == declared_length(bytes));
        let end = 5 + declared_length(bytes) as int;
        if bytes.len() >= end {
            assert(all.subrange(5, end) =~= bytes.subrange(5, end));
            assert(all.skip(end) =~= bytes.skip(end) + more);
        }
    }
}

/// The text of the error for a frame over its limit.
pub open spec fn over_limit_text(what: Seq<char>, length: nat, limit: nat) -> Seq<char> {
    what + " size "@ + decimal(length) + " exceeds limit "@ + decimal(limit)
}

/// The error for a frame over its limit.
pub fn over_limit_error(what: &str, length: usize, limit: usize) -> (err: ConnectError)
    ensures
        err@ == plain_error(ErrorCode::ResourceExhausted, over_limit_text(what@, length as nat, limit as nat)),
{
    let mut message = what.to_owned();
    message.push_str(" size ");
    push_decimal(&mut message, length as u64);
    message.push_str(" exceeds limit ");
    push_decimal(&mut message, limit as u64);
    ConnectError::resource_exhausted(message)
}

/// The number that four bytes stand for, most significant first.
pub fn read_be32(b0: u8, b1: u8, b2: u8, b3: u8) -> (n: u32)
    ensures
        n == be32(b0, b1, b2, b3),
{
    b0 as u32 * 0x100_0000 + b1 as u32 * 0x1_0000 + b2 as u32 * 0x100 + b3 as u32
}

// ---------------------------------------------------------------------------
// Envelopes
// ---------------------------------------------------------------------------

/// A contiguous buffer that envelopes are cut from.
pub trait ContiguousBuf: Sized {
    /// The bytes that are not consumed yet.
    spec fn unread(&self) -> Seq<u8>;

    /// The bytes that are not consumed yet.
    fn chunk(&self) -> (bytes: &[u8])
        ensures
            bytes@ == self.unread(),
    ;

    /// Drop `skip` bytes, then hand out the next `take` bytes.
    fn cut(&mut self, skip: usize, take: usize) -> (bytes: Bytes)
        requires
            skip + take <= old(self).unread().len(),
        ensures
            bytes@ == old(self).unread().subrange(skip as int, skip + take),
            final(self).unread() == old(self).unread().skip(skip + take),
    ;
}

impl ContiguousBuf for BytesMut {
    open spec fn unread(&self) -> Seq<u8> {
        self@
    }

    fn chunk(&self) -> (bytes: &[u8]) {
        self
    }

    fn cut(&mut self, skip: usize, take: usize) -> (bytes: Bytes) {
        let _ = self.split_to(skip);
        let bytes = self.split_to(take).freeze();
        assert(bytes@ =~= old(self)@.subrange(skip as int, skip + take));
        assert(self@ =~= old(self)@.skip(skip + take));
        bytes
    }
}

impl ContiguousBuf for Bytes {
    open spec fn unread(&self) -> Seq<u8> {
        self@
    }

    fn chunk(&self) -> (bytes: &[u8]) {
        self
    }

    fn cut(&mut self, skip: usize, take: usize) -> (bytes: Bytes) {
        bytes_advance(self, skip);
        let bytes = self.split_to(take);
        assert(bytes@ =~= old(self)@.subrange(skip as int, skip + take));
        assert(self@ =~= old(self)@.skip(skip + take));
        bytes
    }
}

/// An envelope-framed message.
#[derive(Debug, Clone)]
pub struct Envelope {
    /// Flags indicating message type and compression.
    pub flags: u8,
    /// The message payload.
    pub data: Bytes,
}

/// Whether the flags mark a compressed payload.
pub open spec fn marks_compressed(flags: u8) -> bool {
    flags & flags::COMPRESSED != 0
}

/// Whether the flags mark the end of a stream.
pub open spec fn marks_end_stream(flags: u8) -> bool {
    flags & flags::END_STREAM != 0
}

/// Whether the flags mark a gRPC-Web trailer frame.
pub open spec fn marks_web_trailer(flags: u8) -> bool {
    flags & flags::GRPC_WEB_TRAILER != 0
}

/// What decoding reports, and what it leaves in the buffer, for what the
/// buffer held.
pub open spec fn decode_outcome(
    before: Seq<u8>,
    max_size: nat,
    outcome: Result<Option<Envelope>, ConnectError>,
    after: Seq<u8>,
) -> bool {
    match scanned(before, max_size) {
        Scan::Partial => outcome matches Ok(None) && after == before,
        Scan::TooLarge { length } => outcome matches Err(e) && e@ == plain_error(
            ErrorCode::ResourceExhausted,
            over_limit_text("message"@, length, max_size),
        ) && after == before,
        Scan::Whole { flags, payload, rest } => outcome matches Ok(Some(envelope)) && envelope.flags
            == flags && envelope.data@ == payload && after == rest,
    }
}

impl Envelope {
    /// Create a new data envelope.
    pub fn data(data: Bytes) -> (envelope: Self)
        ensures
            envelope == (Envelope { flags: flags::DATA, data }),
    {
        Envelope { flags: flags::DATA, data }
    }

    /// Create a new compressed data envelope.
    pub fn compressed(data: Bytes) -> (envelope: Self)
        ensures
            envelope == (Envelope { flags: flags::COMPRESSED, data }),
    {
        Envelope { flags: flags::COMPRESSED, data }
    }

    /// Create a new end-stream envelope.
    pub fn end_stream(data: Bytes) -> (envelope: Self)
        ensures
            envelope == (Envelope { flags: flags::END_STREAM, data }),
    {
        Envelope { flags: flags::END_STREAM, data }
    }

    /// Check if this is a compressed message.
    pub fn is_compressed(&self) -> (compressed: bool)
        ensures
            compressed == marks_compressed(self.flags),
    {
        self.flags & flags::COMPRESSED != 0
    }

    /// Check if this is an end-of-stream message.
    pub fn is_end_stream(&self) -> (end: bool)
        ensures
            end == marks_end_stream(self.flags),
    {
        self.flags & flags::END_STREAM != 0
    }

    /// Decode an envelope from bytes, whatever its size.
    ///
    /// Returns `Ok(None)`, and leaves the buffer as it is, if more data is
    /// needed.
    pub fn decode(buf: &mut BytesMut) -> (outcome: Result<Option<Self>, ConnectError>)
        ensures
            decode_outcome(old(buf)@, usize::MAX as nat, outcome, final(buf)@),
    {
        Envelope::decode_with_limit(buf, usize::MAX)
    }

    /// Decode an envelope from bytes with a maximum message size.
    ///
    /// Returns `Ok(None)` if more data is needed, and an error if the declared
    /// message size exceeds `max_size`. Either way the buffer is left as it is.
    pub fn decode_with_limit(buf: &mut BytesMut, max_size: usize) -> (outcome: Result<
        Option<Self>,
        ConnectError,
    >)
        ensures
            decode_outcome(old(buf)@, max_size as nat, outcome, final(buf)@),
    {
        Envelope::decode_contiguous(buf, max_size)
    }

    /// [`decode_with_limit`](Self::decode_with_limit) for a body already held
    /// as immutable [`Bytes`].
    pub fn decode_bytes_with_limit(buf: &mut Bytes, max_size: usize) -> (outcome: Result<
        Option<Self>,
        ConnectError,
    >)
        ensures
            decode_outcome(old(buf)@, max_size as nat, outcome, final(buf)@),
    {
        Envelope::decode_contiguous(buf, max_size)
    }

    /// Shared body for the contiguous buffers above.
    fn decode_contiguous<B: ContiguousBuf>(buf: &mut B, max_size: usize) -> (outcome: Result<
        Option<Self>,
        ConnectError,
    >)
        ensures
            decode_outcome(old(buf).unread(), max_size as nat, outcome, final(buf).unread()),
    {
        let head = buf.chunk();
        let available: usize = head.len();
        if available < HEADER_SIZE {
            return Ok(None);
        }
        let flags: u8 = head[0];
        let length: usize = read_be32(head[1], head[2], head[3], head[4]) as usize;

        // The limit is checked before waiting for more data.
        if length > max_size {
            return Err(over_limit_error("message", length, max_size));
        }
        if available - HEADER_SIZE < length {
            return Ok(None);
        }
        let data = buf.cut(HEADER_SIZE, length);
        Ok(Some(Envelope { flags, data }))
    }
}

} // verus!
