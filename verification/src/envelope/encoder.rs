//! Writing envelopes.
use bytes::Bytes;
use bytes::BytesMut;
use std::sync::Arc;
use vstd::prelude::*;

use super::envelope_bytes;
use super::flags;
use super::header_bytes;
use super::Envelope;
use crate::buffer::BufferView;
use crate::compression::registry::registry_compresses;
use crate::compression::registry::RegistryView;
use crate::compression::CompressionPolicy;
use crate::compression::CompressionRegistry;
use crate::compression::Outcome;
use crate::error::plain_error;
use crate::error::ConnectError;
use crate::error::ErrorCode;
use crate::error::ErrorView;
use crate::response::lemma_single_segment;
use crate::response::segment_bytes;
use crate::response::EncodedBody;
use crate::text::decimal;
use crate::text::push_decimal;

verus! {

/// Minimum payload size for chaining a payload as its own body frame instead
/// of copying it into the contiguous framing buffer.
pub const MIN_CHAIN_SIZE: usize = 16384;

/// The error for a payload whose length does not fit the header.
pub open spec fn oversized_error(len: nat) -> ErrorView {
    plain_error(
        ErrorCode::ResourceExhausted,
        "envelope payload "@ + decimal(len) + " bytes exceeds u32::MAX"@,
    )
}

/// The envelope length field for a payload of `len` bytes, or
/// `ResourceExhausted` when it does not fit the 32-bit field.
pub fn envelope_length(len: usize) -> (length: Result<u32, ConnectError>)
    ensures
        match length {
            Ok(n) => n == len,
            Err(e) => len > u32::MAX && e@ == oversized_error(len as nat),
        },
{
    if len as u64 > u32::MAX as u64 {
        let mut message = "envelope payload ".to_owned();
        push_decimal(&mut message, len as u64);
        message.push_str(" bytes exceeds u32::MAX");
        return Err(ConnectError::resource_exhausted(message));
    }
    Ok(len as u32)
}

/// Write only the 5-byte envelope header (flag + big-endian length).
fn put_envelope_header(flag: u8, len: u32, dst: &mut BytesMut)
    ensures
        final(dst)@ == old(dst)@ + header_bytes(flag, len as nat),
{
    let header: [u8; 5] = [
        flag,
        (len / 0x100_0000) as u8,
        (len / 0x1_0000 % 0x100) as u8,
        (len / 0x100 % 0x100) as u8,
        (len % 0x100) as u8,
    ];
    assert(header@ =~= header_bytes(flag, len as nat));
    dst.extend_from_slice(&header);
}

/// Write a single envelope (header + payload) into a buffer. The length is
/// validated before any buffer growth.
pub fn write_envelope(flag: u8, data: &[u8], dst: &mut BytesMut) -> (r: Result<(), ConnectError>)
    ensures
        match r {
            Ok(()) => data@.len() <= u32::MAX && final(dst)@ == old(dst)@ + envelope_bytes(flag, data@),
            Err(e) => data@.len() > u32::MAX && e@ == oversized_error(data@.len()) && final(dst)@ == old(dst)@,
        },
{
    let length: u32 = match envelope_length(data.len()) {
        Ok(n) => n,
        Err(e) => return Err(e),
    };
    put_envelope_header(flag, length, dst);
    dst.extend_from_slice(data);
    assert(dst@ =~= old(dst)@ + envelope_bytes(flag, data@));
    Ok(())
}

/// Where an envelope is put: what is below `min_chain` goes into the buffer as
/// a whole, and of what is not only the header does, with the segments of the
/// body chained behind it.
pub open spec fn chained_envelope(
    flag: u8,
    pieces: Seq<Bytes>,
    min_chain: nat,
    dst_before: Seq<u8>,
    dst_after: Seq<u8>,
    chained_before: Seq<Bytes>,
    chained_after: Seq<Bytes>,
) -> bool {
    let payload = segment_bytes(pieces);
    if payload.len() < min_chain {
        dst_after == dst_before + envelope_bytes(flag, payload) && chained_after == chained_before
    } else {
        dst_after == dst_before + header_bytes(flag, payload.len()) && chained_after == chained_before + pieces
    }
}

/// Write the envelope header for `body` into `dst`, then either copy the body
/// in after it (below `min_chain` bytes in total) or append the body's
/// segments to `chained` in wire order for the caller to emit after `dst`.
fn write_envelope_chained(
    flag: u8,
    body: EncodedBody,
    dst: &mut BytesMut,
    chained: &mut Vec<Bytes>,
    min_chain: usize,
) -> (r: Result<(), ConnectError>)
    requires
        body.content().len() <= usize::MAX,
    ensures
        match r {
            Ok(()) => body.content().len() <= u32::MAX && chained_envelope(
                flag,
                body.pieces(),
                min_chain as nat,
                old(dst)@,
                final(dst)@,
                old(chained)@,
                final(chained)@,
            ),
            Err(e) => body.content().len() > u32::MAX && e@ == oversized_error(body.content().len()) && final(dst)@
                == old(dst)@ && final(chained)@ == old(chained)@,
        },
{
    let total: usize = body.len();
    let declared: u32 = match envelope_length(total) {
        Ok(n) => n,
        Err(e) => return Err(e),
    };
    put_envelope_header(flag, declared, dst);
    if total < min_chain {
        body.copy_to(dst);
        assert(dst@ =~= old(dst)@ + envelope_bytes(flag, body.content()));
        return Ok(());
    }
    let mut segments = body.into_segments();
    chained.append(&mut segments);
    Ok(())
}

/// Chaining does not change what is on the wire: the bytes that were added to
/// the buffer, followed by the segments that were chained, are the envelope
/// that contiguous encoding writes, with a header that declares the total.
pub proof fn lemma_chaining_keeps_the_wire(
    flag: u8,
    pieces: Seq<Bytes>,
    min_chain: nat,
    dst_before: Seq<u8>,
    dst_after: Seq<u8>,
    chained_after: Seq<Bytes>,
)
    requires
        chained_envelope(flag, pieces, min_chain, dst_before, dst_after, Seq::empty(), chained_after),
    ensures
        dst_after + segment_bytes(chained_after) == dst_before + envelope_bytes(flag, segment_bytes(pieces)),
{
    assert(Seq::<Bytes>::empty() + pieces =~= pieces);
    assert(dst_after + segment_bytes(chained_after) =~= dst_before + envelope_bytes(flag, segment_bytes(pieces)));
}

impl Envelope {
    /// Encode this envelope to bytes.
    pub fn encode(&self) -> (bytes: Bytes)
        requires
            self.data@.len() <= u32::MAX,
        ensures
            bytes@ == envelope_bytes(self.flags, self.data@),
    {
        let mut buf = BytesMut::new();
        let _ = write_envelope(self.flags, &self.data, &mut buf);
        assert(buf@ =~= envelope_bytes(self.flags, self.data@));
        buf.freeze()
    }

    /// Frame an already-encoded body, keeping any segments it arrived in.
    ///
    /// The header declares the total length across every segment, so the
    /// framing on the wire is byte-for-byte that of a contiguous encode.
    pub fn encode_body_parts(flags: u8, body: EncodedBody, min_chain: usize) -> (parts: (Bytes, Vec<Bytes>))
        requires
            body.content().len() <= u32::MAX,
        ensures
            chained_envelope(
                flags,
                body.pieces(),
                min_chain as nat,
                Seq::empty(),
                parts.0@,
                Seq::empty(),
                parts.1@,
            ),
            parts.0@ + segment_bytes(parts.1@) == envelope_bytes(flags, body.content()),
    {
        let mut head = BytesMut::new();
        let mut segments: Vec<Bytes> = Vec::new();
        assert(u32::MAX <= usize::MAX);
        let _ = write_envelope_chained(flags, body, &mut head, &mut segments, min_chain);
        proof {
            lemma_chaining_keeps_the_wire(
                flags,
                body.pieces(),
                min_chain as nat,
                Seq::empty(),
                head@,
                segments@,
            );
            assert(Seq::<u8>::empty() + envelope_bytes(flags, body.content()) =~= envelope_bytes(
                flags,
                body.content(),
            ));
        }
        (head.freeze(), segments)
    }
}

/// Encoder for envelope-framed messages.
///
/// When compression is configured, the messages that the policy chooses are
/// compressed and sent with the [`flags::COMPRESSED`] flag.
pub struct EnvelopeEncoder {
    compression: Option<(Arc<CompressionRegistry>, String)>,
    policy: CompressionPolicy,
}

/// What messages are compressed with.
pub struct Coding {
    /// The registry.
    pub registry: RegistryView,
    /// The name of the encoding.
    pub encoding: Seq<char>,
}

/// The contents of a registry and an encoding.
pub open spec fn coding_view(compression: Option<(Arc<CompressionRegistry>, String)>) -> Option<Coding> {
    match compression {
        Some(c) => Some(Coding { registry: c.0@, encoding: c.1@ }),
        None => None,
    }
}

/// What an encoder is made with.
pub struct EncoderView {
    /// The registry and the encoding to compress with.
    pub compression: Option<Coding>,
    /// Which messages to compress.
    pub policy: CompressionPolicy,
}

/// Whether an encoder compresses a message of the given size.
pub open spec fn encoder_compresses(encoder: EncoderView, size: nat) -> bool {
    encoder.compression is Some && encoder.policy.applies(size)
}

impl View for EnvelopeEncoder {
    type V = EncoderView;

    closed spec fn view(&self) -> EncoderView {
        EncoderView { compression: coding_view(self.compression), policy: self.policy }
    }
}

/// The flags and the payload that a message may be sent with: the compressed
/// message where the encoder compresses it, and else the message itself.
pub open spec fn payload_for(encoder: EncoderView, message: Seq<u8>, packed: Payload) -> bool {
    if encoder_compresses(encoder, message.len()) {
        let coding = encoder.compression->0;
        match packed {
            Ok(p) => p.0 == flags::COMPRESSED && registry_compresses(
                coding.registry,
                coding.encoding,
                message,
                Outcome::Ok(p.1),
            ),
            Err(e) => registry_compresses(coding.registry, coding.encoding, message, Outcome::Err(e)),
        }
    } else {
        packed == Payload::Ok((flags::DATA, message))
    }
}

/// The flags and the payload of an envelope, or why there is none.
pub type Payload = Result<(u8, Seq<u8>), ErrorView>;

/// What encoding a message as a whole comes to.
pub open spec fn message_encoded(
    encoder: EncoderView,
    message: Seq<u8>,
    before: Seq<u8>,
    after: Seq<u8>,
    r: Result<(), ErrorView>,
) -> bool {
    exists|packed: Payload| #[trigger] payload_for(encoder, message, packed) && written(packed, before, after, r)
}

/// What writing a payload, if there is one, comes to: its envelope at the end
/// of the buffer, or an error and the buffer as it was.
pub open spec fn written(packed: Payload, before: Seq<u8>, after: Seq<u8>, r: Result<(), ErrorView>) -> bool {
    match packed {
        Ok(p) => if p.1.len() <= u32::MAX {
            r is Ok && after == before + envelope_bytes(p.0, p.1)
        } else {
            r == Err::<(), ErrorView>(oversized_error(p.1.len())) && after == before
        },
        Err(e) => r == Err::<(), ErrorView>(e) && after == before,
    }
}

/// The contents of a result without a value.
pub open spec fn unit_view(r: Result<(), ConnectError>) -> Result<(), ErrorView> {
    match r {
        Ok(()) => Ok(()),
        Err(e) => Err(e@),
    }
}

impl EnvelopeEncoder {
    /// Create an encoder with optional compression and a policy.
    pub fn new(compression: Option<(Arc<CompressionRegistry>, String)>, policy: CompressionPolicy) -> (encoder: Self)
        ensures
            encoder@ == (EncoderView { compression: coding_view(compression), policy }),
    {
        EnvelopeEncoder { compression, policy }
    }

    /// Create an encoder without compression.
    pub fn uncompressed() -> (encoder: Self)
        ensures
            encoder@ == (EncoderView {
                compression: None,
                policy: CompressionPolicy { enabled: false, min_size: 0 },
            }),
    {
        EnvelopeEncoder { compression: None, policy: CompressionPolicy::disabled() }
    }

    /// Encode an end-stream envelope into `dst`. End-stream envelopes are
    /// never compressed.
    pub fn encode_end_stream(&self, data: Bytes, dst: &mut BytesMut) -> (r: Result<(), ConnectError>)
        ensures
            written(Payload::Ok((flags::END_STREAM, data@)), old(dst)@, final(dst)@, unit_view(r)),
    {
        write_envelope(flags::END_STREAM, &data, dst)
    }

    /// Encode a data envelope, avoiding the payload copy for large messages.
    ///
    /// When the on-wire payload (after compression, if it is compressed) is at
    /// least `min_chain` bytes in total, only the 5-byte envelope header is
    /// written into `dst` and the payload's segments are appended to
    /// `chained`, in wire order, for the caller to emit after `dst`.
    ///
    /// Compression needs one contiguous input, so a segmented body is
    /// flattened before compressing and the compressed output chains as a
    /// single segment.
    pub fn encode_chained(
        &self,
        body: EncodedBody,
        dst: &mut BytesMut,
        chained: &mut Vec<Bytes>,
        min_chain: usize,
    ) -> (r: Result<(), ConnectError>)
        requires
            body.content().len() <= usize::MAX,
        ensures
            r is Err ==> final(dst)@ == old(dst)@ && final(chained)@ == old(chained)@,
            !encoder_compresses(self@, body.content().len()) ==> match r {
                Ok(()) => body.content().len() <= u32::MAX && chained_envelope(
                    flags::DATA,
                    body.pieces(),
                    min_chain as nat,
                    old(dst)@,
                    final(dst)@,
                    old(chained)@,
                    final(chained)@,
                ),
                Err(e) => body.content().len() > u32::MAX && e@ == oversized_error(body.content().len()),
            },
            encoder_compresses(self@, body.content().len()) ==> exists|packed: Payload| #[trigger]
                payload_for(self@, body.content(), packed) && chained_payload(
                    packed,
                    min_chain as nat,
                    old(dst)@,
                    final(dst)@,
                    old(chained)@,
                    final(chained)@,
                    unit_view(r),
                ),
    {
        let size: usize = body.len();
        if !self.compresses(size) {
            return write_envelope_chained(flags::DATA, body, dst, chained, min_chain);
        }
        let contiguous = body.into_contiguous();
        match self.payload(contiguous) {
            Ok((flag, piece)) => {
                proof {
                    lemma_single_segment(piece);
                }
                let ghost packed = Payload::Ok((flag, piece@));
                // Its length is one that a `usize` holds.
                let _length: usize = piece.len();
                let whole = EncodedBody::Contiguous(piece);
                let r = write_envelope_chained(flag, whole, dst, chained, min_chain);
                assert(chained_payload(
                    packed,
                    min_chain as nat,
                    old(dst)@,
                    dst@,
                    old(chained)@,
                    chained@,
                    unit_view(r),
                ));
                r
            },
            Err(e) => {
                assert(payload_for(self@, body.content(), Payload::Err(e@)));
                Err(e)
            },
        }
    }

    /// Whether a message of the given size is compressed.
    fn compresses(&self, size: usize) -> (compress: bool)
        ensures
            compress == encoder_compresses(self@, size as nat),
    {
        self.compression.is_some() && self.policy.should_compress(size)
    }

    /// The flags and the payload that a message is sent with.
    fn payload(&self, message: Bytes) -> (packed: Result<(u8, Bytes), ConnectError>)
        ensures
            payload_for(self@, message@, payload_view(packed)),
    {
        if let Some((registry, encoding)) = &self.compression {
            if self.policy.should_compress(message.len()) {
                return match registry.compress(encoding.as_str(), &message) {
                    Ok(piece) => Ok((flags::COMPRESSED, piece)),
                    Err(e) => Err(e),
                };
            }
        }
        Ok((flags::DATA, message))
    }

    /// Encode a data envelope into `dst` as a whole.
    pub fn encode(&self, data: Bytes, dst: &mut BytesMut) -> (r: Result<(), ConnectError>)
        ensures
            message_encoded(self@, data@, old(dst)@, final(dst)@, unit_view(r)),
    {
        let packed = self.payload(data);
        let ghost outcome = payload_view(packed);
        assert(payload_for(self@, data@, outcome));
        let r = match packed {
            Ok((flag, piece)) => write_envelope(flag, &piece, dst),
            Err(e) => Err(e),
        };
        assert(written(outcome, old(dst)@, dst@, unit_view(r)));
        r
    }
}

/// The contents of flags and a payload.
pub open spec fn payload_view(packed: Result<(u8, Bytes), ConnectError>) -> Payload {
    match packed {
        Ok(p) => Ok((p.0, p.1@)),
        Err(e) => Err(e@),
    }
}

/// What writing a payload in one piece, if there is one, comes to.
pub open spec fn chained_payload(
    packed: Payload,
    min_chain: nat,
    dst_before: Seq<u8>,
    dst_after: Seq<u8>,
    chained_before: Seq<Bytes>,
    chained_after: Seq<Bytes>,
    r: Result<(), ErrorView>,
) -> bool {
    match packed {
        Ok(p) => if p.1.len() <= u32::MAX {
            r is Ok && exists|piece: Bytes|
                piece@ == p.1 && #[trigger] chained_envelope(
                    p.0,
                    seq![piece],
                    min_chain,
                    dst_before,
                    dst_after,
                    chained_before,
                    chained_after,
                )
        } else {
            r == Err::<(), ErrorView>(oversized_error(p.1.len()))
        },
        Err(e) => r == Err::<(), ErrorView>(e),
    }
}

} // verus!
