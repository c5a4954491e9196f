//! Laws on what is sent and received as a stream of envelopes.
use bytes::Bytes;
use vstd::prelude::*;

use crate::buffer::BufferView;
use crate::client::bidi::after_construction;
use crate::client::bidi::after_headers;
use crate::client::bidi::body_polled;
use crate::client::bidi::send_outcome;
use crate::client::bidi::EncodingView;
use crate::client::bidi::NextMessage;
use crate::client::bidi::RecvView;
use crate::client::request::framed;
use crate::client::stream::StreamView;
use crate::client::transport::scheme_outcome;
use crate::client::transport::send_error;
use crate::compression::registry::registry_compresses;
use crate::compression::registry::registry_decompresses;
use crate::compression::registry::RegistryView;
use crate::compression::Outcome;
use crate::envelope::decode_outcome;
use crate::envelope::decoder::request_item;
use crate::envelope::decoder::Decoded;
use crate::envelope::encoder::chained_envelope;
use crate::envelope::encoder::chained_payload;
use crate::envelope::encoder::encoder_compresses;
use crate::envelope::encoder::lemma_chaining_keeps_the_wire;
use crate::envelope::encoder::message_encoded;
use crate::envelope::encoder::payload_for;
use crate::envelope::encoder::written;
use crate::envelope::encoder::EncoderView;
use crate::envelope::encoder::Payload;
use crate::envelope::envelope_bytes;
use crate::envelope::header_bytes;
use crate::envelope::lemma_envelope_round_trip;
use crate::envelope::lemma_header_declares;
use crate::envelope::Envelope;
use crate::error::plain_error;
use crate::error::ConnectError;
use crate::error::ErrorCode;
use crate::error::ErrorView;
use crate::laws::framing::law_flag_bits;
use crate::laws::framing::law_limit_is_inclusive;
use crate::response::lemma_single_segment;
use crate::response::segment_bytes;
use crate::text::decimal;

verus! {

// ---------------------------------------------------------------------------
// Encoding
// ---------------------------------------------------------------------------

/// A message that is not compressed is written as it is, in an envelope without
/// flags behind what is there, as long as its length can be declared.
pub proof fn law_plain_message_is_written(
    encoder: EncoderView,
    message: Seq<u8>,
    before: Seq<u8>,
    after: Seq<u8>,
    r: Result<(), ErrorView>,
)
    requires
        encoder.compression is None || !encoder.policy.enabled || message.len() < encoder.policy.min_size,
        message_encoded(encoder, message, before, after, r),
    ensures
        message.len() <= u32::MAX ==> r is Ok && after == before + envelope_bytes(0, message),
        message.len() > u32::MAX ==> r == Err::<(), ErrorView>(
            plain_error(
                ErrorCode::ResourceExhausted,
                "envelope payload "@ + decimal(message.len()) + " bytes exceeds u32::MAX"@,
            ),
        ) && after == before,
{
    let packed = choose|packed: Payload| #[trigger]
        payload_for(encoder, message, packed) && written(packed, before, after, r);
    assert(payload_for(encoder, message, packed));
}

/// A message that is compressed is written as what the encoding makes of it, in
/// an envelope with the flag for compression alone.
pub proof fn law_compressed_message_is_written(
    encoder: EncoderView,
    message: Seq<u8>,
    before: Seq<u8>,
    after: Seq<u8>,
    r: Result<(), ErrorView>,
)
    requires
        encoder.compression is Some,
        encoder.policy.enabled,
        message.len() >= encoder.policy.min_size,
        message_encoded(encoder, message, before, after, r),
    ensures
        r is Ok ==> exists|payload: Seq<u8>| #[trigger]
            registry_compresses(
                encoder.compression->0.registry,
                encoder.compression->0.encoding,
                message,
                Outcome::Ok(payload),
            ) && after == before + envelope_bytes(1, payload),
        r is Err ==> after == before,
{
    let packed = choose|packed: Payload| #[trigger]
        payload_for(encoder, message, packed) && written(packed, before, after, r);
    assert(payload_for(encoder, message, packed));
    if r is Ok {
        let payload = packed->Ok_0.1;
        assert(registry_compresses(
            encoder.compression->0.registry,
            encoder.compression->0.encoding,
            message,
            Outcome::Ok(payload),
        ));
    }
}

/// A single message that is not compressed is framed as its envelope.
pub proof fn law_plain_message_is_framed(encoder: EncoderView, message: Seq<u8>, r: Outcome)
    requires
        encoder.compression is None || !encoder.policy.enabled || message.len() < encoder.policy.min_size,
        message.len() <= u32::MAX,
        framed(encoder, message, r),
    ensures
        r == Outcome::Ok(envelope_bytes(0, message)),
{
    match r {
        Ok(body) => {
            law_plain_message_is_written(encoder, message, Seq::empty(), body, Ok(()));
            assert(Seq::<u8>::empty() + envelope_bytes(0, message) =~= envelope_bytes(0, message));
        },
        Err(e) => {
            law_plain_message_is_written(encoder, message, Seq::empty(), Seq::empty(), Err(e));
        },
    }
}

/// Messages written one after the other stand one after the other.
pub proof fn law_messages_are_written_in_order(
    encoder: EncoderView,
    first: Seq<u8>,
    second: Seq<u8>,
    start: Seq<u8>,
    middle: Seq<u8>,
    end: Seq<u8>,
)
    requires
        encoder.compression is None,
        first.len() <= u32::MAX,
        second.len() <= u32::MAX,
        message_encoded(encoder, first, start, middle, Ok(())),
        message_encoded(encoder, second, middle, end, Ok(())),
    ensures
        end == start + envelope_bytes(0, first) + envelope_bytes(0, second),
{
    law_plain_message_is_written(encoder, first, start, middle, Ok(()));
    law_plain_message_is_written(encoder, second, middle, end, Ok(()));
}

// ---------------------------------------------------------------------------
// Decoding
// ---------------------------------------------------------------------------

/// An envelope that is at the front of a buffer, and within the limit, is taken
/// out of it, and what comes behind it stays.
pub proof fn law_envelope_is_decoded(
    f: u8,
    payload: Seq<u8>,
    rest: Seq<u8>,
    max: nat,
    outcome: Result<Option<Envelope>, ConnectError>,
    after: Seq<u8>,
)
    requires
        payload.len() <= u32::MAX,
        payload.len() <= max,
        decode_outcome(envelope_bytes(f, payload) + rest, max, outcome, after),
    ensures
        outcome matches Ok(Some(envelope)) && envelope.flags == f && envelope.data@ == payload,
        after == rest,
{
    lemma_envelope_round_trip(f, payload, rest, max);
}

/// A buffer from which no envelope is taken is left as it is.
pub proof fn law_failed_decoding_takes_nothing(
    before: Seq<u8>,
    max: nat,
    outcome: Result<Option<Envelope>, ConnectError>,
    after: Seq<u8>,
)
    requires
        decode_outcome(before, max, outcome, after),
        !(outcome matches Ok(Some(_))),
    ensures
        after == before,
        before.len() < 5 ==> outcome matches Ok(None),
        outcome matches Err(e) ==> e@.code == ErrorCode::ResourceExhausted,
{
}

/// The envelopes of a request: the last one ends it whatever is in it, and a
/// message that is not compressed is itself.
pub proof fn law_request_envelopes(
    registry: RegistryView,
    encoding: Option<Seq<char>>,
    max: nat,
    f: u8,
    payload: Seq<u8>,
    outcome: Result<Option<Decoded>, ConnectError>,
)
    requires
        request_item(registry, encoding, max, f, payload, outcome),
    ensures
        f / 2 % 2 == 1 ==> outcome matches Ok(Some(Decoded::EndStream)),
        f / 2 % 2 == 0 && f % 2 == 0 ==> (outcome matches Ok(Some(Decoded::Message(data))) && data@ == payload),
        f / 2 % 2 == 0 && f % 2 == 1 && (encoding is None || encoding == Some("identity"@)) ==> (outcome matches Err(e)
            && e@ == plain_error(
            ErrorCode::Internal,
            "received compressed message without connect-content-encoding header"@,
        )),
        f / 2 % 2 == 0 && f % 2 == 1 && encoding is Some && encoding != Some("identity"@) ==> match outcome {
            Ok(Some(Decoded::Message(data))) => registry_decompresses(
                registry,
                encoding->0,
                payload,
                max,
                Outcome::Ok(data@),
            ),
            Err(e) => registry_decompresses(registry, encoding->0, payload, max, Outcome::Err(e@)),
            _ => false,
        },
{
    law_flag_bits(f);
}

// ---------------------------------------------------------------------------
// Bodies made of messages
// ---------------------------------------------------------------------------

/// A body hands out a frame for each message, in the order in which they come,
/// and goes on; it ends where the messages do.
pub proof fn law_body_frames_its_messages(
    before: EncodingView,
    message: Seq<u8>,
    frame: NextMessage,
    after: EncodingView,
)
    requires
        !before.done,
        before.encoder.compression is None,
        message.len() <= u32::MAX,
        body_polled(before, Some(Ok(message)), frame, after),
    ensures
        frame == Some(Outcome::Ok(envelope_bytes(0, message))),
        after == before,
{
    match frame {
        Some(r) => {
            law_plain_message_is_framed(before.encoder, message, r);
        },
        None => {},
    }
}

/// An error in place of a message is handed out, is kept for the call to
/// report, and ends the body; and so does the end of the messages, without an
/// error.
pub proof fn law_body_ends_with_its_messages(
    before: EncodingView,
    e: ErrorView,
    message: NextMessage,
    frame: NextMessage,
    after: EncodingView,
)
    requires
        !before.done,
        body_polled(before, message, frame, after),
    ensures
        message is None ==> frame is None && after.done && after.error == before.error,
        message == Some(Outcome::Err(e)) ==> frame == Some(Outcome::Err(e)) && after.done && after.error == Some(e),
        frame matches Some(Err(shown)) ==> after.done && after.error == Some(shown),
{
}

// ---------------------------------------------------------------------------
// Both halves of a call
// ---------------------------------------------------------------------------

/// Messages can be sent until the half is closed or the deadline has passed,
/// which comes first.
pub proof fn law_sending_is_refused_in_turn(open: bool, deadline_passed: bool)
    ensures
        open && !deadline_passed ==> send_outcome(open, deadline_passed) is Ok,
        deadline_passed ==> send_outcome(open, deadline_passed) == Err::<(), ErrorView>(
            plain_error(ErrorCode::DeadlineExceeded, "client-side deadline exceeded"@),
        ),
        !open && !deadline_passed ==> send_outcome(open, deadline_passed) == Err::<(), ErrorView>(
            plain_error(ErrorCode::Internal, "send after close_send"@),
        ),
{
}

/// Headers that arrive lead to the making of a stream, and that to a stream to
/// read; a failure of either is kept.
pub proof fn law_receiving_goes_on(stream: StreamView, error: ErrorView)
    ensures
        after_headers(RecvView::AwaitingHeaders, Ok(())) is Constructing,
        after_headers(RecvView::AwaitingHeaders, Err(error)) == (RecvView::Failed { error }),
        after_construction(RecvView::Constructing, Ok(stream)) == (RecvView::Ready { stream }),
        after_construction(RecvView::Constructing, Err(error)) == (RecvView::Failed { error }),
        after_headers(RecvView::Constructing, Err(error)) is Constructing,
{
}

// ---------------------------------------------------------------------------
// Transports
// ---------------------------------------------------------------------------

/// A client without encryption refuses `https`, one with encryption refuses
/// `http`, and neither refuses anything else.
pub proof fn law_schemes(scheme: Seq<char>)
    ensures
        scheme_outcome(false, Some("https"@)) == Err::<(), ErrorView>(
            plain_error(
                ErrorCode::InvalidArgument,
                "HttpClient::plaintext() received https:// URI; use HttpClient::with_tls for TLS"@,
            ),
        ),
        scheme_outcome(true, Some("http"@)) == Err::<(), ErrorView>(
            plain_error(
                ErrorCode::InvalidArgument,
                "HttpClient::with_tls() received http:// URI; use HttpClient::plaintext for cleartext"@,
            ),
        ),
        scheme_outcome(true, Some("https"@)) is Ok,
        scheme_outcome(false, Some("http"@)) is Ok,
        scheme_outcome(true, None) is Ok,
        scheme_outcome(false, None) is Ok,
        scheme != "http"@ ==> scheme_outcome(true, Some(scheme)) is Ok,
        scheme != "https"@ ==> scheme_outcome(false, Some(scheme)) is Ok,
{
    reveal_strlit("http");
    reveal_strlit("https");
    assert("http"@.len() != "https"@.len());
}

/// A request that could not be sent is reported as what the transport says, or
/// else as unavailable, with what was tried and what happened.
pub proof fn law_unsent_requests(e: ErrorView, context: Seq<char>, shown: Seq<char>)
    ensures
        send_error(Some(e), context, shown) == e,
        send_error(None, context, shown) == plain_error(
            ErrorCode::Unavailable,
            context + seq![':', ' '] + shown,
        ),
{
    reveal_strlit(": ");
    assert(": "@ =~= seq![':', ' ']);
}

// ---------------------------------------------------------------------------
// Chaining
// ---------------------------------------------------------------------------

/// A body smaller than the threshold is copied behind its header. One that is
/// not is chained behind it as it is, in the segments that it came in, and
/// behind what was chained before.
pub proof fn law_large_bodies_are_chained(
    flag: u8,
    pieces: Seq<Bytes>,
    min_chain: nat,
    dst_before: Seq<u8>,
    dst_after: Seq<u8>,
    chained_before: Seq<Bytes>,
    chained_after: Seq<Bytes>,
)
    requires
        segment_bytes(pieces).len() <= u32::MAX,
        chained_envelope(flag, pieces, min_chain, dst_before, dst_after, chained_before, chained_after),
    ensures
        segment_bytes(pieces).len() < min_chain ==> chained_after == chained_before && dst_after == dst_before
            + envelope_bytes(flag, segment_bytes(pieces)),
        segment_bytes(pieces).len() >= min_chain ==> chained_after == chained_before + pieces && dst_after.len()
            == dst_before.len() + 5,
{
    lemma_header_declares(flag, segment_bytes(pieces).len(), Seq::empty());
    assert(crate::envelope::header_bytes(flag, segment_bytes(pieces).len()) + Seq::<u8>::empty()
        =~= crate::envelope::header_bytes(flag, segment_bytes(pieces).len()));
}

/// A compressed payload is chained in one segment with its flags; and where
/// there is none, or it is too long to declare, nothing is.
pub proof fn law_compressed_payload_is_chained(
    flag: u8,
    payload: Seq<u8>,
    e: ErrorView,
    min_chain: nat,
    dst_before: Seq<u8>,
    dst_after: Seq<u8>,
    chained_after: Seq<Bytes>,
    r: Result<(), ErrorView>,
)
    ensures
        payload.len() <= u32::MAX && chained_payload(
            Ok((flag, payload)),
            min_chain,
            dst_before,
            dst_after,
            Seq::empty(),
            chained_after,
            r,
        ) ==> r is Ok && dst_after + segment_bytes(chained_after) == dst_before + envelope_bytes(flag, payload),
        payload.len() > u32::MAX && chained_payload(
            Ok((flag, payload)),
            min_chain,
            dst_before,
            dst_after,
            Seq::empty(),
            chained_after,
            r,
        ) ==> r is Err && r->Err_0.code == ErrorCode::ResourceExhausted,
        chained_payload(Err(e), min_chain, dst_before, dst_after, Seq::empty(), chained_after, r) ==> r == Err::<
            (),
            ErrorView,
        >(e),
{
    let none = Seq::<Bytes>::empty();
    if payload.len() <= u32::MAX && chained_payload(
        Ok((flag, payload)),
        min_chain,
        dst_before,
        dst_after,
        none,
        chained_after,
        r,
    ) {
        let piece = choose|piece: Bytes|
            piece@ == payload && #[trigger] chained_envelope(
                flag,
                seq![piece],
                min_chain,
                dst_before,
                dst_after,
                none,
                chained_after,
            );
        lemma_single_segment(piece);
        lemma_chaining_keeps_the_wire(flag, seq![piece], min_chain, dst_before, dst_after, chained_after);
    }
}

/// A header that declares more than the limit is refused with an error that says
/// so, and the buffer is left as it is.
pub proof fn law_large_envelope_is_refused(
    f: u8,
    length: nat,
    arrived: Seq<u8>,
    max: nat,
    outcome: Result<Option<Envelope>, ConnectError>,
    after: Seq<u8>,
)
    requires
        max < length <= u32::MAX,
        decode_outcome(header_bytes(f, length) + arrived, max, outcome, after),
    ensures
        outcome matches Err(e) && e@ == plain_error(
            ErrorCode::ResourceExhausted,
            "message size "@ + decimal(length) + " exceeds limit "@ + decimal(max),
        ),
        after == header_bytes(f, length) + arrived,
{
    law_limit_is_inclusive(f, length, max, arrived);
    reveal_strlit("message");
    reveal_strlit(" size ");
    reveal_strlit("message size ");
    assert("message"@ + " size "@ =~= "message size "@);
}

/// An encoder compresses exactly where it has an encoding and its policy says
/// so.
pub proof fn law_encoder_follows_its_policy(encoder: EncoderView, size: nat)
    ensures
        encoder_compresses(encoder, size) <==> encoder.compression is Some && encoder.policy.enabled && size
            >= encoder.policy.min_size,
{
}

} // verus!
