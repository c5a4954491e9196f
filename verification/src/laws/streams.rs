//! Laws on responses that hold a stream of messages.
use http::StatusCode;
use vstd::prelude::*;
use vstd::utf8::encode_utf8;

use crate::client::body::limit_or_default;
use crate::client::grpc_unary::coding_with;
use crate::client::status::details_in;
use crate::client::status::message_in;
use crate::client::status::other_trailers;
use crate::client::status::reported_error;
use crate::client::status::status_code_for;
use crate::client::status::status_in;
use crate::client::status::visible_value;
use crate::client::status::wire_error;
use crate::client::status::ClientEndStreamResponse;
use crate::client::stream::connect_end;
use crate::client::stream::data_buffered;
use crate::client::stream::delivered;
use crate::client::stream::ended;
use crate::client::stream::ended_by_body;
use crate::client::stream::envelope_taken;
use crate::client::stream::failed_end;
use crate::client::stream::grpc_end;
use crate::client::stream::payload_unpacked;
use crate::client::stream::refused_by_headers;
use crate::client::stream::stepped;
use crate::client::stream::stream_begun;
use crate::client::stream::EndView;
use crate::client::stream::StepView;
use crate::client::stream::StreamHead;
use crate::client::stream::StreamView;
use crate::client::trailers::metadata_headers;
use crate::client::unary::response_unpacked;
use crate::codec::CodecFormat;
use crate::compression::registry::RegistryView;
use crate::compression::Outcome;
use crate::envelope::envelope_bytes;
use crate::envelope::header_bytes;
use crate::envelope::lemma_envelope_round_trip;
use crate::envelope::lemma_header_declares;
use crate::envelope::scanned;
use crate::envelope::Scan;
use crate::error::code_number;
use crate::error::opt_text;
use crate::error::plain_error;
use crate::error::ErrorCode;
use crate::error::ErrorView;
use crate::headers::ascii_text;
use crate::headers::collected;
use crate::headers::first_value;
use crate::headers::no_headers;
use crate::headers::status_number;
use crate::headers::HeaderContents;
use crate::headers::HeadersView;
use crate::laws::framing::law_flag_bits;
use crate::laws::framing::law_limit_is_inclusive;
use crate::laws::statuses::law_failure_is_reported;
use crate::laws::statuses::law_zero_is_success;
use crate::laws::trailers::can_be_written;
use crate::laws::trailers::law_capped_takes_what_fits;
use crate::laws::trailers::law_trailer_frame_is_read_back;
use crate::laws::trailers::pairs_of;
use crate::laws::trailers::written_lines;
use crate::protocol::Protocol;
use crate::text::decimal;

verus! {

// ---------------------------------------------------------------------------
// The end of a gRPC stream
// ---------------------------------------------------------------------------

/// A stream whose trailers say that the call succeeded ends cleanly: whatever
/// the protocol is, whether or not a body came before, and however late it is.
pub proof fn law_reported_success_is_a_clean_end(
    stream: StreamView,
    trailers: HeaderContents,
    raw: Seq<u8>,
    deadline_passed: bool,
    end: EndView,
)
    requires
        first_value(trailers, "grpc-status"@) == Some(raw),
        status_in(raw) == Some(0u32),
        grpc_end(stream, Some(trailers), deadline_passed, end),
    ensures
        end.outcome is Ok,
        end.trailers == Some(trailers),
{
}

/// The status of success is the single digit `0`.
pub proof fn law_zero_status_is_a_clean_end(
    stream: StreamView,
    trailers: HeaderContents,
    deadline_passed: bool,
    end: EndView,
)
    requires
        first_value(trailers, "grpc-status"@) == Some(seq![48u8]),
        grpc_end(stream, Some(trailers), deadline_passed, end),
    ensures
        end.outcome is Ok,
        end.trailers == Some(trailers),
{
    law_zero_is_success(seq![48u8]);
}

/// A response without a body may give its status in its headers, and then ends
/// cleanly without one in its trailers.
pub proof fn law_status_in_headers_is_a_clean_end(
    stream: StreamView,
    trailers: Option<HeaderContents>,
    deadline_passed: bool,
    end: EndView,
)
    requires
        !stream.saw_body_data,
        stream.headers.contains_key("grpc-status"@),
        trailers matches Some(t) ==> !t.contains_key("grpc-status"@),
        grpc_end(stream, trailers, deadline_passed, end),
    ensures
        end.outcome is Ok,
        end.trailers == trailers,
{
}

/// A stream whose trailers report a failure ends with that failure: with the
/// code of the number, and with the message, the details and the other
/// trailers. The record keeps all trailers.
pub proof fn law_reported_failure_ends_the_stream(
    stream: StreamView,
    trailers: HeaderContents,
    raw: Seq<u8>,
    number: u32,
    code: ErrorCode,
    deadline_passed: bool,
    end: EndView,
)
    requires
        first_value(trailers, "grpc-status"@) == Some(raw),
        ascii_text(raw) == decimal(number as nat),
        number != 0,
        grpc_end(stream, Some(trailers), deadline_passed, end),
    ensures
        end.trailers == Some(trailers),
        end.outcome matches Err(e) && (number == code_number(code) ==> e.code == code) && (number > 16 ==> e.code
            == ErrorCode::Unknown) && e.message == Some(message_in(trailers)) && e.details == details_in(trailers)
            && e.trailers == other_trailers(trailers),
{
    crate::laws::statuses::law_status_is_read_back(raw, number);
    match end.outcome {
        Err(e) => {
            law_failure_is_reported(trailers, number, raw, Some(e), code);
        },
        Ok(()) => {},
    }
}

/// A status that cannot be read ends the stream with an error.
pub proof fn law_malformed_status_ends_the_stream(
    stream: StreamView,
    trailers: HeaderContents,
    raw: Seq<u8>,
    deadline_passed: bool,
    end: EndView,
)
    requires
        first_value(trailers, "grpc-status"@) == Some(raw),
        status_in(raw) is None,
        grpc_end(stream, Some(trailers), deadline_passed, end),
    ensures
        end.outcome matches Err(e) && e.code == ErrorCode::Unknown,
        end.trailers == Some(trailers),
{
}

/// A stream without any status was cut off: by the deadline where that has
/// passed, and else by a server or a proxy that breaks the protocol.
pub proof fn law_missing_status_is_an_error(
    stream: StreamView,
    trailers: Option<HeaderContents>,
    deadline_passed: bool,
    end: EndView,
)
    requires
        trailers matches Some(t) ==> !t.contains_key("grpc-status"@),
        stream.saw_body_data || !stream.headers.contains_key("grpc-status"@),
        grpc_end(stream, trailers, deadline_passed, end),
    ensures
        end.trailers == trailers,
        end.outcome == Err::<(), ErrorView>(
            if deadline_passed {
                plain_error(ErrorCode::DeadlineExceeded, "request timeout"@)
            } else if trailers is Some {
                plain_error(ErrorCode::Unknown, "protocol error: grpc-status missing from trailers"@)
            } else {
                plain_error(ErrorCode::Internal, "stream ended without grpc-status"@)
            },
        ),
{
}

// ---------------------------------------------------------------------------
// Messages
// ---------------------------------------------------------------------------

/// Whether a message of the given size keeps to the limit of a stream, which is
/// 4 MiB where none is set.
pub open spec fn keeps_to(max_message_size: Option<usize>, size: nat) -> bool {
    match max_message_size {
        Some(max) => size <= max,
        None => size <= 4_194_304,
    }
}

/// The flags of a message that is not compressed. Only for gRPC-Web does the
/// high bit make something else of it.
pub open spec fn is_plain_message(protocol: Protocol, f: u8) -> bool {
    f % 4 == 0 && (protocol is GrpcWeb ==> f < 128)
}

/// The front of a buffer is the envelope that was put there.
proof fn lemma_envelope_in_front(before: StreamView, f: u8, payload: Seq<u8>, rest: Seq<u8>)
    requires
        before.buffered == envelope_bytes(f, payload) + rest,
        payload.len() <= u32::MAX,
    ensures
        before.buffered[0] == f,
        payload.len() <= limit_or_default(before.max_message_size) ==> scanned(
            before.buffered,
            limit_or_default(before.max_message_size) as nat,
        ) == (Scan::Whole { flags: f, payload, rest }),
{
    assert(before.buffered =~= header_bytes(f, payload.len()) + (payload + rest));
    lemma_header_declares(f, payload.len(), payload + rest);
    if payload.len() <= limit_or_default(before.max_message_size) {
        lemma_envelope_round_trip(f, payload, rest, limit_or_default(before.max_message_size) as nat);
    }
}

/// A message that is not compressed and keeps to the limit is handed out as it
/// is, an empty one too. The stream is left with what comes behind it, and is
/// otherwise unchanged.
pub proof fn law_plain_message_is_handed_out(
    before: StreamView,
    f: u8,
    payload: Seq<u8>,
    rest: Seq<u8>,
    deadline_passed: bool,
    step: StepView,
    after: StreamView,
)
    requires
        before.end is None,
        before.buffered == envelope_bytes(f, payload) + rest,
        payload.len() <= u32::MAX,
        is_plain_message(before.protocol, f),
        keeps_to(before.max_message_size, payload.len()),
        stepped(before, deadline_passed, step, after),
    ensures
        step == (StepView::Message { data: payload }),
        after == (StreamView { buffered: rest, ..before }),
{
    law_flag_bits(f);
    lemma_envelope_in_front(before, f, payload, rest);
    assert(f % 4 == 0 ==> f % 2 == 0 && f / 2 % 2 == 0);
}

/// The last envelope of a Connect stream is handed out as such, and not as a
/// message, where it is not compressed. It has no limit but that of its frame.
pub proof fn law_last_envelope_is_handed_out(
    before: StreamView,
    f: u8,
    payload: Seq<u8>,
    rest: Seq<u8>,
    deadline_passed: bool,
    step: StepView,
    after: StreamView,
)
    requires
        before.end is None,
        before.buffered == envelope_bytes(f, payload) + rest,
        payload.len() <= u32::MAX,
        f % 4 == 2,
        before.protocol is GrpcWeb ==> f < 128,
        keeps_to(before.max_message_size, payload.len()),
        stepped(before, deadline_passed, step, after),
    ensures
        step == (StepView::EndStream { data: payload }),
        after == (StreamView { buffered: rest, ..before }),
{
    law_flag_bits(f);
    lemma_envelope_in_front(before, f, payload, rest);
    assert(f % 4 == 2 ==> f % 2 == 0 && f / 2 % 2 == 1);
}

/// A compressed message is handed out as what it decompresses to. Where that
/// fails, or is over the limit, or no encoding was announced, the stream ends
/// with an error.
pub proof fn law_compressed_message_is_unpacked(
    before: StreamView,
    f: u8,
    payload: Seq<u8>,
    rest: Seq<u8>,
    deadline_passed: bool,
    step: StepView,
    after: StreamView,
)
    requires
        before.end is None,
        before.buffered == envelope_bytes(f, payload) + rest,
        payload.len() <= u32::MAX,
        f % 4 == 1,
        before.protocol is GrpcWeb ==> f < 128,
        keeps_to(before.max_message_size, payload.len()),
        stepped(before, deadline_passed, step, after),
    ensures
        before.encoding is None ==> step is Ended && after.end == Some(
            failed_end(
                plain_error(ErrorCode::Internal, "received compressed message without content-encoding header"@),
            ),
        ),
        before.encoding matches Some(encoding) ==> (step is Message || step is Ended) && (step
            matches StepView::Message { data } ==> after == (StreamView { buffered: rest, ..before })
            && response_unpacked(
            before.registry,
            encoding,
            payload,
            limit_or_default(before.max_message_size) as nat,
            Outcome::Ok(data),
        )) && (step is Ended ==> (after.end matches Some(end) && end.outcome is Err && end.trailers is None)),
{
    law_flag_bits(f);
    lemma_envelope_in_front(before, f, payload, rest);
    assert(f % 4 == 1 ==> f % 2 == 1 && f / 2 % 2 == 0);
    let max = limit_or_default(before.max_message_size) as nat;
    let behind = StreamView { buffered: rest, ..before };
    assert(envelope_taken(behind, f, payload, max, step, after));
    let (registry, encoding) = (behind.registry, behind.encoding);
    let unpacked = choose|unpacked: Outcome| #[trigger]
        payload_unpacked(registry, encoding, f, payload, max, unpacked) && delivered(
            behind,
            f,
            unpacked,
            step,
            after,
        );
    assert(payload_unpacked(registry, encoding, f, payload, max, unpacked));
}

/// A message over the limit ends the stream as soon as its header is there,
/// with an error that says how large it is and what the limit is.
pub proof fn law_large_message_ends_the_stream(
    before: StreamView,
    f: u8,
    length: nat,
    arrived: Seq<u8>,
    deadline_passed: bool,
    step: StepView,
    after: StreamView,
)
    requires
        before.end is None,
        before.buffered == header_bytes(f, length) + arrived,
        length <= u32::MAX,
        before.protocol is GrpcWeb ==> f < 128,
        !keeps_to(before.max_message_size, length),
        stepped(before, deadline_passed, step, after),
    ensures
        step is Ended,
        after.end matches Some(end) && end.trailers is None && end.outcome == Err::<(), ErrorView>(
            plain_error(
                ErrorCode::ResourceExhausted,
                "message size "@ + decimal(length) + " exceeds limit "@ + decimal(
                    match before.max_message_size {
                        Some(max) => max as nat,
                        None => 4_194_304,
                    },
                ),
            ),
        ),
{
    law_flag_bits(f);
    let max = limit_or_default(before.max_message_size) as nat;
    law_limit_is_inclusive(f, length, max, arrived);
    lemma_header_declares(f, length, arrived);
    reveal_strlit("message");
    reveal_strlit(" size ");
    reveal_strlit("message size ");
    assert("message"@ + " size "@ =~= "message size "@);
}

/// A stream that holds less than an envelope waits, and is not changed by it.
pub proof fn law_partial_envelope_waits(
    before: StreamView,
    f: u8,
    payload: Seq<u8>,
    cut: int,
    deadline_passed: bool,
    step: StepView,
    after: StreamView,
)
    requires
        before.end is None,
        payload.len() <= u32::MAX,
        0 <= cut < 5 + payload.len(),
        before.buffered == envelope_bytes(f, payload).take(cut),
        keeps_to(before.max_message_size, payload.len()),
        stepped(before, deadline_passed, step, after),
    ensures
        step is NeedFrame,
        after == before,
{
    let whole = envelope_bytes(f, payload);
    lemma_header_declares(f, payload.len(), payload);
    if cut >= 5 {
        assert(crate::envelope::declared_length(before.buffered) == crate::envelope::declared_length(whole));
    }
}

/// A trailer frame of gRPC-Web ends the stream with its trailers, and with what
/// their status says.
pub proof fn law_trailer_frame_ends_the_stream(
    before: StreamView,
    list: Seq<(Seq<char>, Seq<char>)>,
    more: Seq<u8>,
    deadline_passed: bool,
    step: StepView,
    after: StreamView,
)
    requires
        before.end is None,
        before.protocol is GrpcWeb,
        can_be_written(list),
        list.len() <= 6553,
        encode_utf8(written_lines(list)).len() <= 1_048_576,
        before.buffered == envelope_bytes(0x80, encode_utf8(written_lines(list))) + more,
        stepped(before, deadline_passed, step, after),
    ensures
        step is Ended,
        after.end matches Some(end) && end.trailers == Some(collected(pairs_of(list))) && (first_value(
            collected(pairs_of(list)),
            "grpc-status"@,
        ) == Some(seq![48u8]) ==> end.outcome is Ok),
{
    let payload = encode_utf8(written_lines(list));
    law_flag_bits(0x80);
    assert(before.buffered =~= header_bytes(0x80, payload.len()) + (payload + more));
    lemma_header_declares(0x80, payload.len(), payload + more);
    law_trailer_frame_is_read_back(
        list,
        more,
        coding_with(before.registry, before.encoding),
        after.end->0.trailers,
    );
    law_zero_is_success(seq![48u8]);
}

// ---------------------------------------------------------------------------
// Data
// ---------------------------------------------------------------------------

/// Data is put behind what has arrived, as long as no more is buffered than a
/// message at its limit takes with two headers and 64 KiB. It is remembered
/// that there was a body where there was a byte of it.
pub proof fn law_data_is_buffered(before: StreamView, data: Seq<u8>, max: usize)
    requires
        before.end is None,
        before.max_message_size == Some(max) || (before.max_message_size is None && max == 4_194_304),
        max + 65_546 <= usize::MAX,
    ensures
        before.buffered.len() + data.len() <= max + 65_546 ==> data_buffered(before, data) == (StreamView {
            buffered: before.buffered + data,
            saw_body_data: before.saw_body_data || data.len() > 0,
            ..before
        }),
        before.buffered.len() + data.len() > max + 65_546 ==> data_buffered(before, data).end == Some(
            failed_end(
                plain_error(
                    ErrorCode::ResourceExhausted,
                    "response buffer exceeds limit "@ + decimal((max + 65_546) as nat),
                ),
            ),
        ),
{
}

/// Data in two frames is data in one.
pub proof fn law_frames_of_a_stream_do_not_matter(before: StreamView, a: Seq<u8>, b: Seq<u8>)
    requires
        before.end is None,
        data_buffered(before, a + b).end is None,
    ensures
        data_buffered(data_buffered(before, a), b) == data_buffered(before, a + b),
{
    assert(before.buffered + a + b =~= before.buffered + (a + b));
}

// ---------------------------------------------------------------------------
// The end of a Connect stream
// ---------------------------------------------------------------------------

/// The last envelope of a Connect stream decides: without an error it is a
/// clean end, and with one it ends the stream with the code, the message and
/// the details that it gives. Its metadata are the trailers.
pub proof fn law_last_envelope_decides(headers: HeaderContents, said: ClientEndStreamResponse, end: EndView)
    requires
        connect_end(headers, Ok(said), end),
    ensures
        said.error is None ==> end.outcome is Ok,
        said.error matches Some(e) ==> end.outcome == Err::<(), ErrorView>(wire_error(e, ErrorCode::Unknown)),
        said.metadata is None ==> end.trailers is None,
        said.metadata matches Some(m) ==> (metadata_headers(m@).len() <= 6553 ==> end.trailers == Some(
            collected(metadata_headers(m@)),
        )),
{
    if let Some(m) = said.metadata {
        if metadata_headers(m@).len() <= 6553 {
            assert(no_headers().dom() =~= Set::<Seq<char>>::empty());
            law_capped_takes_what_fits(no_headers(), metadata_headers(m@), end.trailers->0);
            assert(crate::headers::joined_headers(no_headers(), collected(metadata_headers(m@))) =~= collected(
                metadata_headers(m@),
            )) by {
                let h = collected(metadata_headers(m@));
                assert forall|n: Seq<char>| h.contains_key(n) implies crate::headers::joined_headers(
                    no_headers(),
                    h,
                )[n] == h[n] by {
                    assert(crate::headers::joined_headers(no_headers(), h)[n] =~= h[n]);
                }
            }
        }
    }
}

/// A last envelope that cannot be read is an error of its own, with the headers
/// of the response.
pub proof fn law_malformed_last_envelope_is_an_error(headers: HeaderContents, cause: String, end: EndView)
    requires
        connect_end(headers, Err(cause), end),
    ensures
        end.trailers is None,
        end.outcome matches Err(e) && e.code == ErrorCode::Internal && e.headers == headers && e.message == Some(
            "protocol error: malformed Connect END_STREAM JSON: "@ + cause@,
        ) && e.trailers == no_headers(),
{
}

/// A Connect stream whose body ends without its last envelope was cut off,
/// however much of it has arrived.
pub proof fn law_connect_stream_needs_its_last_envelope(stream: StreamView, deadline_passed: bool, after: StreamView)
    requires
        stream.end is None,
        stream.protocol is Connect,
        ended_by_body(stream, deadline_passed, after),
    ensures
        after.end == Some(
            failed_end(
                plain_error(ErrorCode::Internal, "Connect streaming response ended without END_STREAM envelope"@),
            ),
        ),
        after.headers == stream.headers,
{
}

/// A gRPC stream whose body ends without trailers has the status of its headers
/// where it had no body, and else was cut off.
pub proof fn law_body_without_trailers(stream: StreamView, deadline_passed: bool, after: StreamView)
    requires
        stream.end is None,
        stream.protocol is Grpc || (stream.protocol is GrpcWeb && stream.buffered.len() == 0),
        ended_by_body(stream, deadline_passed, after),
    ensures
        after.end matches Some(end) && end.trailers is None && (end.outcome is Ok <==> !stream.saw_body_data
            && stream.headers.contains_key("grpc-status"@)),
{
}

// ---------------------------------------------------------------------------
// The head of a response
// ---------------------------------------------------------------------------

/// A response with a status of success opens a stream that has received
/// nothing, under the encoding that its protocol announces. For gRPC that takes
/// headers that report no error.
pub proof fn law_success_opens_a_stream(
    status: StatusCode,
    headers: HeaderContents,
    protocol: Protocol,
    registry: RegistryView,
    codec_format: CodecFormat,
    max_message_size: Option<usize>,
    head: StreamHead,
)
    requires
        200 <= status_number(status) < 300,
        protocol is Connect || first_value(headers, "grpc-status"@) is None || first_value(headers, "grpc-status"@)
            == Some(seq![48u8]),
        stream_begun(status, headers, protocol, registry, codec_format, max_message_size, head),
    ensures
        head matches StreamHead::Open(stream) && stream@.headers == headers && stream@.buffered.len() == 0
            && stream@.encoding == visible_value(
            headers,
            if protocol is Connect {
                "connect-content-encoding"@
            } else {
                "grpc-encoding"@
            },
        ) && stream@.registry == registry && stream@.codec_format == codec_format && stream@.protocol == protocol
            && stream@.max_message_size == max_message_size && stream@.end is None && !stream@.saw_body_data,
{
    law_zero_is_success(seq![48u8]);
}

/// A gRPC response whose headers report a failure is refused with it, whatever
/// its HTTP status is.
pub proof fn law_failure_in_headers_refuses_a_stream(
    status: StatusCode,
    headers: HeaderContents,
    raw: Seq<u8>,
    number: u32,
    code: ErrorCode,
    protocol: Protocol,
    registry: RegistryView,
    codec_format: CodecFormat,
    max_message_size: Option<usize>,
    head: StreamHead,
)
    requires
        !(protocol is Connect),
        first_value(headers, "grpc-status"@) == Some(raw),
        ascii_text(raw) == decimal(number as nat),
        number != 0,
        stream_begun(status, headers, protocol, registry, codec_format, max_message_size, head),
    ensures
        head matches StreamHead::Refused(e) && (number == code_number(code) ==> e@.code == code) && (number > 16
            ==> e@.code == ErrorCode::Unknown) && e@.message == Some(message_in(headers)) && e@.details
            == details_in(headers) && e@.headers == headers && e@.trailers == other_trailers(headers),
{
    crate::laws::statuses::law_status_is_read_back(raw, number);
    assert(refused_by_headers(headers, head));
    let e = choose|e: Option<ErrorView>| #[trigger]
        reported_error(headers, e) && e is Some && (head matches StreamHead::Refused(err) && err@ == (ErrorView {
            headers,
            ..e->0
        }));
    law_failure_is_reported(headers, number, raw, e, code);
}

/// A response without a status of success opens no stream. For Connect its body
/// is to be read, for it says what failed; for gRPC the HTTP status decides.
pub proof fn law_http_failure_opens_no_stream(
    status: StatusCode,
    headers: HeaderContents,
    protocol: Protocol,
    registry: RegistryView,
    codec_format: CodecFormat,
    max_message_size: Option<usize>,
    head: StreamHead,
)
    requires
        !(200 <= status_number(status) < 300),
        protocol is Connect || first_value(headers, "grpc-status"@) is None,
        stream_begun(status, headers, protocol, registry, codec_format, max_message_size, head),
    ensures
        protocol is Connect ==> head is Failed,
        head matches StreamHead::Failed(response) ==> response.status == status && !response.unary && opt_text(
            response.encoding,
        ) == visible_value(headers, "content-encoding"@)
            && response.headers@ == headers && response.trailers@ == no_headers() && response.max_size == (
        match max_message_size {
            Some(max) => max,
            None => 4_194_304,
        }),
        !(protocol is Connect) ==> head is Refused,
        head matches StreamHead::Refused(e) ==> e@.code == status_code_for(status_number(status)) && e@.message == Some(
            "HTTP error "@ + decimal(status_number(status) as nat),
        ) && e@.headers == headers,
{
}

/// A record that was written is not written again.
pub proof fn law_first_record_stays(stream: StreamView, first: EndView, second: EndView)
    ensures
        stream.end is None ==> ended(ended(stream, first), second).end == Some(first),
        stream.end is Some ==> ended(stream, first) == stream,
        ended(stream, first).headers == stream.headers,
        ended(stream, first).buffered == stream.buffered,
{
}

/// A body that ends with a whole trailer frame of gRPC-Web ends with its
/// trailers.
pub proof fn law_body_ends_with_its_trailer_frame(
    stream: StreamView,
    list: Seq<(Seq<char>, Seq<char>)>,
    more: Seq<u8>,
    deadline_passed: bool,
    after: StreamView,
)
    requires
        stream.end is None,
        stream.protocol is GrpcWeb,
        can_be_written(list),
        list.len() <= 6553,
        encode_utf8(written_lines(list)).len() <= 1_048_576,
        stream.buffered == envelope_bytes(0x80, encode_utf8(written_lines(list))) + more,
        ended_by_body(stream, deadline_passed, after),
    ensures
        after.end matches Some(end) && end.trailers == Some(collected(pairs_of(list))) && (first_value(
            collected(pairs_of(list)),
            "grpc-status"@,
        ) == Some(seq![48u8]) ==> end.outcome is Ok),
{
    let payload = encode_utf8(written_lines(list));
    law_flag_bits(0x80);
    assert(stream.buffered =~= header_bytes(0x80, payload.len()) + (payload + more));
    lemma_header_declares(0x80, payload.len(), payload + more);
    law_trailer_frame_is_read_back(
        list,
        more,
        coding_with(stream.registry, stream.encoding),
        after.end->0.trailers,
    );
    law_zero_is_success(seq![48u8]);
}

/// A body of gRPC-Web that ends within a message has no trailers.
pub proof fn law_cut_message_has_no_trailers(stream: StreamView, deadline_passed: bool, after: StreamView)
    requires
        stream.end is None,
        stream.protocol is GrpcWeb,
        stream.buffered.len() > 0,
        stream.buffered[0] < 128,
        ended_by_body(stream, deadline_passed, after),
    ensures
        after.end matches Some(end) && end.trailers is None && (stream.saw_body_data ==> end.outcome is Err),
{
    law_flag_bits(stream.buffered[0]);
}

/// What a message decompresses to is held to the limit that was set, and what
/// the last envelope does is not.
pub proof fn law_unpacked_message_keeps_to_the_limit(
    behind: StreamView,
    f: u8,
    data: Seq<u8>,
    max: usize,
    step: StepView,
    after: StreamView,
)
    requires
        behind.end is None,
        behind.max_message_size == Some(max),
        delivered(behind, f, Ok(data), step, after),
    ensures
        f / 2 % 2 == 1 ==> step == (StepView::EndStream { data }) && after == behind,
        f / 2 % 2 == 0 && data.len() <= max ==> step == (StepView::Message { data }) && after == behind,
        f / 2 % 2 == 0 && data.len() > max ==> step is Ended && after.end == Some(
            failed_end(
                plain_error(
                    ErrorCode::ResourceExhausted,
                    "message size "@ + decimal(data.len()) + " exceeds limit "@ + decimal(max as nat),
                ),
            ),
        ),
{
    law_flag_bits(f);
    reveal_strlit("message");
    reveal_strlit(" size ");
    reveal_strlit("message size ");
    assert("message"@ + " size "@ =~= "message size "@);
}

} // verus!
