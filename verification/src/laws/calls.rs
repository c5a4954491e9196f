//! Laws on gRPC responses that hold one message.
use vstd::prelude::*;
use vstd::utf8::encode_utf8;

use crate::buffer::BufferView;
use crate::client::grpc_unary::body_read;
use crate::client::grpc_unary::body_with_message;
use crate::client::grpc_unary::call_finished;
use crate::client::grpc_unary::call_outcome;
use crate::client::grpc_unary::can_decode;
use crate::client::grpc_unary::coding_with;
use crate::client::grpc_unary::data_taken;
use crate::client::grpc_unary::message_unpacked;
use crate::client::grpc_unary::reported_as;
use crate::client::grpc_unary::saturated;
use crate::client::grpc_unary::unsupported_encoding;
use crate::client::grpc_unary::CallOutcome;
use crate::client::grpc_unary::Front;
use crate::client::grpc_unary::GrpcBody;
use crate::client::grpc_unary::GrpcUnaryReader;
use crate::client::status::details_in;
use crate::client::status::message_in;
use crate::client::status::other_trailers;
use crate::client::status::reported_error;
use crate::client::status::status_code_for;
use crate::client::status::status_in;
use crate::client::trailers::trailer_end;
use crate::client::unary::response_unpacked;
use crate::compression::registry::RegistryView;
use crate::compression::Outcome;
use crate::envelope::envelope_bytes;
use crate::envelope::header_bytes;
use crate::envelope::lemma_envelope_round_trip;
use crate::envelope::lemma_header_declares;
use crate::error::code_number;
use crate::error::plain_error;
use crate::error::ConnectError;
use crate::error::ErrorCode;
use crate::error::ErrorView;
use crate::headers::ascii_text;
use crate::headers::collected;
use crate::headers::first_value;
use crate::headers::no_headers;
use crate::headers::status_number;
use crate::headers::HeaderContents;
use crate::headers::HeadersView;
use crate::laws::framing::law_flag_bits;
use crate::laws::framing::law_limit_is_inclusive;
use crate::laws::statuses::law_failure_is_reported;
use crate::laws::statuses::law_status_is_read_back;
use crate::laws::statuses::law_zero_is_success;
use crate::laws::texts::law_hex_digits;
use crate::laws::trailers::can_be_written;
use crate::laws::trailers::law_trailer_frame_is_found;
use crate::laws::trailers::law_trailer_frame_is_read_back;
use crate::laws::trailers::pairs_of;
use crate::laws::trailers::written_lines;
use crate::protocol::Protocol;
use crate::text::decimal;

verus! {

// ---------------------------------------------------------------------------
// The outcome of a call
// ---------------------------------------------------------------------------

/// Which trailers a call has: those of the trailer frame where the body has one,
/// and else those of HTTP.
pub open spec fn trailers_are(reader: GrpcUnaryReader, parts: GrpcBody, trailers: HeaderContents) -> bool {
    parts.trailers == Some(trailers) || (parts.trailers is None && reader.trailers@ == trailers)
}

/// Which headers report the status of a call: its trailers, and the initial
/// headers only where there are no trailers and there was no body.
pub open spec fn status_stands_in(
    reader: GrpcUnaryReader,
    trailers: HeaderContents,
    source: HeaderContents,
) -> bool {
    if reader.has_body_data || trailers.dom() != Set::<Seq<char>>::empty() {
        source == trailers
    } else {
        source == reader.headers@
    }
}

/// Whether a message keeps to the limit that was set, if one was.
pub open spec fn keeps_to_limit(reader: GrpcUnaryReader, message: Seq<u8>) -> bool {
    reader.max_message_size matches Some(max) ==> message.len() <= max
}

/// No trailers have no names.
proof fn lemma_no_trailers(trailers: HeaderContents)
    ensures
        trailers == no_headers() <==> trailers.dom() == Set::<Seq<char>>::empty(),
{
    if trailers.dom() == Set::<Seq<char>>::empty() {
        assert(trailers =~= no_headers());
    }
    assert(no_headers().dom() =~= Set::<Seq<char>>::empty());
}

/// A complete response is a success: where the HTTP status is one, the gRPC
/// status is zero, and the body holds a message within the limit, an empty one
/// too, the call hands out that message with the headers and the trailers.
pub proof fn law_complete_response_is_a_success(
    reader: GrpcUnaryReader,
    parts: GrpcBody,
    message: Seq<u8>,
    trailers: HeaderContents,
    source: HeaderContents,
    raw: Seq<u8>,
    deadline_passed: bool,
    r: CallOutcome,
)
    requires
        200 <= status_number(reader.status) < 300,
        parts.message == Some(message),
        keeps_to_limit(reader, message),
        trailers_are(reader, parts, trailers),
        status_stands_in(reader, trailers, source),
        first_value(source, "grpc-status"@) == Some(raw),
        status_in(raw) == Some(0u32),
        call_finished(reader, Ok(parts), deadline_passed, r),
    ensures
        r == CallOutcome::Ok((reader.headers@, message, trailers)),
{
    lemma_no_trailers(trailers);
}

/// A status other than zero is the failure of the call, whatever the HTTP
/// status is and whatever the body holds: with the code of the number, with the
/// message, the details and the other trailers, and with the headers of the
/// response. What stands in the headers is not given as trailers too.
pub proof fn law_reported_failure_comes_first(
    reader: GrpcUnaryReader,
    parts: GrpcBody,
    trailers: HeaderContents,
    source: HeaderContents,
    raw: Seq<u8>,
    number: u32,
    code: ErrorCode,
    deadline_passed: bool,
    r: CallOutcome,
)
    requires
        trailers_are(reader, parts, trailers),
        status_stands_in(reader, trailers, source),
        first_value(source, "grpc-status"@) == Some(raw),
        ascii_text(raw) == decimal(number as nat),
        number != 0,
        call_finished(reader, Ok(parts), deadline_passed, r),
    ensures
        r matches Err(e) && (number == code_number(code) ==> e.code == code) && (number > 16 ==> e.code
            == ErrorCode::Unknown) && e.message == Some(message_in(source)) && e.details == details_in(source)
            && e.headers == reader.headers@ && e.trailers == (if !reader.has_body_data && trailers.dom() == Set::<
            Seq<char>,
        >::empty() {
            no_headers()
        } else {
            other_trailers(source)
        }),
{
    lemma_no_trailers(trailers);
    law_status_is_read_back(raw, number);
    let headers = reader.headers@;
    let from_headers = trailers == no_headers() && !reader.has_body_data;
    assert(reported_as(source, headers, from_headers, r));
    let e = choose|e: Option<ErrorView>| #[trigger]
        reported_error(source, e) && e is Some && r == CallOutcome::Err(
            crate::client::grpc_unary::surfaced(e->0, headers, from_headers),
        );
    law_failure_is_reported(source, number, raw, e, code);
}

/// Without a failure that the status reports, an HTTP status that is no success
/// is the failure of the call.
pub proof fn law_http_failure_is_reported(
    reader: GrpcUnaryReader,
    parts: GrpcBody,
    trailers: HeaderContents,
    source: HeaderContents,
    deadline_passed: bool,
    r: CallOutcome,
)
    requires
        !(200 <= status_number(reader.status) < 300),
        trailers_are(reader, parts, trailers),
        status_stands_in(reader, trailers, source),
        first_value(source, "grpc-status"@) is None || first_value(source, "grpc-status"@) == Some(seq![48u8]),
        call_finished(reader, Ok(parts), deadline_passed, r),
    ensures
        r matches Err(e) && e.code == status_code_for(status_number(reader.status)) && e.message == Some(
            "HTTP error "@ + decimal(status_number(reader.status) as nat),
        ) && e.headers == reader.headers@ && e.trailers == no_headers() && e.details.len() == 0,
{
    lemma_no_trailers(trailers);
    law_zero_is_success(seq![48u8]);
}

/// A response without a gRPC status is an error even where all else is there:
/// the deadline has cut it off, or the server broke the protocol.
pub proof fn law_missing_status_fails_the_call(
    reader: GrpcUnaryReader,
    parts: GrpcBody,
    trailers: HeaderContents,
    source: HeaderContents,
    deadline_passed: bool,
    r: CallOutcome,
)
    requires
        200 <= status_number(reader.status) < 300,
        trailers_are(reader, parts, trailers),
        status_stands_in(reader, trailers, source),
        first_value(source, "grpc-status"@) is None,
        call_finished(reader, Ok(parts), deadline_passed, r),
    ensures
        r matches Err(e) && e.headers == reader.headers@ && e.trailers == no_headers() && (deadline_passed ==> e.code
            == ErrorCode::DeadlineExceeded && e.message == Some("request timeout"@)) && (!deadline_passed ==> e.code
            == ErrorCode::Internal && e.message == Some("gRPC response missing grpc-status trailer"@)),
{
    lemma_no_trailers(trailers);
}

/// A response that reports success needs a message, and one within the limit.
pub proof fn law_success_needs_a_message(
    reader: GrpcUnaryReader,
    parts: GrpcBody,
    trailers: HeaderContents,
    source: HeaderContents,
    deadline_passed: bool,
    r: CallOutcome,
)
    requires
        200 <= status_number(reader.status) < 300,
        trailers_are(reader, parts, trailers),
        status_stands_in(reader, trailers, source),
        first_value(source, "grpc-status"@) == Some(seq![48u8]),
        call_finished(reader, Ok(parts), deadline_passed, r),
    ensures
        parts.message is None ==> r == CallOutcome::Err(
            ErrorView {
                headers: reader.headers@,
                ..plain_error(ErrorCode::Unimplemented, "gRPC response contained no message data"@)
            },
        ),
        parts.message matches Some(message) ==> (reader.max_message_size matches Some(max) ==> (message.len() > max
            ==> r == CallOutcome::Err(
            plain_error(
                ErrorCode::ResourceExhausted,
                "message size "@ + decimal(message.len()) + " exceeds limit "@ + decimal(max as nat),
            ),
        ))),
{
    lemma_no_trailers(trailers);
    law_zero_is_success(seq![48u8]);
    reveal_strlit("message");
    reveal_strlit(" size ");
    reveal_strlit("message size ");
    assert("message"@ + " size "@ =~= "message size "@);
}

/// A body that cannot be read is the failure of the call.
pub proof fn law_unreadable_body_fails_the_call(
    reader: GrpcUnaryReader,
    e: ErrorView,
    deadline_passed: bool,
    r: CallOutcome,
)
    requires
        call_finished(reader, Err(e), deadline_passed, r),
    ensures
        r == CallOutcome::Err(e),
{
}

// ---------------------------------------------------------------------------
// Bodies
// ---------------------------------------------------------------------------

/// What stands at the front of a body is the envelope that was put there.
proof fn lemma_message_in_front(
    f: u8,
    payload: Seq<u8>,
    rest: Seq<u8>,
    protocol: Protocol,
    max: nat,
    limit_set: bool,
    headers: HeaderContents,
)
    requires
        f < 128,
        payload.len() <= u32::MAX,
        payload.len() <= max,
    ensures
        crate::client::grpc_unary::front(envelope_bytes(f, payload) + rest, protocol, max, limit_set, headers) == (Front::Message {
            flags: f,
            payload,
            rest,
        }),
{
    let body = envelope_bytes(f, payload) + rest;
    assert(body =~= header_bytes(f, payload.len()) + (payload + rest));
    lemma_header_declares(f, payload.len(), payload + rest);
    lemma_envelope_round_trip(f, payload, rest, max);
    law_flag_bits(f);
}

/// A body with a single message that is not compressed holds just that message.
pub proof fn law_plain_message_is_read(
    registry: RegistryView,
    encoding: Option<Seq<char>>,
    f: u8,
    payload: Seq<u8>,
    protocol: Protocol,
    max: nat,
    limit_set: bool,
    headers: HeaderContents,
    r: Result<GrpcBody, ErrorView>,
)
    requires
        f < 128,
        f % 2 == 0,
        payload.len() <= u32::MAX,
        payload.len() <= max,
        body_read(registry, encoding, envelope_bytes(f, payload), protocol, max, limit_set, headers, r),
    ensures
        r == Ok::<GrpcBody, ErrorView>(GrpcBody { message: Some(payload), trailers: None }),
{
    let none = Seq::<u8>::empty();
    lemma_message_in_front(f, payload, none, protocol, max, limit_set, headers);
    assert(envelope_bytes(f, payload) + none =~= envelope_bytes(f, payload));
    law_flag_bits(f);
}

/// A gRPC-Web body with a message and a trailer frame holds just these.
pub proof fn law_message_and_trailers_are_read(
    registry: RegistryView,
    encoding: Option<Seq<char>>,
    f: u8,
    payload: Seq<u8>,
    list: Seq<(Seq<char>, Seq<char>)>,
    max: nat,
    limit_set: bool,
    headers: HeaderContents,
    r: Result<GrpcBody, ErrorView>,
)
    requires
        f < 128,
        f % 2 == 0,
        payload.len() <= u32::MAX,
        payload.len() <= max,
        can_be_written(list),
        list.len() <= 6553,
        encode_utf8(written_lines(list)).len() <= 1_048_576,
        body_read(
            registry,
            encoding,
            envelope_bytes(f, payload) + envelope_bytes(0x80, encode_utf8(written_lines(list))),
            Protocol::GrpcWeb,
            max,
            limit_set,
            headers,
            r,
        ),
    ensures
        r == Ok::<GrpcBody, ErrorView>(
            GrpcBody { message: Some(payload), trailers: Some(collected(pairs_of(list))) },
        ),
{
    let text = encode_utf8(written_lines(list));
    let frame = envelope_bytes(0x80, text);
    lemma_message_in_front(f, payload, frame, Protocol::GrpcWeb, max, limit_set, headers);
    law_flag_bits(f);
    law_flag_bits(0x80);
    lemma_header_declares(0x80, text.len(), text);
    assert(frame + Seq::<u8>::empty() =~= frame);
    law_trailer_frame_is_read_back(list, Seq::empty(), coding_with(registry, encoding), r->Ok_0.trailers);
}

/// A gRPC-Web body with a trailer frame alone holds no message.
pub proof fn law_trailers_alone_are_read(
    registry: RegistryView,
    encoding: Option<Seq<char>>,
    list: Seq<(Seq<char>, Seq<char>)>,
    max: nat,
    limit_set: bool,
    headers: HeaderContents,
    r: Result<GrpcBody, ErrorView>,
)
    requires
        can_be_written(list),
        list.len() <= 6553,
        encode_utf8(written_lines(list)).len() <= 1_048_576,
        body_read(
            registry,
            encoding,
            envelope_bytes(0x80, encode_utf8(written_lines(list))),
            Protocol::GrpcWeb,
            max,
            limit_set,
            headers,
            r,
        ),
    ensures
        r == Ok::<GrpcBody, ErrorView>(GrpcBody { message: None, trailers: Some(collected(pairs_of(list))) }),
{
    let text = encode_utf8(written_lines(list));
    let frame = envelope_bytes(0x80, text);
    law_flag_bits(0x80);
    lemma_header_declares(0x80, text.len(), text);
    assert(frame + Seq::<u8>::empty() =~= frame);
    law_trailer_frame_is_read_back(list, Seq::empty(), coding_with(registry, encoding), r->Ok_0.trailers);
}

/// A second message is refused, whatever is in it.
pub proof fn law_second_message_is_refused(
    registry: RegistryView,
    encoding: Option<Seq<char>>,
    f: u8,
    payload: Seq<u8>,
    g: u8,
    second: Seq<u8>,
    rest: Seq<u8>,
    protocol: Protocol,
    max: nat,
    limit_set: bool,
    headers: HeaderContents,
    r: Result<GrpcBody, ErrorView>,
)
    requires
        f < 128,
        f % 2 == 0,
        g < 128,
        payload.len() <= u32::MAX,
        payload.len() <= max,
        second.len() <= u32::MAX,
        second.len() <= max,
        body_read(
            registry,
            encoding,
            envelope_bytes(f, payload) + (envelope_bytes(g, second) + rest),
            protocol,
            max,
            limit_set,
            headers,
            r,
        ),
    ensures
        r == Err::<GrpcBody, ErrorView>(
            ErrorView {
                headers,
                ..plain_error(
                    ErrorCode::Unimplemented,
                    "received multiple response messages where exactly one was expected"@,
                )
            },
        ),
{
    let behind = envelope_bytes(g, second) + rest;
    lemma_message_in_front(f, payload, behind, protocol, max, limit_set, headers);
    lemma_message_in_front(g, second, rest, protocol, max, limit_set, headers);
    law_flag_bits(f);
}

/// A message over the limit is refused by its header: for what it is where a
/// limit is set, and as broken framing where only the default applies.
pub proof fn law_large_message_is_refused(
    registry: RegistryView,
    encoding: Option<Seq<char>>,
    f: u8,
    length: nat,
    arrived: Seq<u8>,
    protocol: Protocol,
    max: nat,
    limit_set: bool,
    headers: HeaderContents,
    r: Result<GrpcBody, ErrorView>,
)
    requires
        f < 128,
        max < length <= u32::MAX,
        body_read(registry, encoding, header_bytes(f, length) + arrived, protocol, max, limit_set, headers, r),
    ensures
        limit_set ==> r == Err::<GrpcBody, ErrorView>(
            plain_error(
                ErrorCode::ResourceExhausted,
                "message size "@ + decimal(length) + " exceeds limit "@ + decimal(max),
            ),
        ),
        !limit_set ==> r == Err::<GrpcBody, ErrorView>(
            plain_error(
                ErrorCode::Internal,
                "envelope decode failed: resource_exhausted: message size "@ + decimal(length) + " exceeds limit "@
                    + decimal(max),
            ),
        ),
{
    law_flag_bits(f);
    law_limit_is_inclusive(f, length, max, arrived);
    lemma_header_declares(f, length, arrived);
    reveal_strlit("message");
    reveal_strlit(" size ");
    reveal_strlit("message size ");
    reveal_strlit(": ");
    reveal_strlit("resource_exhausted");
    reveal_strlit("envelope decode failed: ");
    reveal_strlit("envelope decode failed: resource_exhausted: message size ");
    assert("message"@ + " size "@ =~= "message size "@);
    assert("envelope decode failed: "@ + ("resource_exhausted"@ + ": "@ + ("message"@ + " size "@ + decimal(length)
        + " exceeds limit "@ + decimal(max)))
        =~= "envelope decode failed: resource_exhausted: message size "@ + decimal(length) + " exceeds limit "@
        + decimal(max));
}

/// A trailer frame has no place in plain gRPC: the error names its flags in two
/// hexadecimal digits.
pub proof fn law_trailer_frame_breaks_plain_grpc(
    registry: RegistryView,
    encoding: Option<Seq<char>>,
    body: Seq<u8>,
    max: nat,
    limit_set: bool,
    headers: HeaderContents,
    r: Result<GrpcBody, ErrorView>,
)
    requires
        body.len() > 0,
        body[0] >= 128,
        body_read(registry, encoding, body, Protocol::Grpc, max, limit_set, headers, r),
    ensures
        r == Err::<GrpcBody, ErrorView>(
            ErrorView {
                headers,
                ..plain_error(
                    ErrorCode::Internal,
                    "invalid gRPC response framing: envelope flag 0x"@ + seq![
                        "0123456789abcdef"@[(body[0] / 16) as int],
                        "0123456789abcdef"@[(body[0] % 16) as int],
                    ] + " (gRPC-Web trailer marker) is not valid on a plain gRPC response"@,
                )
            },
        ),
{
    law_flag_bits(body[0]);
    law_hex_digits((body[0] / 16) as nat);
    law_hex_digits((body[0] % 16) as nat);
}

/// A body that is empty, or less than an envelope, holds nothing.
pub proof fn law_partial_body_holds_nothing(
    registry: RegistryView,
    encoding: Option<Seq<char>>,
    f: u8,
    payload: Seq<u8>,
    cut: int,
    protocol: Protocol,
    max: nat,
    limit_set: bool,
    headers: HeaderContents,
    r: Result<GrpcBody, ErrorView>,
)
    requires
        f < 128,
        payload.len() <= u32::MAX,
        payload.len() <= max,
        0 <= cut < 5 + payload.len(),
        body_read(registry, encoding, envelope_bytes(f, payload).take(cut), protocol, max, limit_set, headers, r),
    ensures
        r == Ok::<GrpcBody, ErrorView>(GrpcBody { message: None, trailers: None }),
{
    let body = envelope_bytes(f, payload).take(cut);
    lemma_header_declares(f, payload.len(), payload);
    law_flag_bits(f);
    if cut >= 5 {
        assert(crate::envelope::declared_length(body) == payload.len());
    }
}

/// A compressed message needs an encoding that was announced, and one that is
/// not `identity`. What it then decompresses to is the message.
pub proof fn law_compressed_message_needs_an_encoding(
    registry: RegistryView,
    encoding: Option<Seq<char>>,
    f: u8,
    payload: Seq<u8>,
    protocol: Protocol,
    max: nat,
    limit_set: bool,
    headers: HeaderContents,
    r: Result<GrpcBody, ErrorView>,
)
    requires
        f < 128,
        f % 2 == 1,
        payload.len() <= u32::MAX,
        payload.len() <= max,
        body_read(registry, encoding, envelope_bytes(f, payload), protocol, max, limit_set, headers, r),
    ensures
        encoding is None ==> r == Err::<GrpcBody, ErrorView>(
            plain_error(ErrorCode::Internal, "received compressed message without grpc-encoding header"@),
        ),
        encoding == Some("identity"@) ==> r == Err::<GrpcBody, ErrorView>(
            plain_error(ErrorCode::Internal, "received compressed message with identity encoding"@),
        ),
        encoding matches Some(e) ==> (e != "identity"@ ==> match r {
            Ok(parts) => parts.trailers is None && (parts.message matches Some(m) && response_unpacked(
                registry,
                e,
                payload,
                max,
                Outcome::Ok(m),
            )),
            Err(err) => response_unpacked(registry, e, payload, max, Outcome::Err(err)),
        }),
{
    let none = Seq::<u8>::empty();
    lemma_message_in_front(f, payload, none, protocol, max, limit_set, headers);
    assert(envelope_bytes(f, payload) + none =~= envelope_bytes(f, payload));
    law_flag_bits(f);
    let unpacked = choose|unpacked: Outcome| #[trigger]
        message_unpacked(registry, encoding, f, payload, max, unpacked) && body_with_message(
            unpacked,
            none,
            protocol,
            max,
            limit_set,
            coding_with(registry, encoding),
            headers,
            r,
        );
    assert(message_unpacked(registry, encoding, f, payload, max, unpacked));
}

/// Responses can be read that are not compressed, that say so, or whose
/// encoding is registered, and no others.
pub proof fn law_known_encodings_can_be_decoded(registry: RegistryView, encoding: Seq<char>)
    ensures
        can_decode(registry, None),
        can_decode(registry, Some("identity"@)),
        registry.providers.contains_key(encoding) ==> can_decode(registry, Some(encoding)),
        !registry.providers.contains_key(encoding) && encoding != "identity"@ ==> !can_decode(registry, Some(encoding)),
{
}

// ---------------------------------------------------------------------------
// Whole calls
// ---------------------------------------------------------------------------

/// A gRPC response with a message of any length within the limit, and with a
/// status of zero in the HTTP trailers, hands out that message.
pub proof fn law_grpc_call_succeeds(
    reader: GrpcUnaryReader,
    registry: RegistryView,
    encoding: Option<Seq<char>>,
    message: Seq<u8>,
    max: nat,
    limit_set: bool,
    deadline_passed: bool,
    r: CallOutcome,
)
    requires
        200 <= status_number(reader.status) < 300,
        reader.protocol is Grpc,
        reader.has_body_data,
        first_value(reader.trailers@, "grpc-status"@) == Some(seq![48u8]),
        message.len() <= u32::MAX,
        message.len() <= max,
        keeps_to_limit(reader, message),
        call_outcome(
            reader,
            registry,
            encoding,
            envelope_bytes(0, message),
            max,
            limit_set,
            deadline_passed,
            r,
        ),
    ensures
        r == CallOutcome::Ok((reader.headers@, message, reader.trailers@)),
{
    let (protocol, headers, body) = (reader.protocol, reader.headers@, envelope_bytes(0, message));
    let parts = choose|parts: Result<GrpcBody, ErrorView>| #[trigger]
        body_read(registry, encoding, body, protocol, max, limit_set, headers, parts) && call_finished(
            reader,
            parts,
            deadline_passed,
            r,
        );
    law_plain_message_is_read(registry, encoding, 0, message, protocol, max, limit_set, headers, parts);
    law_zero_is_success(seq![48u8]);
    law_complete_response_is_a_success(
        reader,
        parts->Ok_0,
        message,
        reader.trailers@,
        reader.trailers@,
        seq![48u8],
        deadline_passed,
        r,
    );
}

/// A gRPC-Web response with a message of any length within the limit, and with
/// a status of zero in its trailer frame, hands out that message and these
/// trailers.
pub proof fn law_grpc_web_call_succeeds(
    reader: GrpcUnaryReader,
    registry: RegistryView,
    encoding: Option<Seq<char>>,
    message: Seq<u8>,
    list: Seq<(Seq<char>, Seq<char>)>,
    max: nat,
    limit_set: bool,
    deadline_passed: bool,
    r: CallOutcome,
)
    requires
        200 <= status_number(reader.status) < 300,
        reader.protocol is GrpcWeb,
        reader.has_body_data,
        can_be_written(list),
        list.len() <= 6553,
        encode_utf8(written_lines(list)).len() <= 1_048_576,
        first_value(collected(pairs_of(list)), "grpc-status"@) == Some(seq![48u8]),
        message.len() <= u32::MAX,
        message.len() <= max,
        keeps_to_limit(reader, message),
        call_outcome(
            reader,
            registry,
            encoding,
            envelope_bytes(0, message) + envelope_bytes(0x80, encode_utf8(written_lines(list))),
            max,
            limit_set,
            deadline_passed,
            r,
        ),
    ensures
        r == CallOutcome::Ok((reader.headers@, message, collected(pairs_of(list)))),
{
    let (protocol, headers) = (reader.protocol, reader.headers@);
    let body = envelope_bytes(0, message) + envelope_bytes(0x80, encode_utf8(written_lines(list)));
    let parts = choose|parts: Result<GrpcBody, ErrorView>| #[trigger]
        body_read(registry, encoding, body, protocol, max, limit_set, headers, parts) && call_finished(
            reader,
            parts,
            deadline_passed,
            r,
        );
    law_message_and_trailers_are_read(registry, encoding, 0, message, list, max, limit_set, headers, parts);
    law_zero_is_success(seq![48u8]);
    law_complete_response_is_a_success(
        reader,
        parts->Ok_0,
        message,
        collected(pairs_of(list)),
        collected(pairs_of(list)),
        seq![48u8],
        deadline_passed,
        r,
    );
}

// ---------------------------------------------------------------------------
// Data
// ---------------------------------------------------------------------------

/// Data within the limit is put behind what has arrived. A body is only over
/// once a trailer frame of gRPC-Web is whole.
pub proof fn law_data_within_the_limit_is_kept(
    before: GrpcUnaryReader,
    data: Seq<u8>,
    after: GrpcUnaryReader,
    r: Result<bool, ConnectError>,
)
    requires
        before.buf@.len() + data.len() <= before.max_buf_size,
        !(before.protocol is GrpcWeb) || trailer_end(before.buf@ + data) is None,
        data_taken(before, data, after, r),
    ensures
        r matches Ok(done) && !done,
        after.buf@ == before.buf@ + data,
        after.has_body_data == (before.has_body_data || data.len() > 0),
        after.status == before.status,
        after.headers == before.headers,
        after.encoding == before.encoding,
        after.protocol == before.protocol,
        after.max_message_size == before.max_message_size,
        after.max_buf_size == before.max_buf_size,
        after.trailers == before.trailers,
{
}

/// Data over the limit is refused, where no trailer frame has ended the body.
pub proof fn law_data_over_the_limit_is_refused(
    before: GrpcUnaryReader,
    data: Seq<u8>,
    after: GrpcUnaryReader,
    r: Result<bool, ConnectError>,
)
    requires
        before.buf@.len() + data.len() > before.max_buf_size,
        data.len() > 0,
        !(before.protocol is GrpcWeb),
        data_taken(before, data, after, r),
    ensures
        r matches Err(e) && e@ == plain_error(
            ErrorCode::ResourceExhausted,
            "response body size exceeds limit "@ + decimal(before.max_buf_size as nat),
        ),
{
}

/// A gRPC-Web body ends with its trailer frame: what comes behind it is
/// dropped, and is held to no limit.
pub proof fn law_trailer_frame_ends_the_body(
    before: GrpcUnaryReader,
    f: u8,
    payload: Seq<u8>,
    g: u8,
    text: Seq<u8>,
    more: Seq<u8>,
    after: GrpcUnaryReader,
    r: Result<bool, ConnectError>,
)
    requires
        before.protocol is GrpcWeb,
        before.buf@.len() == 0,
        f < 128,
        g >= 128,
        payload.len() <= u32::MAX,
        text.len() <= u32::MAX,
        10 + payload.len() + text.len() <= before.max_buf_size,
        data_taken(before, envelope_bytes(f, payload) + (envelope_bytes(g, text) + more), after, r),
    ensures
        r matches Ok(done) && done,
        after.buf@ == envelope_bytes(f, payload) + envelope_bytes(g, text),
{
    let data = envelope_bytes(f, payload) + (envelope_bytes(g, text) + more);
    let whole = envelope_bytes(f, payload) + envelope_bytes(g, text);
    lemma_header_declares(f, payload.len(), payload);
    lemma_header_declares(g, text.len(), text);
    let kept = if data.len() <= before.max_buf_size {
        more
    } else {
        more.take(before.max_buf_size - whole.len())
    };
    let taken = envelope_bytes(f, payload) + (envelope_bytes(g, text) + kept);
    law_trailer_frame_is_found(f, payload, envelope_bytes(g, text) + kept);
    law_trailer_frame_is_found(g, text, kept);
    if data.len() > before.max_buf_size {
        assert(data.take(before.max_buf_size as int) =~= taken);
    }
    assert(before.buf@ + taken =~= taken);
    assert(taken.take(whole.len() as int) =~= whole);
}

/// A response in an encoding that cannot be read is the server's fault. The
/// error names the encoding and carries the headers.
pub proof fn law_unsupported_encoding(encoding: Seq<char>, headers: HeaderContents)
    ensures
        unsupported_encoding(encoding, headers).code == ErrorCode::Internal,
        unsupported_encoding(encoding, headers).message == Some("unsupported response compression: "@ + encoding),
        unsupported_encoding(encoding, headers).headers == headers,
        unsupported_encoding(encoding, headers).trailers == no_headers(),
{
}

/// A limit that a `usize` holds is that limit, and a larger one the largest.
pub proof fn law_limits_saturate(n: nat)
    ensures
        n <= usize::MAX ==> saturated(n) == n,
        n > usize::MAX ==> saturated(n) == usize::MAX,
{
}

/// What is less than an envelope behind a message does not take the message
/// away.
pub proof fn law_cut_rest_is_dropped(
    registry: RegistryView,
    encoding: Option<Seq<char>>,
    f: u8,
    payload: Seq<u8>,
    rest: Seq<u8>,
    protocol: Protocol,
    max: nat,
    limit_set: bool,
    headers: HeaderContents,
    r: Result<GrpcBody, ErrorView>,
)
    requires
        f < 128,
        f % 2 == 0,
        payload.len() <= u32::MAX,
        payload.len() <= max,
        0 < rest.len() < 5,
        rest[0] < 128,
        body_read(registry, encoding, envelope_bytes(f, payload) + rest, protocol, max, limit_set, headers, r),
    ensures
        r == Ok::<GrpcBody, ErrorView>(GrpcBody { message: Some(payload), trailers: None }),
{
    lemma_message_in_front(f, payload, rest, protocol, max, limit_set, headers);
    law_flag_bits(f);
    law_flag_bits(rest[0]);
}

} // verus!
