//! Laws on responses of the Connect protocol.
use bytes::Bytes;
use http::HeaderMap;
use vstd::prelude::*;

use crate::client::body::body_over_limit;
use crate::client::body::error_body;
use crate::client::body::failure;
use crate::client::body::limit_or_default;
use crate::client::body::refuses;
use crate::client::body::status_only_error;
use crate::client::body::FailedResponse;
use crate::client::client_stream::body_scanned;
use crate::client::client_stream::client_stream_outcome;
use crate::client::client_stream::end_complaint;
use crate::client::client_stream::enveloped_data;
use crate::client::client_stream::message_complaint;
use crate::client::client_stream::with_end;
use crate::client::client_stream::with_message;
use crate::client::client_stream::BodyScan;
use crate::client::client_stream::ScannedBody;
use crate::client::status::status_code_for;
use crate::client::status::wire_error;
use crate::client::status::ClientEndStreamResponse;
use crate::client::status::ConnectErrorResponse;
use crate::client::trailers::metadata_headers;
use crate::client::unary::connect_type_outcome;
use crate::client::unary::decode_error;
use crate::client::unary::response_unpacked;
use crate::client::unary::unary_message;
use crate::client::unary::DecodeFailure;
use crate::codec::format_name;
use crate::codec::CodecFormat;
use crate::compression::registry::registry_decompresses;
use crate::compression::registry::RegistryView;
use crate::compression::Outcome;
use crate::envelope::envelope_bytes;
use crate::envelope::header_bytes;
use crate::envelope::lemma_envelope_round_trip;
use crate::envelope::lemma_header_declares;
use crate::error::plain_error;
use crate::error::ConnectError;
use crate::error::ErrorCode;
use crate::error::ErrorView;
use crate::headers::ascii_text;
use crate::headers::collected;
use crate::headers::first_value;
use crate::headers::is_visible_text;
use crate::headers::joined_headers;
use crate::headers::no_headers;
use crate::headers::status_number;
use crate::headers::HeaderContents;
use crate::headers::HeadersView;
use crate::laws::framing::law_flag_bits;
use crate::laws::framing::law_limit_is_inclusive;
use crate::laws::protocols::law_content_types_are_made_up;
use crate::laws::trailers::law_capped_takes_what_fits;
use crate::text::begins_with;
use crate::text::decimal;
use crate::text::lossy_text;

verus! {

// ---------------------------------------------------------------------------
// Responses with one message
// ---------------------------------------------------------------------------

/// A successful response is accepted where its content type begins with that of
/// the format that was asked for, so that parameters do not matter, or where it
/// has none.
pub proof fn law_expected_connect_type_is_accepted(h: HeaderContents, value: Seq<u8>, format: CodecFormat)
    ensures
        first_value(h, "content-type"@) is None ==> connect_type_outcome(h, format) is Ok,
        first_value(h, "content-type"@) == Some(value) && is_visible_text(value) && begins_with(
            ascii_text(value),
            "application/"@ + format_name(format),
        ) ==> connect_type_outcome(h, format) is Ok,
{
    law_content_types_are_made_up(format, false);
}

/// A successful response of another content type is refused: as the server's
/// fault where it is that of the other format, and else as no response of the
/// protocol.
pub proof fn law_other_connect_type_is_refused(
    h: HeaderContents,
    value: Seq<u8>,
    format: CodecFormat,
    other: CodecFormat,
)
    requires
        first_value(h, "content-type"@) == Some(value),
        is_visible_text(value),
        !begins_with(ascii_text(value), "application/"@ + format_name(format)),
        other != format,
    ensures
        begins_with(ascii_text(value), "application/"@ + format_name(other)) ==> connect_type_outcome(h, format)
            == Err::<(), ErrorView>(
            plain_error(ErrorCode::Internal, "unexpected content-type: "@ + ascii_text(value)),
        ),
        !begins_with(ascii_text(value), "application/"@ + format_name(other)) ==> connect_type_outcome(h, format)
            == Err::<(), ErrorView>(
            plain_error(ErrorCode::Unknown, "unexpected content-type: "@ + ascii_text(value)),
        ),
{
    law_content_types_are_made_up(format, false);
    law_content_types_are_made_up(other, false);
}

/// A body that is not compressed is the message, as long as it keeps to the
/// limit; an empty body is an empty message.
pub proof fn law_plain_body_is_the_message(registry: RegistryView, body: Seq<u8>, max: nat, r: Outcome)
    requires
        unary_message(registry, None, body, max, r),
    ensures
        body.len() <= max ==> r == Outcome::Ok(body),
        body.len() > max ==> r == Outcome::Err(
            plain_error(
                ErrorCode::ResourceExhausted,
                "message size "@ + decimal(body.len()) + " exceeds limit "@ + decimal(max),
            ),
        ),
{
    lemma_message_size_text();
}

/// What an error says of a message over its limit.
proof fn lemma_message_size_text()
    ensures
        "message"@ + " size "@ == "message size "@,
{
    reveal_strlit("message");
    reveal_strlit(" size ");
    reveal_strlit("message size ");
    assert("message"@ + " size "@ =~= "message size "@);
}

/// A compressed body is what it decompresses to, and an error of decompression
/// is passed on.
pub proof fn law_compressed_body_is_unpacked(
    registry: RegistryView,
    encoding: Seq<char>,
    body: Seq<u8>,
    max: nat,
    r: Outcome,
)
    requires
        unary_message(registry, Some(encoding), body, max, r),
    ensures
        r matches Ok(message) ==> message.len() <= max && response_unpacked(
            registry,
            encoding,
            body,
            max,
            Outcome::Ok(message),
        ),
{
    let unpacked = choose|unpacked: Outcome| #[trigger]
        response_unpacked(registry, encoding, body, max, unpacked) && r == crate::client::unary::within(unpacked, max);
    assert(response_unpacked(registry, encoding, body, max, unpacked));
}

/// A message that cannot be decoded is the server's fault.
pub proof fn law_undecodable_message_is_the_servers_fault(failure: DecodeFailure)
    ensures
        decode_error(failure).code == ErrorCode::Internal,
        failure matches DecodeFailure::Proto(cause) ==> decode_error(failure).message == Some(
            "failed to decode response: "@ + cause@,
        ),
        failure matches DecodeFailure::Json(cause) ==> decode_error(failure).message == Some(
            "failed to decode JSON response: "@ + cause@,
        ),
        failure matches DecodeFailure::View(cause) ==> decode_error(failure).message == Some(
            "failed to re-encode for view: "@ + cause@,
        ),
{
}

// ---------------------------------------------------------------------------
// Failed responses
// ---------------------------------------------------------------------------

/// What a server says of a failure is what the caller is told, with the
/// metadata of the response. The status only gives a code where the server
/// gives none.
pub proof fn law_failure_says_what_the_server_says(
    response: FailedResponse,
    body: Seq<u8>,
    error: ConnectErrorResponse,
)
    ensures
        failure(response, Some(body), Some(error)) == (ErrorView {
            headers: response.headers@,
            trailers: response.trailers@,
            ..wire_error(error, status_code_for(status_number(response.status)))
        }),
{
}

/// A failure without a readable error is told by its status. For a request with
/// one message the body is shown.
pub proof fn law_failure_falls_back_on_the_status(
    response: FailedResponse,
    body: Option<Seq<u8>>,
    parsed: Option<ConnectErrorResponse>,
)
    requires
        body is None || parsed is None,
    ensures
        failure(response, body, parsed).code == status_code_for(status_number(response.status)),
        failure(response, body, parsed).headers == response.headers@,
        failure(response, body, parsed).trailers == response.trailers@,
        failure(response, body, parsed).details.len() == 0,
        failure(response, body, parsed).message == Some(
            (if response.unary && body is Some {
                "HTTP error "@ + decimal(status_number(response.status) as nat) + ": "@ + lossy_text(body->0)
            } else {
                "HTTP error "@ + decimal(status_number(response.status) as nat)
            }),
        ),
{
}

/// A response that is known only by its status is told by it.
pub proof fn law_status_alone(status: u16, headers: HeaderContents)
    ensures
        status_only_error(status, headers).code == status_code_for(status),
        status_only_error(status, headers).message == Some("HTTP error "@ + decimal(status as nat)),
        status_only_error(status, headers).headers == headers,
{
}

/// The body of a failed response that is not compressed is read as it is.
pub proof fn law_plain_error_body_is_read(registry: RegistryView, body: Seq<u8>, max: nat, r: Option<Seq<u8>>)
    requires
        error_body(registry, None, body, max, r),
    ensures
        r == Some(body),
{
}

/// The limit that holds where none is set is 4 MiB.
pub proof fn law_default_limit(max: usize)
    ensures
        limit_or_default(None) == 4_194_304,
        limit_or_default(Some(max)) == max,
        body_over_limit(max as nat) == plain_error(
            ErrorCode::ResourceExhausted,
            "response body size exceeds limit "@ + decimal(max as nat),
        ),
{
}

// ---------------------------------------------------------------------------
// Responses to a stream of requests
// ---------------------------------------------------------------------------

/// Nothing before a collection is that collection.
proof fn lemma_joined_behind_nothing(h: HeaderContents)
    ensures
        joined_headers(no_headers(), h) == h,
        no_headers().dom().finite(),
        no_headers().dom().len() == 0,
{
    assert forall|n: Seq<char>| h.contains_key(n) implies joined_headers(no_headers(), h)[n] == h[n] by {
        assert(joined_headers(no_headers(), h)[n] =~= h[n]);
    }
    assert(joined_headers(no_headers(), h) =~= h);
    assert(no_headers().dom() =~= Set::<Seq<char>>::empty());
}

/// A message, an empty one too, and a last envelope without an error are a
/// success: with that message, and with the metadata as trailers.
pub proof fn law_message_and_clean_end_succeed(
    message: Bytes,
    said: ClientEndStreamResponse,
    headers: HeaderContents,
    r: Result<(Bytes, HeaderMap), ConnectError>,
)
    requires
        said.error is None,
        client_stream_outcome(Some(message), Some(Ok(said)), headers, r),
    ensures
        r matches Ok(done) && done.0 == message && (said.metadata is None ==> done.1@ == no_headers()) && (said.metadata
            matches Some(m) ==> (metadata_headers(m@).len() <= 6553 ==> done.1@ == collected(metadata_headers(m@)))),
{
    if let Some(m) = said.metadata {
        if metadata_headers(m@).len() <= 6553 {
            lemma_joined_behind_nothing(collected(metadata_headers(m@)));
            law_capped_takes_what_fits(no_headers(), metadata_headers(m@), r->Ok_0.1@);
        }
    }
}

/// A last envelope with an error is a failure, whether or not a message came:
/// with the code, the message and the details that it gives, with the headers
/// of the response, and with the metadata as trailers.
pub proof fn law_error_in_last_envelope_fails(
    message: Option<Bytes>,
    said: ClientEndStreamResponse,
    headers: HeaderContents,
    r: Result<(Bytes, HeaderMap), ConnectError>,
)
    requires
        said.error is Some,
        client_stream_outcome(message, Some(Ok(said)), headers, r),
    ensures
        r matches Err(e) && e@.code == wire_error(said.error->0, ErrorCode::Unknown).code && e@.message == wire_error(
            said.error->0,
            ErrorCode::Unknown,
        ).message && e@.details == wire_error(said.error->0, ErrorCode::Unknown).details && e@.headers == headers && (
        said.metadata is None ==> e@.trailers == no_headers()) && (said.metadata matches Some(m) ==> (metadata_headers(
            m@,
        ).len() <= 6553 ==> e@.trailers == collected(metadata_headers(m@)))),
{
    if let Some(m) = said.metadata {
        if metadata_headers(m@).len() <= 6553 {
            lemma_joined_behind_nothing(collected(metadata_headers(m@)));
            law_capped_takes_what_fits(no_headers(), metadata_headers(m@), r->Err_0@.trailers);
        }
    }
}

/// Without a message, without a last envelope, or with one that cannot be read,
/// there is an error that says so.
pub proof fn law_incomplete_response_fails(
    message: Option<Bytes>,
    end: Option<Result<ClientEndStreamResponse, String>>,
    headers: HeaderContents,
    r: Result<(Bytes, HeaderMap), ConnectError>,
)
    requires
        client_stream_outcome(message, end, headers, r),
    ensures
        message is Some && end is None ==> r is Err && r->Err_0@ == plain_error(
            ErrorCode::Internal,
            "Connect streaming response ended without END_STREAM envelope"@,
        ),
        message is None && (end is None || (end->0 matches Ok(said) && said.error is None)) ==> r is Err && r->Err_0@
            == plain_error(ErrorCode::Unimplemented, "client streaming response contains no data messages"@),
        end matches Some(Err(cause)) ==> r is Err && r->Err_0@ == (ErrorView {
            headers,
            ..plain_error(
                ErrorCode::Internal,
                "protocol error: malformed Connect END_STREAM JSON: "@ + cause@,
            )
        }),
{
}

/// A second message is refused.
pub proof fn law_second_message_of_a_stream_is_refused(
    registry: RegistryView,
    encoding: Option<Seq<char>>,
    f: u8,
    message: Seq<u8>,
    g: u8,
    second: Seq<u8>,
    tail: Seq<u8>,
    max: nat,
    r: BodyScan,
)
    requires
        f % 4 == 0,
        g / 2 % 2 == 0,
        message.len() <= max,
        message.len() <= u32::MAX,
        second.len() <= max,
        second.len() <= u32::MAX,
        body_scanned(
            registry,
            encoding,
            envelope_bytes(f, message) + (envelope_bytes(g, second) + tail),
            max,
            r,
        ),
    ensures
        r == BodyScan::Err(
            plain_error(
                ErrorCode::Unimplemented,
                "client streaming response contains multiple data messages"@,
            ),
        ),
{
    let rest = envelope_bytes(g, second) + tail;
    lemma_envelope_round_trip(f, message, rest, max);
    lemma_envelope_round_trip(g, second, tail, max);
    law_flag_bits(f);
    law_flag_bits(g);
    assert(f % 2 == 0 && f / 2 % 2 == 0);
}

/// A last envelope in front is read as such, without a message; and a message
/// alone is read without a last envelope.
pub proof fn law_parts_of_a_stream_are_read(
    registry: RegistryView,
    encoding: Option<Seq<char>>,
    f: u8,
    payload: Seq<u8>,
    tail: Seq<u8>,
    max: nat,
    r: BodyScan,
)
    requires
        payload.len() <= max,
        payload.len() <= u32::MAX,
        body_scanned(registry, encoding, envelope_bytes(f, payload) + tail, max, r),
    ensures
        f % 4 == 2 ==> r == BodyScan::Ok(ScannedBody { message: None, end_stream: Some(payload) }),
        f % 4 == 0 && tail.len() < 5 ==> r == BodyScan::Ok(
            ScannedBody { message: Some(payload), end_stream: None },
        ),
{
    lemma_envelope_round_trip(f, payload, tail, max);
    law_flag_bits(f);
    assert(f % 4 == 2 ==> f % 2 == 0 && f / 2 % 2 == 1);
    assert(f % 4 == 0 ==> f % 2 == 0 && f / 2 % 2 == 0);
}

/// An envelope over the limit is refused by its header.
pub proof fn law_large_envelope_of_a_stream_is_refused(
    registry: RegistryView,
    encoding: Option<Seq<char>>,
    f: u8,
    length: nat,
    arrived: Seq<u8>,
    max: nat,
    r: BodyScan,
)
    requires
        max < length <= u32::MAX,
        body_scanned(registry, encoding, header_bytes(f, length) + arrived, max, r),
    ensures
        r == BodyScan::Err(
            plain_error(
                ErrorCode::ResourceExhausted,
                "message size "@ + decimal(length) + " exceeds limit "@ + decimal(max),
            ),
        ),
{
    law_limit_is_inclusive(f, length, max, arrived);
    lemma_message_size_text();
}

/// A compressed envelope needs an encoding that was announced.
pub proof fn law_compressed_envelope_needs_an_encoding(
    registry: RegistryView,
    f: u8,
    payload: Seq<u8>,
    tail: Seq<u8>,
    max: nat,
    r: BodyScan,
)
    requires
        f % 2 == 1,
        payload.len() <= max,
        payload.len() <= u32::MAX,
        body_scanned(registry, None, envelope_bytes(f, payload) + tail, max, r),
    ensures
        r == BodyScan::Err(
            plain_error(
                ErrorCode::Internal,
                if f / 2 % 2 == 1 {
                    "received compressed END_STREAM without encoding header"@
                } else {
                    "received compressed message without encoding header"@
                },
            ),
        ),
{
    lemma_envelope_round_trip(f, payload, tail, max);
    law_flag_bits(f);
    let encoding = None::<Seq<char>>;
    if f / 2 % 2 == 1 {
        let complaint = end_complaint();
        let data = choose|data: Outcome| #[trigger]
            enveloped_data(registry, encoding, f, payload, max, complaint, data) && r == with_end(None, data);
        assert(enveloped_data(registry, encoding, f, payload, max, complaint, data));
    } else {
        let complaint = message_complaint();
        let data = choose|data: Outcome| #[trigger]
            enveloped_data(registry, encoding, f, payload, max, complaint, data) && with_message(
                registry,
                encoding,
                data,
                tail,
                max,
                r,
            );
        assert(enveloped_data(registry, encoding, f, payload, max, complaint, data));
    }
}

/// A compressed body of a failed response is read as what it decompresses to,
/// and left unread only where it cannot be decompressed.
pub proof fn law_compressed_error_body_is_unpacked(
    registry: RegistryView,
    encoding: Seq<char>,
    body: Seq<u8>,
    max: nat,
    r: Option<Seq<u8>>,
)
    requires
        error_body(registry, Some(encoding), body, max, r),
    ensures
        r matches Some(bytes) ==> registry_decompresses(registry, encoding, body, max, Outcome::Ok(bytes)),
        r is None ==> exists|e: ErrorView| #[trigger]
            registry_decompresses(registry, encoding, body, max, Outcome::Err(e)),
{
    if r is None {
        assert(refuses(registry, encoding, body, max));
        let refused = choose|refused: Outcome| #[trigger]
            registry_decompresses(registry, encoding, body, max, refused) && refused is Err;
        assert(registry_decompresses(registry, encoding, body, max, Outcome::Err(refused->Err_0)));
    }
}

/// A message that decompresses to more than the limit is refused.
pub proof fn law_unpacked_message_of_a_stream_keeps_to_the_limit(
    registry: RegistryView,
    encoding: Option<Seq<char>>,
    message: Seq<u8>,
    rest: Seq<u8>,
    max: nat,
    r: BodyScan,
)
    requires
        with_message(registry, encoding, Ok(message), rest, max, r),
    ensures
        message.len() > max ==> r == BodyScan::Err(
            plain_error(
                ErrorCode::ResourceExhausted,
                "message size "@ + decimal(message.len()) + " exceeds limit "@ + decimal(max),
            ),
        ),
        message.len() <= max && rest.len() < 5 ==> r == BodyScan::Ok(
            ScannedBody { message: Some(message), end_stream: None },
        ),
{
    lemma_message_size_text();
}

/// A body that is empty, or less than an envelope, holds neither a message nor a
/// last envelope.
pub proof fn law_partial_stream_holds_nothing(
    registry: RegistryView,
    encoding: Option<Seq<char>>,
    f: u8,
    payload: Seq<u8>,
    cut: int,
    max: nat,
    r: BodyScan,
)
    requires
        payload.len() <= max,
        payload.len() <= u32::MAX,
        0 <= cut < 5 + payload.len(),
        body_scanned(registry, encoding, envelope_bytes(f, payload).take(cut), max, r),
    ensures
        r == BodyScan::Ok(ScannedBody { message: None, end_stream: None }),
{
    let body = envelope_bytes(f, payload).take(cut);
    lemma_header_declares(f, payload.len(), payload);
    if cut >= 5 {
        assert(crate::envelope::declared_length(body) == payload.len());
    }
}

} // verus!
