//! gRPC and gRPC-Web responses that hold one message: an envelope, and a
//! status in the trailers. The trailers of gRPC-Web come as a frame of their
//! own at the end of the body.
use bytes::Bytes;
use bytes::BytesMut;
use http::HeaderMap;
use http::StatusCode;
use vstd::prelude::*;

use crate::buffer::BufferView;
use crate::client::body::body_limit_error;
use crate::client::body::body_over_limit;
use crate::client::body::body_read_error;
use crate::client::body::http_status_error;
use crate::client::body::limit_or_default;
use crate::client::body::message_limit;
use crate::client::body::status_only_error;
use crate::client::body::visible_string;
use crate::client::config::CallOptions;
use crate::client::config::ClientConfig;
use crate::client::status::content_type_outcome;
use crate::client::status::lemma_status_names;
use crate::client::status::opt_error;
use crate::client::status::parse_grpc_error_from_trailers;
use crate::client::status::reported_error;
use crate::client::status::status_in;
use crate::client::status::validate_grpc_response_content_type;
use crate::client::status::visible_value;
use crate::client::trailers::frame_trailers;
use crate::client::trailers::grpc_web_trailer_frame_end;
use crate::client::trailers::lemma_trailer_end_stays;
use crate::client::trailers::opt_headers;
use crate::client::trailers::parse_grpc_web_trailer_frame_with_compression;
use crate::client::trailers::trailer_end;
use crate::client::unary::lemma_unpacked_is_sent;
use crate::client::unary::response_unpacked;
use crate::client::unary::unpack_response;
use crate::compression::outcome_view;
use crate::compression::registry::built_in;
use crate::compression::registry::surely_decodes;
use crate::compression::registry::RegistryView;
use crate::compression::CompressionRegistry;
use crate::compression::Outcome;
use crate::envelope::encoder::encoder_compresses;
use crate::envelope::encoder::payload_for;
use crate::envelope::encoder::Coding;
use crate::envelope::encoder::EncoderView;
use crate::envelope::encoder::Payload;
use crate::envelope::envelope_bytes;
use crate::envelope::flags;
use crate::envelope::lemma_envelope_round_trip;
use crate::envelope::lemma_header_declares;
use crate::envelope::marks_compressed;
use crate::envelope::marks_web_trailer;
use crate::envelope::over_limit_error;
use crate::envelope::over_limit_text;
use crate::envelope::scanned;
use crate::envelope::Envelope;
use crate::envelope::Scan;
use crate::envelope::HEADER_SIZE;
use crate::error::error_text;
use crate::error::opt_text;
use crate::error::plain_error;
use crate::error::ConnectError;
use crate::error::ErrorCode;
use crate::error::ErrorView;
use crate::headers::first_value;
use crate::headers::header_map_clone;
use crate::headers::header_map_get;
use crate::headers::header_map_is_empty;
use crate::headers::header_map_new;
use crate::headers::is_success_number;
use crate::headers::no_headers;
use crate::headers::status_is_success;
use crate::headers::status_number;
use crate::headers::HeaderContents;
use crate::headers::HeadersView;
use crate::protocol::Protocol;
use crate::text::low_hex_digit;
use crate::text::str_eq;

verus! {

/// Room in a response buffer beyond the message itself, for a gRPC-Web trailer
/// frame: 64 KiB.
pub const RESPONSE_BUFFER_TRAILER_SLACK: usize = 65_536;

/// A number, but not above what a `usize` holds.
pub open spec fn saturated(n: nat) -> usize {
    if n <= usize::MAX {
        n as usize
    } else {
        usize::MAX
    }
}

/// A gRPC response, while its body is read.
#[derive(Debug)]
pub struct GrpcUnaryReader {
    /// The status of the response.
    pub status: StatusCode,
    /// Its headers.
    pub headers: HeaderMap,
    /// The encoding of its messages.
    pub encoding: Option<String>,
    /// Whether it is gRPC or gRPC-Web.
    pub protocol: Protocol,
    /// The limit on its message, if one is set.
    pub max_message_size: Option<usize>,
    /// The limit on its body.
    pub max_buf_size: usize,
    /// What of the body has arrived.
    pub buf: BytesMut,
    /// The HTTP trailers that have arrived.
    pub trailers: HeaderMap,
    /// Whether any byte of a body has arrived.
    pub has_body_data: bool,
}

/// Whether messages in an encoding can be read.
pub open spec fn can_decode(registry: RegistryView, encoding: Option<Seq<char>>) -> bool {
    match encoding {
        Some(e) => e == "identity"@ || registry.providers.contains_key(e),
        None => true,
    }
}

/// The error for an encoding that is not supported.
pub open spec fn unsupported_encoding(encoding: Seq<char>, headers: HeaderContents) -> ErrorView {
    ErrorView { headers, ..plain_error(ErrorCode::Internal, "unsupported response compression: "@ + encoding) }
}

// ---------------------------------------------------------------------------
// The frames of a body
// ---------------------------------------------------------------------------

/// What is at the front of a body.
pub enum Front {
    /// Nothing, or not all of an envelope.
    End,
    /// A trailer frame.
    Trailers,
    /// Something that must not be there.
    Bad { error: ErrorView },
    /// An envelope, and what comes behind it.
    Message { flags: u8, payload: Seq<u8>, rest: Seq<u8> },
}

/// A byte as two hexadecimal digits.
pub open spec fn hex_byte(b: u8) -> Seq<char> {
    seq![low_hex_digit((b / 16) as nat), low_hex_digit((b % 16) as nat)]
}

/// The error for a trailer frame where there is no such frame.
pub open spec fn framing_error(flags: u8, headers: HeaderContents) -> ErrorView {
    ErrorView {
        headers,
        ..plain_error(
            ErrorCode::Internal,
            "invalid gRPC response framing: envelope flag 0x"@ + hex_byte(flags)
                + " (gRPC-Web trailer marker) is not valid on a plain gRPC response"@,
        )
    }
}

/// The error for a message that its envelope says to be over the limit. Where no
/// limit is set, and so the default applies, the framing is taken to be broken.
pub open spec fn declared_too_large(length: nat, max: nat, limit_set: bool) -> ErrorView {
    let over = plain_error(ErrorCode::ResourceExhausted, over_limit_text("message"@, length, max));
    if limit_set {
        over
    } else {
        plain_error(ErrorCode::Internal, "envelope decode failed: "@ + error_text(over))
    }
}

/// What is at the front of a body. A set high bit marks a trailer frame, which
/// only gRPC-Web has.
pub open spec fn front(
    body: Seq<u8>,
    protocol: Protocol,
    max: nat,
    limit_set: bool,
    headers: HeaderContents,
) -> Front {
    if body.len() == 0 {
        Front::End
    } else if marks_web_trailer(body[0]) {
        if protocol == Protocol::GrpcWeb {
            Front::Trailers
        } else {
            Front::Bad { error: framing_error(body[0], headers) }
        }
    } else {
        match scanned(body, max) {
            Scan::Partial => Front::End,
            Scan::TooLarge { length } => Front::Bad { error: declared_too_large(length, max, limit_set) },
            Scan::Whole { flags, payload, rest } => Front::Message { flags, payload, rest },
        }
    }
}

/// What is at the front of a body, with the envelope taken out of it.
enum FrontStep {
    End,
    Trailers,
    Bad(ConnectError),
    Message(Envelope),
}

spec fn steps(before: Seq<u8>, found: Front, step: FrontStep, after: Seq<u8>) -> bool {
    match found {
        Front::End => step is End && after == before,
        Front::Trailers => step is Trailers && after == before,
        Front::Bad { error } => step matches FrontStep::Bad(e) && e@ == error,
        Front::Message { flags, payload, rest } => step matches FrontStep::Message(envelope) && envelope.flags
            == flags && envelope.data@ == payload && after == rest,
    }
}

/// The lower-case hexadecimal digit of a number below 16.
fn low_hex(n: u8) -> (c: char)
    requires
        n < 16,
    ensures
        c == low_hex_digit(n as nat),
{
    if n < 10 {
        (48u8 + n) as char
    } else {
        (87u8 + n) as char
    }
}

/// Look at the front of a body, and take an envelope out of it.
fn take_front(
    buf: &mut BytesMut,
    protocol: Protocol,
    max_size: usize,
    limit_set: bool,
    headers: &HeaderMap,
) -> (step: FrontStep)
    ensures
        steps(old(buf)@, front(old(buf)@, protocol, max_size as nat, limit_set, headers@), step, final(buf)@),
{
    if buf.is_empty() {
        return FrontStep::End;
    }
    let first: u8 = buf[0];
    if first & flags::GRPC_WEB_TRAILER != 0 {
        return match protocol {
            Protocol::GrpcWeb => FrontStep::Trailers,
            _ => {
                let mut text = "invalid gRPC response framing: envelope flag 0x".to_owned();
                text.push(low_hex(first / 16));
                text.push(low_hex(first % 16));
                text.push_str(" (gRPC-Web trailer marker) is not valid on a plain gRPC response");
                let err = ConnectError::internal(text).with_headers(header_map_clone(headers));
                assert(err@.message->0 =~= framing_error(first, headers@).message->0);
                FrontStep::Bad(err)
            },
        };
    }
    match Envelope::decode_with_limit(buf, max_size) {
        Ok(Some(envelope)) => FrontStep::Message(envelope),
        Ok(None) => FrontStep::End,
        Err(e) => if limit_set {
            FrontStep::Bad(e)
        } else {
            let mut text = "envelope decode failed: ".to_owned();
            let cause = e.to_string();
            text.push_str(cause.as_str());
            FrontStep::Bad(ConnectError::internal(text))
        },
    }
}

// ---------------------------------------------------------------------------
// The message and the trailers of a body
// ---------------------------------------------------------------------------

/// What the message in an envelope may come to.
pub open spec fn message_unpacked(
    registry: RegistryView,
    encoding: Option<Seq<char>>,
    flags: u8,
    payload: Seq<u8>,
    max: nat,
    r: Outcome,
) -> bool {
    if !marks_compressed(flags) {
        r == Outcome::Ok(payload)
    } else {
        match encoding {
            None => r == Outcome::Err(
                plain_error(ErrorCode::Internal, "received compressed message without grpc-encoding header"@),
            ),
            Some(e) => if e == "identity"@ {
                r == Outcome::Err(
                    plain_error(ErrorCode::Internal, "received compressed message with identity encoding"@),
                )
            } else {
                response_unpacked(registry, e, payload, max, r)
            },
        }
    }
}

/// What a body holds.
pub struct GrpcBody {
    /// The message, decompressed.
    pub message: Option<Seq<u8>>,
    /// The trailers in its trailer frame.
    pub trailers: Option<HeaderContents>,
}

/// The error for a second message.
pub open spec fn second_message(headers: HeaderContents) -> ErrorView {
    ErrorView {
        headers,
        ..plain_error(
            ErrorCode::Unimplemented,
            "received multiple response messages where exactly one was expected"@,
        )
    }
}

/// What comes behind the message of a body. A second message is refused before
/// it is decompressed.
pub open spec fn body_behind(
    found: Front,
    at: Seq<u8>,
    coding: Option<Coding>,
    headers: HeaderContents,
    message: Option<Seq<u8>>,
    r: Result<GrpcBody, ErrorView>,
) -> bool {
    match found {
        Front::End => r == Ok::<GrpcBody, ErrorView>(GrpcBody { message, trailers: None }),
        Front::Trailers => r matches Ok(b) && b.message == message && frame_trailers(at, coding, b.trailers),
        Front::Bad { error } => r == Err::<GrpcBody, ErrorView>(error),
        Front::Message { .. } => r == Err::<GrpcBody, ErrorView>(second_message(headers)),
    }
}

/// What a body with a message comes to, for what the message came to.
pub open spec fn body_with_message(
    unpacked: Outcome,
    rest: Seq<u8>,
    protocol: Protocol,
    max: nat,
    limit_set: bool,
    coding: Option<Coding>,
    headers: HeaderContents,
    r: Result<GrpcBody, ErrorView>,
) -> bool {
    match unpacked {
        Ok(message) => body_behind(front(rest, protocol, max, limit_set, headers), rest, coding, headers, Some(message), r),
        Err(e) => r == Err::<GrpcBody, ErrorView>(e),
    }
}

/// What a body may come to whose first envelope is a message.
pub open spec fn body_from_message(
    registry: RegistryView,
    encoding: Option<Seq<char>>,
    flags: u8,
    payload: Seq<u8>,
    rest: Seq<u8>,
    protocol: Protocol,
    max: nat,
    limit_set: bool,
    headers: HeaderContents,
    r: Result<GrpcBody, ErrorView>,
) -> bool {
    exists|unpacked: Outcome| #[trigger]
        message_unpacked(registry, encoding, flags, payload, max, unpacked) && body_with_message(
            unpacked,
            rest,
            protocol,
            max,
            limit_set,
            coding_with(registry, encoding),
            headers,
            r,
        )
}

/// What trailers and messages are compressed with.
pub open spec fn coding_with(registry: RegistryView, encoding: Option<Seq<char>>) -> Option<Coding> {
    match encoding {
        Some(e) => Some(Coding { registry, encoding: e }),
        None => None,
    }
}

/// What a body may come to: at most one message, and at most one trailer frame
/// behind it.
pub open spec fn body_read(
    registry: RegistryView,
    encoding: Option<Seq<char>>,
    body: Seq<u8>,
    protocol: Protocol,
    max: nat,
    limit_set: bool,
    headers: HeaderContents,
    r: Result<GrpcBody, ErrorView>,
) -> bool {
    match front(body, protocol, max, limit_set, headers) {
        Front::Message { flags, payload, rest } => body_from_message(
            registry,
            encoding,
            flags,
            payload,
            rest,
            protocol,
            max,
            limit_set,
            headers,
            r,
        ),
        found => body_behind(found, body, coding_with(registry, encoding), headers, None, r),
    }
}

/// What the message came to is what it may come to.
proof fn lemma_body_from_message(
    registry: RegistryView,
    encoding: Option<Seq<char>>,
    flags: u8,
    payload: Seq<u8>,
    rest: Seq<u8>,
    protocol: Protocol,
    max: nat,
    limit_set: bool,
    headers: HeaderContents,
    unpacked: Outcome,
    r: Result<GrpcBody, ErrorView>,
)
    requires
        message_unpacked(registry, encoding, flags, payload, max, unpacked),
        body_with_message(unpacked, rest, protocol, max, limit_set, coding_with(registry, encoding), headers, r),
    ensures
        body_from_message(registry, encoding, flags, payload, rest, protocol, max, limit_set, headers, r),
{
}

/// The message and the trailers of a body.
struct BodyParts {
    message: Option<Bytes>,
    trailers: Option<HeaderMap>,
}

spec fn parts_view(r: Result<BodyParts, ConnectError>) -> Result<GrpcBody, ErrorView> {
    match r {
        Ok(parts) => Ok(
            GrpcBody {
                message: match parts.message {
                    Some(m) => Some(m@),
                    None => None,
                },
                trailers: opt_headers(parts.trailers),
            },
        ),
        Err(e) => Err(e@),
    }
}

/// A string behind a reference.
pub fn as_str_opt(s: &Option<String>) -> (t: Option<&str>)
    ensures
        match t {
            Some(x) => opt_text(*s) == Some(x@),
            None => *s is None,
        },
{
    match s {
        Some(x) => Some(x.as_str()),
        None => None,
    }
}

/// The error for a second message.
fn second_message_error(headers: &HeaderMap) -> (err: ConnectError)
    ensures
        err@ == second_message(headers@),
{
    ConnectError::unimplemented("received multiple response messages where exactly one was expected").with_headers(
        header_map_clone(headers),
    )
}

/// Decompress the message in an envelope, where it is compressed.
fn unpack_message(
    compression: &CompressionRegistry,
    encoding: &Option<String>,
    envelope: Envelope,
    max_size: usize,
) -> (r: Result<Bytes, ConnectError>)
    ensures
        message_unpacked(
            compression@,
            opt_text(*encoding),
            envelope.flags,
            envelope.data@,
            max_size as nat,
            outcome_view(r),
        ),
{
    if !envelope.is_compressed() {
        return Ok(envelope.data);
    }
    match as_str_opt(encoding) {
        None => Err(ConnectError::internal("received compressed message without grpc-encoding header")),
        Some(e) => if str_eq(e, "identity") {
            Err(ConnectError::internal("received compressed message with identity encoding"))
        } else {
            unpack_response(compression, e, envelope.data, max_size)
        },
    }
}

/// Read the message and the trailers of a body.
fn read_body(
    compression: &CompressionRegistry,
    encoding: &Option<String>,
    body: BytesMut,
    protocol: Protocol,
    max_size: usize,
    limit_set: bool,
    headers: &HeaderMap,
) -> (r: Result<BodyParts, ConnectError>)
    ensures
        body_read(
            compression@,
            opt_text(*encoding),
            body@,
            protocol,
            max_size as nat,
            limit_set,
            headers@,
            parts_view(r),
        ),
{
    let mut buf = body;
    let envelope = match take_front(&mut buf, protocol, max_size, limit_set, headers) {
        FrontStep::End => return Ok(BodyParts { message: None, trailers: None }),
        FrontStep::Trailers => return Ok(
            BodyParts { message: None, trailers: read_trailers(compression, encoding, &buf) },
        ),
        FrontStep::Bad(e) => return Err(e),
        FrontStep::Message(envelope) => envelope,
    };
    let ghost flag = envelope.flags;
    let ghost payload = envelope.data@;
    let ghost rest = buf@;
    let unpacked = unpack_message(compression, encoding, envelope, max_size);
    let ghost outcome = outcome_view(unpacked);
    let r = match unpacked {
        Err(e) => Err(e),
        Ok(message) => match take_front(&mut buf, protocol, max_size, limit_set, headers) {
            FrontStep::End => Ok(BodyParts { message: Some(message), trailers: None }),
            FrontStep::Trailers => Ok(
                BodyParts { message: Some(message), trailers: read_trailers(compression, encoding, &buf) },
            ),
            FrontStep::Bad(e) => Err(e),
            FrontStep::Message(_) => Err(second_message_error(headers)),
        },
    };
    proof {
        lemma_body_from_message(
            compression@,
            opt_text(*encoding),
            flag,
            payload,
            rest,
            protocol,
            max_size as nat,
            limit_set,
            headers@,
            outcome,
            parts_view(r),
        );
    }
    r
}

/// Read the trailers of a trailer frame.
pub fn read_trailers(compression: &CompressionRegistry, encoding: &Option<String>, buf: &BytesMut) -> (r: Option<HeaderMap>)
    ensures
        frame_trailers(buf@, coding_with(compression@, opt_text(*encoding)), opt_headers(r)),
{
    let decompression = match as_str_opt(encoding) {
        Some(e) => Some((compression, e)),
        None => None,
    };
    parse_grpc_web_trailer_frame_with_compression(buf, decompression)
}

// ---------------------------------------------------------------------------
// The outcome of a call
// ---------------------------------------------------------------------------

/// What a call comes to: the headers, the message and the trailers, or an
/// error.
pub type CallOutcome = Result<(HeaderContents, Seq<u8>, HeaderContents), ErrorView>;

/// The contents of the result of a call.
pub open spec fn call_view(r: Result<(HeaderMap, Bytes, HeaderMap), ConnectError>) -> CallOutcome {
    match r {
        Ok((headers, message, trailers)) => Ok((headers@, message@, trailers@)),
        Err(e) => Err(e@),
    }
}

/// The headers that report the status: the trailers, or the initial headers
/// where there are no trailers and no body.
pub open spec fn status_source(
    headers: HeaderContents,
    trailers: HeaderContents,
    has_body_data: bool,
) -> HeaderContents {
    if trailers == no_headers() && !has_body_data {
        headers
    } else {
        trailers
    }
}

/// What a call comes to whose status reports no error. A response is an error
/// where its HTTP status says so, where no status arrived, where there is no
/// message, or where the message is over its limit.
pub open spec fn without_reported_error(
    reader: GrpcUnaryReader,
    body: GrpcBody,
    trailers: HeaderContents,
    deadline_passed: bool,
) -> CallOutcome {
    let headers = reader.headers@;
    let source = status_source(headers, trailers, reader.has_body_data);
    if !is_success_number(status_number(reader.status)) {
        Err(status_only_error(status_number(reader.status), headers))
    } else if first_value(source, "grpc-status"@) is None {
        Err(
            ErrorView {
                headers,
                ..if deadline_passed {
                    plain_error(ErrorCode::DeadlineExceeded, "request timeout"@)
                } else {
                    plain_error(ErrorCode::Internal, "gRPC response missing grpc-status trailer"@)
                }
            },
        )
    } else {
        match body.message {
            None => Err(
                ErrorView {
                    headers,
                    ..plain_error(ErrorCode::Unimplemented, "gRPC response contained no message data"@)
                },
            ),
            Some(message) => match reader.max_message_size {
                Some(max) => if message.len() > max {
                    Err(
                        plain_error(
                            ErrorCode::ResourceExhausted,
                            over_limit_text("message"@, message.len(), max as nat),
                        ),
                    )
                } else {
                    Ok((headers, message, trailers))
                },
                None => Ok((headers, message, trailers)),
            },
        }
    }
}

/// The trailers of a response: those of its trailer frame, or else those of
/// HTTP.
pub open spec fn final_trailers(reader: GrpcUnaryReader, body: GrpcBody) -> HeaderContents {
    match body.trailers {
        Some(t) => t,
        None => reader.trailers@,
    }
}

/// An error that was reported, as the caller sees it: with the headers of the
/// response, and without trailers where the initial headers reported it.
pub open spec fn surfaced(e: ErrorView, headers: HeaderContents, from_headers: bool) -> ErrorView {
    ErrorView {
        headers,
        trailers: if from_headers {
            no_headers()
        } else {
            e.trailers
        },
        ..e
    }
}

/// What a call comes to, for what its body came to. A status other than success
/// comes before anything that the HTTP status or the body say.
pub open spec fn call_finished(
    reader: GrpcUnaryReader,
    body: Result<GrpcBody, ErrorView>,
    deadline_passed: bool,
    r: CallOutcome,
) -> bool {
    match body {
        Err(e) => r == CallOutcome::Err(e),
        Ok(parts) => {
            let trailers = final_trailers(reader, parts);
            let from_headers = trailers == no_headers() && !reader.has_body_data;
            let source = status_source(reader.headers@, trailers, reader.has_body_data);
            ||| reported_error(source, None) && r == without_reported_error(reader, parts, trailers, deadline_passed)
            ||| reported_as(source, reader.headers@, from_headers, r)
        },
    }
}

/// Whether a call comes to the error that a status reports.
pub open spec fn reported_as(
    source: HeaderContents,
    headers: HeaderContents,
    from_headers: bool,
    r: CallOutcome,
) -> bool {
    exists|e: Option<ErrorView>| #[trigger]
        reported_error(source, e) && e is Some && r == CallOutcome::Err(surfaced(e->0, headers, from_headers))
}

/// What a status reported is what it may report.
proof fn lemma_reported_as(
    source: HeaderContents,
    headers: HeaderContents,
    from_headers: bool,
    e: Option<ErrorView>,
    r: CallOutcome,
)
    requires
        reported_error(source, e),
        e is Some,
        r == CallOutcome::Err(surfaced(e->0, headers, from_headers)),
    ensures
        reported_as(source, headers, from_headers, r),
{
}

/// What a call may come to.
pub open spec fn call_outcome(
    reader: GrpcUnaryReader,
    registry: RegistryView,
    encoding: Option<Seq<char>>,
    body: Seq<u8>,
    max: nat,
    limit_set: bool,
    deadline_passed: bool,
    r: CallOutcome,
) -> bool {
    exists|parts: Result<GrpcBody, ErrorView>| #[trigger]
        body_read(registry, encoding, body, reader.protocol, max, limit_set, reader.headers@, parts) && call_finished(
            reader,
            parts,
            deadline_passed,
            r,
        )
}

/// What the body came to is what it may come to.
proof fn lemma_call_outcome(
    reader: GrpcUnaryReader,
    registry: RegistryView,
    encoding: Option<Seq<char>>,
    body: Seq<u8>,
    max: nat,
    limit_set: bool,
    deadline_passed: bool,
    parts: Result<GrpcBody, ErrorView>,
    r: CallOutcome,
)
    requires
        body_read(registry, encoding, body, reader.protocol, max, limit_set, reader.headers@, parts),
        call_finished(reader, parts, deadline_passed, r),
    ensures
        call_outcome(reader, registry, encoding, body, max, limit_set, deadline_passed, r),
{
    let protocol = reader.protocol;
    let headers = reader.headers@;
    assert(body_read(registry, encoding, body, protocol, max, limit_set, headers, parts));
}

/// What taking the data of a frame comes to. A trailer frame of gRPC-Web ends
/// the body, and what comes behind it is dropped.
pub open spec fn data_taken(
    before: GrpcUnaryReader,
    data: Seq<u8>,
    after: GrpcUnaryReader,
    r: Result<bool, ConnectError>,
) -> bool {
    let room = before.max_buf_size - before.buf@.len();
    let taken = if data.len() <= room {
        data
    } else if room > 0 {
        data.take(room)
    } else {
        Seq::empty()
    };
    let buffered = before.buf@ + taken;
    &&& after == (GrpcUnaryReader { buf: after.buf, has_body_data: after.has_body_data, ..before })
    &&& after.has_body_data == (before.has_body_data || data.len() > 0)
    &&& if before.protocol == Protocol::GrpcWeb && trailer_end(buffered) is Some {
        r matches Ok(done) && done && after.buf@ == buffered.take(trailer_end(buffered)->0 as int)
    } else if taken.len() < data.len() {
        r matches Err(e) && e@ == body_over_limit(before.max_buf_size as nat)
    } else {
        r matches Ok(done) && !done && after.buf@ == buffered
    }
}

impl GrpcUnaryReader {
    /// Begin to read a response, unless its content type is wrong or its
    /// encoding is not supported.
    ///
    /// A status that is not a success is reported later: a proxy may send a
    /// gRPC status along with it, which can only be read once the body is known
    /// to be empty.
    pub fn new(status: StatusCode, headers: HeaderMap, config: &ClientConfig, options: &CallOptions) -> (r: Result<
        Self,
        ConnectError,
    >)
        ensures
            match content_type_outcome(headers@, *config) {
                Err(e) => r matches Err(err) && err@ == e,
                Ok(()) => {
                    let encoding = visible_value(headers@, "grpc-encoding"@);
                    if !can_decode(config.compression@, encoding) {
                        r matches Err(err) && err@ == unsupported_encoding(encoding->0, headers@)
                    } else {
                        r matches Ok(reader) && reader.status == status && reader.headers == headers && opt_text(
                            reader.encoding,
                        ) == encoding && reader.protocol == config.protocol && reader.max_message_size
                            == options.max_message_size && reader.max_buf_size == saturated(
                            (limit_or_default(options.max_message_size) + 5 + RESPONSE_BUFFER_TRAILER_SLACK) as nat,
                        ) && reader.buf@ == Seq::<u8>::empty() && reader.trailers@ == no_headers()
                            && !reader.has_body_data
                    }
                },
            },
    {
        proof {
            lemma_status_names();
        }
        match validate_grpc_response_content_type(&headers, config) {
            Ok(()) => {},
            Err(e) => return Err(e),
        }
        let encoding = visible_string(&headers, "grpc-encoding");
        if let Some(e) = as_str_opt(&encoding) {
            if !str_eq(e, "identity") && !config.compression.supports(e) {
                let mut text = "unsupported response compression: ".to_owned();
                text.push_str(e);
                return Err(ConnectError::internal(text).with_headers(headers));
            }
        }
        let max_buf_size: usize = message_limit(options.max_message_size).saturating_add(
            HEADER_SIZE,
        ).saturating_add(RESPONSE_BUFFER_TRAILER_SLACK);
        Ok(
            GrpcUnaryReader {
                status,
                headers,
                encoding,
                protocol: config.protocol,
                max_message_size: options.max_message_size,
                max_buf_size,
                buf: BytesMut::new(),
                trailers: header_map_new(),
                has_body_data: false,
            },
        )
    }

    /// Take the data of a frame of the body. Returns whether the body is
    /// complete, and an error where it is over its limit.
    pub fn data(&mut self, data: &[u8]) -> (r: Result<bool, ConnectError>)
        ensures
            data_taken(*old(self), data@, *final(self), r),
    {
        if data.len() > 0 {
            self.has_body_data = true;
        }
        let room: usize = if self.buf.len() < self.max_buf_size {
            self.max_buf_size - self.buf.len()
        } else {
            0
        };
        let length: usize = if data.len() <= room {
            data.len()
        } else {
            room
        };
        let taken = vstd::slice::slice_subrange(data, 0, length);
        assert(taken@ =~= data@.take(length as int));
        assert(data@.take(data@.len() as int) =~= data@);
        assert(data@.take(0) =~= Seq::empty());
        self.buf.extend_from_slice(taken);
        if let Protocol::GrpcWeb = self.protocol {
            if let Some(end) = grpc_web_trailer_frame_end(&self.buf) {
                self.buf.truncate(end);
                return Ok(true);
            }
        }
        if length < data.len() {
            return Err(body_limit_error(self.max_buf_size));
        }
        Ok(false)
    }

    /// Take the HTTP trailers of the response.
    pub fn http_trailers(&mut self, trailers: HeaderMap)
        ensures
            *final(self) == (GrpcUnaryReader { trailers, ..*old(self) }),
    {
        self.trailers = trailers;
    }

    /// The error for a body that cannot be read. There is none where the status
    /// is not a success: the status is then reported in any case, so that what
    /// was read is enough.
    pub fn read_failed(&self, cause: &str) -> (r: Option<ConnectError>)
        ensures
            opt_error(r) == if is_success_number(status_number(self.status)) {
                Some(plain_error(ErrorCode::Internal, "failed to read response body: "@ + cause@))
            } else {
                None
            },
    {
        if status_is_success(&self.status) {
            Some(body_read_error(cause))
        } else {
            None
        }
    }

    /// What the call comes to, once the body is read: the headers, the encoded
    /// message and the trailers, or an error.
    pub fn finish(self, compression: &CompressionRegistry, deadline_passed: bool) -> (r: Result<
        (HeaderMap, Bytes, HeaderMap),
        ConnectError,
    >)
        ensures
            call_outcome(
                self,
                compression@,
                opt_text(self.encoding),
                self.buf@,
                limit_or_default(self.max_message_size) as nat,
                self.max_message_size is Some,
                deadline_passed,
                call_view(r),
            ),
    {
        let max_size: usize = message_limit(self.max_message_size);
        let limit_set = self.max_message_size.is_some();
        let ghost reader = self;
        let read = read_body(compression, &self.encoding, self.buf, self.protocol, max_size, limit_set, &self.headers);
        let ghost parts = parts_view(read);
        let r = match read {
            Ok(body) => {
                let trailers = match body.trailers {
                    Some(t) => t,
                    None => self.trailers,
                };
                finish_call(
                    Ghost(reader),
                    Ghost(parts->Ok_0),
                    self.status,
                    self.headers,
                    self.has_body_data,
                    self.max_message_size,
                    body.message,
                    trailers,
                    deadline_passed,
                )
            },
            Err(e) => Err(e),
        };
        proof {
            lemma_call_outcome(
                reader,
                compression@,
                opt_text(reader.encoding),
                reader.buf@,
                max_size as nat,
                limit_set,
                deadline_passed,
                parts,
                call_view(r),
            );
        }
        r
    }
}

/// What a call comes to, once the body is read.
fn finish_call(
    Ghost(reader): Ghost<GrpcUnaryReader>,
    Ghost(parts): Ghost<GrpcBody>,
    status: StatusCode,
    headers: HeaderMap,
    has_body_data: bool,
    max_message_size: Option<usize>,
    message: Option<Bytes>,
    trailers: HeaderMap,
    deadline_passed: bool,
) -> (r: Result<(HeaderMap, Bytes, HeaderMap), ConnectError>)
    requires
        reader.status == status,
        reader.headers == headers,
        reader.has_body_data == has_body_data,
        reader.max_message_size == max_message_size,
        parts.message == crate::client::body::opt_bytes(message),
        trailers@ == final_trailers(reader, parts),
    ensures
        call_finished(reader, Ok(parts), deadline_passed, call_view(r)),
{
    proof {
        lemma_status_names();
    }
    let from_headers = header_map_is_empty(&trailers) && !has_body_data;
    let source = if from_headers {
        &headers
    } else {
        &trailers
    };
    assert(source@ == status_source(headers@, trailers@, has_body_data));
    if let Some(reported) = parse_grpc_error_from_trailers(source) {
        let ghost found = Some(reported@);
        let ghost at = source@;
        let ghost initial = headers@;
        let mut err = reported;
        if from_headers {
            err.set_trailers(header_map_new());
        }
        err.set_response_headers(headers);
        let r: Result<(HeaderMap, Bytes, HeaderMap), ConnectError> = Err(err);
        proof {
            lemma_reported_as(at, initial, from_headers, found, call_view(r));
        }
        return r;
    }
    assert(reported_error(source@, None));
    if !status_is_success(&status) {
        return Err(http_status_error(status, headers));
    }
    if header_map_get(source, "grpc-status").is_none() {
        let err = if deadline_passed {
            ConnectError::deadline_exceeded("request timeout")
        } else {
            ConnectError::internal("gRPC response missing grpc-status trailer")
        };
        return Err(err.with_headers(headers));
    }
    let data = match message {
        Some(data) => data,
        None => return Err(
            ConnectError::unimplemented("gRPC response contained no message data").with_headers(headers),
        ),
    };
    if let Some(max) = max_message_size {
        if data.len() > max {
            return Err(over_limit_error("message", data.len(), max));
        }
    }
    Ok((headers, data, trailers))
}

// ---------------------------------------------------------------------------
// Laws
// ---------------------------------------------------------------------------

/// How a body is cut into frames does not matter: data that arrives in two
/// frames is taken as if it had arrived in one.
pub proof fn lemma_cuts_do_not_matter(
    start: GrpcUnaryReader,
    a: Seq<u8>,
    b: Seq<u8>,
    first: GrpcUnaryReader,
    first_result: Result<bool, ConnectError>,
    second: GrpcUnaryReader,
    second_result: Result<bool, ConnectError>,
    whole: GrpcUnaryReader,
    whole_result: Result<bool, ConnectError>,
)
    requires
        data_taken(start, a, first, first_result),
        first_result == Ok::<bool, ConnectError>(false) ==> data_taken(first, b, second, second_result),
        data_taken(start, a + b, whole, whole_result),
    ensures
        match first_result {
            Ok(done) => if done {
                whole_result == Ok::<bool, ConnectError>(true) && whole.buf@ == first.buf@
            } else {
                match second_result {
                    Ok(d) => whole_result == Ok::<bool, ConnectError>(d) && whole.buf@ == second.buf@
                        && whole.has_body_data == second.has_body_data,
                    Err(e) => whole_result matches Err(w) && w@ == e@,
                }
            },
            Err(e) => whole_result matches Err(w) && w@ == e@,
        },
{
    let all = a + b;
    let room = start.max_buf_size - start.buf@.len();
    let taken = |d: Seq<u8>, r: int|
        if d.len() <= r {
            d
        } else if r > 0 {
            d.take(r)
        } else {
            Seq::empty()
        };
    let front = start.buf@ + taken(a, room);
    let buffered = start.buf@ + taken(all, room);
    let rest = buffered.skip(front.len() as int);
    assert(front + rest =~= buffered);
    lemma_trailer_end_stays(front, rest);
    if start.protocol == Protocol::GrpcWeb && trailer_end(front) is Some {
        let end = trailer_end(front)->0 as int;
        assert(buffered.take(end) =~= front.take(end));
    } else if a.len() <= room {
        assert(first.buf@ + taken(b, room - a.len()) =~= buffered);
    } else {
        assert(front =~= buffered);
    }
}

/// A call succeeds only where the HTTP status is a success, a gRPC status says
/// so, and there is a message that keeps to its limit. What a call then hands
/// out is that message, with the headers and the trailers of the response.
pub proof fn lemma_success_is_complete(
    reader: GrpcUnaryReader,
    parts: Result<GrpcBody, ErrorView>,
    deadline_passed: bool,
    r: CallOutcome,
)
    requires
        call_finished(reader, parts, deadline_passed, r),
        r is Ok,
    ensures
        is_success_number(status_number(reader.status)),
        parts matches Ok(body) && body.message matches Some(message) && r == CallOutcome::Ok(
            (reader.headers@, message, final_trailers(reader, body)),
        ) && (reader.max_message_size matches Some(max) ==> message.len() <= max) && (first_value(
            status_source(reader.headers@, final_trailers(reader, body), reader.has_body_data),
            "grpc-status"@,
        ) matches Some(raw) && status_in(raw) == Some(0u32)),
{
}

/// A message that was sent is read back: a body that is the envelope of a
/// message, uncompressed or compressed with an encoding of this crate, holds
/// that message and nothing else. Only zstd may fail, for want of memory.
pub proof fn lemma_sent_message_is_read_back(
    encoder: EncoderView,
    message: Seq<u8>,
    packed: Payload,
    registry: RegistryView,
    encoding: Option<Seq<char>>,
    protocol: Protocol,
    max: nat,
    limit_set: bool,
    headers: HeaderContents,
    r: Result<GrpcBody, ErrorView>,
)
    requires
        payload_for(encoder, message, packed),
        packed is Ok,
        packed->Ok_0.1.len() <= u32::MAX,
        packed->Ok_0.1.len() <= max,
        message.len() <= max,
        encoder.compression matches Some(c) ==> registry == c.registry && encoding == Some(c.encoding) && c.encoding
            != "identity"@ && built_in(c.registry, c.encoding, message.len()),
        body_read(
            registry,
            encoding,
            envelope_bytes(packed->Ok_0.0, packed->Ok_0.1),
            protocol,
            max,
            limit_set,
            headers,
            r,
        ),
    ensures
        (encoder.compression matches Some(c) ==> surely_decodes(c.registry, c.encoding)) ==> r is Ok,
        r is Ok ==> r == Ok::<GrpcBody, ErrorView>(GrpcBody { message: Some(message), trailers: None }),
{
    let flag = packed->Ok_0.0;
    let payload = packed->Ok_0.1;
    let body = envelope_bytes(flag, payload);
    let rest = Seq::<u8>::empty();
    assert(body + rest =~= body);
    lemma_envelope_round_trip(flag, payload, rest, max);
    lemma_header_declares(flag, payload.len(), payload);
    assert(0u8 & 0x80 == 0 && 0u8 & 0x01 == 0 && 1u8 & 0x80 == 0 && 1u8 & 0x01 != 0) by (bit_vector);
    assert(front(body, protocol, max, limit_set, headers) == (Front::Message { flags: flag, payload, rest }));
    let unpacked = choose|unpacked: Outcome| #[trigger]
        message_unpacked(registry, encoding, flag, payload, max, unpacked) && body_with_message(
            unpacked,
            rest,
            protocol,
            max,
            limit_set,
            coding_with(registry, encoding),
            headers,
            r,
        );
    if encoder_compresses(encoder, message.len()) {
        let coding = encoder.compression->0;
        lemma_unpacked_is_sent(coding.registry, coding.encoding, message, payload, max, unpacked);
    }
}

} // verus!
