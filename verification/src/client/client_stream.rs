//! Connect responses to a stream of requests: one message in an envelope, and
//! behind it a last envelope with the trailers or an error.
use bytes::Bytes;
use http::HeaderMap;
use vstd::prelude::*;

use crate::buffer::BufferView;
use crate::client::body::limit_or_default;
use crate::client::body::message_limit;
use crate::client::body::opt_bytes;
use crate::client::body::visible_string;
use crate::client::config::CallOptions;
use crate::client::config::ClientConfig;
use crate::client::grpc_unary::saturated;
use crate::client::grpc_unary::RESPONSE_BUFFER_TRAILER_SLACK;
use crate::client::request::opt_str;
use crate::client::status::end_stream_error_to_connect_error;
use crate::client::status::lemma_status_names;
use crate::client::status::visible_value;
use crate::client::status::wire_error;
use crate::client::status::ClientEndStreamResponse;
use crate::client::stream::malformed_end_stream;
use crate::client::stream::malformed_end_stream_error;
use crate::client::stream::no_end_stream;
use crate::client::trailers::append_metadata_capped;
use crate::client::trailers::appended_capped;
use crate::client::trailers::metadata_headers;
use crate::client::unary::response_unpacked;
use crate::client::unary::unpack_response;
use crate::compression::outcome_view;
use crate::compression::registry::RegistryView;
use crate::compression::CompressionRegistry;
use crate::compression::Outcome;
use crate::envelope::envelope_bytes;
use crate::envelope::flags;
use crate::envelope::lemma_envelope_round_trip;
use crate::envelope::marks_compressed;
use crate::envelope::marks_end_stream;
use crate::envelope::over_limit_error;
use crate::envelope::over_limit_text;
use crate::envelope::scanned;
use crate::envelope::Envelope;
use crate::envelope::Scan;
use crate::error::opt_text;
use crate::error::plain_error;
use crate::error::ConnectError;
use crate::error::ErrorCode;
use crate::error::ErrorView;
use crate::headers::header_map_clone;
use crate::headers::header_map_new;
use crate::headers::no_headers;
use crate::headers::HeaderContents;
use crate::headers::HeadersView;
use crate::protocol::encoding_name;

verus! {

// ---------------------------------------------------------------------------
// The head of a response
// ---------------------------------------------------------------------------

/// A successful response, while its body is read.
#[derive(Debug)]
pub struct ClientStreamReader {
    /// Its headers.
    pub headers: HeaderMap,
    /// The encoding of its envelopes.
    pub encoding: Option<String>,
    /// The limit on its message.
    pub max_msg_size: usize,
    /// The limit on its body: there is room for a message at its limit, two
    /// headers and the trailers.
    pub body_limit: usize,
}

impl ClientStreamReader {
    /// Begin to read a successful response.
    pub fn new(response_headers: HeaderMap, config: &ClientConfig, options: &CallOptions) -> (reader: Self)
        ensures
            reader.headers == response_headers,
            opt_text(reader.encoding) == visible_value(response_headers@, encoding_name(config.protocol)),
            reader.max_msg_size == limit_or_default(options.max_message_size),
            reader.body_limit == saturated((reader.max_msg_size + 10 + RESPONSE_BUFFER_TRAILER_SLACK) as nat),
    {
        proof {
            lemma_status_names();
        }
        let encoding = visible_string(&response_headers, config.protocol.content_encoding_header());
        let max_msg_size: usize = message_limit(options.max_message_size);
        let body_limit: usize = max_msg_size.saturating_add(10).saturating_add(RESPONSE_BUFFER_TRAILER_SLACK);
        ClientStreamReader { headers: response_headers, encoding, max_msg_size, body_limit }
    }
}

// ---------------------------------------------------------------------------
// The envelopes of a body
// ---------------------------------------------------------------------------

/// What a body holds: the message, and what its last envelope says.
pub struct ScannedBody {
    /// The message, decompressed.
    pub message: Option<Seq<u8>>,
    /// The payload of the last envelope, decompressed.
    pub end_stream: Option<Seq<u8>>,
}

/// What a scan of a body comes to.
pub type BodyScan = Result<ScannedBody, ErrorView>;

/// What the payload of an envelope may come to. `complaint` is what is said of
/// a compressed payload where there is no encoding.
pub open spec fn enveloped_data(
    registry: RegistryView,
    encoding: Option<Seq<char>>,
    flags: u8,
    payload: Seq<u8>,
    max: nat,
    complaint: Seq<char>,
    r: Outcome,
) -> bool {
    if !marks_compressed(flags) {
        r == Outcome::Ok(payload)
    } else {
        match encoding {
            None => r == Outcome::Err(plain_error(ErrorCode::Internal, complaint)),
            Some(e) => response_unpacked(registry, e, payload, max, r),
        }
    }
}

/// What is said of a last envelope that is compressed without an encoding.
pub open spec fn end_complaint() -> Seq<char> {
    "received compressed END_STREAM without encoding header"@
}

/// What is said of a message that is compressed without an encoding.
pub open spec fn message_complaint() -> Seq<char> {
    "received compressed message without encoding header"@
}

/// The error for an envelope over the limit.
pub open spec fn too_large(length: nat, max: nat) -> ErrorView {
    plain_error(ErrorCode::ResourceExhausted, over_limit_text("message"@, length, max))
}

/// What the last envelope comes to, for what its payload came to.
pub open spec fn with_end(message: Option<Seq<u8>>, data: Outcome) -> BodyScan {
    match data {
        Ok(end) => Ok(ScannedBody { message, end_stream: Some(end) }),
        Err(e) => Err(e),
    }
}

/// What the last envelope may come to. What comes behind it plays no part.
pub open spec fn end_scanned(
    registry: RegistryView,
    encoding: Option<Seq<char>>,
    flags: u8,
    payload: Seq<u8>,
    max: nat,
    message: Option<Seq<u8>>,
    r: BodyScan,
) -> bool {
    exists|data: Outcome| #[trigger]
        enveloped_data(registry, encoding, flags, payload, max, end_complaint(), data) && r == with_end(message, data)
}

/// What the payload of the last envelope came to is what it may come to.
proof fn lemma_end_scanned(
    registry: RegistryView,
    encoding: Option<Seq<char>>,
    flags: u8,
    payload: Seq<u8>,
    max: nat,
    message: Option<Seq<u8>>,
    data: Outcome,
    r: BodyScan,
)
    requires
        enveloped_data(registry, encoding, flags, payload, max, end_complaint(), data),
        r == with_end(message, data),
    ensures
        end_scanned(registry, encoding, flags, payload, max, message, r),
{
    let complaint = end_complaint();
    assert(enveloped_data(registry, encoding, flags, payload, max, complaint, data));
}

/// What comes behind the message may come to. A second message is refused
/// before it is decompressed.
pub open spec fn behind_message(
    registry: RegistryView,
    encoding: Option<Seq<char>>,
    body: Seq<u8>,
    max: nat,
    message: Seq<u8>,
    r: BodyScan,
) -> bool {
    match scanned(body, max) {
        Scan::Partial => r == BodyScan::Ok(ScannedBody { message: Some(message), end_stream: None }),
        Scan::TooLarge { length } => r == BodyScan::Err(too_large(length, max)),
        Scan::Whole { flags, payload, .. } => if marks_end_stream(flags) {
            end_scanned(registry, encoding, flags, payload, max, Some(message), r)
        } else {
            r == BodyScan::Err(
                plain_error(
                    ErrorCode::Unimplemented,
                    "client streaming response contains multiple data messages"@,
                ),
            )
        },
    }
}

/// What a body comes to, for what its message came to.
pub open spec fn with_message(
    registry: RegistryView,
    encoding: Option<Seq<char>>,
    data: Outcome,
    rest: Seq<u8>,
    max: nat,
    r: BodyScan,
) -> bool {
    match data {
        Err(e) => r == BodyScan::Err(e),
        Ok(message) => if message.len() > max {
            r == BodyScan::Err(too_large(message.len(), max))
        } else {
            behind_message(registry, encoding, rest, max, message, r)
        },
    }
}

/// What a body may come to that begins with a message.
pub open spec fn message_scanned(
    registry: RegistryView,
    encoding: Option<Seq<char>>,
    flags: u8,
    payload: Seq<u8>,
    rest: Seq<u8>,
    max: nat,
    r: BodyScan,
) -> bool {
    exists|data: Outcome| #[trigger]
        enveloped_data(registry, encoding, flags, payload, max, message_complaint(), data) && with_message(
            registry,
            encoding,
            data,
            rest,
            max,
            r,
        )
}

/// What the message came to is what it may come to.
proof fn lemma_message_scanned(
    registry: RegistryView,
    encoding: Option<Seq<char>>,
    flags: u8,
    payload: Seq<u8>,
    rest: Seq<u8>,
    max: nat,
    data: Outcome,
    r: BodyScan,
)
    requires
        enveloped_data(registry, encoding, flags, payload, max, message_complaint(), data),
        with_message(registry, encoding, data, rest, max, r),
    ensures
        message_scanned(registry, encoding, flags, payload, rest, max, r),
{
    let complaint = message_complaint();
    assert(enveloped_data(registry, encoding, flags, payload, max, complaint, data));
}

/// What a body may come to.
pub open spec fn body_scanned(
    registry: RegistryView,
    encoding: Option<Seq<char>>,
    body: Seq<u8>,
    max: nat,
    r: BodyScan,
) -> bool {
    match scanned(body, max) {
        Scan::Partial => r == BodyScan::Ok(ScannedBody { message: None, end_stream: None }),
        Scan::TooLarge { length } => r == BodyScan::Err(too_large(length, max)),
        Scan::Whole { flags, payload, rest } => if marks_end_stream(flags) {
            end_scanned(registry, encoding, flags, payload, max, None, r)
        } else {
            message_scanned(registry, encoding, flags, payload, rest, max, r)
        },
    }
}

/// What the envelopes of a body hold.
#[derive(Debug)]
pub struct ClientStreamScan {
    /// The message, decompressed.
    pub message: Option<Bytes>,
    /// The payload of the last envelope, decompressed.
    pub end_stream: Option<Bytes>,
}

/// The contents of the result of a scan.
pub open spec fn scan_view(r: Result<ClientStreamScan, ConnectError>) -> BodyScan {
    match r {
        Ok(s) => Ok(ScannedBody { message: opt_bytes(s.message), end_stream: opt_bytes(s.end_stream) }),
        Err(e) => Err(e@),
    }
}

/// Decompress the payload of an envelope, where it is compressed.
fn unpack_envelope(
    compression: &CompressionRegistry,
    encoding: Option<&str>,
    envelope: Envelope,
    max_size: usize,
    complaint: &str,
) -> (r: Result<Bytes, ConnectError>)
    ensures
        enveloped_data(
            compression@,
            opt_str(encoding),
            envelope.flags,
            envelope.data@,
            max_size as nat,
            complaint@,
            outcome_view(r),
        ),
{
    if !envelope.is_compressed() {
        return Ok(envelope.data);
    }
    match encoding {
        Some(e) => unpack_response(compression, e, envelope.data, max_size),
        None => Err(ConnectError::internal(complaint)),
    }
}

/// Read the last envelope of a body.
fn scan_end(
    compression: &CompressionRegistry,
    encoding: Option<&str>,
    envelope: Envelope,
    max_size: usize,
    message: Option<Bytes>,
) -> (r: Result<ClientStreamScan, ConnectError>)
    ensures
        end_scanned(
            compression@,
            opt_str(encoding),
            envelope.flags,
            envelope.data@,
            max_size as nat,
            opt_bytes(message),
            scan_view(r),
        ),
{
    let ghost flag = envelope.flags;
    let ghost payload = envelope.data@;
    let ghost held = opt_bytes(message);
    let unpacked = unpack_envelope(
        compression,
        encoding,
        envelope,
        max_size,
        "received compressed END_STREAM without encoding header",
    );
    let ghost data = outcome_view(unpacked);
    let r = match unpacked {
        Ok(end) => Ok(ClientStreamScan { message, end_stream: Some(end) }),
        Err(e) => Err(e),
    };
    proof {
        lemma_end_scanned(
            compression@,
            opt_str(encoding),
            flag,
            payload,
            max_size as nat,
            held,
            data,
            scan_view(r),
        );
    }
    r
}

/// Scan the envelopes of a body: one message, and behind it the last envelope.
///
/// Scanning stops at the last envelope, so that anything behind it is ignored.
/// A second message is refused before it is decompressed, so that no work goes
/// into more than the one message that the call allows.
pub fn scan_connect_client_stream(
    body: Bytes,
    compression: &CompressionRegistry,
    encoding: Option<&str>,
    max_msg_size: usize,
) -> (r: Result<ClientStreamScan, ConnectError>)
    ensures
        body_scanned(compression@, opt_str(encoding), body@, max_msg_size as nat, scan_view(r)),
{
    let mut buf = body;
    let first = match Envelope::decode_bytes_with_limit(&mut buf, max_msg_size) {
        Ok(Some(envelope)) => envelope,
        Ok(None) => return Ok(ClientStreamScan { message: None, end_stream: None }),
        Err(e) => return Err(e),
    };
    if first.is_end_stream() {
        return scan_end(compression, encoding, first, max_msg_size, None);
    }
    let ghost flag = first.flags;
    let ghost payload = first.data@;
    let ghost rest = buf@;
    let unpacked = unpack_envelope(
        compression,
        encoding,
        first,
        max_msg_size,
        "received compressed message without encoding header",
    );
    let ghost data = outcome_view(unpacked);
    let r = match unpacked {
        Err(e) => Err(e),
        Ok(message) => if message.len() > max_msg_size {
            Err(over_limit_error("message", message.len(), max_msg_size))
        } else {
            match Envelope::decode_bytes_with_limit(&mut buf, max_msg_size) {
                Ok(Some(second)) => if second.is_end_stream() {
                    scan_end(compression, encoding, second, max_msg_size, Some(message))
                } else {
                    Err(
                        ConnectError::unimplemented(
                            "client streaming response contains multiple data messages",
                        ),
                    )
                },
                Ok(None) => Ok(ClientStreamScan { message: Some(message), end_stream: None }),
                Err(e) => Err(e),
            }
        },
    };
    proof {
        lemma_message_scanned(
            compression@,
            opt_str(encoding),
            flag,
            payload,
            rest,
            max_msg_size as nat,
            data,
            scan_view(r),
        );
    }
    r
}

// ---------------------------------------------------------------------------
// The outcome of a call
// ---------------------------------------------------------------------------

/// What a call comes to: the message and the trailers, or an error.
pub open spec fn client_stream_outcome(
    message: Option<Bytes>,
    end: Option<Result<ClientEndStreamResponse, String>>,
    headers: HeaderContents,
    r: Result<(Bytes, HeaderMap), ConnectError>,
) -> bool {
    match end {
        Some(Err(cause)) => r matches Err(e) && e@ == malformed_end_stream(cause@, headers),
        Some(Ok(said)) => match said.error {
            Some(error) => r matches Err(e) && e@ == (ErrorView {
                headers,
                trailers: e@.trailers,
                ..wire_error(error, ErrorCode::Unknown)
            }) && end_trailers(said, e@.trailers),
            None => match message {
                Some(m) => r matches Ok(done) && done.0 == m && end_trailers(said, done.1@),
                None => r matches Err(e) && e@ == no_message(),
            },
        },
        None => r matches Err(e) && e@ == if message is Some {
            no_end_stream()
        } else {
            no_message()
        },
    }
}

/// The error for a body without a message.
pub open spec fn no_message() -> ErrorView {
    plain_error(ErrorCode::Unimplemented, "client streaming response contains no data messages"@)
}

/// The trailers that a last envelope says.
pub open spec fn end_trailers(said: ClientEndStreamResponse, trailers: HeaderContents) -> bool {
    match said.metadata {
        Some(metadata) => appended_capped(no_headers(), metadata_headers(metadata@), trailers),
        None => trailers == no_headers(),
    }
}

/// What a call comes to, for the message of its response and what the last
/// envelope says, if there was one.
pub fn finish_connect_client_stream(
    message: Option<Bytes>,
    end: Option<Result<ClientEndStreamResponse, String>>,
    resp_headers: &HeaderMap,
) -> (r: Result<(Bytes, HeaderMap), ConnectError>)
    ensures
        client_stream_outcome(message, end, resp_headers@, r),
{
    let mut trailers = header_map_new();
    let saw_end_stream = end.is_some();
    if let Some(parsed) = end {
        let said = match parsed {
            Ok(said) => said,
            Err(cause) => return Err(malformed_end_stream_error(cause.as_str(), resp_headers)),
        };
        if let Some(metadata) = &said.metadata {
            append_metadata_capped(&mut trailers, metadata);
        }
        assert(end_trailers(said, trailers@));
        if let Some(error) = said.error {
            let err = end_stream_error_to_connect_error(error);
            return Err(err.with_headers(header_map_clone(resp_headers)).with_trailers(trailers));
        }
    }
    match message {
        None => Err(ConnectError::unimplemented("client streaming response contains no data messages")),
        Some(m) => if saw_end_stream {
            Ok((m, trailers))
        } else {
            Err(ConnectError::internal("Connect streaming response ended without END_STREAM envelope"))
        },
    }
}

/// Anything behind the last envelope is ignored: a response of one message and
/// a last envelope, neither of them compressed, is read as these two, whatever
/// follows.
pub proof fn lemma_end_stops_the_scan(
    registry: RegistryView,
    encoding: Option<Seq<char>>,
    message: Seq<u8>,
    end: Seq<u8>,
    tail: Seq<u8>,
    max: nat,
    r: BodyScan,
)
    requires
        message.len() <= max,
        message.len() <= u32::MAX,
        end.len() <= max,
        end.len() <= u32::MAX,
        body_scanned(
            registry,
            encoding,
            envelope_bytes(flags::DATA, message) + (envelope_bytes(flags::END_STREAM, end) + tail),
            max,
            r,
        ),
    ensures
        r == BodyScan::Ok(ScannedBody { message: Some(message), end_stream: Some(end) }),
{
    let rest = envelope_bytes(flags::END_STREAM, end) + tail;
    lemma_envelope_round_trip(flags::DATA, message, rest, max);
    lemma_envelope_round_trip(flags::END_STREAM, end, tail, max);
    assert(0u8 & 0x02 == 0 && 0u8 & 0x01 == 0 && 2u8 & 0x02 != 0 && 2u8 & 0x01 == 0) by (bit_vector);
}

/// A call succeeds only where there was a message and a last envelope that
/// reports no error.
pub proof fn lemma_success_needs_last_envelope(
    message: Option<Bytes>,
    end: Option<Result<ClientEndStreamResponse, String>>,
    headers: HeaderContents,
    r: Result<(Bytes, HeaderMap), ConnectError>,
)
    requires
        client_stream_outcome(message, end, headers, r),
        r is Ok,
    ensures
        message == Some(r->Ok_0.0),
        end matches Some(Ok(said)) && said.error is None,
{
}

} // verus!
