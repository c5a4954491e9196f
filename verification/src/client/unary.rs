//! Responses that hold one message.
use bytes::Bytes;
use http::HeaderMap;
use vstd::prelude::*;

use crate::buffer::BufferView;
use crate::client::body::limit_or_default;
use crate::client::body::message_limit;
use crate::client::body::visible_string;
use crate::client::config::CallOptions;
use crate::client::config::ClientConfig;
use crate::client::status::blamed_on_server;
use crate::client::status::content_type_text;
use crate::client::status::lemma_status_names;
use crate::client::status::map_response_decompression_error;
use crate::client::status::visible_value;
use crate::client::trailers::plain_headers;
use crate::client::trailers::prefixed_trailers;
use crate::client::trailers::split_trailers;
use crate::codec::unary_type;
use crate::codec::CodecFormat;
use crate::compression::outcome_view;
use crate::compression::registry::built_in;
use crate::compression::registry::lemma_registry_round_trip;
use crate::compression::registry::registry_compresses;
use crate::compression::registry::registry_decompresses;
use crate::compression::registry::surely_decodes;
use crate::compression::registry::RegistryView;
use crate::compression::CompressionRegistry;
use crate::compression::Outcome;
use crate::envelope::over_limit_error;
use crate::envelope::over_limit_text;
use crate::error::opt_text;
use crate::error::plain_error;
use crate::error::ConnectError;
use crate::error::ErrorCode;
use crate::error::ErrorView;
use crate::headers::first_value;
use crate::headers::header_map_get;
use crate::headers::header_value_content;
use crate::headers::header_value_str;
use crate::headers::takes;
use crate::headers::within_ceiling;
use crate::headers::HeaderContents;
use crate::headers::HeadersView;
use crate::text::begins_with;
use crate::text::starts_with;

verus! {

/// Response of a call with one message: the message, with the headers and the
/// trailers that came with it.
#[derive(Debug)]
pub struct UnaryResponse<Resp> {
    /// The headers.
    pub headers: HeaderMap,
    /// The message.
    pub body: Resp,
    /// The trailers.
    pub trailers: HeaderMap,
}

impl<Resp> UnaryResponse<Resp> {
    /// The headers.
    #[must_use]
    pub fn headers(&self) -> (headers: &HeaderMap)
        ensures
            *headers == self.headers,
    {
        &self.headers
    }

    /// Only the message.
    #[must_use]
    pub fn into_view(self) -> (body: Resp)
        ensures
            body == self.body,
    {
        self.body
    }

    /// The trailers.
    #[must_use]
    pub fn trailers(&self) -> (trailers: &HeaderMap)
        ensures
            *trailers == self.trailers,
    {
        &self.trailers
    }

    /// The headers, the message and the trailers.
    #[must_use]
    pub fn into_parts(self) -> (parts: (HeaderMap, Resp, HeaderMap))
        ensures
            parts == (self.headers, self.body, self.trailers),
    {
        (self.headers, self.body, self.trailers)
    }
}

/// What decompression of a response may come to.
pub open spec fn response_unpacked(
    registry: RegistryView,
    encoding: Seq<char>,
    data: Seq<u8>,
    max: nat,
    r: Outcome,
) -> bool {
    exists|unpacked: Outcome| #[trigger]
        registry_decompresses(registry, encoding, data, max, unpacked) && r == blamed(unpacked)
}

/// An outcome of decompression as it is reported for a response.
pub open spec fn blamed(unpacked: Outcome) -> Outcome {
    match unpacked {
        Ok(bytes) => Ok(bytes),
        Err(e) => Err(blamed_on_server(e)),
    }
}

/// Decompress what came in a response.
pub fn unpack_response(compression: &CompressionRegistry, encoding: &str, data: Bytes, max_size: usize) -> (r: Result<
    Bytes,
    ConnectError,
>)
    ensures
        response_unpacked(compression@, encoding@, data@, max_size as nat, outcome_view(r)),
{
    let unpacked = compression.decompress_with_limit(encoding, data, max_size);
    let ghost outcome = outcome_view(unpacked);
    let r = match unpacked {
        Ok(bytes) => Ok(bytes),
        Err(e) => Err(map_response_decompression_error(e)),
    };
    proof {
        lemma_response_unpacked(compression@, encoding@, data@, max_size as nat, outcome, outcome_view(r));
    }
    r
}

/// What decompression made of data is what it may make of it.
proof fn lemma_response_unpacked(
    registry: RegistryView,
    encoding: Seq<char>,
    data: Seq<u8>,
    max: nat,
    unpacked: Outcome,
    r: Outcome,
)
    requires
        registry_decompresses(registry, encoding, data, max, unpacked),
        r == blamed(unpacked),
    ensures
        response_unpacked(registry, encoding, data, max, r),
{
}

// ---------------------------------------------------------------------------
// The Connect protocol
// ---------------------------------------------------------------------------

/// A successful response of the Connect protocol, while its body is read.
#[derive(Debug)]
pub struct ConnectUnaryReader {
    /// Its headers.
    pub headers: HeaderMap,
    /// The trailers among them.
    pub trailers: HeaderMap,
    /// The encoding of the body.
    pub encoding: Option<String>,
    /// The limit on the body, and on the message.
    pub max_size: usize,
}

/// What judging the content type of a Connect response comes to. One for the
/// other format is the server's fault; any other is no Connect response at
/// all. A missing one is accepted.
pub open spec fn connect_type_outcome(h: HeaderContents, format: CodecFormat) -> Result<(), ErrorView> {
    match first_value(h, "content-type"@) {
        None => Ok(()),
        Some(value) => {
            let text = content_type_text(value);
            if begins_with(text, unary_type(format)) {
                Ok(())
            } else {
                Err(
                    plain_error(
                        if begins_with(text, unary_type(CodecFormat::Proto)) || begins_with(
                            text,
                            unary_type(CodecFormat::Json),
                        ) {
                            ErrorCode::Internal
                        } else {
                            ErrorCode::Unknown
                        },
                        "unexpected content-type: "@ + text,
                    ),
                )
            }
        },
    }
}

/// Judge the content type of a Connect response.
pub fn validate_connect_content_type(headers: &HeaderMap, format: CodecFormat) -> (r: Result<(), ConnectError>)
    ensures
        crate::envelope::encoder::unit_view(r) == connect_type_outcome(headers@, format),
{
    proof {
        lemma_status_names();
        reveal_strlit("");
    }
    let value = match header_map_get(headers, "content-type") {
        Some(value) => value,
        None => return Ok(()),
    };
    let text = match header_value_str(value) {
        Some(text) => text,
        None => "",
    };
    assert(text@ =~= content_type_text(header_value_content(*value)));
    if starts_with(text, format.content_type()) {
        return Ok(());
    }
    let code = if starts_with(text, CodecFormat::Proto.content_type()) || starts_with(
        text,
        CodecFormat::Json.content_type(),
    ) {
        ErrorCode::Internal
    } else {
        ErrorCode::Unknown
    };
    let mut message = "unexpected content-type: ".to_owned();
    message.push_str(text);
    Err(ConnectError::new(code, message))
}

/// What the body of a successful response may come to: the encoded message.
pub open spec fn unary_message(
    registry: RegistryView,
    encoding: Option<Seq<char>>,
    body: Seq<u8>,
    max: nat,
    r: Outcome,
) -> bool {
    match encoding {
        Some(e) => unary_unpacked(registry, e, body, max, r),
        None => r == within(Outcome::Ok(body), max),
    }
}

/// What the compressed body of a successful response may come to.
pub open spec fn unary_unpacked(
    registry: RegistryView,
    encoding: Seq<char>,
    body: Seq<u8>,
    max: nat,
    r: Outcome,
) -> bool {
    exists|unpacked: Outcome| #[trigger]
        response_unpacked(registry, encoding, body, max, unpacked) && r == within(unpacked, max)
}

/// A message that keeps to its limit, or an error.
pub open spec fn within(message: Outcome, max: nat) -> Outcome {
    match message {
        Ok(bytes) => if bytes.len() > max {
            Err(plain_error(ErrorCode::ResourceExhausted, over_limit_text("message"@, bytes.len(), max)))
        } else {
            message
        },
        Err(_) => message,
    }
}

/// What may come of a compressed body is what comes of it within the limit.
proof fn lemma_unary_unpacked(
    registry: RegistryView,
    encoding: Seq<char>,
    body: Seq<u8>,
    max: nat,
    unpacked: Outcome,
    r: Outcome,
)
    requires
        response_unpacked(registry, encoding, body, max, unpacked),
        r == within(unpacked, max),
    ensures
        unary_unpacked(registry, encoding, body, max, r),
{
}

/// Refuse a message over its limit.
fn check_within(message: Bytes, max_size: usize) -> (r: Result<Bytes, ConnectError>)
    ensures
        outcome_view(r) == within(Outcome::Ok(message@), max_size as nat),
{
    if message.len() > max_size {
        return Err(over_limit_error("message", message.len(), max_size));
    }
    Ok(message)
}

impl ConnectUnaryReader {
    /// Begin to read a successful response, unless its content type is wrong.
    pub fn new(response_headers: &HeaderMap, config: &ClientConfig, options: &CallOptions) -> (r: Result<
        Self,
        ConnectError,
    >)
        ensures
            match r {
                Ok(reader) => connect_type_outcome(response_headers@, config.codec_format) is Ok && opt_text(
                    reader.encoding,
                ) == visible_value(response_headers@, "content-encoding"@) && reader.max_size == limit_or_default(
                    options.max_message_size,
                ) && takes(reader.headers@, plain_headers(response_headers@)) && takes(
                    reader.trailers@,
                    prefixed_trailers(response_headers@),
                ) && within_ceiling(reader.headers@) && within_ceiling(reader.trailers@),
                Err(e) => connect_type_outcome(response_headers@, config.codec_format) == Err::<(), ErrorView>(e@),
            },
    {
        proof {
            lemma_status_names();
        }
        let (headers, trailers) = split_trailers(response_headers);
        match validate_connect_content_type(response_headers, config.codec_format) {
            Ok(()) => {},
            Err(e) => return Err(e),
        }
        Ok(
            ConnectUnaryReader {
                headers,
                trailers,
                encoding: visible_string(response_headers, "content-encoding"),
                max_size: message_limit(options.max_message_size),
            },
        )
    }

    /// The encoded message in the body of the response.
    pub fn message(&self, compression: &CompressionRegistry, body: Bytes) -> (r: Result<Bytes, ConnectError>)
        ensures
            unary_message(compression@, opt_text(self.encoding), body@, self.max_size as nat, outcome_view(r)),
    {
        match &self.encoding {
            Some(encoding) => {
                let unpacked = unpack_response(compression, encoding.as_str(), body, self.max_size);
                let ghost outcome = outcome_view(unpacked);
                let r = match unpacked {
                    Ok(bytes) => check_within(bytes, self.max_size),
                    Err(e) => Err(e),
                };
                proof {
                    lemma_unary_unpacked(
                        compression@,
                        encoding@,
                        body@,
                        self.max_size as nat,
                        outcome,
                        outcome_view(r),
                    );
                }
                r
            },
            None => check_within(body, self.max_size),
        }
    }
}

/// A message that was compressed as a whole is read back: decompressing the
/// body that an encoding of this crate made of it, under a limit that it keeps
/// to, gives it. Only zstd may fail, for want of memory.
pub proof fn lemma_sent_body_is_read_back(
    registry: RegistryView,
    encoding: Seq<char>,
    message: Seq<u8>,
    body: Seq<u8>,
    max: nat,
    r: Outcome,
)
    requires
        registry_compresses(registry, encoding, message, Outcome::Ok(body)),
        built_in(registry, encoding, message.len()),
        unary_message(registry, Some(encoding), body, max, r),
        message.len() <= max,
    ensures
        surely_decodes(registry, encoding) ==> r == Outcome::Ok(message),
        r is Ok ==> r == Outcome::Ok(message),
{
    let unpacked = choose|unpacked: Outcome| #[trigger]
        response_unpacked(registry, encoding, body, max, unpacked) && r == within(unpacked, max);
    lemma_unpacked_is_sent(registry, encoding, message, body, max, unpacked);
}

/// What was compressed for sending is what decompression of a response gives.
pub proof fn lemma_unpacked_is_sent(
    registry: RegistryView,
    encoding: Seq<char>,
    message: Seq<u8>,
    payload: Seq<u8>,
    max: nat,
    unpacked: Outcome,
)
    requires
        registry_compresses(registry, encoding, message, Outcome::Ok(payload)),
        response_unpacked(registry, encoding, payload, max, unpacked),
        built_in(registry, encoding, message.len()),
        message.len() <= max,
    ensures
        surely_decodes(registry, encoding) ==> unpacked == Outcome::Ok(message),
        unpacked is Ok ==> unpacked == Outcome::Ok(message),
{
    let raw = choose|raw: Outcome| #[trigger]
        registry_decompresses(registry, encoding, payload, max, raw) && unpacked == blamed(raw);
    lemma_registry_round_trip(registry, encoding, message, payload, max, raw);
}

/// A message never comes out larger than its limit.
pub proof fn lemma_message_keeps_limit(
    registry: RegistryView,
    encoding: Option<Seq<char>>,
    body: Seq<u8>,
    max: nat,
    r: Outcome,
)
    requires
        unary_message(registry, encoding, body, max, r),
    ensures
        r matches Ok(message) ==> message.len() <= max,
{
}

// ---------------------------------------------------------------------------
// Decoding
// ---------------------------------------------------------------------------

/// Why a message could not be decoded.
#[derive(Debug)]
pub enum DecodeFailure {
    /// It is no protobuf message of its type.
    Proto(String),
    /// It is no JSON for a message of its type.
    Json(String),
    /// A message read from JSON could not be made into one to hand out.
    View(String),
}

/// The error for a message that could not be decoded. The server is at fault.
pub open spec fn decode_error(failure: DecodeFailure) -> ErrorView {
    plain_error(
        ErrorCode::Internal,
        match failure {
            DecodeFailure::Proto(cause) => "failed to decode response: "@ + cause@,
            DecodeFailure::Json(cause) => "failed to decode JSON response: "@ + cause@,
            DecodeFailure::View(cause) => "failed to re-encode for view: "@ + cause@,
        },
    )
}

/// Report a message that could not be decoded.
pub fn decode_response_view<M>(decoded: Result<M, DecodeFailure>) -> (r: Result<M, ConnectError>)
    ensures
        match decoded {
            Ok(m) => r == Ok::<M, ConnectError>(m),
            Err(failure) => r matches Err(e) && e@ == decode_error(failure),
        },
{
    match decoded {
        Ok(m) => Ok(m),
        Err(failure) => {
            let (complaint, cause) = match failure {
                DecodeFailure::Proto(cause) => ("failed to decode response: ", cause),
                DecodeFailure::Json(cause) => ("failed to decode JSON response: ", cause),
                DecodeFailure::View(cause) => ("failed to re-encode for view: ", cause),
            };
            let mut text = complaint.to_owned();
            text.push_str(cause.as_str());
            Err(ConnectError::internal(text))
        },
    }
}

/// The error for a call that its deadline cut off.
pub fn client_deadline_error() -> (e: ConnectError)
    ensures
        e@ == plain_error(ErrorCode::DeadlineExceeded, "client-side deadline exceeded"@),
{
    ConnectError::deadline_exceeded("client-side deadline exceeded")
}

} // verus!
