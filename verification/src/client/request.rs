//! What a request is made up of: its URI, its headers and its body.
use base64::Engine;
use bytes::Bytes;
use bytes::BytesMut;
use http::HeaderMap;
use http::Uri;
use std::sync::Arc;
use std::time::Duration;
use vstd::prelude::*;
use vstd::utf8::encode_utf8;

use crate::buffer::BufferView;
use crate::client::config::lemma_merged_headers;
use crate::client::config::merge_headers;
use crate::client::config::merged_headers;
use crate::client::config::CallOptions;
use crate::client::config::ClientConfig;
use crate::client::timeout::format_timeout;
use crate::client::timeout::timeout_text;
use crate::codec::format_name;
use crate::codec::header as connect_header;
use crate::codec::CodecFormat;
use crate::compression::registry::comma_joined;
use crate::compression::registry::registry_compresses;
use crate::compression::Outcome;
use crate::envelope::encoder::message_encoded;
use crate::envelope::encoder::unit_view;
use crate::envelope::encoder::Coding;
use crate::envelope::encoder::EncoderView;
use crate::envelope::encoder::EnvelopeEncoder;
use crate::error::error_text;
use crate::error::plain_error;
use crate::error::ConnectError;
use crate::error::ErrorCode;
use crate::error::ErrorView;
use crate::headers::all_values_valid;
use crate::headers::collected;
use crate::headers::fits;
use crate::headers::header_map_clone;
use crate::headers::headers_from;
use crate::headers::is_canonical_name;
use crate::headers::list_view;
use crate::headers::plain_value;
use crate::headers::takes;
use crate::headers::HeaderContents;
use crate::headers::HeadersView;
use crate::headers::ValueView;
use crate::protocol::accept_name;
use crate::protocol::encoding_name;
use crate::protocol::message_type;
use crate::protocol::timeout_name;
use crate::protocol::Protocol;
use crate::radix64::base64_text;
use crate::radix64::Alphabet;
use crate::text::str_eq;
use crate::text::trim_end_char;
use crate::text::without_trailing;
use crate::time::duration_nanos;

verus! {

// ---------------------------------------------------------------------------
// Headers
// ---------------------------------------------------------------------------

/// Names and values of headers, in the order in which they are added.
pub type HeaderList = Seq<(Seq<char>, ValueView)>;

/// A single header.
pub open spec fn one(name: Seq<char>, text: Seq<char>) -> HeaderList {
    seq![(name, plain_value(encode_utf8(text)))]
}

/// A header where there is a value for it.
pub open spec fn optional(name: Seq<char>, text: Option<Seq<char>>) -> HeaderList {
    match text {
        Some(t) => one(name, t),
        None => Seq::empty(),
    }
}

/// The header for the encodings that are supported, where there are any.
pub open spec fn accepting(name: Seq<char>, config: ClientConfig) -> HeaderList {
    let names = comma_joined(config.compression.names());
    if names.len() == 0 {
        Seq::empty()
    } else {
        one(name, names)
    }
}

/// The header for a timeout, where there is one.
pub open spec fn timing(protocol: Protocol, timeout: Option<Duration>) -> HeaderList {
    match timeout {
        Some(t) => one(timeout_name(protocol), timeout_text(duration_nanos(t), protocol)),
        None => Seq::empty(),
    }
}

/// The encoding of requests, if they are compressed.
pub open spec fn request_encoding(config: ClientConfig) -> Option<Seq<char>> {
    match config.request_compression {
        Some(e) => Some(e@),
        None => None,
    }
}

/// The headers of a request with one message. `applied` is the encoding that
/// was in fact applied to the body of a Connect request. gRPC declares the
/// encoding in any case: there each message says whether it is compressed.
pub open spec fn unary_headers(
    config: ClientConfig,
    timeout: Option<Duration>,
    applied: Option<Seq<char>>,
) -> HeaderList {
    one("content-type"@, message_type(config.protocol, config.codec_format, false)) + match config.protocol {
        Protocol::Connect => one("connect-protocol-version"@, "1"@) + optional("content-encoding"@, applied)
            + accepting("accept-encoding"@, config),
        Protocol::Grpc => one("te"@, "trailers"@) + optional("grpc-encoding"@, request_encoding(config))
            + accepting("grpc-accept-encoding"@, config),
        Protocol::GrpcWeb => optional("grpc-encoding"@, request_encoding(config)) + accepting(
            "grpc-accept-encoding"@,
            config,
        ),
    } + timing(config.protocol, timeout)
}

/// The headers of a request with a stream of messages.
pub open spec fn streaming_headers(config: ClientConfig, timeout: Option<Duration>) -> HeaderList {
    one("content-type"@, message_type(config.protocol, config.codec_format, true)) + match config.protocol {
        Protocol::Connect => one("connect-protocol-version"@, "1"@),
        Protocol::Grpc => one("te"@, "trailers"@),
        Protocol::GrpcWeb => Seq::empty(),
    } + optional(encoding_name(config.protocol), request_encoding(config)) + accepting(
        accept_name(config.protocol),
        config,
    ) + timing(config.protocol, timeout)
}

/// The headers of a request whose message is in its URI.
pub open spec fn get_headers(config: ClientConfig, timeout: Option<Duration>) -> HeaderList {
    timing(Protocol::Connect, timeout) + accepting("accept-encoding"@, config)
}

/// The collection of the headers in a list: none where one of the values
/// cannot be that of a header.
pub open spec fn makes(list: HeaderList, headers: Option<HeaderMap>) -> bool {
    match headers {
        Some(h) => all_values_valid(list) && h@ == collected(list),
        None => !all_values_valid(list),
    }
}

/// The names that the protocols use are in canonical form.
proof fn lemma_protocol_names()
    ensures
        is_canonical_name("content-type"@),
        is_canonical_name("connect-protocol-version"@),
        is_canonical_name("content-encoding"@),
        is_canonical_name("accept-encoding"@),
        is_canonical_name("te"@),
        is_canonical_name("grpc-encoding"@),
        is_canonical_name("grpc-accept-encoding"@),
        is_canonical_name("connect-content-encoding"@),
        is_canonical_name("connect-accept-encoding"@),
        is_canonical_name("connect-timeout-ms"@),
        is_canonical_name("grpc-timeout"@),
{
    reveal_strlit("content-type");
    reveal_strlit("connect-protocol-version");
    reveal_strlit("content-encoding");
    reveal_strlit("accept-encoding");
    reveal_strlit("te");
    reveal_strlit("grpc-encoding");
    reveal_strlit("grpc-accept-encoding");
    reveal_strlit("connect-content-encoding");
    reveal_strlit("connect-accept-encoding");
    reveal_strlit("connect-timeout-ms");
    reveal_strlit("grpc-timeout");
}

/// Whether every name of a list is in canonical form.
spec fn all_canonical(list: Seq<(&'static str, String)>) -> bool {
    forall|i: int| 0 <= i < list.len() ==> is_canonical_name((#[trigger] list[i]).0@)
}

/// Add a header to a list.
fn push_header(list: &mut Vec<(&'static str, String)>, name: &'static str, value: &str)
    requires
        is_canonical_name(name@),
        all_canonical(old(list)@),
    ensures
        list_view(final(list)@) == list_view(old(list)@) + one(name@, value@),
        final(list)@.len() == old(list)@.len() + 1,
        all_canonical(final(list)@),
{
    list.push((name, value.to_owned()));
    assert(list_view(list@) =~= list_view(old(list)@) + one(name@, value@));
}

/// Add a header where there is a value for it.
fn push_optional(list: &mut Vec<(&'static str, String)>, name: &'static str, value: Option<&str>)
    requires
        is_canonical_name(name@),
        all_canonical(old(list)@),
    ensures
        list_view(final(list)@) == list_view(old(list)@) + optional(name@, opt_str(value)),
        old(list)@.len() <= final(list)@.len() <= old(list)@.len() + 1,
        all_canonical(final(list)@),
{
    match value {
        Some(v) => push_header(list, name, v),
        None => {
            assert(list_view(list@) =~= list_view(list@) + Seq::empty());
        },
    }
}

/// Add the header for the encodings that are supported.
fn push_accepting(list: &mut Vec<(&'static str, String)>, name: &'static str, config: &ClientConfig)
    requires
        is_canonical_name(name@),
        all_canonical(old(list)@),
    ensures
        list_view(final(list)@) == list_view(old(list)@) + accepting(name@, *config),
        old(list)@.len() <= final(list)@.len() <= old(list)@.len() + 1,
        all_canonical(final(list)@),
{
    let accept = config.compression.accept_encoding_header();
    if str_eq(accept, "") {
        proof {
            reveal_strlit("");
        }
        assert(list_view(list@) =~= list_view(list@) + Seq::empty());
    } else {
        proof {
            reveal_strlit("");
            if accept@.len() == 0 {
                assert(accept@ =~= ""@);
            }
        }
        push_header(list, name, accept);
    }
}

/// Add the header for a timeout.
fn push_timing(list: &mut Vec<(&'static str, String)>, protocol: Protocol, timeout: Option<Duration>)
    requires
        is_canonical_name(timeout_name(protocol)),
        all_canonical(old(list)@),
    ensures
        list_view(final(list)@) == list_view(old(list)@) + timing(protocol, timeout),
        old(list)@.len() <= final(list)@.len() <= old(list)@.len() + 1,
        all_canonical(final(list)@),
{
    match timeout {
        Some(t) => {
            let text = format_timeout(t, protocol);
            push_header(list, protocol.timeout_header(), text.as_str());
        },
        None => {
            assert(list_view(list@) =~= list_view(list@) + Seq::empty());
        },
    }
}

/// The text behind an optional string slice.
pub open spec fn opt_str(s: Option<&str>) -> Option<Seq<char>> {
    match s {
        Some(t) => Some(t@),
        None => None,
    }
}

/// The content type of a request with one message.
pub fn unary_request_content_type(config: &ClientConfig) -> (name: &'static str)
    ensures
        name@ == message_type(config.protocol, config.codec_format, false),
{
    match config.protocol {
        Protocol::Connect => config.codec_format.content_type(),
        _ => config.protocol.response_content_type(config.codec_format, false),
    }
}

/// The content type of a request with a stream of messages.
pub fn streaming_request_content_type(config: &ClientConfig) -> (name: &'static str)
    ensures
        name@ == message_type(config.protocol, config.codec_format, true),
{
    config.protocol.response_content_type(config.codec_format, true)
}

/// The headers of a request with one message.
pub fn add_unary_request_headers(
    config: &ClientConfig,
    timeout: Option<Duration>,
    applied_content_encoding: Option<&str>,
) -> (headers: Option<HeaderMap>)
    ensures
        makes(unary_headers(*config, timeout, opt_str(applied_content_encoding)), headers),
{
    proof {
        lemma_protocol_names();
    }
    let mut list: Vec<(&'static str, String)> = Vec::new();
    push_header(&mut list, "content-type", unary_request_content_type(config));
    match config.protocol {
        Protocol::Connect => {
            push_header(&mut list, connect_header::PROTOCOL_VERSION, "1");
            push_optional(&mut list, "content-encoding", applied_content_encoding);
            push_accepting(&mut list, "accept-encoding", config);
        },
        Protocol::Grpc => {
            push_header(&mut list, "te", "trailers");
            push_optional(&mut list, "grpc-encoding", config.request_compression());
            push_accepting(&mut list, "grpc-accept-encoding", config);
        },
        Protocol::GrpcWeb => {
            push_optional(&mut list, "grpc-encoding", config.request_compression());
            push_accepting(&mut list, "grpc-accept-encoding", config);
        },
    }
    push_timing(&mut list, config.protocol, timeout);
    assert(list_view(list@) =~= unary_headers(*config, timeout, opt_str(applied_content_encoding)));
    headers_from(&list)
}

/// The headers of a request with a stream of messages.
pub fn add_streaming_request_headers(config: &ClientConfig, timeout: Option<Duration>) -> (headers: Option<HeaderMap>)
    ensures
        makes(streaming_headers(*config, timeout), headers),
{
    proof {
        lemma_protocol_names();
    }
    let mut list: Vec<(&'static str, String)> = Vec::new();
    push_header(&mut list, "content-type", streaming_request_content_type(config));
    match config.protocol {
        Protocol::Connect => push_header(&mut list, connect_header::PROTOCOL_VERSION, "1"),
        Protocol::Grpc => push_header(&mut list, "te", "trailers"),
        Protocol::GrpcWeb => {},
    }
    push_optional(&mut list, config.protocol.content_encoding_header(), config.request_compression());
    push_accepting(&mut list, config.protocol.accept_encoding_header(), config);
    push_timing(&mut list, config.protocol, timeout);
    assert(list_view(list@) =~= streaming_headers(*config, timeout));
    headers_from(&list)
}

/// The headers of a request whose message is in its URI: it has no body, and
/// so no content type and no content encoding.
pub fn add_get_request_headers(config: &ClientConfig, timeout: Option<Duration>) -> (headers: Option<HeaderMap>)
    ensures
        makes(get_headers(*config, timeout), headers),
{
    proof {
        lemma_protocol_names();
    }
    let mut list: Vec<(&'static str, String)> = Vec::new();
    push_timing(&mut list, Protocol::Connect, timeout);
    push_accepting(&mut list, "accept-encoding", config);
    assert(list_view(list@) =~= get_headers(*config, timeout));
    headers_from(&list)
}

/// The headers that are sent: those of the call, and those of the protocol that
/// the call does not set, as far as the collection can take them. There are none
/// where the protocol's cannot be made.
pub open spec fn sent_headers(list: HeaderList, user: HeaderContents, headers: Option<HeaderMap>) -> bool {
    match headers {
        Some(h) => all_values_valid(list) && takes(h@, merged_headers(collected(list), user)),
        None => !all_values_valid(list),
    }
}

/// Merge the headers of a call over those of the protocol, so that they can
/// override any of them.
fn with_user_headers(Ghost(list): Ghost<HeaderList>, headers: Option<HeaderMap>, user: &HeaderMap) -> (sent: Option<HeaderMap>)
    requires
        makes(list, headers),
    ensures
        sent_headers(list, user@, sent),
{
    match headers {
        Some(h) => Some(merge_headers(&h, header_map_clone(user))),
        None => None,
    }
}

/// A header of the call overrides that of the protocol; the other headers of the
/// protocol are sent as they are.
pub proof fn lemma_call_overrides_protocol(
    list: HeaderList,
    user: HeaderContents,
    headers: Option<HeaderMap>,
    name: Seq<char>,
)
    requires
        sent_headers(list, user, headers),
        all_values_valid(list),
        fits(merged_headers(collected(list), user)),
    ensures
        headers is Some,
        user.contains_key(name) ==> headers->0@.contains_key(name) && headers->0@[name] == user[name],
        !user.contains_key(name) ==> (headers->0@.contains_key(name) <==> collected(list).contains_key(name)),
        !user.contains_key(name) && collected(list).contains_key(name) ==> headers->0@[name] == collected(list)[name],
{
    lemma_merged_headers(collected(list), user, name);
}

// ---------------------------------------------------------------------------
// URIs
// ---------------------------------------------------------------------------

/// The text of a URI, as its `Display` writes it.
pub uninterp spec fn uri_text(uri: http::Uri) -> Seq<char>;

/// What parsing a URI comes to: the text of the URI, or that of the error.
pub uninterp spec fn parsed_uri(text: Seq<char>) -> Result<Seq<char>, Seq<char>>;

/// The `Display` of `Uri` writes its text.
#[verifier::external_body]
fn uri_string(uri: &Uri) -> (text: String)
    ensures
        text@ == uri_text(*uri),
{
    uri.to_string()
}

/// The `FromStr` of `Uri` reads a URI, or says why it cannot.
#[verifier::external_body]
fn uri_parse(text: &str) -> (uri: Result<Uri, String>)
    ensures
        match uri {
            Ok(u) => parsed_uri(text@) == Result::<Seq<char>, Seq<char>>::Ok(uri_text(u)),
            Err(e) => parsed_uri(text@) == Result::<Seq<char>, Seq<char>>::Err(e@),
        },
{
    text.parse::<Uri>().map_err(|e| e.to_string())
}

/// The path of a method, behind the base URI without its trailing slashes.
pub open spec fn method_uri(base: Seq<char>, service: Seq<char>, method: Seq<char>) -> Seq<char> {
    without_trailing(base, '/') + "/"@ + service + "/"@ + method
}

/// What parsing a URI comes to, with what the error says before its cause.
pub open spec fn uri_outcome(text: Seq<char>, complaint: Seq<char>, r: Result<Uri, ConnectError>) -> bool {
    match parsed_uri(text) {
        Ok(t) => r matches Ok(u) && uri_text(u) == t,
        Err(cause) => r matches Err(e) && e@ == plain_error(ErrorCode::Internal, complaint + cause),
    }
}

/// The text of the URI of a method.
fn method_text(config: &ClientConfig, service: &str, method: &str) -> (text: String)
    ensures
        text@ == method_uri(uri_text(config.base_uri), service@, method@),
{
    let base = uri_string(&config.base_uri);
    let mut text = trim_end_char(base.as_str(), '/');
    text.push_str("/");
    text.push_str(service);
    text.push_str("/");
    text.push_str(method);
    text
}

/// Parse a URI, or report why it cannot be parsed.
fn checked_uri(text: &str, complaint: &str) -> (r: Result<Uri, ConnectError>)
    ensures
        uri_outcome(text@, complaint@, r),
{
    match uri_parse(text) {
        Ok(uri) => Ok(uri),
        Err(cause) => {
            let mut message = complaint.to_owned();
            message.push_str(cause.as_str());
            Err(ConnectError::internal(message))
        },
    }
}

/// The URI that a method is called at.
pub fn call_uri(config: &ClientConfig, service: &str, method: &str) -> (r: Result<Uri, ConnectError>)
    ensures
        uri_outcome(method_uri(uri_text(config.base_uri), service@, method@), "invalid URI: "@, r),
{
    let text = method_text(config, service, method);
    checked_uri(text.as_str(), "invalid URI: ")
}

// ---------------------------------------------------------------------------
// Bodies
// ---------------------------------------------------------------------------

/// The encoding that a message of the given size is compressed with, if it is.
pub open spec fn chosen_encoding(config: ClientConfig, compress: Option<bool>, size: nat) -> Option<Seq<char>> {
    if config.compression_policy.overridden(compress).applies(size) {
        request_encoding(config)
    } else {
        None
    }
}

/// What compressing a message as a whole may come to.
pub open spec fn whole_compressed(config: ClientConfig, compress: Option<bool>, message: Seq<u8>, r: Outcome) -> bool {
    match chosen_encoding(config, compress, message.len()) {
        Some(encoding) => registry_compresses(config.compression@, encoding, message, r),
        None => r == Outcome::Ok(message),
    }
}

/// Compress a message as a whole where the configuration and the call say so.
fn compress_whole(config: &ClientConfig, compress: Option<bool>, message: Bytes) -> (r: Result<
    (Bytes, Option<&str>),
    ConnectError,
>)
    ensures
        match r {
            Ok((body, applied)) => whole_compressed(*config, compress, message@, Outcome::Ok(body@)) && opt_str(applied)
                == chosen_encoding(*config, compress, message@.len()),
            Err(e) => whole_compressed(*config, compress, message@, Outcome::Err(e@)),
        },
{
    let policy = config.compression_policy.with_override(compress);
    match config.request_compression() {
        Some(encoding) => if policy.should_compress(message.len()) {
            match config.compression.compress(encoding, &message) {
                Ok(body) => Ok((body, Some(encoding))),
                Err(e) => Err(e),
            }
        } else {
            Ok((message, None))
        },
        None => Ok((message, None)),
    }
}

/// What the messages of a call are framed with.
pub open spec fn encoder_for(config: ClientConfig, compress: Option<bool>) -> EncoderView {
    EncoderView {
        compression: match config.request_compression {
            Some(e) => Some(Coding { registry: config.compression@, encoding: e@ }),
            None => None,
        },
        policy: config.compression_policy.overridden(compress),
    }
}

/// An encoder for the messages of a call.
pub fn request_encoder(config: &ClientConfig, options: &CallOptions) -> (encoder: EnvelopeEncoder)
    ensures
        encoder@ == encoder_for(*config, options.compress),
{
    let compression = match &config.request_compression {
        Some(encoding) => Some((Arc::new(config.compression.clone()), encoding.clone())),
        None => None,
    };
    EnvelopeEncoder::new(compression, config.compression_policy.with_override(options.compress))
}

/// What framing a single message may come to.
pub open spec fn framed(encoder: EncoderView, message: Seq<u8>, r: Outcome) -> bool {
    match r {
        Ok(body) => message_encoded(encoder, message, Seq::empty(), body, Ok(())),
        Err(e) => message_encoded(encoder, message, Seq::empty(), Seq::empty(), Err(e)),
    }
}

/// Frame a single message.
pub fn frame_message(encoder: &EnvelopeEncoder, message: Bytes) -> (r: Result<Bytes, ConnectError>)
    ensures
        framed(encoder@, message@, crate::compression::outcome_view(r)),
{
    let mut buf = BytesMut::new();
    let r = encoder.encode(message, &mut buf);
    assert(message_encoded(encoder@, message@, Seq::empty(), buf@, unit_view(r)));
    match r {
        Ok(()) => Ok(buf.freeze()),
        Err(e) => Err(e),
    }
}

// ---------------------------------------------------------------------------
// Requests
// ---------------------------------------------------------------------------

/// A request as it is sent.
#[derive(Debug)]
pub struct RequestParts {
    /// Where it is sent.
    pub uri: Uri,
    /// Its headers. There are none where one of the values that the protocol
    /// wants cannot be that of a header.
    pub headers: Option<HeaderMap>,
    /// Its body.
    pub body: Bytes,
}

/// The encoding that is applied to the body of a request with one message. The
/// body of a gRPC request as a whole has none.
pub open spec fn applied_encoding(config: ClientConfig, compress: Option<bool>, size: nat) -> Option<Seq<char>> {
    match config.protocol {
        Protocol::Connect => chosen_encoding(config, compress, size),
        _ => None,
    }
}

/// What the body of a request with one message may come to: the message, which
/// may be compressed, or for gRPC the message in its envelope.
pub open spec fn unary_body(config: ClientConfig, compress: Option<bool>, message: Seq<u8>, r: Outcome) -> bool {
    match config.protocol {
        Protocol::Connect => whole_compressed(config, compress, message, r),
        _ => match r {
            Ok(_) => framed(encoder_for(config, compress), message, r),
            Err(e) => exists|inner: ErrorView| #[trigger]
                framed(encoder_for(config, compress), message, Outcome::Err(inner)) && e == plain_error(
                    ErrorCode::Internal,
                    "envelope encode failed: "@ + error_text(inner),
                ),
        },
    }
}

/// Make up a request with one message for `uri`.
pub fn prepare_unary(config: &ClientConfig, uri: Uri, message: Bytes, options: &CallOptions) -> (r: Result<
    RequestParts,
    ConnectError,
>)
    ensures
        match r {
            Ok(parts) => parts.uri == uri && unary_body(
                *config,
                options.compress,
                message@,
                Outcome::Ok(parts.body@),
            ) && sent_headers(
                unary_headers(
                    *config,
                    options.timeout,
                    applied_encoding(*config, options.compress, message@.len()),
                ),
                options.headers@,
                parts.headers,
            ),
            Err(e) => unary_body(*config, options.compress, message@, Outcome::Err(e@)),
        },
{
    let (body, applied) = match config.protocol {
        Protocol::Connect => match compress_whole(config, options.compress, message) {
            Ok(done) => done,
            Err(e) => return Err(e),
        },
        _ => {
            let encoder = request_encoder(config, options);
            match frame_message(&encoder, message) {
                Ok(body) => (body, None),
                Err(inner) => {
                    assert(framed(encoder@, message@, Outcome::Err(inner@)));
                    let mut text = "envelope encode failed: ".to_owned();
                    let cause = inner.to_string();
                    text.push_str(cause.as_str());
                    return Err(ConnectError::internal(text));
                },
            }
        },
    };
    let headers = add_unary_request_headers(config, options.timeout, applied);
    let headers = with_user_headers(
        Ghost(unary_headers(*config, options.timeout, opt_str(applied))),
        headers,
        &options.headers,
    );
    Ok(RequestParts { uri, headers, body })
}

/// The headers of a request with a stream of messages: those of the call, and
/// those of the protocol that the call does not set.
pub fn prepare_stream(config: &ClientConfig, options: &CallOptions) -> (headers: Option<HeaderMap>)
    ensures
        sent_headers(streaming_headers(*config, options.timeout), options.headers@, headers),
{
    let headers = add_streaming_request_headers(config, options.timeout);
    with_user_headers(Ghost(streaming_headers(*config, options.timeout)), headers, &options.headers)
}

/// Make up a request for `uri` whose stream is one message.
pub fn prepare_server_stream(config: &ClientConfig, uri: Uri, message: Bytes, options: &CallOptions) -> (r: Result<
    RequestParts,
    ConnectError,
>)
    ensures
        match r {
            Ok(parts) => parts.uri == uri && framed(
                encoder_for(*config, options.compress),
                message@,
                Outcome::Ok(parts.body@),
            ) && sent_headers(streaming_headers(*config, options.timeout), options.headers@, parts.headers),
            Err(e) => framed(encoder_for(*config, options.compress), message@, Outcome::Err(e@)),
        },
{
    let encoder = request_encoder(config, options);
    let body = match frame_message(&encoder, message) {
        Ok(body) => body,
        Err(e) => return Err(e),
    };
    Ok(RequestParts { uri, headers: prepare_stream(config, options), body })
}

// ---------------------------------------------------------------------------
// Requests whose message is in the URI
// ---------------------------------------------------------------------------

/// URL-safe base64 without padding.
pub open spec fn url_base64(bytes: Seq<u8>) -> Seq<char> {
    base64_text(bytes, Alphabet::UrlSafe)
}

/// `Engine::encode` of `URL_SAFE_NO_PAD` writes URL-safe base64 without padding.
#[verifier::external_body]
fn encode_url(bytes: &[u8]) -> (text: String)
    ensures
        text@ == url_base64(bytes@),
{
    base64::engine::general_purpose::URL_SAFE_NO_PAD.encode(bytes)
}

/// Whether a byte is an ASCII letter or digit.
pub open spec fn is_alphanumeric(b: u8) -> bool {
    48 <= b <= 57 || 65 <= b <= 90 || 97 <= b <= 122
}

/// The upper-case hexadecimal digit of a number below 16.
pub open spec fn hex_digit(n: nat) -> char {
    if n < 10 {
        ('0' as nat + n) as char
    } else {
        ('A' as nat + n - 10) as char
    }
}

/// A byte in percent encoding.
pub open spec fn percent_byte(b: u8) -> Seq<char> {
    if is_alphanumeric(b) {
        seq![b as char]
    } else {
        seq!['%', hex_digit((b / 16) as nat), hex_digit((b % 16) as nat)]
    }
}

/// Bytes in percent encoding, where only letters and digits stand for
/// themselves.
pub open spec fn percent_encoded(bytes: Seq<u8>) -> Seq<char>
    decreases bytes.len(),
{
    if bytes.len() == 0 {
        Seq::empty()
    } else {
        percent_encoded(bytes.drop_last()) + percent_byte(bytes.last())
    }
}

/// `percent_encode` with `NON_ALPHANUMERIC` writes ASCII letters and digits as
/// they are, and every other byte as a percent sign and two upper-case
/// hexadecimal digits.
#[verifier::external_body]
fn encode_percent(bytes: &[u8]) -> (text: String)
    ensures
        text@ == percent_encoded(bytes@),
{
    percent_encoding::percent_encode(bytes, percent_encoding::NON_ALPHANUMERIC).to_string()
}

/// The query of a request. The message comes last, so that the front of the
/// query is the same for all messages.
pub open spec fn get_query(
    use_base64: bool,
    compression: Option<Seq<char>>,
    encoding: Seq<char>,
    message: Seq<char>,
) -> Seq<char> {
    "connect=v1"@ + (if use_base64 {
        "&base64=1"@
    } else {
        Seq::empty()
    }) + match compression {
        Some(c) => "&compression="@ + c,
        None => Seq::empty(),
    } + "&encoding="@ + encoding + "&message="@ + message
}

/// Assemble the query of a request.
pub fn build_connect_get_query(
    use_base64: bool,
    compression: Option<&str>,
    encoding: &str,
    encoded_message: &str,
) -> (query: String)
    ensures
        query@ == get_query(use_base64, opt_str(compression), encoding@, encoded_message@),
{
    let mut query = "connect=v1".to_owned();
    if use_base64 {
        query.push_str("&base64=1");
    }
    if let Some(enc) = compression {
        query.push_str("&compression=");
        query.push_str(enc);
    }
    query.push_str("&encoding=");
    query.push_str(encoding);
    query.push_str("&message=");
    query.push_str(encoded_message);
    assert(query@ =~= get_query(use_base64, opt_str(compression), encoding@, encoded_message@));
    query
}

/// The query for a message as it is sent: base64 for what is not text, which
/// is protobuf and anything compressed, and percent encoding for JSON.
pub open spec fn message_query(format: CodecFormat, applied: Option<Seq<char>>, payload: Seq<u8>) -> Seq<char> {
    let use_base64 = format == CodecFormat::Proto || applied is Some;
    get_query(
        use_base64,
        applied,
        format_name(format),
        if use_base64 {
            url_base64(payload)
        } else {
            percent_encoded(payload)
        },
    )
}

/// The error for a protocol whose requests always have a body.
pub open spec fn no_get_error() -> ErrorView {
    plain_error(
        ErrorCode::InvalidArgument,
        "call_unary_get requires Protocol::Connect (gRPC/gRPC-Web are POST-only)"@,
    )
}

/// Only the Connect protocol has requests whose message is in the URI.
pub fn check_get(config: &ClientConfig) -> (r: Result<(), ConnectError>)
    ensures
        match r {
            Ok(()) => config.protocol == Protocol::Connect,
            Err(e) => config.protocol != Protocol::Connect && e@ == no_get_error(),
        },
{
    match config.protocol {
        Protocol::Connect => Ok(()),
        _ => Err(
            ConnectError::invalid_argument(
                "call_unary_get requires Protocol::Connect (gRPC/gRPC-Web are POST-only)",
            ),
        ),
    }
}

/// Make up a request whose message is in its URI.
pub fn prepare_get(config: &ClientConfig, service: &str, method: &str, message: Bytes, options: &CallOptions) -> (r:
    Result<RequestParts, ConnectError>)
    ensures
        exists|payload: Outcome| #[trigger]
            whole_compressed(*config, options.compress, message@, payload) && get_prepared(
                *config,
                *options,
                service@,
                method@,
                chosen_encoding(*config, options.compress, message@.len()),
                payload,
                r,
            ),
{
    let (payload, applied) = match compress_whole(config, options.compress, message) {
        Ok(done) => done,
        Err(e) => {
            assert(whole_compressed(*config, options.compress, message@, Outcome::Err(e@)));
            return Err(e);
        },
    };
    assert(whole_compressed(*config, options.compress, message@, Outcome::Ok(payload@)));
    let use_base64 = match config.codec_format {
        CodecFormat::Proto => true,
        CodecFormat::Json => applied.is_some(),
    };
    let encoded = if use_base64 {
        encode_url(&payload)
    } else {
        encode_percent(&payload)
    };
    let query = build_connect_get_query(use_base64, applied, config.codec_format.name(), encoded.as_str());
    assert(query@ == message_query(config.codec_format, opt_str(applied), payload@));
    let mut text = method_text(config, service, method);
    text.push_str("?");
    text.push_str(query.as_str());
    let uri = match checked_uri(text.as_str(), "invalid GET URI: ") {
        Ok(uri) => uri,
        Err(e) => return Err(e),
    };
    let headers = add_get_request_headers(config, options.timeout);
    let headers = with_user_headers(Ghost(get_headers(*config, options.timeout)), headers, &options.headers);
    Ok(RequestParts { uri, headers, body: Bytes::new() })
}

/// What a request whose message is in its URI comes to, for the payload that
/// compression gave.
pub open spec fn get_prepared(
    config: ClientConfig,
    options: CallOptions,
    service: Seq<char>,
    method: Seq<char>,
    applied: Option<Seq<char>>,
    payload: Outcome,
    r: Result<RequestParts, ConnectError>,
) -> bool {
    match payload {
        Err(e) => r matches Err(err) && err@ == e,
        Ok(bytes) => {
            let text = method_uri(uri_text(config.base_uri), service, method) + "?"@ + message_query(
                config.codec_format,
                applied,
                bytes,
            );
            match parsed_uri(text) {
                Ok(t) => r matches Ok(parts) && uri_text(parts.uri) == t && parts.body@.len() == 0 && sent_headers(
                    get_headers(config, options.timeout),
                    options.headers@,
                    parts.headers,
                ),
                Err(cause) => r matches Err(err) && err@ == plain_error(
                    ErrorCode::Internal,
                    "invalid GET URI: "@ + cause,
                ),
            }
        },
    }
}

} // verus!
