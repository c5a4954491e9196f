//! Response bodies that are collected up to a limit, and responses that are
//! not a success.
use bytes::Bytes;
use bytes::BytesMut;
use http::HeaderMap;
use http::StatusCode;
use vstd::prelude::*;

use crate::buffer::BufferView;
use crate::client::status::http_status_to_error_code;
use crate::client::status::lemma_status_names;
use crate::client::status::status_code_for;
use crate::client::status::visible_header;
use crate::client::status::visible_value;
use crate::client::status::wire_error;
use crate::client::status::wire_error_to_connect_error;
use crate::client::status::ConnectErrorResponse;
use crate::client::trailers::plain_headers;
use crate::client::trailers::prefixed_trailers;
use crate::client::trailers::split_trailers;
use crate::compression::registry::registry_decompresses;
use crate::compression::registry::RegistryView;
use crate::compression::CompressionRegistry;
use crate::compression::Outcome;
use crate::envelope::assembler::joined;
use crate::error::opt_text;
use crate::error::plain_error;
use crate::error::ConnectError;
use crate::error::ErrorCode;
use crate::error::ErrorView;
use crate::headers::header_map_clone;
use crate::headers::header_map_new;
use crate::headers::no_headers;
use crate::headers::status_as_u16;
use crate::headers::status_number;
use crate::headers::takes;
use crate::headers::within_ceiling;
use crate::headers::HeaderContents;
use crate::headers::HeadersView;
use crate::text::decimal;
use crate::text::lossy_text;
use crate::text::push_decimal;
use crate::text::utf8_lossy;

verus! {

/// The limit on a message where none is set: 4 MiB.
pub const DEFAULT_MAX_MESSAGE_SIZE: usize = 4_194_304;

/// The limit on a message.
pub open spec fn limit_or_default(max_message_size: Option<usize>) -> usize {
    match max_message_size {
        Some(size) => size,
        None => DEFAULT_MAX_MESSAGE_SIZE,
    }
}

/// The limit on a message.
pub fn message_limit(max_message_size: Option<usize>) -> (limit: usize)
    ensures
        limit == limit_or_default(max_message_size),
{
    match max_message_size {
        Some(size) => size,
        None => DEFAULT_MAX_MESSAGE_SIZE,
    }
}

// ---------------------------------------------------------------------------
// Collecting a body
// ---------------------------------------------------------------------------

/// The error for a body over its limit.
pub open spec fn body_over_limit(max: nat) -> ErrorView {
    plain_error(ErrorCode::ResourceExhausted, "response body size exceeds limit "@ + decimal(max))
}

/// The error for a body over its limit.
pub fn body_limit_error(max_size: usize) -> (err: ConnectError)
    ensures
        err@ == body_over_limit(max_size as nat),
{
    let mut message = "response body size exceeds limit ".to_owned();
    push_decimal(&mut message, max_size as u64);
    ConnectError::resource_exhausted(message)
}

/// The error for a body that cannot be read.
pub fn body_read_error(cause: &str) -> (err: ConnectError)
    ensures
        err@ == plain_error(ErrorCode::Internal, "failed to read response body: "@ + cause@),
{
    let mut message = "failed to read response body: ".to_owned();
    message.push_str(cause);
    ConnectError::internal(message)
}

/// A body as it is collected from the frames of a response.
#[derive(Debug)]
pub struct BodyCollector {
    /// What has arrived.
    pub buf: BytesMut,
    /// How much may arrive.
    pub max_size: usize,
}

impl BodyCollector {
    /// Nothing has arrived yet.
    pub fn new(max_size: usize) -> (collector: Self)
        ensures
            collector.buf@ == Seq::<u8>::empty(),
            collector.max_size == max_size,
    {
        BodyCollector { buf: BytesMut::new(), max_size }
    }

    /// Take the data of the next frame, unless the body is then over its limit.
    pub fn push(&mut self, data: &[u8]) -> (r: Result<(), ConnectError>)
        ensures
            final(self).max_size == old(self).max_size,
            match r {
                Ok(()) => old(self).buf@.len() + data@.len() <= old(self).max_size && final(self).buf@ == old(
                    self,
                ).buf@ + data@,
                Err(e) => old(self).buf@.len() + data@.len() > old(self).max_size && final(self).buf@ == old(
                    self,
                ).buf@ && e@ == body_over_limit(old(self).max_size as nat),
            },
    {
        if self.buf.len() > self.max_size || data.len() > self.max_size - self.buf.len() {
            return Err(body_limit_error(self.max_size));
        }
        self.buf.extend_from_slice(data);
        Ok(())
    }

    /// The body.
    pub fn finish(self) -> (body: Bytes)
        ensures
            body@ == self.buf@,
    {
        self.buf.freeze()
    }
}

/// What collecting frames comes to, one by one.
pub open spec fn collected_body(before: Seq<u8>, frames: Seq<Seq<u8>>, max: nat) -> Outcome
    decreases frames.len(),
{
    if frames.len() == 0 {
        Ok(before)
    } else if before.len() + frames[0].len() > max {
        Err(body_over_limit(max))
    } else {
        collected_body(before + frames[0], frames.drop_first(), max)
    }
}

/// How a body is cut into frames does not matter: it is refused exactly where
/// the whole of it is over the limit, and else it is what the frames hold.
pub proof fn lemma_frames_of_a_body_do_not_matter(before: Seq<u8>, frames: Seq<Seq<u8>>, max: nat)
    requires
        before.len() <= max,
    ensures
        collected_body(before, frames, max) == if (before + joined(frames)).len() > max {
            Outcome::Err(body_over_limit(max))
        } else {
            Outcome::Ok(before + joined(frames))
        },
    decreases frames.len(),
{
    if frames.len() == 0 {
        assert(before + joined(frames) =~= before);
    } else {
        assert(before + joined(frames) =~= (before + frames[0]) + joined(frames.drop_first()));
        if before.len() + frames[0].len() <= max {
            lemma_frames_of_a_body_do_not_matter(before + frames[0], frames.drop_first(), max);
        }
    }
}

// ---------------------------------------------------------------------------
// Responses of the Connect protocol that are not a success
// ---------------------------------------------------------------------------

/// A response that is not a success, while its body is read.
#[derive(Debug)]
pub struct FailedResponse {
    /// The status of the response.
    pub status: StatusCode,
    /// Its headers.
    pub headers: HeaderMap,
    /// The trailers among them.
    pub trailers: HeaderMap,
    /// The encoding of the body.
    pub encoding: Option<String>,
    /// The limit on the body, and on what it decompresses to.
    pub max_size: usize,
    /// Whether the response is one to a request with one message, where
    /// trailers come among the headers, and the body may say something even if
    /// it is no error in JSON.
    pub unary: bool,
}

/// The first value under a name, where it is visible text, as a string.
pub fn visible_string(headers: &HeaderMap, name: &str) -> (text: Option<String>)
    requires
        crate::headers::is_canonical_name(name@),
    ensures
        opt_text(text) == visible_value(headers@, name@),
{
    match visible_header(headers, name) {
        Some(t) => Some(t.to_owned()),
        None => None,
    }
}

/// Whether a registry may refuse to decompress a body.
pub open spec fn refuses(registry: RegistryView, encoding: Seq<char>, body: Seq<u8>, max: nat) -> bool {
    exists|refused: Outcome| #[trigger]
        registry_decompresses(registry, encoding, body, max, refused) && refused is Err
}

/// What decompressing the body of a failed response may come to: nothing where
/// it cannot be decompressed.
pub open spec fn error_body(
    registry: RegistryView,
    encoding: Option<Seq<char>>,
    body: Seq<u8>,
    max: nat,
    r: Option<Seq<u8>>,
) -> bool {
    match encoding {
        None => r == Some(body),
        Some(e) => match r {
            Some(bytes) => registry_decompresses(registry, e, body, max, Outcome::Ok(bytes)),
            None => refuses(registry, e, body, max),
        },
    }
}

/// What was refused may be refused.
proof fn lemma_refuses(
    registry: RegistryView,
    encoding: Seq<char>,
    body: Seq<u8>,
    max: nat,
    refused: Outcome,
)
    requires
        registry_decompresses(registry, encoding, body, max, refused),
        refused is Err,
    ensures
        refuses(registry, encoding, body, max),
{
}

/// The contents of optional bytes.
pub open spec fn opt_bytes(b: Option<Bytes>) -> Option<Seq<u8>> {
    match b {
        Some(bytes) => Some(bytes@),
        None => None,
    }
}

/// The text for an HTTP status.
pub open spec fn http_error_text(status: u16) -> Seq<char> {
    "HTTP error "@ + decimal(status as nat)
}

/// The text for an HTTP status.
fn http_error_message(status: &StatusCode) -> (text: String)
    ensures
        text@ == http_error_text(status_number(*status)),
{
    let mut text = "HTTP error ".to_owned();
    push_decimal(&mut text, status_as_u16(status) as u64);
    text
}

/// The error for a response that is only known by its status.
pub open spec fn status_only_error(status: u16, headers: HeaderContents) -> ErrorView {
    ErrorView { headers, ..plain_error(status_code_for(status), http_error_text(status)) }
}

/// The error for a response that is only known by its status.
pub fn http_status_error(status: StatusCode, headers: HeaderMap) -> (err: ConnectError)
    ensures
        err@ == status_only_error(status_number(status), headers@),
{
    let text = http_error_message(&status);
    ConnectError::new(http_status_to_error_code(status), text).with_headers(headers)
}

/// The error for a failed response: what the server says of it, where that can
/// be read, and else what the status says.
pub open spec fn failure(response: FailedResponse, body: Option<Seq<u8>>, parsed: Option<ConnectErrorResponse>) -> ErrorView {
    let status = status_number(response.status);
    ErrorView {
        headers: response.headers@,
        trailers: response.trailers@,
        ..match (body, parsed) {
            (Some(_), Some(error)) => wire_error(error, status_code_for(status)),
            (Some(bytes), None) => plain_error(
                status_code_for(status),
                if response.unary {
                    http_error_text(status) + ": "@ + lossy_text(bytes)
                } else {
                    http_error_text(status)
                },
            ),
            (None, _) => plain_error(status_code_for(status), http_error_text(status)),
        }
    }
}

impl FailedResponse {
    /// A failed response to a request with one message.
    pub fn unary(status: StatusCode, response_headers: &HeaderMap, max_message_size: Option<usize>) -> (response: Self)
        ensures
            response.status == status,
            response.unary,
            response.max_size == limit_or_default(max_message_size),
            opt_text(response.encoding) == visible_value(response_headers@, "content-encoding"@),
            takes(response.headers@, plain_headers(response_headers@)),
            takes(response.trailers@, prefixed_trailers(response_headers@)),
            within_ceiling(response.headers@),
            within_ceiling(response.trailers@),
    {
        proof {
            lemma_status_names();
        }
        let (headers, trailers) = split_trailers(response_headers);
        FailedResponse {
            status,
            headers,
            trailers,
            encoding: visible_string(response_headers, "content-encoding"),
            max_size: message_limit(max_message_size),
            unary: true,
        }
    }

    /// A failed response to a request with a stream of messages.
    pub fn streaming(status: StatusCode, response_headers: &HeaderMap, max_message_size: Option<usize>) -> (response:
        Self)
        ensures
            response.status == status,
            !response.unary,
            response.max_size == limit_or_default(max_message_size),
            opt_text(response.encoding) == visible_value(response_headers@, "content-encoding"@),
            response.headers@ == response_headers@,
            response.trailers@ == no_headers(),
    {
        proof {
            lemma_status_names();
        }
        FailedResponse {
            status,
            headers: header_map_clone(response_headers),
            trailers: header_map_new(),
            encoding: visible_string(response_headers, "content-encoding"),
            max_size: message_limit(max_message_size),
            unary: false,
        }
    }

    /// The error for a body that cannot be collected. For a request with one
    /// message it carries the metadata of the response.
    pub fn uncollected(self, e: ConnectError) -> (err: ConnectError)
        ensures
            self.unary ==> err@ == (ErrorView { headers: self.headers@, trailers: self.trailers@, ..e@ }),
            !self.unary ==> err@ == e@,
    {
        if self.unary {
            e.with_headers(self.headers).with_trailers(self.trailers)
        } else {
            e
        }
    }

    /// The body, decompressed; nothing where it cannot be.
    pub fn unpack(&self, compression: &CompressionRegistry, body: Bytes) -> (r: Option<Bytes>)
        ensures
            error_body(compression@, opt_text(self.encoding), body@, self.max_size as nat, opt_bytes(r)),
    {
        match &self.encoding {
            Some(encoding) => {
                let unpacked = compression.decompress_with_limit(encoding.as_str(), body, self.max_size);
                match unpacked {
                    Ok(bytes) => Some(bytes),
                    Err(e) => {
                        proof {
                            lemma_refuses(compression@, encoding@, body@, self.max_size as nat, Outcome::Err(e@));
                        }
                        None
                    },
                }
            },
            None => Some(body),
        }
    }

    /// The error for the response, given its body and the error in JSON that
    /// the body holds, if it does.
    pub fn report(self, body: Option<Bytes>, parsed: Option<ConnectErrorResponse>) -> (err: ConnectError)
        ensures
            err@ == failure(self, opt_bytes(body), parsed),
    {
        let code = http_status_to_error_code(self.status);
        let err = match (body, parsed) {
            (Some(_), Some(error)) => wire_error_to_connect_error(error, code),
            (Some(bytes), None) => {
                let mut text = http_error_message(&self.status);
                if self.unary {
                    text.push_str(": ");
                    let shown = utf8_lossy(&bytes);
                    text.push_str(shown.as_str());
                }
                ConnectError::new(code, text)
            },
            (None, _) => ConnectError::new(code, http_error_message(&self.status)),
        };
        err.with_headers(self.headers).with_trailers(self.trailers)
    }
}

} // verus!
