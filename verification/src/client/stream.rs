//! Responses that hold a stream of messages.
//!
//! A [`ServerStream`] decides what the bytes of a body mean. Whoever reads the
//! body asks it for the next step, hands it the frames that it wants, and
//! decodes what it hands out. Once the stream has ended, by whatever cause, the
//! terminal record says why, and does not change any more.
use bytes::Bytes;
use bytes::BytesMut;
use http::HeaderMap;
use http::StatusCode;
use vstd::prelude::*;

use crate::buffer::BufferView;
use crate::client::body::http_status_error;
use crate::client::body::limit_or_default;
use crate::client::body::message_limit;
use crate::client::body::status_only_error;
use crate::client::body::visible_string;
use crate::client::body::FailedResponse;
use crate::client::grpc_unary::as_str_opt;
use crate::client::grpc_unary::coding_with;
use crate::client::grpc_unary::read_trailers;
use crate::client::grpc_unary::saturated;
use crate::client::grpc_unary::RESPONSE_BUFFER_TRAILER_SLACK;
use crate::client::status::end_stream_error_to_connect_error;
use crate::client::status::lemma_status_names;
use crate::client::status::parse_grpc_error_from_trailers;
use crate::client::status::reported_error;
use crate::client::status::visible_value;
use crate::client::status::wire_error;
use crate::client::status::ClientEndStreamResponse;
use crate::client::trailers::append_metadata_capped;
use crate::client::trailers::appended_capped;
use crate::client::trailers::frame_trailers;
use crate::client::trailers::metadata_headers;
use crate::client::trailers::opt_headers;
use crate::client::unary::lemma_unpacked_is_sent;
use crate::client::unary::response_unpacked;
use crate::client::unary::unpack_response;
use crate::codec::CodecFormat;
use crate::compression::outcome_view;
use crate::compression::registry::built_in;
use crate::compression::registry::surely_decodes;
use crate::compression::registry::RegistryView;
use crate::compression::CompressionRegistry;
use crate::compression::Outcome;
use crate::envelope::declared_length;
use crate::envelope::encoder::encoder_compresses;
use crate::envelope::encoder::payload_for;
use crate::envelope::encoder::EncoderView;
use crate::envelope::encoder::Payload;
use crate::envelope::envelope_bytes;
use crate::envelope::flags;
use crate::envelope::header_bytes;
use crate::envelope::lemma_envelope_round_trip;
use crate::envelope::lemma_header_declares;
use crate::envelope::lemma_scan_extends;
use crate::envelope::marks_compressed;
use crate::envelope::marks_end_stream;
use crate::envelope::marks_web_trailer;
use crate::envelope::over_limit_error;
use crate::envelope::over_limit_text;
use crate::envelope::read_be32;
use crate::envelope::scanned;
use crate::envelope::Envelope;
use crate::envelope::Scan;
use crate::envelope::HEADER_SIZE;
use crate::error::opt_text;
use crate::error::plain_error;
use crate::error::ConnectError;
use crate::error::ErrorCode;
use crate::error::ErrorView;
use crate::headers::header_map_clone;
use crate::headers::header_map_get;
use crate::headers::header_map_new;
use crate::headers::is_success_number;
use crate::headers::no_headers;
use crate::headers::status_is_success;
use crate::headers::status_number;
use crate::headers::HeaderContents;
use crate::headers::HeadersView;
use crate::protocol::encoding_name;
use crate::protocol::Protocol;
use crate::text::decimal;
use crate::text::push_decimal;

verus! {

// ---------------------------------------------------------------------------
// The terminal record
// ---------------------------------------------------------------------------

/// Why a stream ended, and what trailing metadata arrived.
#[derive(Debug)]
pub struct StreamEnd {
    /// `Ok(())` is a clean end: the call succeeded.
    pub outcome: Result<(), ConnectError>,
    /// The trailers, where any arrived.
    pub trailers: Option<HeaderMap>,
}

/// The contents of a terminal record.
#[verifier::ext_equal]
pub struct EndView {
    /// Whether the call succeeded, or why not.
    pub outcome: Result<(), ErrorView>,
    /// The trailers, where any arrived.
    pub trailers: Option<HeaderContents>,
}

impl View for StreamEnd {
    type V = EndView;

    open spec fn view(&self) -> EndView {
        EndView {
            outcome: match self.outcome {
                Ok(()) => Ok(()),
                Err(e) => Err(e@),
            },
            trailers: opt_headers(self.trailers),
        }
    }
}

/// The record of a failure before any trailers.
pub open spec fn failed_end(e: ErrorView) -> EndView {
    EndView { outcome: Err(e), trailers: None }
}

impl StreamEnd {
    /// The record of a failure before any trailers.
    pub fn failed(e: ConnectError) -> (end: Self)
        ensures
            end@ == failed_end(e@),
    {
        StreamEnd { outcome: Err(e), trailers: None }
    }

    /// What a caller is told once the stream has ended: no message more after a
    /// clean end, and the same error over and over after a failure.
    pub fn replay<T>(&self) -> (r: Result<Option<T>, ConnectError>)
        ensures
            match self@.outcome {
                Ok(()) => r matches Ok(None),
                Err(e) => r matches Err(err) && err@ == e,
            },
    {
        match &self.outcome {
            Ok(()) => Ok(None),
            Err(e) => Err(e.clone()),
        }
    }
}

// ---------------------------------------------------------------------------
// Streams
// ---------------------------------------------------------------------------

/// A stream of messages in a response.
pub struct ServerStream {
    /// The headers of the response.
    pub headers: HeaderMap,
    /// What has arrived and is not decoded yet.
    pub buf: BytesMut,
    /// The encoding of compressed messages.
    pub encoding: Option<String>,
    /// The encodings.
    pub compression: CompressionRegistry,
    /// The format of messages.
    pub codec_format: CodecFormat,
    /// The wire protocol.
    pub protocol: Protocol,
    /// The limit on messages, if one is set.
    pub max_message_size: Option<usize>,
    /// The terminal record, once the stream has ended.
    pub end: Option<StreamEnd>,
    /// Whether any byte of a body has arrived.
    pub saw_body_data: bool,
}

/// The contents of a stream.
#[verifier::ext_equal]
pub struct StreamView {
    /// The headers of the response.
    pub headers: HeaderContents,
    /// What has arrived and is not decoded yet.
    pub buffered: Seq<u8>,
    /// The encoding of compressed messages.
    pub encoding: Option<Seq<char>>,
    /// The encodings.
    pub registry: RegistryView,
    /// The format of messages.
    pub codec_format: CodecFormat,
    /// The wire protocol.
    pub protocol: Protocol,
    /// The limit on messages, if one is set.
    pub max_message_size: Option<usize>,
    /// The terminal record, once the stream has ended.
    pub end: Option<EndView>,
    /// Whether any byte of a body has arrived.
    pub saw_body_data: bool,
}

impl View for ServerStream {
    type V = StreamView;

    open spec fn view(&self) -> StreamView {
        StreamView {
            headers: self.headers@,
            buffered: self.buf@,
            encoding: opt_text(self.encoding),
            registry: self.compression@,
            codec_format: self.codec_format,
            protocol: self.protocol,
            max_message_size: self.max_message_size,
            end: match self.end {
                Some(end) => Some(end@),
                None => None,
            },
            saw_body_data: self.saw_body_data,
        }
    }
}

/// A stream that ends now, unless it has ended before: the terminal record is
/// written once.
pub open spec fn ended(stream: StreamView, end: EndView) -> StreamView {
    match stream.end {
        Some(_) => stream,
        None => StreamView { end: Some(end), ..stream },
    }
}

/// What the next step is for whoever reads the stream.
#[derive(Debug)]
pub enum StreamStep {
    /// Decode this message.
    Message(Bytes),
    /// Read what this last envelope of a Connect stream says.
    EndStream(Bytes),
    /// Get the next frame of the body.
    NeedFrame,
    /// Nothing: the stream has ended.
    Ended,
}

/// What the next step is, with the bytes that it hands out.
pub enum StepView {
    /// Decode this message.
    Message { data: Seq<u8> },
    /// Read what this last envelope says.
    EndStream { data: Seq<u8> },
    /// Get the next frame of the body.
    NeedFrame,
    /// Nothing: the stream has ended.
    Ended,
}

/// The contents of a step.
pub open spec fn step_view(step: StreamStep) -> StepView {
    match step {
        StreamStep::Message(b) => StepView::Message { data: b@ },
        StreamStep::EndStream(b) => StepView::EndStream { data: b@ },
        StreamStep::NeedFrame => StepView::NeedFrame,
        StreamStep::Ended => StepView::Ended,
    }
}

/// What is at the front of what has arrived.
pub enum StreamFront {
    /// Not enough to say.
    Wait,
    /// A whole trailer frame.
    Trailers,
    /// A message over the limit.
    TooLarge { error: ErrorView },
    /// An envelope, and what comes behind it.
    Whole { flags: u8, payload: Seq<u8>, rest: Seq<u8> },
}

/// What is at the front of what has arrived. For gRPC-Web a set high bit marks
/// a trailer frame.
pub open spec fn stream_front(buffered: Seq<u8>, protocol: Protocol, max: nat) -> StreamFront {
    if protocol == Protocol::GrpcWeb && buffered.len() > 0 && marks_web_trailer(buffered[0]) {
        if buffered.len() >= 5 && buffered.len() >= 5 + declared_length(buffered) {
            StreamFront::Trailers
        } else {
            StreamFront::Wait
        }
    } else {
        match scanned(buffered, max) {
            Scan::Partial => StreamFront::Wait,
            Scan::TooLarge { length } => StreamFront::TooLarge {
                error: plain_error(ErrorCode::ResourceExhausted, over_limit_text("message"@, length, max)),
            },
            Scan::Whole { flags, payload, rest } => StreamFront::Whole { flags, payload, rest },
        }
    }
}

/// What the payload of an envelope may come to.
pub open spec fn payload_unpacked(
    registry: RegistryView,
    encoding: Option<Seq<char>>,
    flags: u8,
    payload: Seq<u8>,
    max: nat,
    r: Outcome,
) -> bool {
    if !marks_compressed(flags) {
        r == Outcome::Ok(payload)
    } else {
        match encoding {
            None => r == Outcome::Err(
                plain_error(ErrorCode::Internal, "received compressed message without content-encoding header"@),
            ),
            Some(e) => response_unpacked(registry, e, payload, max, r),
        }
    }
}

/// What an envelope comes to, for what its payload came to.
pub open spec fn delivered(
    behind: StreamView,
    flags: u8,
    unpacked: Outcome,
    step: StepView,
    after: StreamView,
) -> bool {
    match unpacked {
        Err(e) => step is Ended && after == ended(behind, failed_end(e)),
        Ok(data) => if marks_end_stream(flags) {
            step == (StepView::EndStream { data }) && after == behind
        } else if behind.max_message_size matches Some(max) && data.len() > max {
            step is Ended && after == ended(
                behind,
                failed_end(
                    plain_error(
                        ErrorCode::ResourceExhausted,
                        over_limit_text("message"@, data.len(), behind.max_message_size->0 as nat),
                    ),
                ),
            )
        } else {
            step == (StepView::Message { data }) && after == behind
        },
    }
}

/// What an envelope may come to.
pub open spec fn envelope_taken(
    behind: StreamView,
    flags: u8,
    payload: Seq<u8>,
    max: nat,
    step: StepView,
    after: StreamView,
) -> bool {
    exists|unpacked: Outcome| #[trigger]
        payload_unpacked(behind.registry, behind.encoding, flags, payload, max, unpacked) && delivered(
            behind,
            flags,
            unpacked,
            step,
            after,
        )
}

/// What the payload came to is what it may come to.
proof fn lemma_envelope_taken(
    behind: StreamView,
    flags: u8,
    payload: Seq<u8>,
    max: nat,
    unpacked: Outcome,
    step: StepView,
    after: StreamView,
)
    requires
        payload_unpacked(behind.registry, behind.encoding, flags, payload, max, unpacked),
        delivered(behind, flags, unpacked, step, after),
    ensures
        envelope_taken(behind, flags, payload, max, step, after),
{
    let registry = behind.registry;
    let encoding = behind.encoding;
    assert(payload_unpacked(registry, encoding, flags, payload, max, unpacked));
}

/// What the end of a gRPC stream means where the trailers, if there are any,
/// report no error. The end is clean only where a status arrived: in the
/// trailers, or in the headers of a response without a body. Else the stream
/// was cut off.
pub open spec fn end_without_error(
    stream: StreamView,
    trailers: Option<HeaderContents>,
    deadline_passed: bool,
) -> Result<(), ErrorView> {
    if (trailers matches Some(t) && t.contains_key("grpc-status"@)) || (!stream.saw_body_data
        && stream.headers.contains_key("grpc-status"@)) {
        Ok(())
    } else if deadline_passed {
        Err(plain_error(ErrorCode::DeadlineExceeded, "request timeout"@))
    } else if trailers is Some {
        Err(plain_error(ErrorCode::Unknown, "protocol error: grpc-status missing from trailers"@))
    } else {
        Err(plain_error(ErrorCode::Internal, "stream ended without grpc-status"@))
    }
}

/// What the end of a gRPC stream means, for the trailers that arrived.
pub open spec fn grpc_end(
    stream: StreamView,
    trailers: Option<HeaderContents>,
    deadline_passed: bool,
    end: EndView,
) -> bool {
    &&& end.trailers == trailers
    &&& match trailers {
        None => end.outcome == end_without_error(stream, None, deadline_passed),
        Some(t) => match end.outcome {
            Err(e) => reported_error(t, Some(e)) || (reported_error(t, None) && end.outcome == end_without_error(
                stream,
                trailers,
                deadline_passed,
            )),
            Ok(()) => reported_error(t, None) && end.outcome == end_without_error(stream, trailers, deadline_passed),
        },
    }
}

/// Whether a stream ends now with what the trailers in a frame mean.
pub open spec fn ended_by_trailers(stream: StreamView, deadline_passed: bool, after: StreamView) -> bool {
    after.end matches Some(end) && after == ended(stream, end) && frame_trailers(
        stream.buffered,
        coding_with(stream.registry, stream.encoding),
        end.trailers,
    ) && grpc_end(stream, end.trailers, deadline_passed, end)
}

/// What the next step of a stream may be.
pub open spec fn stepped(
    before: StreamView,
    deadline_passed: bool,
    step: StepView,
    after: StreamView,
) -> bool {
    let max = limit_or_default(before.max_message_size) as nat;
    if before.end is Some {
        step is Ended && after == before
    } else {
        match stream_front(before.buffered, before.protocol, max) {
            StreamFront::Wait => step is NeedFrame && after == before,
            StreamFront::Trailers => step is Ended && ended_by_trailers(before, deadline_passed, after),
            StreamFront::TooLarge { error } => step is Ended && after == ended(before, failed_end(error)),
            StreamFront::Whole { flags, payload, rest } => envelope_taken(
                StreamView { buffered: rest, ..before },
                flags,
                payload,
                max,
                step,
                after,
            ),
        }
    }
}

/// The limit on what may be buffered.
pub open spec fn buffer_limit(max_message_size: Option<usize>) -> usize {
    saturated((limit_or_default(max_message_size) + 10 + RESPONSE_BUFFER_TRAILER_SLACK) as nat)
}

/// The error for a buffer over its limit.
pub open spec fn buffer_over_limit(limit: nat) -> ErrorView {
    plain_error(ErrorCode::ResourceExhausted, "response buffer exceeds limit "@ + decimal(limit))
}

/// What taking the data of a frame comes to.
pub open spec fn data_buffered(before: StreamView, data: Seq<u8>) -> StreamView {
    if before.end is Some {
        before
    } else {
        let limit = buffer_limit(before.max_message_size);
        let seen = StreamView { saw_body_data: before.saw_body_data || data.len() > 0, ..before };
        if before.buffered.len() + data.len() > limit {
            ended(seen, failed_end(buffer_over_limit(limit as nat)))
        } else {
            StreamView { buffered: before.buffered + data, ..seen }
        }
    }
}

/// What the last envelope of a Connect stream means.
pub open spec fn connect_end(
    headers: HeaderContents,
    parsed: Result<ClientEndStreamResponse, String>,
    end: EndView,
) -> bool {
    match parsed {
        Err(cause) => end == failed_end(malformed_end_stream(cause@, headers)),
        Ok(said) => {
            &&& end.outcome == match said.error {
                Some(e) => Err(wire_error(e, ErrorCode::Unknown)),
                None => Ok(()),
            }
            &&& match said.metadata {
                Some(m) => end.trailers matches Some(t) && appended_capped(no_headers(), metadata_headers(m@), t),
                None => end.trailers is None,
            }
        },
    }
}

/// The error for a last envelope that is not what it should be.
pub open spec fn malformed_end_stream(cause: Seq<char>, headers: HeaderContents) -> ErrorView {
    ErrorView {
        headers,
        ..plain_error(ErrorCode::Internal, "protocol error: malformed Connect END_STREAM JSON: "@ + cause)
    }
}

/// The error for a last envelope that is not what it should be.
pub fn malformed_end_stream_error(cause: &str, headers: &HeaderMap) -> (err: ConnectError)
    ensures
        err@ == malformed_end_stream(cause@, headers@),
{
    let mut text = "protocol error: malformed Connect END_STREAM JSON: ".to_owned();
    text.push_str(cause);
    ConnectError::internal(text).with_headers(header_map_clone(headers))
}

/// The text of the error for a Connect stream without its last envelope.
pub open spec fn no_end_stream() -> ErrorView {
    plain_error(ErrorCode::Internal, "Connect streaming response ended without END_STREAM envelope"@)
}

/// Whether a stream ends now because its body ended.
pub open spec fn ended_by_body(stream: StreamView, deadline_passed: bool, after: StreamView) -> bool {
    if stream.end is Some {
        after == stream
    } else if stream.protocol == Protocol::Connect {
        after == ended(stream, failed_end(no_end_stream()))
    } else if stream.protocol == Protocol::GrpcWeb && stream.buffered.len() > 0 && marks_web_trailer(
        stream.buffered[0],
    ) {
        ended_by_trailers(stream, deadline_passed, after)
    } else {
        after.end matches Some(end) && after == ended(stream, end) && grpc_end(stream, None, deadline_passed, end)
    }
}

impl ServerStream {
    /// The headers of the response.
    #[must_use]
    pub fn headers(&self) -> (headers: &HeaderMap)
        ensures
            headers@ == self@.headers,
    {
        &self.headers
    }

    /// The trailers, once the stream has ended and where any arrived.
    #[must_use]
    pub fn trailers(&self) -> (trailers: Option<&HeaderMap>)
        ensures
            match trailers {
                Some(t) => self@.end matches Some(end) && end.trailers == Some(t@),
                None => self@.end is None || self@.end->0.trailers is None,
            },
    {
        match &self.end {
            Some(end) => match &end.trailers {
                Some(t) => Some(t),
                None => None,
            },
            None => None,
        }
    }

    /// The error that ended the stream, if one did.
    #[must_use]
    pub fn error(&self) -> (error: Option<&ConnectError>)
        ensures
            match error {
                Some(e) => self@.end matches Some(end) && end.outcome == Err::<(), ErrorView>(e@),
                None => self@.end is None || self@.end->0.outcome is Ok,
            },
    {
        match &self.end {
            Some(end) => match &end.outcome {
                Ok(()) => None,
                Err(e) => Some(e),
            },
            None => None,
        }
    }

    /// Write the terminal record, unless it has been written.
    fn finish(&mut self, end: StreamEnd)
        ensures
            final(self)@ == ended(old(self)@, end@),
    {
        if self.end.is_none() {
            self.end = Some(end);
        }
    }

    /// End the stream with an error, as where a message cannot be decoded.
    pub fn fail(&mut self, e: ConnectError)
        ensures
            final(self)@ == ended(old(self)@, failed_end(e@)),
    {
        self.finish(StreamEnd::failed(e));
    }

    /// End the stream because its body cannot be read.
    pub fn body_error(&mut self, cause: &str)
        ensures
            final(self)@ == ended(
                old(self)@,
                failed_end(plain_error(ErrorCode::Internal, "error reading response body: "@ + cause@)),
            ),
    {
        let mut text = "error reading response body: ".to_owned();
        text.push_str(cause);
        self.fail(ConnectError::internal(text));
    }

    /// End the stream because the deadline of the call has passed.
    pub fn deadline_expired(&mut self)
        ensures
            final(self)@ == ended(
                old(self)@,
                failed_end(plain_error(ErrorCode::DeadlineExceeded, "client-side deadline exceeded"@)),
            ),
    {
        self.fail(ConnectError::deadline_exceeded("client-side deadline exceeded"));
    }

    /// What the end of a gRPC stream means, for the trailers that arrived.
    pub fn classify_grpc_end(&self, trailers: Option<HeaderMap>, deadline_passed: bool) -> (end: StreamEnd)
        ensures
            grpc_end(self@, opt_headers(trailers), deadline_passed, end@),
    {
        proof {
            lemma_status_names();
        }
        let reported = match &trailers {
            Some(t) => parse_grpc_error_from_trailers(t),
            None => None,
        };
        if let Some(e) = reported {
            return StreamEnd { outcome: Err(e), trailers };
        }
        let in_trailers = match &trailers {
            Some(t) => header_map_get(t, "grpc-status").is_some(),
            None => false,
        };
        let outcome = if in_trailers || (!self.saw_body_data && header_map_get(&self.headers, "grpc-status").is_some()) {
            Ok(())
        } else if deadline_passed {
            Err(ConnectError::deadline_exceeded("request timeout"))
        } else if trailers.is_some() {
            Err(ConnectError::new(ErrorCode::Unknown, "protocol error: grpc-status missing from trailers"))
        } else {
            Err(ConnectError::internal("stream ended without grpc-status"))
        };
        StreamEnd { outcome, trailers }
    }

    /// Decompress the payload of an envelope, where it is compressed.
    pub fn decompress_envelope(&self, envelope: Envelope) -> (r: Result<Bytes, ConnectError>)
        ensures
            payload_unpacked(
                self@.registry,
                self@.encoding,
                envelope.flags,
                envelope.data@,
                limit_or_default(self.max_message_size) as nat,
                outcome_view(r),
            ),
    {
        if !envelope.is_compressed() {
            return Ok(envelope.data);
        }
        match as_str_opt(&self.encoding) {
            Some(e) => unpack_response(&self.compression, e, envelope.data, message_limit(self.max_message_size)),
            None => Err(ConnectError::internal("received compressed message without content-encoding header")),
        }
    }

    /// End the stream with what the trailer frame in the buffer means.
    fn end_by_trailers(&mut self, deadline_passed: bool)
        requires
            old(self)@.end is None,
        ensures
            ended_by_trailers(old(self)@, deadline_passed, final(self)@),
    {
        let parsed = read_trailers(&self.compression, &self.encoding, &self.buf);
        let end = self.classify_grpc_end(parsed, deadline_passed);
        self.finish(end);
    }

    /// The next step of the stream: a message to decode, a last envelope to
    /// read, a frame to get, or the end.
    pub fn next_message_or_end(&mut self, deadline_passed: bool) -> (step: StreamStep)
        ensures
            stepped(old(self)@, deadline_passed, step_view(step), final(self)@),
    {
        if self.end.is_some() {
            return StreamStep::Ended;
        }
        let is_web = match self.protocol {
            Protocol::GrpcWeb => true,
            _ => false,
        };
        if is_web && !self.buf.is_empty() && self.buf[0] & flags::GRPC_WEB_TRAILER != 0 {
            if self.buf.len() < HEADER_SIZE {
                return StreamStep::NeedFrame;
            }
            let length: usize = read_be32(self.buf[1], self.buf[2], self.buf[3], self.buf[4]) as usize;
            if self.buf.len() - HEADER_SIZE < length {
                return StreamStep::NeedFrame;
            }
            self.end_by_trailers(deadline_passed);
            return StreamStep::Ended;
        }
        let limit: usize = message_limit(self.max_message_size);
        let envelope = match Envelope::decode_with_limit(&mut self.buf, limit) {
            Ok(Some(envelope)) => envelope,
            Ok(None) => return StreamStep::NeedFrame,
            Err(e) => {
                self.fail(e);
                return StreamStep::Ended;
            },
        };
        let ghost behind = self@;
        let ghost flag = envelope.flags;
        let ghost payload = envelope.data@;
        let is_end = envelope.is_end_stream();
        let unpacked = self.decompress_envelope(envelope);
        let ghost outcome = outcome_view(unpacked);
        let step = match unpacked {
            Err(e) => {
                self.fail(e);
                StreamStep::Ended
            },
            Ok(data) => if is_end {
                StreamStep::EndStream(data)
            } else {
                match self.max_message_size {
                    Some(max) => if data.len() > max {
                        self.fail(over_limit_error("message", data.len(), max));
                        StreamStep::Ended
                    } else {
                        StreamStep::Message(data)
                    },
                    None => StreamStep::Message(data),
                }
            },
        };
        proof {
            lemma_envelope_taken(behind, flag, payload, limit as nat, outcome, step_view(step), self@);
        }
        step
    }

    /// Take the data of a frame of the body.
    pub fn data(&mut self, data: &[u8])
        ensures
            final(self)@ == data_buffered(old(self)@, data@),
    {
        if self.end.is_some() {
            return;
        }
        if data.len() > 0 {
            self.saw_body_data = true;
        }
        let limit: usize = message_limit(self.max_message_size).saturating_add(10).saturating_add(
            RESPONSE_BUFFER_TRAILER_SLACK,
        );
        if self.buf.len() > limit || data.len() > limit - self.buf.len() {
            let mut text = "response buffer exceeds limit ".to_owned();
            push_decimal(&mut text, limit as u64);
            self.fail(ConnectError::resource_exhausted(text));
        } else {
            self.buf.extend_from_slice(data);
        }
    }

    /// Take the HTTP trailers of the body. Connect has no use for them.
    pub fn http_trailers(&mut self, trailers: HeaderMap, deadline_passed: bool)
        ensures
            if old(self)@.end is Some || old(self)@.protocol == Protocol::Connect {
                final(self)@ == old(self)@
            } else {
                final(self)@.end matches Some(end) && final(self)@ == ended(old(self)@, end) && grpc_end(
                    old(self)@,
                    Some(trailers@),
                    deadline_passed,
                    end,
                )
            },
    {
        if self.end.is_some() {
            return;
        }
        if let Protocol::Connect = self.protocol {
            return;
        }
        let end = self.classify_grpc_end(Some(trailers), deadline_passed);
        self.finish(end);
    }

    /// The body has ended.
    pub fn body_end(&mut self, deadline_passed: bool)
        ensures
            ended_by_body(old(self)@, deadline_passed, final(self)@),
    {
        if self.end.is_some() {
            return;
        }
        if let Protocol::Connect = self.protocol {
            self.fail(
                ConnectError::internal("Connect streaming response ended without END_STREAM envelope"),
            );
            return;
        }
        let is_web = match self.protocol {
            Protocol::GrpcWeb => true,
            _ => false,
        };
        if is_web && !self.buf.is_empty() && self.buf[0] & flags::GRPC_WEB_TRAILER != 0 {
            self.end_by_trailers(deadline_passed);
        } else {
            let end = self.classify_grpc_end(None, deadline_passed);
            self.finish(end);
        }
    }

    /// End the stream with what its last envelope says, or with an error where
    /// that could not be read.
    pub fn process_end_stream(&mut self, parsed: Result<ClientEndStreamResponse, String>)
        ensures
            if old(self)@.end is Some {
                final(self)@ == old(self)@
            } else {
                final(self)@.end matches Some(end) && final(self)@ == ended(old(self)@, end) && connect_end(
                    old(self)@.headers,
                    parsed,
                    end,
                )
            },
    {
        let end = match parsed {
            Err(cause) => StreamEnd::failed(malformed_end_stream_error(cause.as_str(), &self.headers)),
            Ok(said) => {
                let trailers = match &said.metadata {
                    Some(metadata) => {
                        let mut trailers = header_map_new();
                        append_metadata_capped(&mut trailers, metadata);
                        Some(trailers)
                    },
                    None => None,
                };
                let outcome = match said.error {
                    Some(e) => Err(end_stream_error_to_connect_error(e)),
                    None => Ok(()),
                };
                StreamEnd { outcome, trailers }
            },
        };
        self.finish(end);
    }
}

// ---------------------------------------------------------------------------
// The head of a response
// ---------------------------------------------------------------------------

/// What the head of a response with a stream comes to.
pub enum StreamHead {
    /// A stream to read.
    Open(ServerStream),
    /// An error.
    Refused(ConnectError),
    /// An error whose body is still to be read.
    Failed(FailedResponse),
}

/// Judge the head of a response with a stream. gRPC may report an error in the
/// headers alone.
pub fn make_server_stream(
    status: StatusCode,
    response_headers: HeaderMap,
    protocol: Protocol,
    compression: &CompressionRegistry,
    codec_format: CodecFormat,
    max_message_size: Option<usize>,
) -> (head: StreamHead)
    ensures
        stream_begun(
            status,
            response_headers@,
            protocol,
            compression@,
            codec_format,
            max_message_size,
            head,
        ),
{
    proof {
        lemma_status_names();
    }
    if let Protocol::Connect = protocol {
    } else {
        if let Some(e) = parse_grpc_error_from_trailers(&response_headers) {
            let ghost reported = Some(e@);
            let head = StreamHead::Refused(e.with_headers(response_headers));
            proof {
                lemma_refused_by_headers(response_headers@, reported, head);
            }
            return head;
        }
    }
    if !status_is_success(&status) {
        return match protocol {
            Protocol::Connect => StreamHead::Failed(
                FailedResponse::streaming(status, &response_headers, max_message_size),
            ),
            _ => StreamHead::Refused(http_status_error(status, response_headers)),
        };
    }
    let encoding = visible_string(&response_headers, protocol.content_encoding_header());
    StreamHead::Open(
        ServerStream {
            headers: response_headers,
            buf: BytesMut::new(),
            encoding,
            compression: compression.clone(),
            codec_format,
            protocol,
            max_message_size,
            end: None,
            saw_body_data: false,
        },
    )
}

/// Whether headers alone report an error.
pub open spec fn refused_by_headers(headers: HeaderContents, head: StreamHead) -> bool {
    exists|e: Option<ErrorView>| #[trigger]
        reported_error(headers, e) && e is Some && (head matches StreamHead::Refused(err) && err@ == (ErrorView {
            headers,
            ..e->0
        }))
}

/// What headers reported is what they may report.
proof fn lemma_refused_by_headers(headers: HeaderContents, e: Option<ErrorView>, head: StreamHead)
    requires
        reported_error(headers, e),
        e is Some,
        head matches StreamHead::Refused(err) && err@ == (ErrorView { headers, ..e->0 }),
    ensures
        refused_by_headers(headers, head),
{
}

/// What the head of a response that reports no error comes to.
pub open spec fn stream_opened(
    status: StatusCode,
    headers: HeaderContents,
    protocol: Protocol,
    registry: RegistryView,
    codec_format: CodecFormat,
    max_message_size: Option<usize>,
    head: StreamHead,
) -> bool {
    if is_success_number(status_number(status)) {
        head matches StreamHead::Open(stream) && stream@ == (StreamView {
            headers,
            buffered: Seq::empty(),
            encoding: visible_value(headers, encoding_name(protocol)),
            registry,
            codec_format,
            protocol,
            max_message_size,
            end: None,
            saw_body_data: false,
        })
    } else if protocol == Protocol::Connect {
        head matches StreamHead::Failed(response) && response.status == status && !response.unary
            && response.max_size == limit_or_default(max_message_size) && opt_text(response.encoding)
            == visible_value(headers, "content-encoding"@) && response.headers@ == headers && response.trailers@
            == no_headers()
    } else {
        head matches StreamHead::Refused(e) && e@ == status_only_error(status_number(status), headers)
    }
}

/// What the head of a response with a stream comes to.
pub open spec fn stream_begun(
    status: StatusCode,
    headers: HeaderContents,
    protocol: Protocol,
    registry: RegistryView,
    codec_format: CodecFormat,
    max_message_size: Option<usize>,
    head: StreamHead,
) -> bool {
    if protocol != Protocol::Connect && !reported_error(headers, None) {
        refused_by_headers(headers, head)
    } else {
        stream_opened(status, headers, protocol, registry, codec_format, max_message_size, head)
    }
}

// ---------------------------------------------------------------------------
// Laws
// ---------------------------------------------------------------------------

/// Once a stream has ended, nothing changes it any more: no step, no data, no
/// end of the body and no failure.
pub proof fn lemma_end_is_final(
    stream: StreamView,
    deadline_passed: bool,
    step: StepView,
    after: StreamView,
    data: Seq<u8>,
    end: EndView,
)
    requires
        stream.end is Some,
    ensures
        stepped(stream, deadline_passed, step, after) ==> step is Ended && after == stream,
        ended_by_body(stream, deadline_passed, after) ==> after == stream,
        data_buffered(stream, data) == stream,
        ended(stream, end) == stream,
{
}

/// A step either hands something out, or asks for a frame and changes nothing,
/// or leaves a terminal record.
pub proof fn lemma_no_end_without_record(
    before: StreamView,
    deadline_passed: bool,
    step: StepView,
    after: StreamView,
)
    requires
        stepped(before, deadline_passed, step, after),
    ensures
        step is Ended <==> after.end is Some,
        step is NeedFrame ==> after == before,
        step is Message || step is EndStream ==> after.buffered.len() < before.buffered.len(),
{
}

/// A gRPC stream ends cleanly only where a status arrived that says so: in the
/// trailers, or in the headers of a response without a body.
pub proof fn lemma_clean_end_needs_status(
    stream: StreamView,
    trailers: Option<HeaderContents>,
    deadline_passed: bool,
    end: EndView,
)
    requires
        grpc_end(stream, trailers, deadline_passed, end),
        end.outcome is Ok,
    ensures
        (trailers matches Some(t) && t.contains_key("grpc-status"@)) || (!stream.saw_body_data
            && stream.headers.contains_key("grpc-status"@)),
        trailers matches Some(t) ==> reported_error(t, None),
{
}

/// What is at the front of a stream stays what it is when more arrives.
pub proof fn lemma_front_stays(buffered: Seq<u8>, more: Seq<u8>, protocol: Protocol, max: nat)
    ensures
        match stream_front(buffered, protocol, max) {
            StreamFront::Wait => true,
            StreamFront::Trailers => stream_front(buffered + more, protocol, max) is Trailers,
            StreamFront::TooLarge { error } => stream_front(buffered + more, protocol, max)
                == (StreamFront::TooLarge { error }),
            StreamFront::Whole { flags, payload, rest } => stream_front(buffered + more, protocol, max)
                == (StreamFront::Whole { flags, payload, rest: rest + more }),
        },
{
    lemma_scan_extends(buffered, more, max);
    if buffered.len() >= 5 {
        assert(declared_length(buffered + more) == declared_length(buffered));
    }
}

/// A trailer frame that is not all there says nothing: where a body ends in the
/// middle of one, the stream ends as if no trailers had arrived.
pub proof fn lemma_cut_trailer_frame_says_nothing(stream: StreamView, deadline_passed: bool, after: StreamView)
    requires
        stream.end is None,
        stream.protocol == Protocol::GrpcWeb,
        stream_front(
            stream.buffered,
            stream.protocol,
            limit_or_default(stream.max_message_size) as nat,
        ) is Wait,
        ended_by_body(stream, deadline_passed, after),
    ensures
        after.end matches Some(end) && end.trailers is None && end.outcome == end_without_error(
            stream,
            None,
            deadline_passed,
        ),
{
}

/// A message that was sent is read back: a stream whose buffer begins with the
/// envelope of a message, uncompressed or compressed with an encoding of this
/// crate, hands out that message and is left with what comes behind it. Only
/// zstd may fail, for want of memory.
pub proof fn lemma_sent_message_is_read_back(
    encoder: EncoderView,
    message: Seq<u8>,
    packed: Payload,
    rest: Seq<u8>,
    before: StreamView,
    deadline_passed: bool,
    step: StepView,
    after: StreamView,
)
    requires
        payload_for(encoder, message, packed),
        packed is Ok,
        packed->Ok_0.1.len() <= u32::MAX,
        encoder.compression matches Some(c) ==> before.registry == c.registry && before.encoding == Some(c.encoding)
            && built_in(c.registry, c.encoding, message.len()),
        before.end is None,
        before.buffered == envelope_bytes(packed->Ok_0.0, packed->Ok_0.1) + rest,
        message.len() <= limit_or_default(before.max_message_size),
        packed->Ok_0.1.len() <= limit_or_default(before.max_message_size),
        stepped(before, deadline_passed, step, after),
    ensures
        (encoder.compression matches Some(c) ==> surely_decodes(c.registry, c.encoding)) ==> step is Message,
        step is Message ==> step == (StepView::Message { data: message }) && after == (StreamView {
            buffered: rest,
            ..before
        }),
{
    let flag = packed->Ok_0.0;
    let payload = packed->Ok_0.1;
    let max = limit_or_default(before.max_message_size) as nat;
    lemma_envelope_round_trip(flag, payload, rest, max);
    assert(0u8 & 0x80 == 0 && 0u8 & 0x02 == 0 && 0u8 & 0x01 == 0 && 1u8 & 0x80 == 0 && 1u8 & 0x02 == 0 && 1u8 & 0x01
        != 0) by (bit_vector);
    assert(before.buffered[0] == flag) by {
        lemma_header_declares(flag, payload.len(), payload + rest);
        assert(before.buffered =~= header_bytes(flag, payload.len()) + (payload + rest));
    }
    let behind = StreamView { buffered: rest, ..before };
    assert(envelope_taken(behind, flag, payload, max, step, after));
    let (registry, encoding) = (behind.registry, behind.encoding);
    let unpacked = choose|unpacked: Outcome| #[trigger]
        payload_unpacked(registry, encoding, flag, payload, max, unpacked) && delivered(
            behind,
            flag,
            unpacked,
            step,
            after,
        );
    if encoder_compresses(encoder, message.len()) {
        let coding = encoder.compression->0;
        lemma_unpacked_is_sent(coding.registry, coding.encoding, message, payload, max, unpacked);
    }
}

} // verus!
