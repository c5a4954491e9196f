//! Responses that hold a stream of messages.
use buffa::Message;
use buffa_types::google::protobuf::StringValue;
use bytes::Bytes;
use bytes::BytesMut;
use connectrpc::client::status::ClientEndStreamResponse;
use connectrpc::client::status::WireError;
use connectrpc::client::stream::StreamStep;
use connectrpc::client::ServerStream;
use connectrpc::codec::CodecFormat;
use connectrpc::compression::CompressionRegistry;
use connectrpc::envelope::Envelope;
use connectrpc::error::ConnectError;
use connectrpc::error::ErrorCode;
use connectrpc::protocol::Protocol;
use serde_json::Value;

/// A frame of a body.
enum Frame {
    Data(Bytes),
    Trailers(http::HeaderMap),
    Stalled,
}

/// A body in one frame.
fn full(bytes: Bytes) -> Vec<Frame> {
    vec![Frame::Data(bytes)]
}

fn text(value: &Value, name: &str) -> Option<String> {
    value.get(name).and_then(Value::as_str).map(str::to_owned)
}

/// Read what a last envelope says.
fn parse_connect_end_stream(data: &[u8]) -> Result<ClientEndStreamResponse, String> {
    let value: Value = serde_json::from_slice(data).map_err(|e| e.to_string())?;
    let error = value.get("error").map(|e| WireError {
        code: text(e, "code"),
        message: text(e, "message"),
        details: Vec::new(),
    });
    let metadata = value.get("metadata").and_then(Value::as_object).map(|m| {
        m.iter()
            .map(|(name, values)| {
                let values = values.as_array().unwrap();
                (name.clone(), values.iter().map(|v| v.as_str().unwrap().to_owned()).collect())
            })
            .collect()
    });
    Ok(ClientEndStreamResponse { error, metadata })
}

/// A stream together with the frames of its body.
struct TestStream {
    stream: ServerStream,
    frames: std::vec::IntoIter<Frame>,
}

impl TestStream {
    fn new(headers: http::HeaderMap, protocol: Protocol, frames: Vec<Frame>) -> TestStream {
        let stream = ServerStream {
            headers,
            buf: BytesMut::new(),
            encoding: None,
            compression: CompressionRegistry::new(),
            codec_format: CodecFormat::Proto,
            protocol,
            max_message_size: Some(1024),
            end: None,
            saw_body_data: false,
        };
        TestStream { stream, frames: frames.into_iter() }
    }

    /// The next message.
    fn message(&mut self) -> Result<Option<String>, ConnectError> {
        loop {
            match self.stream.next_message_or_end(false) {
                StreamStep::Message(data) => {
                    return Ok(Some(StringValue::decode_from_slice(&data).unwrap().value));
                }
                StreamStep::EndStream(data) => {
                    self.stream.process_end_stream(parse_connect_end_stream(&data));
                }
                StreamStep::NeedFrame => match self.frames.next() {
                    Some(Frame::Data(data)) => self.stream.data(&data),
                    Some(Frame::Trailers(trailers)) => self.stream.http_trailers(trailers, false),
                    Some(Frame::Stalled) => self.stream.deadline_expired(),
                    None => self.stream.body_end(false),
                },
                StreamStep::Ended => return self.stream.end.as_ref().unwrap().replay(),
            }
        }
    }

    fn error(&self) -> Option<&ConnectError> {
        self.stream.error()
    }

    fn trailers(&self) -> Option<&http::HeaderMap> {
        self.stream.trailers()
    }
}

#[test]
fn connect_server_stream_truncated_after_data_errors() {
    let body = full(Envelope::data(StringValue::from("hello").encode_to_bytes()).encode());
    let mut stream = TestStream::new(http::HeaderMap::new(), Protocol::Connect, body);

    let msg = stream.message().expect("first message should decode")
        .expect("stream should yield the data envelope before EOF");
    assert_eq!(msg, "hello");

    let err = match stream.message(){
        Err(err) => err,
        Ok(Some(_)) => panic!("truncated stream unexpectedly yielded another message"),
        Ok(None) => panic!("truncated stream ended cleanly without END_STREAM"),
    };
    assert_eq!(err.code, ErrorCode::Internal);
    assert!(
        err.to_string().contains("END_STREAM"),
        "unexpected error: {}",
            err.to_string()
    );

    // Sticky: a re-poll must not degrade truncation to a clean-looking
    // `Ok(None)`.
    let again = stream.message().expect_err("truncation error must be sticky");
    assert_eq!(again.code, ErrorCode::Internal);
}

/// A Connect streaming response whose body is empty (zero envelopes,
/// immediate EOF) is also missing its END_STREAM envelope and must
/// error rather than report a clean end of stream.
#[test]
fn connect_server_stream_empty_body_errors() {
    let body = full(Bytes::new());
    let mut stream = TestStream::new(http::HeaderMap::new(), Protocol::Connect, body);

    let err = match stream.message(){
        Err(err) => err,
        Ok(Some(_)) => panic!("empty body unexpectedly yielded a message"),
        Ok(None) => panic!("empty body without END_STREAM ended cleanly"),
    };
    assert_eq!(err.code, ErrorCode::Internal);
    assert!(
        err.to_string().contains("END_STREAM"),
        "unexpected error: {}",
            err.to_string()
    );

    let again = stream.message().expect_err("truncation error must be sticky");
    assert_eq!(again.code, ErrorCode::Internal);
}

/// `Ok(None)` means the RPC succeeded — a Connect END_STREAM envelope
/// carrying an error must come back as `Err` from `message()`, sticky
/// across calls, with `error()` still available for inspection.
#[test]
fn connect_end_stream_error_returned_from_message() {
    let mut body = BytesMut::new();
    body.extend_from_slice(
        &Envelope::data(StringValue::from("hello").encode_to_bytes()).encode(),
    );
    body.extend_from_slice(
        &Envelope::end_stream(Bytes::from_static(
            b"{\"error\":{\"code\":\"out_of_range\",\"message\":\"requested position no longer retained\"},\
              \"metadata\":{\"x-detail\":[\"42\"]}}",
        ))
        .encode(),
    );
    let mut stream = TestStream::new(http::HeaderMap::new(), Protocol::Connect, full(body.freeze()));

    let msg = stream.message().expect("data envelope should decode")
        .expect("stream should yield the data message first");
    assert_eq!(msg, "hello");

    let err = stream.message().expect_err("errored END_STREAM must surface as Err, not Ok(None)");
    assert_eq!(err.code, ErrorCode::OutOfRange);
    assert_eq!(
        err.message.as_deref(),
        Some("requested position no longer retained")
    );

    // Sticky: re-polling a failed stream re-reports the failure.
    let again = stream.message().expect_err("terminal error is sticky");
    assert_eq!(again.code, ErrorCode::OutOfRange);

    // Post-hoc accessors still work.
    assert_eq!(stream.error().map(|e| e.code), Some(ErrorCode::OutOfRange));
    assert_eq!(
        stream
            .trailers()
            .and_then(|t| t.get("x-detail"))
            .and_then(|v| v.to_str().ok()),
        Some("42")
    );
}

/// Malformed Connect END_STREAM JSON is a protocol error. It must not be
/// treated as an empty successful end-stream payload.
#[test]
fn connect_malformed_end_stream_json_errors() {
    let mut body = BytesMut::new();
    body.extend_from_slice(
        &Envelope::data(StringValue::from("hello").encode_to_bytes()).encode(),
    );
    body.extend_from_slice(&Envelope::end_stream(Bytes::from_static(b"not json")).encode());

    let mut headers = http::HeaderMap::new();
    headers.insert("x-from-headers", http::HeaderValue::from_static("yes"));

    let mut stream = TestStream::new(headers, Protocol::Connect, full(body.freeze()));

    let msg = stream.message().expect("data envelope should decode")
        .expect("stream should yield the data message first");
    assert_eq!(msg, "hello");

    let err = stream.message().expect_err("malformed END_STREAM must surface as Err, not Ok(None)");
    assert_eq!(err.code, ErrorCode::Internal);
    assert!(
        err.to_string()
            .contains("malformed Connect END_STREAM JSON"),
        "unexpected error: {}",
            err.to_string()
    );
    assert_eq!(err.response_headers().get("x-from-headers").unwrap(), "yes");

    let again = stream.message().expect_err("malformed END_STREAM error must be sticky");
    assert_eq!(again.code, ErrorCode::Internal);
    assert_eq!(
        again.response_headers().get("x-from-headers").unwrap(),
        "yes"
    );
}

/// Same contract for gRPC: an error in HTTP/2 trailers is a failed RPC
/// and must come back as `Err` from `message()` — not the silent
/// `Ok(None)` that callers mistake for a clean close.
#[test]
fn grpc_trailer_error_returned_from_message() {
    let data = Envelope::data(StringValue::from("hello").encode_to_bytes()).encode();
    let mut trailers = http::HeaderMap::new();
    trailers.insert("grpc-status", "11".parse().unwrap()); // OUT_OF_RANGE
    trailers.insert(
        "grpc-message",
        "requested position no longer retained".parse().unwrap(),
    );
    let frames: Vec<Frame> =
        vec![Frame::Data(data), Frame::Trailers(trailers)];
    let body = frames;

    let mut stream = TestStream::new(http::HeaderMap::new(), Protocol::Grpc, body);

    let msg = stream.message().expect("data envelope should decode")
        .expect("stream should yield the data message first");
    assert_eq!(msg, "hello");

    let err = stream.message().expect_err("gRPC trailer error must surface as Err, not Ok(None)");
    assert_eq!(err.code, ErrorCode::OutOfRange);
    assert_eq!(
        err.message.as_deref(),
        Some("requested position no longer retained")
    );

    let again = stream.message().expect_err("terminal error is sticky");
    assert_eq!(again.code, ErrorCode::OutOfRange);
    assert!(stream.trailers().is_some());
}

/// A gRPC stream ending with `grpc-status: 0` is the one true clean end —
/// `Ok(None)`, no error.
#[test]
fn grpc_ok_trailers_end_as_ok_none() {
    let mut trailers = http::HeaderMap::new();
    trailers.insert("grpc-status", "0".parse().unwrap());
    let frames: Vec<Frame> =
        vec![Frame::Trailers(trailers)];
    let body = frames;

    let mut stream = TestStream::new(http::HeaderMap::new(), Protocol::Grpc, body);

    assert!(stream.message().unwrap().is_none());
    assert!(stream.error().is_none());
    assert!(stream.trailers().is_some());
}

/// gRPC EOF with no trailers at all is a protocol violation — it must
/// not read as a clean end (it is indistinguishable from a mid-stream
/// cut).
#[test]
fn grpc_eof_without_trailers_errors() {
    let mut stream = TestStream::new(http::HeaderMap::new(), Protocol::Grpc, full(Bytes::new()));

    let err = stream.message().expect_err("EOF without grpc-status must surface as Err");
    assert_eq!(err.code, ErrorCode::Internal);
    assert!(
        err.to_string().contains("grpc-status"),
        "unexpected error: {}",
            err.to_string()
    );

    let again = stream.message().expect_err("missing-status error must be sticky");
    assert_eq!(again.code, ErrorCode::Internal);
}

/// `grpc-status: 0` in the response HEADERS only certifies a true
/// Trailers-Only response (empty body). If data flowed afterwards,
/// the real trailers are still required — a cut after eager headers
/// must not read as success.
#[test]
fn grpc_header_status_does_not_excuse_truncation_after_data() {
    let mut headers = http::HeaderMap::new();
    headers.insert("grpc-status", "0".parse().unwrap());
    let body = full(Envelope::data(StringValue::from("hello").encode_to_bytes()).encode());
    let mut stream = TestStream::new(headers, Protocol::Grpc, body);

    let msg = stream.message().expect("data envelope should decode")
        .expect("stream should yield the data message first");
    assert_eq!(msg, "hello");

    let err = stream.message().expect_err("truncation after data must surface as Err despite header status");
    assert_eq!(err.code, ErrorCode::Internal);
}

/// A gRPC Trailers-Only OK response — `grpc-status: 0` in the response
/// HEADERS, empty body, no HTTP trailers — is how a server-stream may
/// end cleanly with zero messages. It must stay a clean
/// `Ok(None)`, not a missing-status error.
#[test]
fn grpc_trailers_only_ok_response_ends_cleanly() {
    let mut headers = http::HeaderMap::new();
    headers.insert("grpc-status", "0".parse().unwrap());
    let mut stream = TestStream::new(headers, Protocol::Grpc, full(Bytes::new()));

    assert!(stream.message().unwrap().is_none());
    assert!(stream.error().is_none());
    // Stays clean on re-poll, too.
    assert!(stream.message().unwrap().is_none());
}

/// Trailers that arrive without any `grpc-status` are as broken as no
/// trailers at all — the status is the termination signal, and its
/// absence must not read as success.
#[test]
fn grpc_trailers_without_status_errors() {
    let mut trailers = http::HeaderMap::new();
    trailers.insert("x-meta", "1".parse().unwrap());
    let frames: Vec<Frame> =
        vec![Frame::Trailers(trailers)];
    let body = frames;

    let mut stream = TestStream::new(http::HeaderMap::new(), Protocol::Grpc, body);

    let err = stream.message().expect_err("trailers without grpc-status must surface as Err");
    // Unknown, not Internal: trailers arrived, just without a status.
    assert_eq!(err.code, ErrorCode::Unknown);
    // The malformed trailers are still inspectable.
    assert!(stream.trailers().is_some());

    let again = stream.message().expect_err("missing-status error must be sticky");
    assert_eq!(again.code, ErrorCode::Unknown);
}

/// A present-but-garbage `grpc-status` is a protocol error (`unknown`)
/// — it must not satisfy the status-presence check and
/// read as a clean end.
#[test]
fn grpc_malformed_status_errors() {
    let mut trailers = http::HeaderMap::new();
    trailers.insert("grpc-status", "banana".parse().unwrap());
    let frames: Vec<Frame> =
        vec![Frame::Trailers(trailers)];
    let body = frames;

    let mut stream = TestStream::new(http::HeaderMap::new(), Protocol::Grpc, body);

    let err = stream.message().expect_err("malformed grpc-status must surface as Err");
    assert_eq!(err.code, ErrorCode::Unknown);
    assert!(
        err.to_string().contains("malformed grpc-status"),
        "unexpected error: {}",
            err.to_string()
    );

    let again = stream.message().expect_err("malformed-status error must be sticky");
    assert_eq!(again.code, ErrorCode::Unknown);
}

/// A deadline that passes between two frames of a message ends the stream.
#[test]
fn a_deadline_between_frames_ends_the_stream() {
    let byte = Bytes::from_static(&[0u8]);
    let body = vec![Frame::Data(byte.clone()), Frame::Data(byte), Frame::Stalled];
    let mut stream = TestStream::new(http::HeaderMap::new(), Protocol::Grpc, body);

    let err = stream.message().expect_err("the deadline must end the stream");
    assert_eq!(err.code, ErrorCode::DeadlineExceeded);
    assert_eq!(err.message.as_deref(), Some("client-side deadline exceeded"));
    let again = stream.message().expect_err("deadline error is sticky");
    assert_eq!(again.code, ErrorCode::DeadlineExceeded);
}
