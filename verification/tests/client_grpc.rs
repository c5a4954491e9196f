//! gRPC responses that hold one message.
use buffa::Message;
use buffa_types::google::protobuf::StringValue;
use bytes::Bytes;
use bytes::BytesMut;
use connectrpc::client::body::body_read_error;
use connectrpc::client::body::BodyCollector;
use connectrpc::client::grpc_unary::GrpcUnaryReader;
use connectrpc::client::CallOptions;
use connectrpc::client::ClientConfig;
use connectrpc::client::UnaryResponse;
use connectrpc::envelope::Envelope;
use connectrpc::error::ConnectError;
use connectrpc::error::ErrorCode;
use connectrpc::protocol::Protocol;
use http::Response;

/// A frame of a body.
enum Frame {
    Data(Bytes),
    Trailers(http::HeaderMap),
    Failure(ConnectError),
}

/// A body in one frame.
fn full(bytes: Bytes) -> Vec<Frame> {
    vec![Frame::Data(bytes)]
}

/// Read a response frame by frame.
fn parse_grpc_unary_response(
    response: Response<Vec<Frame>>,
    config: &ClientConfig,
    options: &CallOptions,
    deadline_passed: bool,
) -> Result<UnaryResponse<String>, ConnectError> {
    let (head, frames) = response.into_parts();
    let mut reader = GrpcUnaryReader::new(head.status, head.headers, config, options)?;
    for frame in frames {
        match frame {
            Frame::Data(data) => {
                if reader.data(&data)? {
                    break;
                }
            }
            Frame::Trailers(trailers) => reader.http_trailers(trailers),
            Frame::Failure(e) => match reader.read_failed(&e.to_string()) {
                Some(err) => return Err(err),
                None => break,
            },
        }
    }
    let (headers, data, trailers) = reader.finish(&config.compression, deadline_passed)?;
    let body = StringValue::decode_from_slice(&data).unwrap().value;
    Ok(UnaryResponse { headers, body, trailers })
}

/// Collect a body up to a limit.
fn collect_body_bounded(frames: Vec<Frame>, max_size: usize) -> Result<Bytes, ConnectError> {
    let mut collector = BodyCollector::new(max_size);
    for frame in frames {
        match frame {
            Frame::Data(data) => collector.push(&data)?,
            Frame::Trailers(_) => {}
            Frame::Failure(e) => return Err(body_read_error(&e.to_string())),
        }
    }
    Ok(collector.finish())
}

#[test]
fn grpc_unary_rejects_second_message_before_decompression() {
    let mut body = BytesMut::new();
    body.extend_from_slice(&Envelope::data(Bytes::new()).encode());
    body.extend_from_slice(&Envelope::compressed(Bytes::from_static(b"not-gzip")).encode());

    let response = Response::builder()
        .header(http::header::CONTENT_TYPE, "application/grpc+proto")
        .body(full(body.freeze()))
        .unwrap();
    let config =
        ClientConfig::new("http://localhost".parse().unwrap()).with_protocol(Protocol::Grpc);

    let err = parse_grpc_unary_response(response, &config, &CallOptions::default(), false)
    .unwrap_err();
    assert_eq!(err.code, ErrorCode::Unimplemented);
    assert_eq!(
        err.message.as_deref(),
        Some("received multiple response messages where exactly one was expected")
    );
}

#[test]
fn grpc_unary_trailers_only_status_wins_over_http_status() {
    // A proxy pairs a non-200 status with a trailers-only gRPC error in the
    // initial headers. The gRPC code is the one reported, which for this
    // pairing is not the code the HTTP status maps to (500 is `unknown`).
    let response = Response::builder()
        .status(http::StatusCode::INTERNAL_SERVER_ERROR)
        .header(http::header::CONTENT_TYPE, "application/grpc")
        .header("grpc-status", "3")
        .header("grpc-message", "malformed request")
        .header("x-request-id", "abc123")
        .body(full(Bytes::new()))
        .unwrap();
    let config =
        ClientConfig::new("http://localhost".parse().unwrap()).with_protocol(Protocol::Grpc);

    let err = parse_grpc_unary_response(response, &config, &CallOptions::default(), false)
    .expect_err("a trailers-only gRPC error must surface as an error");
    assert_eq!(err.code, ErrorCode::InvalidArgument);
    assert_eq!(err.message.as_deref(), Some("malformed request"));
    assert_eq!(
        err.response_headers().get("x-request-id").unwrap(),
        "abc123"
    );
    // Response headers are not trailing metadata, so nothing from the
    // header block may surface through `trailers()`.
    assert!(
        err.trailers().is_empty(),
        "initial headers must not be reported as trailers: {:?}",
        err.trailers()
    );
}

#[test]
fn grpc_unary_ignores_header_status_when_body_present() {
    // A status
    // in the initial headers is only the status of a trailers-only
    // response. With a message in the body and no trailers, the status is
    // missing, not `9`.
    let response = Response::builder()
        .header(http::header::CONTENT_TYPE, "application/grpc")
        .header("grpc-status", "9")
        .body(full(
            Envelope::data(StringValue::from("hi").encode_to_bytes()).encode(),
        ))
        .unwrap();
    let config =
        ClientConfig::new("http://localhost".parse().unwrap()).with_protocol(Protocol::Grpc);

    let err = parse_grpc_unary_response(response, &config, &CallOptions::default(), false)
    .expect_err("a response with body data and no trailers has no status");
    assert_eq!(err.code, ErrorCode::Internal);
    assert_eq!(
        err.message.as_deref(),
        Some("gRPC response missing grpc-status trailer")
    );
}

#[test]
fn grpc_unary_ignores_header_status_when_trailer_present() {
    // The
    // HTTP/2 trailer wins over the header.
    let mut trailers = http::HeaderMap::new();
    trailers.insert("grpc-status", "9".parse().unwrap());
    let frames: Vec<Frame> = vec![
        Frame::Data(
            Envelope::data(StringValue::from("hi").encode_to_bytes()).encode(),
        ),
        Frame::Trailers(trailers),
    ];

    let response = Response::builder()
        .header(http::header::CONTENT_TYPE, "application/grpc")
        .header("grpc-status", "8")
        .body(frames)
        .unwrap();
    let config =
        ClientConfig::new("http://localhost".parse().unwrap()).with_protocol(Protocol::Grpc);

    let err = parse_grpc_unary_response(response, &config, &CallOptions::default(), false)
    .expect_err("the trailer status must be reported");
    assert_eq!(err.code, ErrorCode::FailedPrecondition);
}

#[test]
fn grpc_web_unary_ignores_header_status_when_body_present() {
    // For gRPC-Web: the trailer frame in the body wins over the header.
    let mut body = BytesMut::new();
    body.extend_from_slice(&Envelope::data(StringValue::from("hi").encode_to_bytes()).encode());
    let trailer_payload = b"grpc-status: 9\r\n";
    body.extend_from_slice(&[0x80]);
    body.extend_from_slice(&(trailer_payload.len() as u32).to_be_bytes());
    body.extend_from_slice(trailer_payload);

    let response = Response::builder()
        .header(http::header::CONTENT_TYPE, "application/grpc-web")
        .header("grpc-status", "8")
        .body(full(body.freeze()))
        .unwrap();
    let config =
        ClientConfig::new("http://localhost".parse().unwrap()).with_protocol(Protocol::GrpcWeb);

    let err = parse_grpc_unary_response(response, &config, &CallOptions::default(), false)
    .expect_err("the trailer-frame status must be reported");
    assert_eq!(err.code, ErrorCode::FailedPrecondition);
}

#[test]
fn grpc_unary_non_200_with_body_reports_http_status() {
    // A body means the header status does not apply, and a non-200 is an
    // error however successful the trailers claim the call was.
    let mut trailers = http::HeaderMap::new();
    trailers.insert("grpc-status", "0".parse().unwrap());
    let frames: Vec<Frame> = vec![
        Frame::Data(
            Envelope::data(StringValue::from("hi").encode_to_bytes()).encode(),
        ),
        Frame::Trailers(trailers),
    ];

    let response = Response::builder()
        .status(http::StatusCode::INTERNAL_SERVER_ERROR)
        .header(http::header::CONTENT_TYPE, "application/grpc")
        .header("grpc-status", "3")
        .body(frames)
        .unwrap();
    let config =
        ClientConfig::new("http://localhost".parse().unwrap()).with_protocol(Protocol::Grpc);

    let err = parse_grpc_unary_response(response, &config, &CallOptions::default(), false)
    .expect_err("a non-200 response is an error");
    assert_eq!(err.code, ErrorCode::Unknown);
    assert_eq!(err.message.as_deref(), Some("HTTP error 500"));
}

#[test]
fn grpc_web_unary_trailers_only_status_wins_over_http_status() {
    // The header check is protocol-agnostic, so gRPC-Web reads a
    // trailers-only error the same way plain gRPC does.
    let response = Response::builder()
        .status(http::StatusCode::BAD_GATEWAY)
        .header(http::header::CONTENT_TYPE, "application/grpc-web")
        .header("grpc-status", "14")
        .header("grpc-message", "upstream connect error")
        .body(full(Bytes::new()))
        .unwrap();
    let config =
        ClientConfig::new("http://localhost".parse().unwrap()).with_protocol(Protocol::GrpcWeb);

    let err = parse_grpc_unary_response(response, &config, &CallOptions::default(), false)
    .expect_err("a trailers-only gRPC-Web error must surface as an error");
    assert_eq!(err.code, ErrorCode::Unavailable);
    assert_eq!(err.message.as_deref(), Some("upstream connect error"));
}

#[test]
fn grpc_unary_malformed_grpc_status_on_non_200_is_unknown() {
    // A present-but-unparseable status must not read as the HTTP status
    // either: it is a protocol error in its own right.
    let response = Response::builder()
        .status(http::StatusCode::INTERNAL_SERVER_ERROR)
        .header(http::header::CONTENT_TYPE, "application/grpc")
        .header("grpc-status", "banana")
        .body(full(Bytes::new()))
        .unwrap();
    let config =
        ClientConfig::new("http://localhost".parse().unwrap()).with_protocol(Protocol::Grpc);

    let err = parse_grpc_unary_response(response, &config, &CallOptions::default(), false)
    .expect_err("a malformed gRPC status must not read as success");
    assert_eq!(err.code, ErrorCode::Unknown);
    assert_eq!(
        err.message.as_deref(),
        Some("protocol error: malformed grpc-status: \"banana\"")
    );
}

#[test]
fn grpc_unary_non_200_without_grpc_status_uses_http_status() {
    let response = Response::builder()
        .status(http::StatusCode::SERVICE_UNAVAILABLE)
        .header(http::header::CONTENT_TYPE, "application/grpc")
        .body(full(Bytes::new()))
        .unwrap();
    let config =
        ClientConfig::new("http://localhost".parse().unwrap()).with_protocol(Protocol::Grpc);

    let err = parse_grpc_unary_response(response, &config, &CallOptions::default(), false)
    .expect_err("a non-200 response without a gRPC status is an error");
    assert_eq!(err.code, ErrorCode::Unavailable);
    assert_eq!(err.message.as_deref(), Some("HTTP error 503"));
}

#[test]
fn grpc_unary_rejects_trailer_flag_in_body() {
    // 0x80 is the gRPC-Web trailer marker and is not a gRPC envelope flag.
    // Honouring it here would replace the HTTP/2 trailers with whatever the
    // body claims.
    let trailer_payload = b"grpc-status: 5\r\n";
    let mut body = BytesMut::new();
    body.extend_from_slice(&[0x80]);
    body.extend_from_slice(&(trailer_payload.len() as u32).to_be_bytes());
    body.extend_from_slice(trailer_payload);

    let mut trailers = http::HeaderMap::new();
    trailers.insert("grpc-status", "0".parse().unwrap());
    let frames: Vec<Frame> = vec![
        Frame::Data(body.freeze()),
        Frame::Trailers(trailers),
    ];

    let response = Response::builder()
        .header(http::header::CONTENT_TYPE, "application/grpc+proto")
        .body(frames)
        .unwrap();
    let config =
        ClientConfig::new("http://localhost".parse().unwrap()).with_protocol(Protocol::Grpc);

    let err = parse_grpc_unary_response(response, &config, &CallOptions::default(), false)
    .expect_err("the trailer flag must be rejected on plain gRPC");
    assert_eq!(err.code, ErrorCode::Internal);
    assert_eq!(
        err.message.as_deref(),
        Some(
            "invalid gRPC response framing: envelope flag 0x80 (gRPC-Web trailer marker) is not valid on a plain gRPC response"
        )
    );
}

#[test]
fn grpc_unary_framing_error_names_the_offending_flag_byte() {
    // Any byte with the high bit set takes the trailer branch, so the
    // error has to report the byte received rather than a bare 0x80.
    let mut body = BytesMut::new();
    body.extend_from_slice(&[0xC1]);
    body.extend_from_slice(&0u32.to_be_bytes());

    let response = Response::builder()
        .header(http::header::CONTENT_TYPE, "application/grpc+proto")
        .body(full(body.freeze()))
        .unwrap();
    let config =
        ClientConfig::new("http://localhost".parse().unwrap()).with_protocol(Protocol::Grpc);

    let err = parse_grpc_unary_response(response, &config, &CallOptions::default(), false)
    .expect_err("a high-bit flag byte must be rejected on plain gRPC");
    assert_eq!(err.code, ErrorCode::Internal);
    assert_eq!(
        err.message.as_deref(),
        Some(
            "invalid gRPC response framing: envelope flag 0xc1 (gRPC-Web trailer marker) is not valid on a plain gRPC response"
        )
    );
}

#[test]
fn grpc_web_unary_parses_trailer_frame_after_message() {
    let mut body = BytesMut::new();
    body.extend_from_slice(&Envelope::data(StringValue::from("hi").encode_to_bytes()).encode());
    let trailer_payload = b"grpc-status: 0\r\nx-trailer: v\r\n";
    body.extend_from_slice(&[0x80]);
    body.extend_from_slice(&(trailer_payload.len() as u32).to_be_bytes());
    body.extend_from_slice(trailer_payload);

    let response = Response::builder()
        .header(http::header::CONTENT_TYPE, "application/grpc-web+proto")
        .body(full(body.freeze()))
        .unwrap();
    let config =
        ClientConfig::new("http://localhost".parse().unwrap()).with_protocol(Protocol::GrpcWeb);

    let response = parse_grpc_unary_response(response, &config, &CallOptions::default(), false)
    .expect("gRPC-Web trailer frames must still be parsed");
    assert_eq!(response.body, "hi");
    assert_eq!(response.trailers().get("x-trailer").unwrap(), "v");
}

#[test]
fn grpc_unary_accepts_bare_application_grpc_with_parameters() {
    let data = Envelope::data(StringValue::from("hi").encode_to_bytes()).encode();
    let mut trailers = http::HeaderMap::new();
    trailers.insert("grpc-status", "0".parse().unwrap());
    let frames: Vec<Frame> =
        vec![Frame::Data(data), Frame::Trailers(trailers)];

    let response = Response::builder()
        .header(
            http::header::CONTENT_TYPE,
            "application/grpc; charset=utf-8",
        )
        .body(frames)
        .unwrap();
    let config =
        ClientConfig::new("http://localhost".parse().unwrap()).with_protocol(Protocol::Grpc);

    let response = parse_grpc_unary_response(response, &config, &CallOptions::default(), false)
    .expect("bare application/grpc must be accepted as proto");
    assert_eq!(response.body, "hi");
    assert_eq!(response.trailers().get("grpc-status").unwrap(), "0");
}

#[test]
fn grpc_unary_rejects_grpc_web_content_type() {
    let response = Response::builder()
        .header(http::header::CONTENT_TYPE, "application/grpc-web+proto")
        .body(full(Bytes::new()))
        .unwrap();
    let config =
        ClientConfig::new("http://localhost".parse().unwrap()).with_protocol(Protocol::Grpc);

    let err = parse_grpc_unary_response(response, &config, &CallOptions::default(), false)
    .expect_err("gRPC client must reject gRPC-Web content type");
    // Cross-family mismatches are `unknown` (not a gRPC response at all);
    // only same-family codec mismatches are
    // `internal`.
    assert_eq!(err.code, ErrorCode::Unknown);
    assert_eq!(
        err.message.as_deref(),
        Some(
            "unexpected content-type: application/grpc-web+proto (expected application/grpc+proto)"
        )
    );
}

#[test]
fn grpc_unary_rejects_mismatched_codec_content_type() {
    let response = Response::builder()
        .header(http::header::CONTENT_TYPE, "application/grpc+json")
        .body(full(Bytes::new()))
        .unwrap();
    let config =
        ClientConfig::new("http://localhost".parse().unwrap()).with_protocol(Protocol::Grpc);

    let err = parse_grpc_unary_response(response, &config, &CallOptions::default(), false)
    .expect_err("gRPC client must reject mismatched response codec");
    assert_eq!(err.code, ErrorCode::Internal);
    assert_eq!(
        err.message.as_deref(),
        Some(
            "unexpected content-type: application/grpc+json (expected application/grpc+proto)"
        )
    );
}

#[test]
fn collect_body_bounded_within_limit() {
    let body = full(Bytes::from_static(b"hello"));
    let got = collect_body_bounded(body, 10).unwrap();
    assert_eq!(&got[..], b"hello");
}

#[test]
fn collect_body_bounded_at_exact_limit() {
    let body = full(Bytes::from_static(b"hello"));
    let got = collect_body_bounded(body, 5).unwrap();
    assert_eq!(&got[..], b"hello");
}

#[test]
fn collect_body_bounded_exceeds_limit() {
    let body = full(Bytes::from_static(b"hello world"));
    let err = collect_body_bounded(body, 5).unwrap_err();
    assert_eq!(err.code, ErrorCode::ResourceExhausted);
}

#[test]
fn collect_body_bounded_empty() {
    let body = full(Bytes::new());
    let got = collect_body_bounded(body, 0).unwrap();
    assert!(got.is_empty());
}

#[test]
fn collect_body_bounded_multi_frame_exceeds_mid_stream() {
    let mut body = Vec::new();
    body.push(Frame::Data(Bytes::from_static(b"aaa")));
    body.push(Frame::Data(Bytes::from_static(b"bbb")));
    body.push(Frame::Data(Bytes::from_static(b"ccc")));
    // limit 7: first two frames (6 bytes) fit, third (3 more → 9) exceeds
    let err = collect_body_bounded(body, 7).unwrap_err();
    assert_eq!(err.code, ErrorCode::ResourceExhausted);
}

#[test]
fn collect_body_bounded_multi_frame_within_limit() {
    let mut body = Vec::new();
    body.push(Frame::Data(Bytes::from_static(b"foo")));
    body.push(Frame::Data(Bytes::from_static(b"bar")));
    let got = collect_body_bounded(body, 10).unwrap();
    assert_eq!(&got[..], b"foobar");
}

#[test]
fn collect_body_bounded_propagates_body_error() {
    let mut body = Vec::new();
    body.push(Frame::Failure(ConnectError::internal("io")));
    let err = collect_body_bounded(body, 1024).unwrap_err();
    assert_eq!(err.code, ErrorCode::Internal);
}

#[test]
fn grpc_web_unary_stops_reading_after_trailer_frame() {
    let mut body = BytesMut::new();
    body.extend_from_slice(&Envelope::data(Bytes::from_static(b"\x0a\x02hi")).encode());
    let trailer_payload = b"grpc-status: 0\r\n";
    body.extend_from_slice(&[0x80]);
    body.extend_from_slice(&(trailer_payload.len() as u32).to_be_bytes());
    body.extend_from_slice(trailer_payload);

    // A complete trailer frame finishes the response: the frame behind it,
    // which would fail, is not asked for.
    let frames = vec![
        Frame::Data(body.freeze()),
        Frame::Failure(ConnectError::internal("server is still writing")),
    ];
    let response = Response::builder()
        .header(http::header::CONTENT_TYPE, "application/grpc-web+proto")
        .body(frames)
        .unwrap();
    let config =
        ClientConfig::new("http://localhost".parse().unwrap()).with_protocol(Protocol::GrpcWeb);

    let response = parse_grpc_unary_response(response, &config, &CallOptions::default(), false)
        .unwrap();
    assert_eq!(
        response.trailers().get("grpc-status").unwrap(),
        http::HeaderValue::from_static("0")
    );
}
