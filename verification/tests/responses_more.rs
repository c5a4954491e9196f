//! Responses: failures, messages, statuses, trailers and streams.
use bytes::Bytes;
use bytes::BytesMut;
use connectrpc::client::bidi::client_stream_result;
use connectrpc::client::bidi::task_error;
use connectrpc::client::bidi::EncodingBody;
use connectrpc::client::body::message_limit;
use connectrpc::client::body::BodyCollector;
use connectrpc::client::body::FailedResponse;
use connectrpc::client::client_stream::ClientStreamReader;
use connectrpc::client::grpc_unary::GrpcUnaryReader;
use connectrpc::client::status::parse_grpc_error_from_trailers;
use connectrpc::client::status::WireError;
use connectrpc::client::stream::make_server_stream;
use connectrpc::client::stream::StreamHead;
use connectrpc::client::stream::StreamStep;
use connectrpc::client::trailers::append_metadata_capped;
use connectrpc::client::trailers::grpc_web_trailer_frame_end;
use connectrpc::client::trailers::parse_grpc_web_trailer_frame_with_compression;
use connectrpc::client::trailers::split_trailers;
use connectrpc::client::transport::check_scheme;
use connectrpc::client::transport::map_transport_send_error;
use connectrpc::client::unary::client_deadline_error;
use connectrpc::client::unary::decode_response_view;
use connectrpc::client::unary::ConnectUnaryReader;
use connectrpc::client::unary::DecodeFailure;
use connectrpc::client::BidiRecvHalf;
use connectrpc::client::BidiStream;
use connectrpc::client::CallOptions;
use connectrpc::client::ClientConfig;
use connectrpc::client::HttpClientBuilder;
use connectrpc::client::ServerStream;
use connectrpc::client::ServiceTransport;
use connectrpc::client::UnaryResponse;
use connectrpc::codec::CodecFormat;
use connectrpc::compression::CompressionPolicy;
use connectrpc::compression::CompressionRegistry;
use connectrpc::envelope::encoder::EnvelopeEncoder;
use connectrpc::envelope::Envelope;
use connectrpc::error::ConnectError;
use connectrpc::error::ErrorCode;
use connectrpc::grpc_status::decode_details;
use connectrpc::protocol::Protocol;
use http::HeaderMap;
use http::HeaderValue;
use http::StatusCode;
use std::sync::Arc;
use std::time::Duration;

fn config(protocol: Protocol) -> ClientConfig {
    ClientConfig::new("http://localhost".parse().unwrap()).with_protocol(protocol)
}

fn headers(list: &[(&'static str, &'static str)]) -> HeaderMap {
    let mut h = HeaderMap::new();
    for (name, value) in list {
        h.append(*name, HeaderValue::from_static(value));
    }
    h
}

fn trailer_frame(flag: u8, payload: &[u8]) -> Vec<u8> {
    let mut frame = vec![flag];
    frame.extend_from_slice(&(payload.len() as u32).to_be_bytes());
    frame.extend_from_slice(payload);
    frame
}

fn open_stream(protocol: Protocol, h: HeaderMap, max: Option<usize>) -> ServerStream {
    let head = make_server_stream(
        StatusCode::OK,
        h,
        protocol,
        &CompressionRegistry::default(),
        CodecFormat::Proto,
        max,
    );
    match head {
        StreamHead::Open(stream) => stream,
        _ => panic!("expected a stream"),
    }
}

// --- failed responses -------------------------------------------------------

#[test]
fn trailers_among_headers_are_told_apart() {
    let h = headers(&[("x-a", "1"), ("trailer-x-t", "2"), ("trailer-x-t", "3"), ("trailer-", "lost")]);
    let (plain, trailers) = split_trailers(&h);
    assert_eq!(plain, headers(&[("x-a", "1")]));
    assert_eq!(trailers, headers(&[("x-t", "2"), ("x-t", "3")]));
}

#[test]
fn failed_unary_response_reports_the_json_error() {
    let h = headers(&[("x-a", "1"), ("trailer-x-t", "2")]);
    let failed = FailedResponse::unary(StatusCode::NOT_FOUND, &h, None);
    assert_eq!(failed.max_size, 4 * 1024 * 1024);
    let body = failed.unpack(&CompressionRegistry::default(), Bytes::from_static(b"{}"));
    let error = WireError { code: Some("aborted".to_owned()), message: Some("stop".to_owned()), details: Vec::new() };
    let err = failed.report(body, Some(error));
    assert_eq!(err.code, ErrorCode::Aborted);
    assert_eq!(err.message.as_deref(), Some("stop"));
    assert_eq!(err.response_headers().get("x-a").unwrap(), "1");
    assert_eq!(err.trailers().get("x-t").unwrap(), "2");
}

#[test]
fn a_code_that_is_not_known_falls_back_to_the_status() {
    let failed = FailedResponse::unary(StatusCode::FORBIDDEN, &HeaderMap::new(), Some(10));
    let error = WireError { code: Some("no_such_code".to_owned()), message: None, details: Vec::new() };
    let err = failed.report(Some(Bytes::new()), Some(error));
    assert_eq!(err.code, ErrorCode::PermissionDenied);
    assert_eq!(err.message.as_deref(), Some(""));
}

#[test]
fn failed_unary_response_shows_a_body_that_is_no_json() {
    let failed = FailedResponse::unary(StatusCode::BAD_GATEWAY, &HeaderMap::new(), None);
    let err = failed.report(Some(Bytes::from_static(b"oops \xff")), None);
    assert_eq!(err.code, ErrorCode::Unavailable);
    assert_eq!(err.message.as_deref(), Some("HTTP error 502: oops \u{fffd}"));
}

#[test]
fn failed_response_that_cannot_be_decompressed_is_known_by_its_status() {
    let h = headers(&[("content-encoding", "gzip")]);
    let failed = FailedResponse::streaming(StatusCode::TOO_MANY_REQUESTS, &h, None);
    let body = failed.unpack(&CompressionRegistry::default(), Bytes::from_static(b"not gzip"));
    assert!(body.is_none());
    let err = failed.report(body, None);
    assert_eq!(err.code, ErrorCode::Unavailable);
    assert_eq!(err.message.as_deref(), Some("HTTP error 429"));
    assert_eq!(err.response_headers().get("content-encoding").unwrap(), "gzip");
}

#[test]
fn failed_response_is_decompressed() {
    let registry = CompressionRegistry::default();
    let packed = registry.compress("gzip", b"{\"code\":\"internal\"}").unwrap();
    let failed = FailedResponse::unary(StatusCode::BAD_REQUEST, &headers(&[("content-encoding", "gzip")]), None);
    let body = failed.unpack(&registry, packed).unwrap();
    assert_eq!(&body[..], b"{\"code\":\"internal\"}");
}

#[test]
fn metadata_goes_with_a_body_that_cannot_be_collected() {
    let h = headers(&[("x-a", "1"), ("trailer-x-t", "2")]);
    let failed = FailedResponse::unary(StatusCode::NOT_FOUND, &h, Some(2));
    let mut collector = BodyCollector::new(failed.max_size);
    let e = collector.push(b"abc").unwrap_err();
    let err = failed.uncollected(e);
    assert_eq!(err.message.as_deref(), Some("response body size exceeds limit 2"));
    assert_eq!(err.response_headers().get("x-a").unwrap(), "1");
    assert_eq!(err.trailers().get("x-t").unwrap(), "2");
    let failed = FailedResponse::streaming(StatusCode::NOT_FOUND, &h, Some(2));
    let err = failed.uncollected(ConnectError::internal("x"));
    assert!(err.response_headers().is_empty());
}

#[test]
fn cutting_a_body_does_not_matter() {
    for cut in 0..=5 {
        let mut collector = BodyCollector::new(5);
        collector.push(&b"hello"[..cut]).unwrap();
        collector.push(&b"hello"[cut..]).unwrap();
        assert_eq!(&collector.finish()[..], b"hello");
        let mut collector = BodyCollector::new(4);
        let first = collector.push(&b"hello"[..cut]);
        assert!(first.is_err() || collector.push(&b"hello"[cut..]).is_err());
    }
    assert_eq!(message_limit(None), 4 * 1024 * 1024);
    assert_eq!(message_limit(Some(7)), 7);
}

// --- successful Connect responses ------------------------------------------

#[test]
fn connect_content_types_are_judged() {
    let config = config(Protocol::Connect);
    let options = CallOptions::default();
    assert!(ConnectUnaryReader::new(&HeaderMap::new(), &config, &options).is_ok());
    let ok = headers(&[("content-type", "application/proto; charset=x")]);
    assert!(ConnectUnaryReader::new(&ok, &config, &options).is_ok());
    let json = headers(&[("content-type", "application/json")]);
    let err = ConnectUnaryReader::new(&json, &config, &options).unwrap_err();
    assert_eq!(err.code, ErrorCode::Internal);
    assert_eq!(err.message.as_deref(), Some("unexpected content-type: application/json"));
    let html = headers(&[("content-type", "text/html")]);
    let err = ConnectUnaryReader::new(&html, &config, &options).unwrap_err();
    assert_eq!(err.code, ErrorCode::Unknown);
}

#[test]
fn connect_message_is_decompressed_within_its_limit() {
    let config = config(Protocol::Connect);
    let packed = config.compression.compress("gzip", b"hello hello").unwrap();
    let h = headers(&[("content-encoding", "gzip"), ("trailer-x-t", "v")]);
    let reader = ConnectUnaryReader::new(&h, &config, &CallOptions::default()).unwrap();
    assert_eq!(reader.trailers.get("x-t").unwrap(), "v");
    let message = reader.message(&config.compression, packed.clone()).unwrap();
    assert_eq!(&message[..], b"hello hello");

    let tight = CallOptions::default().with_max_message_size(4);
    let reader = ConnectUnaryReader::new(&h, &config, &tight).unwrap();
    assert_eq!(reader.message(&config.compression, packed).unwrap_err().code, ErrorCode::ResourceExhausted);
    assert_eq!(
        reader.message(&config.compression, Bytes::from_static(b"junk")).unwrap_err().code,
        ErrorCode::DataLoss
    );

    let plain = ConnectUnaryReader::new(&HeaderMap::new(), &config, &tight).unwrap();
    let err = plain.message(&config.compression, Bytes::from_static(b"hello")).unwrap_err();
    assert_eq!(err.message.as_deref(), Some("message size 5 exceeds limit 4"));
    let unknown = headers(&[("content-encoding", "br")]);
    let reader = ConnectUnaryReader::new(&unknown, &config, &tight).unwrap();
    let err = reader.message(&config.compression, Bytes::from_static(b"x")).unwrap_err();
    assert_eq!(err.code, ErrorCode::Internal);
}

#[test]
fn a_response_is_taken_apart() {
    let response = UnaryResponse { headers: headers(&[("x-a", "1")]), body: 7u8, trailers: headers(&[("x-t", "2")]) };
    assert_eq!(response.headers().get("x-a").unwrap(), "1");
    assert_eq!(response.trailers().get("x-t").unwrap(), "2");
    let (h, body, t) = response.into_parts();
    assert_eq!((h.len(), body, t.len()), (1, 7, 1));
    let response = UnaryResponse { headers: HeaderMap::new(), body: 9u8, trailers: HeaderMap::new() };
    assert_eq!(response.into_view(), 9);
}

#[test]
fn messages_that_cannot_be_decoded_are_internal() {
    let cases = [
        (DecodeFailure::Proto("p".to_owned()), "failed to decode response: p"),
        (DecodeFailure::Json("j".to_owned()), "failed to decode JSON response: j"),
        (DecodeFailure::View("v".to_owned()), "failed to re-encode for view: v"),
    ];
    for (failure, text) in cases {
        let err = decode_response_view::<u8>(Err(failure)).unwrap_err();
        assert_eq!(err.code, ErrorCode::Internal);
        assert_eq!(err.message.as_deref(), Some(text));
    }
    assert_eq!(decode_response_view(Ok(3u8)).unwrap(), 3);
    assert_eq!(client_deadline_error().code, ErrorCode::DeadlineExceeded);
}

// --- gRPC statuses ----------------------------------------------------------

/// A status with one detail: `Any { type_url, value }` in field 3.
const STATUS: &[u8] = b"\x08\x05\x12\x02hi\x1a\x11\x0a\x0bexample/a.B\x12\x02\x01\x02";

#[test]
fn details_of_a_status_are_decoded() {
    let details = decode_details(STATUS);
    assert_eq!(details.len(), 1);
    assert_eq!(details[0].type_url, "a.B");
    assert_eq!(details[0].value.as_deref(), Some("AQI"));
    // Fields of other kinds are skipped.
    let mut more = vec![0x21, 0, 0, 0, 0, 0, 0, 0, 0, 0x2d, 0, 0, 0, 0];
    more.extend_from_slice(STATUS);
    assert_eq!(decode_details(&more).len(), 1);
}

#[test]
fn a_malformed_status_has_no_details() {
    for bad in [&b"\x1a\x7f"[..], b"\x08", b"\x00\x01", b"\x1b", b"\x1a\x03\x0a\x01\xff", b"\xff\xff\xff\xff\xff\xff\xff\xff\xff\xff\x01"] {
        assert!(decode_details(bad).is_empty());
    }
    assert!(decode_details(b"").is_empty());
}

#[test]
fn details_come_with_the_error_with_or_without_padding() {
    // 25 bytes of status: two padding characters.
    let padded = "CAUSAmhpGhEKC2V4YW1wbGUvYS5CEgIBAg==";
    for text in [padded, padded.trim_end_matches('=')] {
        let mut trailers = headers(&[("grpc-status", "5"), ("grpc-message", "gone"), ("x-other", "o")]);
        trailers.insert("grpc-status-details-bin", text.parse().unwrap());
        let err = parse_grpc_error_from_trailers(&trailers).unwrap();
        assert_eq!(err.code, ErrorCode::NotFound);
        assert_eq!(err.details.len(), 1);
        assert_eq!(err.details[0].type_url, "a.B");
        assert_eq!(err.trailers(), &headers(&[("x-other", "o")]));
    }
}

#[test]
fn statuses_are_numbers() {
    assert!(parse_grpc_error_from_trailers(&headers(&[("grpc-status", "+0")])).is_none());
    for bad in ["", "-0", "4294967296", "1 "] {
        let err = parse_grpc_error_from_trailers(&headers(&[("grpc-status", bad)])).unwrap();
        assert_eq!(err.code, ErrorCode::Unknown);
        assert_eq!(err.message, Some(format!("protocol error: malformed grpc-status: {bad:?}")));
    }
}

// --- gRPC unary -------------------------------------------------------------

#[test]
fn unsupported_encodings_are_refused_before_the_body() {
    let config = config(Protocol::Grpc);
    let h = headers(&[("grpc-encoding", "br")]);
    let err = GrpcUnaryReader::new(StatusCode::OK, h, &config, &CallOptions::default()).unwrap_err();
    assert_eq!(err.code, ErrorCode::Internal);
    assert_eq!(err.message.as_deref(), Some("unsupported response compression: br"));
    let h = headers(&[("grpc-encoding", "identity")]);
    assert!(GrpcUnaryReader::new(StatusCode::OK, h, &config, &CallOptions::default()).is_ok());
}

#[test]
fn compressed_messages_need_an_encoding() {
    let config = config(Protocol::Grpc);
    let wire = Envelope::compressed(Bytes::from_static(b"x")).encode();
    let cases = [
        (headers(&[]), "received compressed message without grpc-encoding header"),
        (headers(&[("grpc-encoding", "identity")]), "received compressed message with identity encoding"),
    ];
    for (h, text) in cases {
        let mut reader = GrpcUnaryReader::new(StatusCode::OK, h, &config, &CallOptions::default()).unwrap();
        assert!(!reader.data(&wire).unwrap());
        let err = reader.finish(&config.compression, false).unwrap_err();
        assert_eq!(err.message.as_deref(), Some(text));
    }
}

#[test]
fn a_sent_message_is_read_back() {
    for (encoding, protocol) in [("gzip", Protocol::Grpc), ("zstd", Protocol::GrpcWeb)] {
        let config = config(protocol);
        let encoder = EnvelopeEncoder::new(
            Some((Arc::new(config.compression.clone()), encoding.to_owned())),
            CompressionPolicy::default().min_size(0),
        );
        let mut wire = BytesMut::new();
        encoder.encode(Bytes::from_static(b"over the wire"), &mut wire).unwrap();
        assert_eq!(wire[0], 1);

        let h = headers(&[("grpc-encoding", encoding)]);
        let mut reader = GrpcUnaryReader::new(StatusCode::OK, h, &config, &CallOptions::default()).unwrap();
        for piece in wire.chunks(3) {
            assert!(!reader.data(piece).unwrap());
        }
        reader.http_trailers(headers(&[("grpc-status", "0"), ("x-t", "v")]));
        let (_, message, trailers) = reader.finish(&config.compression, false).unwrap();
        assert_eq!(&message[..], b"over the wire");
        assert_eq!(trailers.get("x-t").unwrap(), "v");
    }
}

#[test]
fn a_missing_status_is_the_deadline_where_that_has_passed() {
    let config = config(Protocol::Grpc);
    for (passed, code) in [(false, ErrorCode::Internal), (true, ErrorCode::DeadlineExceeded)] {
        let reader = GrpcUnaryReader::new(StatusCode::OK, headers(&[]), &config, &CallOptions::default()).unwrap();
        assert_eq!(reader.finish(&config.compression, passed).unwrap_err().code, code);
    }
    let h = headers(&[("grpc-status", "0")]);
    let reader = GrpcUnaryReader::new(StatusCode::OK, h, &config, &CallOptions::default()).unwrap();
    let err = reader.finish(&config.compression, false).unwrap_err();
    assert_eq!(err.code, ErrorCode::Unimplemented);
    assert_eq!(err.message.as_deref(), Some("gRPC response contained no message data"));
}

#[test]
fn a_body_that_fails_matters_only_to_a_success() {
    let config = config(Protocol::Grpc);
    let reader = GrpcUnaryReader::new(StatusCode::OK, headers(&[]), &config, &CallOptions::default()).unwrap();
    let err = reader.read_failed("reset").unwrap();
    assert_eq!(err.message.as_deref(), Some("failed to read response body: reset"));
    let reader =
        GrpcUnaryReader::new(StatusCode::BAD_GATEWAY, headers(&[]), &config, &CallOptions::default()).unwrap();
    assert!(reader.read_failed("reset").is_none());
}

#[test]
fn grpc_messages_and_bodies_keep_to_their_limits() {
    let config = config(Protocol::Grpc);
    let options = CallOptions::default().with_max_message_size(4);
    let mut reader = GrpcUnaryReader::new(StatusCode::OK, headers(&[]), &config, &options).unwrap();
    reader.data(&Envelope::data(Bytes::from_static(b"hello")).encode()).unwrap();
    let err = reader.finish(&config.compression, false).unwrap_err();
    assert_eq!(err.code, ErrorCode::ResourceExhausted);
    assert_eq!(err.message.as_deref(), Some("message size 5 exceeds limit 4"));

    // Without a limit of the call's own the default one applies.
    let mut reader =
        GrpcUnaryReader::new(StatusCode::OK, headers(&[]), &config, &CallOptions::default()).unwrap();
    reader.data(&[0, 0x00, 0x40, 0x00, 0x01]).unwrap();
    let err = reader.finish(&config.compression, false).unwrap_err();
    assert_eq!(err.code, ErrorCode::Internal);
    assert_eq!(
        err.message.as_deref(),
        Some("envelope decode failed: resource_exhausted: message size 4194305 exceeds limit 4194304")
    );

    let mut reader = GrpcUnaryReader::new(StatusCode::OK, headers(&[]), &config, &options).unwrap();
    assert_eq!(reader.max_buf_size, 4 + 5 + 65536);
    let err = reader.data(&vec![0u8; 4 + 5 + 65536 + 1]).unwrap_err();
    assert_eq!(err.message.as_deref(), Some("response body size exceeds limit 65545"));
}

#[test]
fn cutting_a_grpc_body_does_not_matter() {
    let config = config(Protocol::GrpcWeb);
    let mut wire = Envelope::data(Bytes::from_static(b"m")).encode().to_vec();
    wire.extend_from_slice(&trailer_frame(0x80, b"grpc-status: 0\r\n"));
    wire.extend_from_slice(b"ignored");
    for cut in 0..=wire.len() {
        let mut reader =
            GrpcUnaryReader::new(StatusCode::OK, headers(&[]), &config, &CallOptions::default()).unwrap();
        let done = reader.data(&wire[..cut]).unwrap();
        assert!(done || reader.data(&wire[cut..]).unwrap());
        let (_, message, trailers) = reader.finish(&config.compression, false).unwrap();
        assert_eq!(&message[..], b"m");
        assert_eq!(trailers.get("grpc-status").unwrap(), "0");
    }
}

// --- trailer frames ---------------------------------------------------------

#[test]
fn the_end_of_a_trailer_frame_is_found() {
    let mut data = Envelope::data(Bytes::from_static(b"abc")).encode().to_vec();
    assert_eq!(grpc_web_trailer_frame_end(&data), None);
    data.extend_from_slice(&trailer_frame(0x80, b"x"));
    assert_eq!(grpc_web_trailer_frame_end(&data), Some(14));
    assert_eq!(grpc_web_trailer_frame_end(&data[..13]), None);
    data.extend_from_slice(b"more");
    assert_eq!(grpc_web_trailer_frame_end(&data), Some(14));
}

#[test]
fn compressed_trailer_frames_are_decompressed() {
    let registry = CompressionRegistry::default();
    let packed = registry.compress("gzip", b"grpc-status:3\r\nX-Upper:  v \r\nno colon\r\n").unwrap();
    let frame = trailer_frame(0x81, &packed);
    let h = parse_grpc_web_trailer_frame_with_compression(&frame, Some((&registry, "gzip"))).unwrap();
    assert_eq!(h, headers(&[("grpc-status", "3"), ("x-upper", "v")]));
    assert!(parse_grpc_web_trailer_frame_with_compression(&frame, Some((&registry, "zstd"))).is_none());
    let text = trailer_frame(0x80, b"\xff\xfe");
    assert!(parse_grpc_web_trailer_frame_with_compression(&text, None).is_none());
}

// --- streams ----------------------------------------------------------------

#[test]
fn heads_of_streams_are_judged() {
    let registry = CompressionRegistry::default();
    let h = headers(&[("grpc-status", "7"), ("grpc-message", "no"), ("x-a", "1")]);
    let head = make_server_stream(StatusCode::OK, h, Protocol::Grpc, &registry, CodecFormat::Proto, None);
    match head {
        StreamHead::Refused(e) => {
            assert_eq!(e.code, ErrorCode::PermissionDenied);
            assert_eq!(e.response_headers().get("x-a").unwrap(), "1");
        }
        _ => panic!("expected an error"),
    }
    let status = StatusCode::SERVICE_UNAVAILABLE;
    let head = make_server_stream(status, headers(&[]), Protocol::GrpcWeb, &registry, CodecFormat::Proto, None);
    match head {
        StreamHead::Refused(e) => assert_eq!(e.message.as_deref(), Some("HTTP error 503")),
        _ => panic!("expected an error"),
    }
    let head = make_server_stream(status, headers(&[]), Protocol::Connect, &registry, CodecFormat::Proto, Some(9));
    match head {
        StreamHead::Failed(response) => assert_eq!(response.max_size, 9),
        _ => panic!("expected a body to read"),
    }
    let h = headers(&[("connect-content-encoding", "gzip")]);
    assert_eq!(open_stream(Protocol::Connect, h, None).encoding.as_deref(), Some("gzip"));
}

#[test]
fn a_stream_hands_out_compressed_messages() {
    let mut stream = open_stream(Protocol::Connect, headers(&[("connect-content-encoding", "gzip")]), Some(64));
    let packed = stream.compression.compress("gzip", b"hello").unwrap();
    let wire = Envelope::compressed(packed).encode();
    for piece in wire.chunks(4) {
        assert!(matches!(stream.next_message_or_end(false), StreamStep::NeedFrame));
        stream.data(piece);
    }
    match stream.next_message_or_end(false) {
        StreamStep::Message(data) => assert_eq!(&data[..], b"hello"),
        _ => panic!("expected a message"),
    }
    assert!(stream.error().is_none());
}

#[test]
fn streams_end_with_what_went_wrong() {
    let wire = Envelope::compressed(Bytes::from_static(b"x")).encode();
    let mut stream = open_stream(Protocol::Connect, headers(&[]), None);
    stream.data(&wire);
    assert!(matches!(stream.next_message_or_end(false), StreamStep::Ended));
    assert_eq!(
        stream.error().unwrap().message.as_deref(),
        Some("received compressed message without content-encoding header")
    );

    let mut stream = open_stream(Protocol::Connect, headers(&[]), Some(2));
    stream.data(&Envelope::data(Bytes::from_static(b"abc")).encode());
    assert!(matches!(stream.next_message_or_end(false), StreamStep::Ended));
    assert_eq!(stream.error().unwrap().message.as_deref(), Some("message size 3 exceeds limit 2"));

    let mut stream = open_stream(Protocol::Connect, headers(&[]), Some(2));
    stream.data(&vec![0u8; 2 + 10 + 65536 + 1]);
    assert_eq!(stream.error().unwrap().message.as_deref(), Some("response buffer exceeds limit 65548"));

    let mut stream = open_stream(Protocol::Connect, headers(&[]), None);
    stream.body_error("reset");
    assert_eq!(stream.error().unwrap().message.as_deref(), Some("error reading response body: reset"));
}

#[test]
fn the_end_of_a_stream_is_final() {
    let mut stream = open_stream(Protocol::Grpc, headers(&[]), None);
    stream.deadline_expired();
    stream.data(&Envelope::data(Bytes::from_static(b"late")).encode());
    stream.http_trailers(headers(&[("grpc-status", "0")]), false);
    stream.body_end(false);
    stream.fail(ConnectError::internal("later"));
    assert!(matches!(stream.next_message_or_end(false), StreamStep::Ended));
    let again = stream.end.as_ref().unwrap().replay::<u8>().unwrap_err();
    assert_eq!(again.code, ErrorCode::DeadlineExceeded);
    assert_eq!(again.message.as_deref(), Some("client-side deadline exceeded"));
    assert!(stream.trailers().is_none());
}

#[test]
fn web_streams_end_with_a_trailer_frame() {
    let mut stream = open_stream(Protocol::GrpcWeb, headers(&[]), None);
    let frame = trailer_frame(0x80, b"grpc-status: 0\r\nx-t: v\r\n");
    stream.data(&frame[..7]);
    assert!(matches!(stream.next_message_or_end(false), StreamStep::NeedFrame));
    stream.data(&frame[7..]);
    assert!(matches!(stream.next_message_or_end(false), StreamStep::Ended));
    assert!(stream.error().is_none());
    assert_eq!(stream.trailers().unwrap().get("x-t").unwrap(), "v");

    // A frame that is cut off says nothing.
    for (passed, code) in [(false, ErrorCode::Internal), (true, ErrorCode::DeadlineExceeded)] {
        let mut stream = open_stream(Protocol::GrpcWeb, headers(&[]), None);
        stream.data(&frame[..frame.len() - 1]);
        stream.body_end(passed);
        assert_eq!(stream.error().unwrap().code, code);
        assert!(stream.trailers().is_none());
    }
}

#[test]
fn connect_streams_do_not_mind_http_trailers() {
    let mut stream = open_stream(Protocol::Connect, headers(&[("x-a", "1")]), None);
    stream.http_trailers(headers(&[("grpc-status", "3")]), false);
    assert!(matches!(stream.next_message_or_end(false), StreamStep::NeedFrame));
    assert_eq!(stream.headers().get("x-a").unwrap(), "1");
}

#[test]
fn client_stream_bodies_have_room_for_trailers() {
    let h = headers(&[("connect-content-encoding", "zstd")]);
    let options = CallOptions::default().with_max_message_size(100);
    let reader = ClientStreamReader::new(h, &config(Protocol::Connect), &options);
    assert_eq!(reader.encoding.as_deref(), Some("zstd"));
    assert_eq!(reader.body_limit, 100 + 10 + 65536);
    let huge = CallOptions::default().with_max_message_size(usize::MAX);
    let reader = ClientStreamReader::new(HeaderMap::new(), &config(Protocol::Connect), &huge);
    assert_eq!(reader.body_limit, usize::MAX);
}

// --- sending ----------------------------------------------------------------

#[test]
fn a_body_of_messages_stops_at_the_first_error() {
    let mut body = EncodingBody::new(EnvelopeEncoder::uncompressed(), CodecFormat::Proto);
    let frame = body.poll(Some(Ok(Bytes::from_static(b"a")))).unwrap().unwrap();
    assert_eq!(&frame[..], b"\0\0\0\0\x01a");
    let err = body.poll(Some(Err(ConnectError::internal("bad message")))).unwrap().unwrap_err();
    assert_eq!(err.message.as_deref(), Some("bad message"));
    assert!(body.done);
    assert!(body.poll(Some(Ok(Bytes::new()))).is_none());
    assert_eq!(body.error.as_ref().unwrap().message.as_deref(), Some("bad message"));
    // The error comes before whatever the server answered.
    let r = client_stream_result(body.error.take(), Ok(1u8));
    assert_eq!(r.unwrap_err().message.as_deref(), Some("bad message"));
    assert_eq!(client_stream_result(None, Ok(1u8)).unwrap(), 1);

    let mut body = EncodingBody::new(EnvelopeEncoder::uncompressed(), CodecFormat::Proto);
    assert!(body.poll(None).is_none());
    assert!(body.done && body.error.is_none());
}

#[test]
fn sending_ends_with_the_deadline_or_the_close() {
    let mut call = BidiStream::new(EnvelopeEncoder::uncompressed(), CodecFormat::Proto);
    assert!(call.send.check_send(false).is_ok());
    assert_eq!(&call.send.frame(Bytes::from_static(b"z")).unwrap()[..], b"\0\0\0\0\x01z");
    assert_eq!(call.send.check_send(true).unwrap_err().code, ErrorCode::DeadlineExceeded);
    assert!(call.send.sent(true).is_ok());
    let err = call.send.sent(false).unwrap_err();
    assert_eq!(err.code, ErrorCode::Unavailable);
    assert_eq!(err.message.as_deref(), Some("stream closed by server (call message() for error)"));
    call.close_send();
    call.close_send();
    let err = call.send.check_send(false).unwrap_err();
    assert_eq!(err.message.as_deref(), Some("send after close_send"));
    assert!(call.headers().is_none() && call.trailers().is_none() && call.error().is_none());
    let (_send, recv) = call.into_split();
    assert!(recv.is_pending());
}

#[test]
fn receiving_goes_one_way() {
    let mut half = BidiRecvHalf::new();
    half.headers_arrived(Err(ConnectError::unavailable("down")));
    half.headers_arrived(Ok(()));
    half.constructed(Ok(open_stream(Protocol::Connect, headers(&[]), None)));
    assert_eq!(half.error().unwrap().message.as_deref(), Some("down"));
    assert!(!half.is_pending());

    let mut half = BidiRecvHalf::new();
    half.constructed(Err(ConnectError::internal("too early")));
    assert!(half.error().is_none());
    half.headers_arrived(Ok(()));
    half.constructed(Ok(open_stream(Protocol::Connect, headers(&[("x-a", "1")]), None)));
    half.constructed(Err(ConnectError::internal("too late")));
    assert_eq!(half.headers().unwrap().get("x-a").unwrap(), "1");
    assert!(half.error().is_none() && half.trailers().is_none());
    let err = task_error("transport send", "panicked");
    assert_eq!(err.message.as_deref(), Some("transport send task failed: panicked"));
}

// --- transports -------------------------------------------------------------

#[test]
fn schemes_go_with_their_clients() {
    assert!(check_scheme(false, Some("http")).is_ok());
    assert!(check_scheme(true, Some("https")).is_ok());
    assert!(check_scheme(true, None).is_ok());
    let err = check_scheme(false, Some("https")).unwrap_err();
    assert_eq!(err.code, ErrorCode::InvalidArgument);
    assert_eq!(
        err.message.as_deref(),
        Some("HttpClient::plaintext() received https:// URI; use HttpClient::with_tls for TLS")
    );
    let err = check_scheme(true, Some("http")).unwrap_err();
    assert_eq!(
        err.message.as_deref(),
        Some("HttpClient::with_tls() received http:// URI; use HttpClient::plaintext for cleartext")
    );
}

#[test]
fn an_error_of_a_call_passes_through_a_transport() {
    let found = ConnectError::invalid_argument("bad client config");
    let mapped = map_transport_send_error(Some(found), "request failed", "wrapped transport failure");
    assert_eq!(mapped.code, ErrorCode::InvalidArgument);
    assert_eq!(mapped.message.as_deref(), Some("bad client config"));
    let mapped = map_transport_send_error(None, "request failed", "refused");
    assert_eq!(mapped.code, ErrorCode::Unavailable);
    assert_eq!(mapped.message.as_deref(), Some("request failed: refused"));
}

#[test]
fn transports_are_set_up() {
    let mut transport = ServiceTransport::new(5u8);
    *transport.inner_mut() += 1;
    assert_eq!(*transport.inner(), 6);
    assert_eq!(transport.into_inner(), 6);

    let second = Duration::from_secs(1);
    let preset = HttpClientBuilder::default();
    assert_eq!(preset.tcp_connect_timeout, Some(second * 10));
    assert_eq!(preset.establishment_timeout, Some(second * 20));
    let builder = HttpClientBuilder::new(None, None).tcp_connect_timeout(second).establishment_timeout(second * 2);
    assert_eq!(builder.tcp_connect_timeout, Some(second));
    assert_eq!(builder.establishment_timeout, Some(second * 2));
    let builder = builder.connect_timeout(Duration::MAX).establishment_timeout(Duration::MAX);
    assert_eq!(builder.tcp_connect_timeout, None);
    assert_eq!(builder.establishment_timeout, None);
    let builder = builder.connect_timeout(second).establishment_timeout(second);
    assert_eq!(builder.no_tcp_connect_timeout().tcp_connect_timeout, None);
    assert_eq!(builder.no_establishment_timeout().establishment_timeout, None);
}

#[test]
fn a_malformed_status_is_shown() {
    let mut trailers = HeaderMap::new();
    let value = HeaderValue::from_bytes(b"a\"\xe9\t").unwrap();
    trailers.insert("grpc-status", value.clone());
    let err = parse_grpc_error_from_trailers(&trailers).unwrap();
    assert_eq!(err.code, ErrorCode::Unknown);
    assert_eq!(
        err.message.as_deref(),
        Some("protocol error: malformed grpc-status: \"a\\\"\\xe9\t\"")
    );

    let mut value = value;
    value.set_sensitive(true);
    trailers.insert("grpc-status", value);
    let err = parse_grpc_error_from_trailers(&trailers).unwrap();
    assert_eq!(err.message.as_deref(), Some("protocol error: malformed grpc-status: Sensitive"));
}

#[test]
fn trailers_never_outgrow_a_collection() {
    let metadata: Vec<(String, Vec<String>)> =
        (0..40_000).map(|n| (format!("k{n}"), vec!["v".to_owned()])).collect();
    let mut trailers = HeaderMap::new();
    append_metadata_capped(&mut trailers, &metadata);
    assert!(trailers.keys_len() > 6553);
    assert!(trailers.keys_len() <= 32_768);
}
