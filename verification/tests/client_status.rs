//! How responses report failure, and their trailers.
use connectrpc::client::status::grpc_percent_decode;
use connectrpc::client::status::http_status_to_error_code;
use connectrpc::client::status::map_response_decompression_error;
use connectrpc::client::status::parse_grpc_error_from_trailers;
use connectrpc::client::status::validate_grpc_response_content_type;
use connectrpc::client::trailers::append_metadata_capped;
use connectrpc::client::trailers::parse_grpc_web_trailer_frame_with_compression;
use connectrpc::client::ClientConfig;
use connectrpc::codec::CodecFormat;
use connectrpc::error::ConnectError;
use connectrpc::error::ErrorCode;
use connectrpc::protocol::Protocol;

#[test]
fn test_grpc_percent_decode_passthrough() {
    assert_eq!(grpc_percent_decode("hello world"), "hello world");
}

#[test]
fn test_grpc_percent_decode_percent() {
    assert_eq!(grpc_percent_decode("100%25"), "100%");
}

#[test]
fn test_grpc_percent_decode_newlines() {
    assert_eq!(grpc_percent_decode("a%0Ab"), "a\nb");
    assert_eq!(grpc_percent_decode("a%0D%0Ab"), "a\r\nb");
}

#[test]
fn test_grpc_percent_decode_utf8_multibyte() {
    // café encoded as percent-encoded UTF-8 bytes
    assert_eq!(grpc_percent_decode("caf%C3%A9"), "café");
    // Unicode BMP: ☺ = U+263A = E2 98 BA
    assert_eq!(grpc_percent_decode("%E2%98%BA"), "☺");
    // Non-BMP: 😈 = U+1F608 = F0 9F 98 88
    assert_eq!(grpc_percent_decode("%F0%9F%98%88"), "😈");
}

#[test]
fn test_grpc_percent_decode_partial_percent() {
    // Incomplete percent sequences are passed through
    assert_eq!(grpc_percent_decode("100%"), "100%");
    assert_eq!(grpc_percent_decode("a%2"), "a%2");
}

#[test]
fn test_grpc_percent_decode_invalid_hex() {
    assert_eq!(grpc_percent_decode("a%ZZb"), "a%ZZb");
}

#[test]
fn test_parse_grpc_error_ok_returns_none() {
    let mut trailers = http::HeaderMap::new();
    trailers.insert("grpc-status", http::HeaderValue::from_static("0"));
    assert!(parse_grpc_error_from_trailers(&trailers).is_none());
}

#[test]
fn test_parse_grpc_error_missing_status_returns_none() {
    let trailers = http::HeaderMap::new();
    assert!(parse_grpc_error_from_trailers(&trailers).is_none());
}

#[test]
fn test_parse_grpc_error_with_code_and_message() {
    let mut trailers = http::HeaderMap::new();
    trailers.insert("grpc-status", http::HeaderValue::from_static("5"));
    trailers.insert(
        "grpc-message",
        http::HeaderValue::from_static("not%20found"),
    );
    let err = parse_grpc_error_from_trailers(&trailers).unwrap();
    assert_eq!(err.code, ErrorCode::NotFound);
    assert_eq!(err.message.as_deref(), Some("not found"));
}

#[test]
fn test_parse_grpc_error_unknown_code() {
    let mut trailers = http::HeaderMap::new();
    trailers.insert("grpc-status", http::HeaderValue::from_static("99"));
    let err = parse_grpc_error_from_trailers(&trailers).unwrap();
    assert_eq!(err.code, ErrorCode::Unknown);
}

#[test]
fn test_parse_grpc_error_custom_trailers() {
    let mut trailers = http::HeaderMap::new();
    trailers.insert("grpc-status", http::HeaderValue::from_static("13"));
    trailers.insert("x-custom", http::HeaderValue::from_static("value"));
    let err = parse_grpc_error_from_trailers(&trailers).unwrap();
    assert_eq!(err.code, ErrorCode::Internal);
    assert_eq!(
        err.trailers().get("x-custom").unwrap().to_str().unwrap(),
        "value"
    );
}

#[test]
fn test_parse_grpc_web_trailer_uncompressed() {
    let payload = b"grpc-status: 0\r\n";
    let mut frame = Vec::with_capacity(5 + payload.len());
    frame.push(0x80);
    frame.extend_from_slice(&(payload.len() as u32).to_be_bytes());
    frame.extend_from_slice(payload);

    let headers = parse_grpc_web_trailer_frame_with_compression(&frame, None).unwrap();
    assert_eq!(headers.get("grpc-status").unwrap().to_str().unwrap(), "0");
}

#[test]
fn test_parse_grpc_web_trailer_with_error() {
    let payload = b"grpc-status: 13\r\ngrpc-message: internal error\r\n";
    let mut frame = Vec::with_capacity(5 + payload.len());
    frame.push(0x80);
    frame.extend_from_slice(&(payload.len() as u32).to_be_bytes());
    frame.extend_from_slice(payload);

    let headers = parse_grpc_web_trailer_frame_with_compression(&frame, None).unwrap();
    assert_eq!(headers.get("grpc-status").unwrap().to_str().unwrap(), "13");
    assert_eq!(
        headers.get("grpc-message").unwrap().to_str().unwrap(),
        "internal error"
    );
}

#[test]
fn test_parse_grpc_web_trailer_truncated() {
    // Less than 5 bytes
    assert!(parse_grpc_web_trailer_frame_with_compression(&[0x80, 0, 0], None).is_none());
}

#[test]
fn test_parse_grpc_web_trailer_not_trailer() {
    // Flag byte 0x00 — not a trailer
    let frame = [0x00, 0, 0, 0, 5, b'h', b'e', b'l', b'l', b'o'];
    assert!(parse_grpc_web_trailer_frame_with_compression(&frame, None).is_none());
}

#[test]
fn test_parse_grpc_web_trailer_compressed_no_registry() {
    // Flag 0x81 (compressed trailer) but no compression registry
    let payload = b"grpc-status: 0\r\n";
    let mut frame = Vec::with_capacity(5 + payload.len());
    frame.push(0x81);
    frame.extend_from_slice(&(payload.len() as u32).to_be_bytes());
    frame.extend_from_slice(payload);
    // Without compression registry, should return None
    assert!(parse_grpc_web_trailer_frame_with_compression(&frame, None).is_none());
}

#[test]
fn test_parse_grpc_web_trailer_floods_do_not_panic() {
    // A server can pack far more distinct trailer names than
    // `HeaderMap` can hold (`MAX_SIZE = 1 << 15 = 32_768`) into a payload
    // that stays under the 1 MiB byte cap. Each `hN:` line is short, so
    // 40_000 distinct names is only ~300 KiB. The parser must not panic.
    let mut payload = String::new();
    for i in 0..40_000u32 {
        payload.push_str(&format!("h{i}:\n"));
    }
    let payload = payload.into_bytes();
    assert!(
        payload.len() < 1024 * 1024,
        "payload must stay under byte cap"
    );

    let mut frame = Vec::with_capacity(5 + payload.len());
    frame.push(0x80);
    frame.extend_from_slice(&(payload.len() as u32).to_be_bytes());
    frame.extend_from_slice(&payload);

    let headers = parse_grpc_web_trailer_frame_with_compression(&frame, None)
        .expect("flood frame is well-formed and should parse");
    // The map fills up to the type's hard ceiling and stops: it accepts
    // entries (the loop didn't drop everything) but never exceeds the cap.
    assert!(headers.keys_len() > 0, "early trailers should be retained");
    assert!(headers.keys_len() <= 1 << 15);
}

#[test]
fn test_append_metadata_capped_copies_entries() {
    let mut metadata: Vec<(String, Vec<String>)> = Vec::new();
    metadata.push(("grpc-status".to_string(), vec!["0".to_string()]));
    metadata.push(("x-custom".to_string(),
        vec!["a".to_string(), "b".to_string()]));
    let mut trailers = http::HeaderMap::new();
    append_metadata_capped(&mut trailers, &metadata);
    assert_eq!(trailers.get("grpc-status").unwrap(), "0");
    assert_eq!(trailers.get_all("x-custom").iter().count(), 2);
}

#[test]
fn test_append_metadata_capped_does_not_panic_on_flood() {
    // A Connect end-stream `metadata` map is deserialized from server JSON,
    // so its key count is up to the server. Feeding more distinct keys
    // than the `HeaderMap` ceiling (`MAX_SIZE = 1 << 15`) must cap rather
    // than panic with "size overflows MAX_SIZE".
    let mut metadata: Vec<(String, Vec<String>)> = Vec::new();
    for i in 0..40_000u32 {
        metadata.push((format!("h{i}"), vec![String::new()]));
    }
    let mut trailers = http::HeaderMap::new();
    append_metadata_capped(&mut trailers, &metadata);
    assert!(trailers.keys_len() > 0, "early entries should be retained");
    assert!(trailers.keys_len() <= 1 << 15);
}

#[test]
fn test_parse_grpc_web_trailer_newline_only() {
    // Some implementations use \n instead of \r\n
    let payload = b"grpc-status: 0\n";
    let mut frame = Vec::with_capacity(5 + payload.len());
    frame.push(0x80);
    frame.extend_from_slice(&(payload.len() as u32).to_be_bytes());
    frame.extend_from_slice(payload);

    let headers = parse_grpc_web_trailer_frame_with_compression(&frame, None).unwrap();
    assert_eq!(headers.get("grpc-status").unwrap().to_str().unwrap(), "0");
}

#[test]
fn grpc_response_content_type_rejects_non_grpc_as_unknown() {
    let mut headers = http::HeaderMap::new();
    headers.insert(http::header::CONTENT_TYPE, "text/html".parse().unwrap());
    let config =
        ClientConfig::new("http://localhost".parse().unwrap()).with_protocol(Protocol::Grpc);

    let err = validate_grpc_response_content_type(&headers, &config)
        .expect_err("non-gRPC content type must be rejected");
    assert_eq!(err.code, ErrorCode::Unknown);
    assert_eq!(
        err.message.as_deref(),
        Some("unexpected content-type: text/html (expected application/grpc+proto)")
    );
    assert!(
        err.response_headers()
            .contains_key(http::header::CONTENT_TYPE)
    );
}

#[test]
fn grpc_response_content_type_accepts_missing_header() {
    let config =
        ClientConfig::new("http://localhost".parse().unwrap()).with_protocol(Protocol::Grpc);
    validate_grpc_response_content_type(&http::HeaderMap::new(), &config)
        .expect("missing content-type must remain accepted");
}

#[test]
fn grpc_response_content_type_accepts_bare_for_json_codec() {
    // Proxies that synthesize trailers-only error replies (e.g. Envoy)
    // send bare `application/grpc` regardless of the request subtype, so
    // the bare type must be accepted for every codec.
    let mut headers = http::HeaderMap::new();
    headers.insert(
        http::header::CONTENT_TYPE,
        "application/grpc".parse().unwrap(),
    );
    let config = ClientConfig::new("http://localhost".parse().unwrap())
        .with_protocol(Protocol::Grpc)
        .with_codec_format(CodecFormat::Json);
    validate_grpc_response_content_type(&headers, &config)
        .expect("bare application/grpc must be accepted for a json-codec client");
}

#[test]
fn grpc_web_response_content_type_accepts_bare() {
    let mut headers = http::HeaderMap::new();
    headers.insert(
        http::header::CONTENT_TYPE,
        "application/grpc-web".parse().unwrap(),
    );
    let config =
        ClientConfig::new("http://localhost".parse().unwrap()).with_protocol(Protocol::GrpcWeb);
    validate_grpc_response_content_type(&headers, &config)
        .expect("bare application/grpc-web must be accepted as proto");
}

#[test]
fn grpc_web_response_content_type_rejects_grpc_as_unknown() {
    let mut headers = http::HeaderMap::new();
    headers.insert(
        http::header::CONTENT_TYPE,
        "application/grpc+proto".parse().unwrap(),
    );
    let config =
        ClientConfig::new("http://localhost".parse().unwrap()).with_protocol(Protocol::GrpcWeb);

    let err = validate_grpc_response_content_type(&headers, &config)
        .expect_err("gRPC-Web client must reject plain gRPC content type");
    assert_eq!(err.code, ErrorCode::Unknown);
    assert_eq!(
        err.message.as_deref(),
        Some(
            "unexpected content-type: application/grpc+proto (expected application/grpc-web+proto)"
        )
    );
}

#[test]
fn test_http_status_to_error_code() {
    assert_eq!(
        http_status_to_error_code(http::StatusCode::BAD_REQUEST),
        ErrorCode::Internal
    );
    assert_eq!(
        http_status_to_error_code(http::StatusCode::UNAUTHORIZED),
        ErrorCode::Unauthenticated
    );
    assert_eq!(
        http_status_to_error_code(http::StatusCode::FORBIDDEN),
        ErrorCode::PermissionDenied
    );
    assert_eq!(
        http_status_to_error_code(http::StatusCode::NOT_FOUND),
        ErrorCode::Unimplemented
    );
    assert_eq!(
        http_status_to_error_code(http::StatusCode::SERVICE_UNAVAILABLE),
        ErrorCode::Unavailable
    );
    assert_eq!(
        http_status_to_error_code(http::StatusCode::INTERNAL_SERVER_ERROR),
        ErrorCode::Unknown
    );
}

/// The response-path remap touches only the two decompression codes:
/// `invalid_argument` → `data_loss`, `unimplemented` → `internal`;
/// everything else passes through unchanged.
#[test]
fn response_decompression_error_remap() {
    let e = map_response_decompression_error(ConnectError::invalid_argument("corrupt"));
    assert_eq!(e.code, ErrorCode::DataLoss);
    let e = map_response_decompression_error(ConnectError::unimplemented("unknown encoding"));
    assert_eq!(e.code, ErrorCode::Internal);
    let e = map_response_decompression_error(ConnectError::resource_exhausted("too big"));
    assert_eq!(e.code, ErrorCode::ResourceExhausted);
}
