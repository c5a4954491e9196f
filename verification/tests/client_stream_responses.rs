//! Connect responses to a stream of requests.
use bytes::Bytes;
use connectrpc::client::client_stream::finish_connect_client_stream;
use connectrpc::client::client_stream::scan_connect_client_stream;
use connectrpc::client::status::ClientEndStreamResponse;
use connectrpc::client::status::WireError;
use connectrpc::compression::CompressionProvider;
use connectrpc::compression::CompressionRegistry;
use connectrpc::compression::GzipProvider;
use connectrpc::envelope::Envelope;
use connectrpc::error::ConnectError;
use connectrpc::error::ErrorCode;
use serde_json::Value;

fn text(value: &Value, name: &str) -> Option<String> {
    value.get(name).and_then(Value::as_str).map(str::to_owned)
}

/// Read what a last envelope says.
fn parse_connect_end_stream(data: &[u8]) -> Result<ClientEndStreamResponse, String> {
    let value: Value = serde_json::from_slice(data).map_err(|e| e.to_string())?;
    let error = value.get("error").map(|e| WireError {
        code: text(e, "code"),
        message: text(e, "message"),
        details: Vec::new(),
    });
    let metadata = value.get("metadata").and_then(Value::as_object).map(|m| {
        m.iter()
            .map(|(name, values)| {
                let values = values.as_array().unwrap();
                (name.clone(), values.iter().map(|v| v.as_str().unwrap().to_owned()).collect())
            })
            .collect()
    });
    Ok(ClientEndStreamResponse { error, metadata })
}

/// Read a body: its message and its trailers.
fn parse_connect_client_stream_envelopes(
    body: Bytes,
    compression: &CompressionRegistry,
    encoding: Option<&str>,
    max_msg_size: usize,
    resp_headers: &http::HeaderMap,
) -> Result<(Bytes, http::HeaderMap), ConnectError> {
    let scan = scan_connect_client_stream(body, compression, encoding, max_msg_size)?;
    let end = scan.end_stream.map(|data| parse_connect_end_stream(&data));
    finish_connect_client_stream(scan.message, end, resp_headers)
}

/// A second data envelope is rejected before its payload is touched: the
/// second envelope here is flagged compressed but contains garbage, so if
/// the parser tried to decompress it the error would be a decompression
/// failure rather than the multiple-messages error asserted below.
#[test]
fn client_stream_response_rejects_second_message_before_decompression() {
    let registry = CompressionRegistry::default();

    let mut body = Envelope::data(Bytes::from_static(b"first"))
        .encode()
        .to_vec();
    body.extend_from_slice(
        &Envelope::compressed(Bytes::from_static(b"not gzip data")).encode(),
    );
    body.extend_from_slice(&Envelope::end_stream(Bytes::from_static(b"{}")).encode());

    let err = parse_connect_client_stream_envelopes(
        Bytes::from(body),
        &registry,
        Some("gzip"),
        1024 * 1024,
        &http::HeaderMap::new(),
    )
    .unwrap_err();
    assert_eq!(err.code, ErrorCode::Unimplemented);
    assert!(
        err.to_string().contains("multiple data messages"),
        "unexpected error: {}",
            err.to_string()
    );
}

/// A malformed compressed response payload surfaces as `data_loss` on
/// the client: the compression provider classifies malformed input as
/// `invalid_argument` (sender fault), and on the response path the
/// sender is the server, so the code is remapped rather than blaming
/// the caller.
#[test]
fn malformed_compressed_response_payload_is_data_loss() {
    let registry = CompressionRegistry::default();

    let mut body = Envelope::compressed(Bytes::from_static(b"not gzip data"))
        .encode()
        .to_vec();
    body.extend_from_slice(&Envelope::end_stream(Bytes::from_static(b"{}")).encode());

    let err = parse_connect_client_stream_envelopes(
        Bytes::from(body),
        &registry,
        Some("gzip"),
        1024 * 1024,
        &http::HeaderMap::new(),
    )
    .unwrap_err();
    assert_eq!(err.code, ErrorCode::DataLoss, "unexpected error: {}", err.to_string());
}

/// Scanning stops at the END_STREAM envelope: the single message and the
/// metadata trailers are returned, and trailing bytes after END_STREAM
/// are ignored rather than decoded.
#[test]
fn client_stream_response_stops_at_end_stream() {
    let registry = CompressionRegistry::new();

    let mut body = Envelope::data(Bytes::from_static(b"only"))
        .encode()
        .to_vec();
    body.extend_from_slice(
        &Envelope::end_stream(Bytes::from_static(b"{\"metadata\":{\"x-extra\":[\"1\"]}}"))
            .encode(),
    );
    body.extend_from_slice(&[0xAA_u8; 256]);

    let (message, trailers) = parse_connect_client_stream_envelopes(
        Bytes::from(body),
        &registry,
        None,
        1024,
        &http::HeaderMap::new(),
    )
    .unwrap();
    assert_eq!(&message[..], b"only");
    assert_eq!(trailers.get("x-extra").unwrap(), "1");
}

/// An END_STREAM envelope carrying an error surfaces it with the response
/// headers and metadata trailers attached.
#[test]
fn client_stream_response_end_stream_error() {
    let registry = CompressionRegistry::new();

    let mut body = Envelope::data(Bytes::from_static(b"only"))
        .encode()
        .to_vec();
    body.extend_from_slice(
        &Envelope::end_stream(Bytes::from_static(
            b"{\"metadata\":{\"x-meta\":[\"m\"]},\"error\":{\"code\":\"resource_exhausted\",\"message\":\"too much\"}}",
        ))
        .encode(),
    );

    let mut resp_headers = http::HeaderMap::new();
    resp_headers.insert("x-from-headers", http::HeaderValue::from_static("yes"));

    let err = parse_connect_client_stream_envelopes(
        Bytes::from(body),
        &registry,
        None,
        1024,
        &resp_headers,
    )
    .unwrap_err();
    assert_eq!(err.code, ErrorCode::ResourceExhausted);
    assert_eq!(err.message.as_deref(), Some("too much"));
    assert_eq!(
        err.response_headers().get("x-from-headers").unwrap(),
        "yes",
        "response headers must be attached to the END_STREAM error"
    );
    assert_eq!(
        err.trailers().get("x-meta").unwrap(),
        "m",
        "END_STREAM metadata must be attached to the error as trailers"
    );
}

/// Malformed Connect END_STREAM JSON is a protocol error. It must not be
/// treated as an empty successful end-stream payload.
#[test]
fn client_stream_response_malformed_end_stream_json_errors() {
    let registry = CompressionRegistry::new();

    let mut body = Envelope::data(Bytes::from_static(b"only"))
        .encode()
        .to_vec();
    body.extend_from_slice(&Envelope::end_stream(Bytes::from_static(b"not json")).encode());

    let mut resp_headers = http::HeaderMap::new();
    resp_headers.insert("x-from-headers", http::HeaderValue::from_static("yes"));

    let err = parse_connect_client_stream_envelopes(
        Bytes::from(body),
        &registry,
        None,
        1024,
        &resp_headers,
    )
    .unwrap_err();
    assert_eq!(err.code, ErrorCode::Internal);
    assert!(
        err.to_string()
            .contains("malformed Connect END_STREAM JSON"),
        "unexpected error: {}",
            err.to_string()
    );
    assert_eq!(err.response_headers().get("x-from-headers").unwrap(), "yes");
    assert!(err.trailers().is_empty());
}

/// A body with no data envelope (END_STREAM only) is rejected.
#[test]
fn client_stream_response_requires_a_message() {
    let registry = CompressionRegistry::new();
    let body = Envelope::end_stream(Bytes::from_static(b"{}")).encode();

    let err = parse_connect_client_stream_envelopes(
        body,
        &registry,
        None,
        1024,
        &http::HeaderMap::new(),
    )
    .unwrap_err();
    assert_eq!(err.code, ErrorCode::Unimplemented);
    assert!(
        err.to_string().contains("no data messages"),
        "unexpected error: {}",
            err.to_string()
    );
}

/// Compressed data and END_STREAM envelopes decompress through the
/// registry and behave like their uncompressed equivalents.
#[test]
fn client_stream_response_compressed_envelopes() {
    let registry = CompressionRegistry::default();
    let gzip = GzipProvider::default();

    let mut body = Envelope::compressed(gzip.compress(b"only").unwrap())
        .encode()
        .to_vec();
    let mut end_stream = Envelope::compressed(
        gzip.compress(b"{\"metadata\":{\"x-extra\":[\"1\"]}}")
            .unwrap(),
    )
    .encode()
    .to_vec();
    end_stream[0] |= 0x02; // also set the END_STREAM flag
    body.extend_from_slice(&end_stream);

    let (message, trailers) = parse_connect_client_stream_envelopes(
        Bytes::from(body),
        &registry,
        Some("gzip"),
        1024 * 1024,
        &http::HeaderMap::new(),
    )
    .unwrap();
    assert_eq!(&message[..], b"only");
    assert_eq!(trailers.get("x-extra").unwrap(), "1");
}

/// A data envelope that only appears after the END_STREAM envelope does
/// not count as the response message: the scan stops at END_STREAM, so
/// the response is rejected for having no data message.
#[test]
fn client_stream_response_data_after_end_stream_is_not_a_message() {
    let registry = CompressionRegistry::new();

    let mut body = Envelope::end_stream(Bytes::from_static(b"{}"))
        .encode()
        .to_vec();
    body.extend_from_slice(&Envelope::data(Bytes::from_static(b"late")).encode());

    let err = parse_connect_client_stream_envelopes(
        Bytes::from(body),
        &registry,
        None,
        1024,
        &http::HeaderMap::new(),
    )
    .unwrap_err();
    assert_eq!(err.code, ErrorCode::Unimplemented);
    assert!(
        err.to_string().contains("no data messages"),
        "unexpected error: {}",
            err.to_string()
    );
}

/// A data envelope followed by EOF, with no END_STREAM envelope, is a
/// truncated response rather than a completed one: it is rejected with
/// `internal` instead of succeeding with empty trailers, matching the
/// `ServerStream` Connect EOF behavior.
#[test]
fn client_stream_response_requires_end_stream_after_message() {
    let registry = CompressionRegistry::new();

    let body = Envelope::data(Bytes::from_static(b"only")).encode();

    let err = parse_connect_client_stream_envelopes(
        body,
        &registry,
        None,
        1024,
        &http::HeaderMap::new(),
    )
    .unwrap_err();
    assert_eq!(err.code, ErrorCode::Internal);
    assert_eq!(
        err.message.as_deref(),
        Some("Connect streaming response ended without END_STREAM envelope"),
    );
}

/// A data envelope followed by a truncated END_STREAM envelope (its
/// declared payload never arrives) is also a truncated response: the
/// partial envelope decodes to "needs more data", so END_STREAM is never
/// observed and the response is rejected with `internal`.
#[test]
fn client_stream_response_requires_complete_end_stream_after_message() {
    let registry = CompressionRegistry::new();

    let mut body = Envelope::data(Bytes::from_static(b"only"))
        .encode()
        .to_vec();
    let end_stream = Envelope::end_stream(Bytes::from_static(b"{}")).encode();
    // Append everything but the final byte of the END_STREAM envelope.
    body.extend_from_slice(&end_stream[..end_stream.len() - 1]);

    let err = parse_connect_client_stream_envelopes(
        Bytes::from(body),
        &registry,
        None,
        1024,
        &http::HeaderMap::new(),
    )
    .unwrap_err();
    assert_eq!(err.code, ErrorCode::Internal);
    assert_eq!(
        err.message.as_deref(),
        Some("Connect streaming response ended without END_STREAM envelope"),
    );
}

/// A data envelope followed by an empty END_STREAM envelope (`{}`) is a
/// complete response: the message is returned with empty trailers.
#[test]
fn client_stream_response_end_stream_completes_the_response() {
    let registry = CompressionRegistry::new();

    let mut body = Envelope::data(Bytes::from_static(b"only"))
        .encode()
        .to_vec();
    body.extend_from_slice(&Envelope::end_stream(Bytes::from_static(b"{}")).encode());

    let (message, trailers) = parse_connect_client_stream_envelopes(
        Bytes::from(body),
        &registry,
        None,
        1024,
        &http::HeaderMap::new(),
    )
    .unwrap();
    assert_eq!(&message[..], b"only");
    assert!(trailers.is_empty());
}
