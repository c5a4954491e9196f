//! Client configuration, and what requests are made up of.
use base64::Engine;
use bytes::Bytes;
use connectrpc::client::config::effective_options;
use connectrpc::client::config::merge_headers;
use connectrpc::client::request::add_streaming_request_headers;
use connectrpc::client::request::add_unary_request_headers;
use connectrpc::client::request::build_connect_get_query;
use connectrpc::client::request::prepare_get;
use connectrpc::client::request::streaming_request_content_type;
use connectrpc::client::request::unary_request_content_type;
use connectrpc::client::timeout::client_deadline;
use connectrpc::client::timeout::encoded_timeout;
use connectrpc::client::timeout::format_timeout;
use connectrpc::client::timeout::CONNECT_TIMEOUT_MAX_MILLIS;
use connectrpc::client::timeout::GRPC_TIMEOUT_MAX_SECONDS;
use connectrpc::client::CallOptions;
use connectrpc::client::ClientConfig;
use connectrpc::codec::CodecFormat;
use connectrpc::compression::CompressionPolicy;
use connectrpc::compression::CompressionRegistry;
use connectrpc::protocol::Protocol;
use std::time::Duration;

fn test_config() -> ClientConfig {
    ClientConfig::new("http://localhost:8080".parse().unwrap())
}

/// The headers of a request with one message that may be compressed.
fn headers_for(protocol: Protocol, applied_encoding: Option<&str>) -> http::HeaderMap {
    let config = ClientConfig::new("http://localhost".parse().unwrap())
        .with_protocol(protocol)
        .compress_requests("gzip");
    add_unary_request_headers(&config, None, applied_encoding).unwrap()
}

/// The order of parameters keeps the message last, so that the front of the query
/// is the same for all messages.
fn assert_connect_get_param_order(query: &str) {
    const RANK: &[&str] = &["connect", "base64", "compression", "encoding", "message"];
    let mut last = 0;
    for pair in query.split('&') {
        let key = pair.split_once('=').map_or(pair, |(k, _)| k);
        let rank = RANK
            .iter()
            .position(|k| *k == key)
            .unwrap_or_else(|| panic!("unknown query parameter {key:?} in {query:?}"));
        assert!(
            rank >= last,
            "parameter {key:?} out of recommended order in {query:?}",
        );
        last = rank;
    }
}

#[test]
fn test_client_config() {
    let config = ClientConfig::new("http://localhost:8080".parse().unwrap())
        .json()
        .compress_requests("gzip");

    assert_eq!(config.codec_format, CodecFormat::Json);
    assert_eq!(config.request_compression, Some("gzip".to_string()));
}

#[test]
fn client_config_builders_round_trip_through_accessors() {
    // Each `with_*` builder must be readable back through the bare-name
    // accessor.
    let mut headers = http::HeaderMap::new();
    headers.insert("x-base", "v".parse().unwrap());

    let config = ClientConfig::new("http://example.com:8080".parse().unwrap())
        .with_protocol(Protocol::Grpc)
        .with_codec_format(CodecFormat::Json)
        .with_compression(CompressionRegistry::default())
        .compress_requests("gzip")
        .with_compression_policy(CompressionPolicy::default())
        .with_default_timeout(Duration::from_secs(30))
        .with_default_max_message_size(4096)
        .with_default_headers(headers.clone())
        .with_default_header("x-extra", "1");

    assert_eq!(config.base_uri().to_string(), "http://example.com:8080/");
    assert_eq!(config.protocol(), Protocol::Grpc);
    assert_eq!(config.codec_format(), CodecFormat::Json);
    assert_eq!(config.request_compression(), Some("gzip"));
    assert_eq!(config.default_timeout(), Some(Duration::from_secs(30)));
    assert_eq!(config.default_max_message_size(), Some(4096));
    assert_eq!(config.default_headers().get("x-base").unwrap(), "v");
    assert_eq!(config.default_headers().get("x-extra").unwrap(), "1");
    // `compression()` and `compression_policy()` return references / copies
    // of the registry/policy; they don't impl PartialEq, so we just exercise
    // that the accessors compile and don't panic.
    let _ = config.compression();
    let _ = config.compression_policy();
}

#[test]
fn client_config_defaults() {
    let config = ClientConfig::new("http://localhost".parse().unwrap());
    assert_eq!(config.protocol(), Protocol::Connect);
    assert_eq!(config.codec_format(), CodecFormat::Proto);
    assert_eq!(config.request_compression(), None);
    assert_eq!(config.default_timeout(), None);
    assert_eq!(config.default_max_message_size(), None);
    assert!(config.default_headers().is_empty());
}

#[test]
fn call_options_builders_round_trip_through_accessors() {
    let options = CallOptions::default()
        .with_timeout(Duration::from_secs(5))
        .with_header("x-request-id", "abc")
        .with_max_message_size(2048)
        .with_compress(true);

    assert_eq!(options.timeout(), Some(Duration::from_secs(5)));
    assert_eq!(options.headers().get("x-request-id").unwrap(), "abc");
    assert_eq!(options.max_message_size(), Some(2048));
    assert_eq!(options.compress(), Some(true));
}

#[test]
fn call_options_defaults() {
    let options = CallOptions::default();
    assert!(options.headers().is_empty());
    assert_eq!(options.timeout(), None);
    assert_eq!(options.max_message_size(), None);
    assert_eq!(options.compress(), None);
}

#[test]
fn test_format_timeout_connect() {
    assert_eq!(
        format_timeout(Duration::from_millis(5000), Protocol::Connect),
        "5000"
    );
    assert_eq!(
        format_timeout(Duration::from_secs(0), Protocol::Connect),
        "0"
    );
}

#[test]
fn test_format_timeout_connect_caps_at_10_digits() {
    // At the boundary (10 digits, ≈ 115 days).
    assert_eq!(
        format_timeout(Duration::from_millis(9_999_999_999), Protocol::Connect),
        "9999999999"
    );
    // Over the boundary → clamp at the maximum. A header of more digits
    // would be rejected as malformed, and the timeout silently dropped.
    assert_eq!(
        format_timeout(Duration::from_secs(365 * 86400), Protocol::Connect),
        "9999999999"
    );
    assert_eq!(
        format_timeout(Duration::MAX, Protocol::Connect),
        "9999999999"
    );
}

#[test]
fn connect_huge_timeout_clamps_before_deadline() {
    let encoded = encoded_timeout(Duration::MAX, Protocol::Connect);
    assert_eq!(encoded.header_value(), "9999999999");
    assert_eq!(
        encoded.duration(),
        Duration::from_millis(CONNECT_TIMEOUT_MAX_MILLIS)
    );
    assert!(client_deadline(Some(Duration::MAX), Protocol::Connect).is_some());
}

#[test]
fn test_format_timeout_grpc_seconds() {
    assert_eq!(
        format_timeout(Duration::from_secs(30), Protocol::Grpc),
        "30S"
    );
}

#[test]
fn test_format_timeout_grpc_milliseconds() {
    assert_eq!(
        format_timeout(Duration::from_millis(500), Protocol::Grpc),
        "500m"
    );
}

#[test]
fn test_format_timeout_grpc_microseconds() {
    assert_eq!(
        format_timeout(Duration::from_micros(100), Protocol::Grpc),
        "100u"
    );
}

#[test]
fn test_format_timeout_grpc_nanoseconds() {
    assert_eq!(
        format_timeout(Duration::from_nanos(999), Protocol::Grpc),
        "999n"
    );
}

#[test]
fn test_format_timeout_grpc_zero() {
    assert_eq!(format_timeout(Duration::from_secs(0), Protocol::Grpc), "0n");
}

#[test]
fn test_format_timeout_grpc_8_digit_limit() {
    // 99999999 seconds fits in 8 digits
    assert_eq!(
        format_timeout(Duration::from_secs(99_999_999), Protocol::Grpc),
        "99999999S"
    );
    // 100000000 seconds exceeds 8 digits — truncated to seconds
    assert_eq!(
        format_timeout(Duration::from_secs(100_000_000), Protocol::Grpc),
        "99999999S"
    );
}

#[test]
fn grpc_huge_timeout_clamps_before_deadline() {
    let encoded = encoded_timeout(Duration::MAX, Protocol::Grpc);
    assert_eq!(encoded.header_value(), "99999999S");
    assert_eq!(
        encoded.duration(),
        Duration::from_secs(GRPC_TIMEOUT_MAX_SECONDS)
    );
    assert!(client_deadline(Some(Duration::MAX), Protocol::Grpc).is_some());
}

#[test]
fn test_format_timeout_grpc_web_same_as_grpc() {
    assert_eq!(
        format_timeout(Duration::from_millis(500), Protocol::GrpcWeb),
        "500m"
    );
}

#[test]
fn test_format_timeout_grpc_subsecond_nanosecond_residue() {
    // Instant arithmetic naturally produces sub-microsecond residue.
    // 100ms + 1ns must NOT truncate to "0S" (secs=0) — that would
    // tell the server the deadline already expired.
    assert_eq!(
        format_timeout(Duration::from_nanos(100_000_001), Protocol::Grpc),
        "100000u" // 100ms, 1ns truncated
    );
    let encoded = encoded_timeout(Duration::from_nanos(100_000_001), Protocol::Grpc);
    assert_eq!(encoded.duration(), Duration::from_micros(100_000));
    // Boundary: exactly 1ns over the 8-digit nano limit.
    assert_eq!(
        format_timeout(Duration::from_nanos(100_000_000), Protocol::Grpc),
        "100m" // exact millisecond, no-loss branch
    );
    // Longer duration with ns residue falls back to millis.
    assert_eq!(
        format_timeout(Duration::from_nanos(200_000_000_001), Protocol::Grpc),
        "200000m" // 200s, 1ns truncated; micros=200M would overflow 8 digits
    );
}

#[test]
fn test_unary_request_content_type_connect() {
    let config = ClientConfig::new("http://localhost".parse().unwrap());
    assert_eq!(unary_request_content_type(&config), "application/proto");

    let config = config.with_codec_format(CodecFormat::Json);
    assert_eq!(unary_request_content_type(&config), "application/json");
}

#[test]
fn test_unary_request_content_type_grpc() {
    let config =
        ClientConfig::new("http://localhost".parse().unwrap()).with_protocol(Protocol::Grpc);
    assert_eq!(
        unary_request_content_type(&config),
        "application/grpc+proto"
    );

    let config = config.with_codec_format(CodecFormat::Json);
    assert_eq!(unary_request_content_type(&config), "application/grpc+json");
}

#[test]
fn test_streaming_request_content_type() {
    let config = ClientConfig::new("http://localhost".parse().unwrap());
    assert_eq!(
        streaming_request_content_type(&config),
        "application/connect+proto"
    );

    let config = config.with_protocol(Protocol::Grpc);
    assert_eq!(
        streaming_request_content_type(&config),
        "application/grpc+proto"
    );

    let config = config.with_protocol(Protocol::GrpcWeb);
    assert_eq!(
        streaming_request_content_type(&config),
        "application/grpc-web+proto"
    );
}

#[test]
fn test_add_unary_request_headers_connect() {
    let config = ClientConfig::new("http://localhost".parse().unwrap());
    let headers = add_unary_request_headers(&config, None, None).unwrap();
    assert_eq!(
        headers.get("content-type").unwrap(),
        "application/proto"
    );
    assert_eq!(headers.get("connect-protocol-version").unwrap(), "1");
    assert!(headers.get("te").is_none());
}

#[test]
fn test_add_unary_request_headers_grpc() {
    let config =
        ClientConfig::new("http://localhost".parse().unwrap()).with_protocol(Protocol::Grpc);
    let headers = add_unary_request_headers(&config, None, None).unwrap();
    assert_eq!(
        headers.get("content-type").unwrap(),
        "application/grpc+proto"
    );
    assert_eq!(headers.get("te").unwrap(), "trailers");
    assert!(headers.get("connect-protocol-version").is_none());
}

#[test]
fn test_add_unary_request_headers_grpc_web() {
    let config =
        ClientConfig::new("http://localhost".parse().unwrap()).with_protocol(Protocol::GrpcWeb);
    let headers = add_unary_request_headers(&config, None, None).unwrap();
    assert_eq!(
        headers.get("content-type").unwrap(),
        "application/grpc-web+proto"
    );
    assert!(headers.get("te").is_none());
    assert!(headers.get("connect-protocol-version").is_none());
}

#[test]
fn test_add_unary_request_headers_with_timeout() {
    let config =
        ClientConfig::new("http://localhost".parse().unwrap()).with_protocol(Protocol::Grpc);
    let headers = add_unary_request_headers(&config, Some(Duration::from_millis(500)), None).unwrap();
    assert_eq!(headers.get("grpc-timeout").unwrap(), "500m");
}

#[test]
fn test_add_streaming_request_headers_grpc() {
    let config =
        ClientConfig::new("http://localhost".parse().unwrap()).with_protocol(Protocol::Grpc);
    let headers = add_streaming_request_headers(&config, None).unwrap();
    assert_eq!(
        headers.get("content-type").unwrap(),
        "application/grpc+proto"
    );
    assert_eq!(headers.get("te").unwrap(), "trailers");
}

#[test]
fn test_client_config_protocol() {
    let config =
        ClientConfig::new("http://localhost".parse().unwrap()).with_protocol(Protocol::Grpc);
    assert_eq!(config.protocol, Protocol::Grpc);
}

#[test]
fn test_client_config_default_protocol() {
    let config = ClientConfig::new("http://localhost".parse().unwrap());
    assert_eq!(config.protocol, Protocol::Connect);
}

#[test]
fn connect_unary_no_content_encoding_when_compression_skipped() {
    // Compression policy skipped this small body → NO Content-Encoding header.
    let headers = headers_for(Protocol::Connect, None);
    assert!(
        !headers.contains_key(http::header::CONTENT_ENCODING),
        "Content-Encoding must not be set when compression policy skipped the body"
    );
}

#[test]
fn connect_unary_content_encoding_when_compressed() {
    let headers = headers_for(Protocol::Connect, Some("gzip"));
    assert_eq!(headers.get(http::header::CONTENT_ENCODING).unwrap(), "gzip");
}

#[test]
fn grpc_unary_encoding_header_independent_of_applied() {
    // gRPC's grpc-encoding declares the algorithm used WHEN the envelope
    // flag is set — it's fine to send even if the policy didn't compress
    // this particular message. It's driven by config, not applied.
    let headers = headers_for(Protocol::Grpc, None);
    assert_eq!(headers.get("grpc-encoding").unwrap(), "gzip");
}

#[test]
fn effective_options_uses_config_defaults_when_options_unset() {
    let config = test_config()
        .with_default_timeout(Duration::from_secs(30))
        .with_default_max_message_size(1024)
        .with_default_header("x-trace-id", "cfg-trace");

    let eff = effective_options(&config, CallOptions::default());

    assert_eq!(eff.timeout, Some(Duration::from_secs(30)));
    assert_eq!(eff.max_message_size, Some(1024));
    assert_eq!(eff.headers.get("x-trace-id").unwrap(), "cfg-trace");
}

#[test]
fn effective_options_options_override_config_defaults() {
    let config = test_config()
        .with_default_timeout(Duration::from_secs(30))
        .with_default_max_message_size(1024);

    let options = CallOptions::default()
        .with_timeout(Duration::from_secs(5))
        .with_max_message_size(512);

    let eff = effective_options(&config, options);

    assert_eq!(eff.timeout, Some(Duration::from_secs(5)));
    assert_eq!(eff.max_message_size, Some(512));
}

#[test]
fn effective_options_compress_has_no_config_default() {
    let config = test_config();
    let options = CallOptions::default().with_compress(true);
    let eff = effective_options(&config, options);
    assert_eq!(eff.compress, Some(true));
}

#[test]
fn merge_headers_options_override_config_same_name() {
    let mut cfg = http::HeaderMap::new();
    cfg.insert("x-token", "cfg-token".parse().unwrap());

    let mut opts = http::HeaderMap::new();
    opts.insert("x-token", "opt-token".parse().unwrap());

    let merged = merge_headers(&cfg, opts);
    let vals: Vec<_> = merged.get_all("x-token").iter().collect();
    assert_eq!(vals.len(), 1);
    assert_eq!(vals[0], "opt-token");
}

#[test]
fn merge_headers_config_only_names_preserved() {
    let mut cfg = http::HeaderMap::new();
    cfg.insert("x-cfg-only", "kept".parse().unwrap());

    let mut opts = http::HeaderMap::new();
    opts.insert("x-opt-only", "also-kept".parse().unwrap());

    let merged = merge_headers(&cfg, opts);
    assert_eq!(merged.get("x-cfg-only").unwrap(), "kept");
    assert_eq!(merged.get("x-opt-only").unwrap(), "also-kept");
}

#[test]
fn merge_headers_options_multivalue_replaces_config() {
    let mut cfg = http::HeaderMap::new();
    cfg.append("x-thing", "cfg-a".parse().unwrap());
    cfg.append("x-thing", "cfg-b".parse().unwrap());

    let mut opts = http::HeaderMap::new();
    opts.append("x-thing", "opt-1".parse().unwrap());
    opts.append("x-thing", "opt-2".parse().unwrap());

    let merged = merge_headers(&cfg, opts);
    let vals: Vec<_> = merged
        .get_all("x-thing")
        .iter()
        .map(|v| v.to_str().unwrap())
        .collect();
    assert_eq!(vals, vec!["opt-1", "opt-2"]);
}

#[test]
fn merge_headers_empty_config_fast_path() {
    let cfg = http::HeaderMap::new();
    let mut opts = http::HeaderMap::new();
    opts.insert("x", "y".parse().unwrap());

    let merged = merge_headers(&cfg, opts);
    assert_eq!(merged.get("x").unwrap(), "y");
}

#[test]
fn merge_headers_empty_options_fast_path() {
    let mut cfg = http::HeaderMap::new();
    cfg.insert("x", "y".parse().unwrap());
    let opts = http::HeaderMap::new();

    let merged = merge_headers(&cfg, opts);
    assert_eq!(merged.get("x").unwrap(), "y");
}

#[test]
fn get_query_param_order_proto() {
    let q = build_connect_get_query(true, None, "proto", "AAAA");
    assert_eq!(q, "connect=v1&base64=1&encoding=proto&message=AAAA");
    assert_connect_get_param_order(&q);
}

#[test]
fn get_query_param_order_json_uncompressed() {
    let q = build_connect_get_query(false, None, "json", "%7B%7D");
    assert_eq!(q, "connect=v1&encoding=json&message=%7B%7D");
    assert_connect_get_param_order(&q);
}

#[test]
fn get_query_param_order_compressed() {
    let q = build_connect_get_query(true, Some("gzip"), "proto", "H4sI");
    assert_eq!(
        q,
        "connect=v1&base64=1&compression=gzip&encoding=proto&message=H4sI",
    );
    assert_connect_get_param_order(&q);
}

#[test]
fn get_query_param_order_json_compressed() {
    // Compressed JSON forces base64 (compressed bytes are binary).
    let q = build_connect_get_query(true, Some("gzip"), "json", "H4sI");
    assert_eq!(
        q,
        "connect=v1&base64=1&compression=gzip&encoding=json&message=H4sI",
    );
    assert_connect_get_param_order(&q);
}

#[test]
fn get_base64_encoding_matches_rfc4648_urlsafe_no_pad() {
    // A protobuf message goes into the URI as URL-safe base64 without padding.

    let config = ClientConfig::new("http://localhost".parse().unwrap());
    let options = CallOptions::default();
    let parts = prepare_get(&config, "svc", "M", Bytes::from_static(b"\xfa\xfb\xfc"), &options).unwrap();
    let query = parts.uri.query().unwrap().to_owned();
    let encoded = query.split("&message=").last().unwrap();
    assert!(!encoded.contains('+'), "URL-safe must not contain +");
    assert!(!encoded.contains('/'), "URL-safe must not contain /");
    assert!(!encoded.contains('='), "no-pad must not contain =");

    let decoded = base64::engine::general_purpose::URL_SAFE_NO_PAD
        .decode(encoded)
        .unwrap();
    assert_eq!(decoded, b"\xfa\xfb\xfc");
}
