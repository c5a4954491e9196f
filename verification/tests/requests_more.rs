//! What requests are made up of: URIs, bodies, and the headers of a call.
use bytes::Bytes;
use connectrpc::client::config::effective_options;
use connectrpc::client::request::add_get_request_headers;
use connectrpc::client::request::call_uri;
use connectrpc::client::request::check_get;
use connectrpc::client::request::frame_message;
use connectrpc::client::request::prepare_get;
use connectrpc::client::request::prepare_server_stream;
use connectrpc::client::request::prepare_stream;
use connectrpc::client::request::prepare_unary;
use connectrpc::client::request::request_encoder;
use connectrpc::client::status::grpc_percent_decode;
use connectrpc::client::timeout::client_deadline;
use connectrpc::client::timeout::deadline_after;
use connectrpc::client::timeout::encoded_timeout;
use connectrpc::client::timeout::format_timeout;
use connectrpc::client::CallOptions;
use connectrpc::client::ClientConfig;
use connectrpc::compression::CompressionPolicy;
use connectrpc::compression::CompressionRegistry;
use connectrpc::envelope::Envelope;
use connectrpc::error::ErrorCode;
use connectrpc::protocol::Protocol;
use std::time::Duration;
use std::time::Instant;

fn config() -> ClientConfig {
    ClientConfig::new("http://localhost:8080//".parse().unwrap())
}

fn values(headers: &http::HeaderMap, name: &str) -> Vec<String> {
    headers.get_all(name).iter().map(|v| v.to_str().unwrap().to_owned()).collect()
}

#[test]
fn method_stands_behind_the_base_without_its_slashes() {
    let uri = call_uri(&config(), "acme.Greeter", "Hello").unwrap();
    assert_eq!(uri.to_string(), "http://localhost:8080/acme.Greeter/Hello");
}

#[test]
fn a_uri_that_cannot_be_parsed_is_internal() {
    let err = call_uri(&config(), "acme Greeter", "Hello").unwrap_err();
    assert_eq!(err.code, ErrorCode::Internal);
    assert_eq!(err.message.as_deref(), Some("invalid URI: invalid uri character"));
    let err = prepare_get(&config(), "a b", "M", Bytes::new(), &CallOptions::default()).unwrap_err();
    assert_eq!(err.message.as_deref(), Some("invalid GET URI: invalid uri character"));
}

#[test]
fn a_copied_configuration_says_the_same() {
    let copy = config().with_protocol(Protocol::Grpc).compress_requests("gzip").with_default_header("x-a", "1").clone();
    assert_eq!(copy.base_uri().to_string(), "http://localhost:8080//");
    assert_eq!(copy.protocol(), Protocol::Grpc);
    assert_eq!(copy.request_compression(), Some("gzip"));
    assert_eq!(copy.default_headers().get("x-a").unwrap(), "1");
    let options = CallOptions::default().with_header("x-b", "2").with_compress(false).clone();
    assert_eq!(options.headers().get("x-b").unwrap(), "2");
    assert_eq!(options.compress(), Some(false));
}

#[test]
fn headers_that_are_not_valid_are_ignored_or_refused() {
    let options = CallOptions::default().with_header("bad name", "v").with_header("x-ok", "bad\nvalue");
    assert!(options.headers().is_empty());
    let err = CallOptions::default().try_with_header("bad name", "v").unwrap_err();
    assert_eq!(err.code, ErrorCode::Internal);
    assert_eq!(err.message.as_deref(), Some("invalid header name"));
    let err = CallOptions::default().try_with_header("x-ok", "bad\nvalue").unwrap_err();
    assert_eq!(err.message.as_deref(), Some("invalid header value"));
    let options = CallOptions::default().try_with_header("X-Upper", "v").unwrap();
    assert_eq!(options.headers().get("x-upper").unwrap(), "v");
    let config = config().with_default_header("", "v");
    assert!(config.default_headers().is_empty());
}

#[test]
fn headers_of_a_list_are_appended_in_order() {
    let name = http::HeaderName::from_static("x-n");
    let options = CallOptions::default().with_header("x-n", "0").with_headers(vec![
        (name.clone(), http::HeaderValue::from_static("1")),
        (name, http::HeaderValue::from_static("2")),
    ]);
    assert_eq!(values(options.headers(), "x-n"), ["0", "1", "2"]);
}

#[test]
fn headers_keep_their_mark() {
    let mut secret = http::HeaderValue::from_static("s3");
    secret.set_sensitive(true);
    let list = vec![(http::HeaderName::from_static("x-key"), secret)];
    let options = effective_options(&config(), CallOptions::default().with_headers(list));
    let headers = prepare_stream(&config(), &options).unwrap();
    assert!(headers.get("x-key").unwrap().is_sensitive());
    assert!(!headers.get("content-type").unwrap().is_sensitive());
}

#[test]
fn options_replace_defaults_name_by_name() {
    let config = config().with_default_header("x-a", "default").with_default_header("x-b", "default");
    let options = effective_options(&config, CallOptions::default().with_header("x-a", "call"));
    assert_eq!(values(&options.headers, "x-a"), ["call"]);
    assert_eq!(values(&options.headers, "x-b"), ["default"]);
    // Merging again changes nothing.
    let again = effective_options(&config, options.clone());
    assert_eq!(again.headers, options.headers);
}

#[test]
fn connect_body_is_compressed_as_a_whole() {
    let config = config().compress_requests("gzip").with_compression_policy(CompressionPolicy::default().min_size(4));
    let message = Bytes::from_static(b"hello hello hello");
    let uri = call_uri(&config, "s", "M").unwrap();
    let parts = prepare_unary(&config, uri, message.clone(), &CallOptions::default()).unwrap();
    let headers = parts.headers.unwrap();
    assert_eq!(headers.get("content-encoding").unwrap(), "gzip");
    assert_eq!(headers.get("accept-encoding").unwrap(), "gzip, zstd");
    assert_ne!(parts.body, message);
    let back = config.compression.decompress_with_limit("gzip", parts.body, 1024).unwrap();
    assert_eq!(back, message);

    // The call can turn compression off.
    let uri = call_uri(&config, "s", "M").unwrap();
    let options = CallOptions::default().with_compress(false);
    let parts = prepare_unary(&config, uri, message.clone(), &options).unwrap();
    assert_eq!(parts.body, message);
    assert!(!parts.headers.unwrap().contains_key("content-encoding"));
}

#[test]
fn grpc_body_is_an_envelope() {
    let config = config().with_protocol(Protocol::Grpc);
    let uri = call_uri(&config, "s", "M").unwrap();
    let options = CallOptions::default().with_timeout(Duration::from_secs(2)).with_header("x-user", "u");
    let parts = prepare_unary(&config, uri, Bytes::from_static(b"hi"), &options).unwrap();
    assert_eq!(&parts.body[..], b"\0\0\0\0\x02hi");
    let headers = parts.headers.unwrap();
    assert_eq!(headers.get("te").unwrap(), "trailers");
    assert_eq!(headers.get("grpc-timeout").unwrap(), "2S");
    assert_eq!(headers.get("grpc-accept-encoding").unwrap(), "gzip, zstd");
    assert_eq!(headers.get("x-user").unwrap(), "u");
    assert!(!headers.contains_key("grpc-encoding"));
}

#[test]
fn headers_of_the_call_override_those_of_the_protocol() {
    let config = config();
    let uri = call_uri(&config, "s", "M").unwrap();
    let options = CallOptions::default().with_header("content-type", "text/plain");
    let parts = prepare_unary(&config, uri, Bytes::new(), &options).unwrap();
    let headers = parts.headers.unwrap();
    assert_eq!(values(&headers, "content-type"), ["text/plain"]);
    assert_eq!(values(&headers, "connect-protocol-version"), ["1"]);

    let options = CallOptions::default().with_header("te", "other").with_header("te", "trailers");
    let headers = prepare_stream(&config.with_protocol(Protocol::Grpc), &options).unwrap();
    assert_eq!(values(&headers, "te"), ["other", "trailers"]);
}

#[test]
fn unknown_request_encodings_are_reported() {
    let config = config().compress_requests("br").with_compression_policy(CompressionPolicy::default().min_size(0));
    let uri = call_uri(&config, "s", "M").unwrap();
    let err = prepare_unary(&config, uri, Bytes::new(), &CallOptions::default()).unwrap_err();
    assert_eq!(err.code, ErrorCode::Unimplemented);
    assert_eq!(err.message.as_deref(), Some("unsupported compression encoding: br"));

    let grpc = config.with_protocol(Protocol::GrpcWeb);
    let uri = call_uri(&grpc, "s", "M").unwrap();
    let err = prepare_unary(&grpc, uri, Bytes::new(), &CallOptions::default()).unwrap_err();
    assert_eq!(err.code, ErrorCode::Internal);
    assert_eq!(
        err.message.as_deref(),
        Some("envelope encode failed: unimplemented: unsupported compression encoding: br")
    );
    let uri = call_uri(&grpc, "s", "M").unwrap();
    let err = prepare_server_stream(&grpc, uri, Bytes::new(), &CallOptions::default()).unwrap_err();
    assert_eq!(err.code, ErrorCode::Unimplemented);
}

#[test]
fn an_encoding_that_is_no_header_value_makes_no_headers() {
    let config = config().with_protocol(Protocol::Grpc).compress_requests("a\nb");
    assert!(prepare_stream(&config, &CallOptions::default()).is_none());
    let uri = call_uri(&config, "s", "M").unwrap();
    let parts = prepare_unary(&config, uri, Bytes::new(), &CallOptions::default()).unwrap();
    assert!(parts.headers.is_none());
}

#[test]
fn streaming_requests_are_framed_for_each_protocol() {
    let connect = config().compress_requests("zstd");
    let uri = call_uri(&connect, "s", "M").unwrap();
    let options = CallOptions::default().with_timeout(Duration::from_millis(1500));
    let parts = prepare_server_stream(&connect, uri, Bytes::from_static(b"x"), &options).unwrap();
    assert_eq!(&parts.body[..], b"\0\0\0\0\x01x");
    let headers = parts.headers.unwrap();
    assert_eq!(headers.get("content-type").unwrap(), "application/connect+proto");
    assert_eq!(headers.get("connect-content-encoding").unwrap(), "zstd");
    assert_eq!(headers.get("connect-accept-encoding").unwrap(), "gzip, zstd");
    assert_eq!(headers.get("connect-timeout-ms").unwrap(), "1500");
    assert_eq!(headers.get("connect-protocol-version").unwrap(), "1");

    let web = config().with_protocol(Protocol::GrpcWeb).json();
    let headers = prepare_stream(&web, &CallOptions::default()).unwrap();
    assert_eq!(headers.get("content-type").unwrap(), "application/grpc-web+json");
    assert!(!headers.contains_key("te"));
}

#[test]
fn forced_compression_marks_the_envelope() {
    let config = config().compress_requests("gzip");
    let options = CallOptions::default().with_compress(true);
    let encoder = request_encoder(&config, &options);
    let mut wire = frame_message(&encoder, Bytes::from_static(b"tiny")).unwrap();
    let envelope = Envelope::decode_bytes_with_limit(&mut wire, 1024).unwrap().unwrap();
    assert!(envelope.is_compressed());
    let back = config.compression.decompress_with_limit("gzip", envelope.data, 64).unwrap();
    assert_eq!(&back[..], b"tiny");
}

#[test]
fn json_goes_into_the_uri_in_percent_encoding() {
    let config = config().json().with_compression(CompressionRegistry::new());
    let options = CallOptions::default().with_timeout(Duration::from_millis(7));
    let parts = prepare_get(&config, "s", "M", Bytes::from_static(b"{\"a\":[1, 2]}"), &options).unwrap();
    assert_eq!(
        parts.uri.to_string(),
        "http://localhost:8080/s/M?connect=v1&encoding=json&message=%7B%22a%22%3A%5B1%2C%202%5D%7D"
    );
    assert!(parts.body.is_empty());
    let headers = parts.headers.unwrap();
    assert_eq!(headers.len(), 1);
    assert_eq!(headers.get("connect-timeout-ms").unwrap(), "7");
    // Decoding gives back what was put there.
    assert_eq!(grpc_percent_decode("%7B%22a%22%3A%5B1%2C%202%5D%7D"), "{\"a\":[1, 2]}");
}

#[test]
fn compressed_json_goes_into_the_uri_in_base64() {
    let config = config().json().compress_requests("identity");
    let options = CallOptions::default().with_compress(true);
    let parts = prepare_get(&config, "s", "M", Bytes::from_static(b"{}"), &options).unwrap();
    assert_eq!(
        parts.uri.query(),
        Some("connect=v1&base64=1&compression=identity&encoding=json&message=e30")
    );
    let headers = add_get_request_headers(&config, None).unwrap();
    assert_eq!(headers.get("accept-encoding").unwrap(), "gzip, zstd");
    assert!(!headers.contains_key("content-type"));
}

#[test]
fn only_connect_has_requests_without_a_body() {
    assert!(check_get(&config()).is_ok());
    let err = check_get(&config().with_protocol(Protocol::Grpc)).unwrap_err();
    assert_eq!(err.code, ErrorCode::InvalidArgument);
    assert_eq!(
        err.message.as_deref(),
        Some("call_unary_get requires Protocol::Connect (gRPC/gRPC-Web are POST-only)")
    );
}

#[test]
fn a_timeout_is_sent_as_no_more_than_it_is() {
    for nanos in [0u64, 1, 999, 100_000_001, 59_999_999_999, 7_000_000_000] {
        let asked = Duration::from_nanos(nanos);
        for protocol in [Protocol::Connect, Protocol::Grpc, Protocol::GrpcWeb] {
            assert!(encoded_timeout(asked, protocol).duration() <= asked);
        }
    }
    assert_eq!(encoded_timeout(Duration::from_secs(7), Protocol::Grpc).duration(), Duration::from_secs(7));
    assert_eq!(format_timeout(Duration::from_nanos(1_999_999), Protocol::Connect), "1");
}

#[test]
fn a_deadline_lies_the_sent_timeout_behind_the_start() {
    let start = Instant::now();
    let timeout = Some(Duration::from_micros(1500));
    assert_eq!(deadline_after(start, timeout, Protocol::Connect), Some(start + Duration::from_millis(1)));
    assert_eq!(deadline_after(start, timeout, Protocol::Grpc), Some(start + Duration::from_micros(1500)));
    assert_eq!(deadline_after(start, Some(Duration::ZERO), Protocol::Grpc), Some(start));
    assert_eq!(deadline_after(start, None, Protocol::Connect), None);

    let deadline = client_deadline(Some(Duration::from_secs(60)), Protocol::Grpc).unwrap();
    assert!(deadline >= start + Duration::from_secs(60));
    assert_eq!(client_deadline(None, Protocol::Grpc), None);
}
