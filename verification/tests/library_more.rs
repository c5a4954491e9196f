//! Codecs, protocols, errors, encodings, bodies and bounds on streams.
use bytes::Bytes;
use bytes::BytesMut;
use connectrpc::codec::decode_json;
use connectrpc::codec::decode_proto;
use connectrpc::codec::encode_json;
use connectrpc::codec::CodecFormat;
use connectrpc::codec::JsonCodec;
use connectrpc::codec::ProtoCodec;
use connectrpc::compression::initial_decompress_capacity;
use connectrpc::compression::registry::StreamCoding;
use connectrpc::compression::zstandard::ReadFailure;
use connectrpc::compression::CompressionProvider;
use connectrpc::compression::CompressionRegistry;
use connectrpc::compression::GzipProvider;
use connectrpc::compression::ReadOutcome;
use connectrpc::compression::ZstdProvider;
use connectrpc::deadline::BeginPoll;
use connectrpc::deadline::DeadlinePolicy;
use connectrpc::deadline::StreamPoll;
use connectrpc::envelope::encoder::envelope_length;
use connectrpc::envelope::encoder::EnvelopeEncoder;
use connectrpc::envelope::Envelope;
use connectrpc::error::detail_b64;
use connectrpc::error::ConnectError;
use connectrpc::error::ErrorCode;
use connectrpc::error::ErrorDetail;
use connectrpc::protocol::Protocol;
use connectrpc::response::EncodedBody;
use connectrpc::text::parse_u32;
use std::time::Duration;

const CODES: [ErrorCode; 16] = [
    ErrorCode::Canceled,
    ErrorCode::Unknown,
    ErrorCode::InvalidArgument,
    ErrorCode::DeadlineExceeded,
    ErrorCode::NotFound,
    ErrorCode::AlreadyExists,
    ErrorCode::PermissionDenied,
    ErrorCode::ResourceExhausted,
    ErrorCode::FailedPrecondition,
    ErrorCode::Aborted,
    ErrorCode::OutOfRange,
    ErrorCode::Unimplemented,
    ErrorCode::Internal,
    ErrorCode::Unavailable,
    ErrorCode::DataLoss,
    ErrorCode::Unauthenticated,
];

#[test]
fn formats_are_told_by_their_content_types() {
    assert_eq!(CodecFormat::from_content_type("application/proto"), Some(CodecFormat::Proto));
    assert_eq!(CodecFormat::from_content_type("application/connect+json; charset=utf-8"), Some(CodecFormat::Json));
    assert_eq!(CodecFormat::from_content_type("text/plain"), None);
    assert_eq!(CodecFormat::from_codec("json"), Some(CodecFormat::Json));
    assert_eq!(CodecFormat::from_codec("proto"), Some(CodecFormat::Proto));
    assert_eq!(CodecFormat::from_codec("xml"), None);
    assert!(CodecFormat::is_streaming_content_type("application/connect+proto"));
    assert!(!CodecFormat::is_streaming_content_type("application/proto"));
    assert_eq!(ProtoCodec::content_type(), "application/proto");
    assert_eq!(JsonCodec::content_type(), "application/json");
    assert_eq!(CodecFormat::Json.content_type(), "application/json");
    assert_eq!(CodecFormat::Json.streaming_content_type(), "application/connect+json");
    assert_eq!(CodecFormat::Proto.to_string(), "proto");
}

#[test]
fn codecs_report_what_went_wrong() {
    let err = decode_proto::<u8>(Err("cut".to_owned())).unwrap_err();
    assert_eq!(err.to_string(), "invalid_argument: failed to decode proto: cut");
    let err = encode_json::<u8>(Err("cut".to_owned())).unwrap_err();
    assert_eq!(err.to_string(), "internal: failed to encode JSON: cut");
    let err = decode_json::<u8>(Err("cut".to_owned())).unwrap_err();
    assert_eq!(err.to_string(), "invalid_argument: failed to decode JSON: cut");
    assert_eq!(decode_json(Ok(4u8)).unwrap(), 4);
}

#[test]
fn protocols_call_things_by_their_names() {
    assert_eq!(Protocol::Connect.content_encoding_header(), "connect-content-encoding");
    assert_eq!(Protocol::Grpc.content_encoding_header(), "grpc-encoding");
    assert_eq!(Protocol::GrpcWeb.accept_encoding_header(), "grpc-accept-encoding");
    assert_eq!(Protocol::Connect.accept_encoding_header(), "connect-accept-encoding");
    assert_eq!(Protocol::Connect.timeout_header(), "connect-timeout-ms");
    assert_eq!(Protocol::Grpc.timeout_header(), "grpc-timeout");
    assert_eq!(Protocol::Grpc.response_content_type(CodecFormat::Json, true), "application/grpc+json");
}

#[test]
fn codes_have_names_numbers_and_statuses() {
    for code in CODES {
        assert_eq!(code.as_str().parse::<ErrorCode>(), Ok(code));
        assert_eq!(ErrorCode::from_name(code.as_str()), Some(code));
        assert_eq!(ErrorCode::from_grpc_code(code.grpc_code()), Some(code));
    }
    assert_eq!(ErrorCode::from_name("Canceled"), None);
    assert_eq!(ErrorCode::Canceled.http_status().as_u16(), 499);
    assert_eq!(ErrorCode::Unauthenticated.http_status(), http::StatusCode::UNAUTHORIZED);
}

#[test]
fn errors_are_made_and_shown() {
    let cases = [
        (ConnectError::canceled("m"), ErrorCode::Canceled),
        (ConnectError::unknown("m"), ErrorCode::Unknown),
        (ConnectError::invalid_argument("m"), ErrorCode::InvalidArgument),
        (ConnectError::deadline_exceeded("m"), ErrorCode::DeadlineExceeded),
        (ConnectError::not_found("m"), ErrorCode::NotFound),
        (ConnectError::already_exists("m"), ErrorCode::AlreadyExists),
        (ConnectError::permission_denied("m"), ErrorCode::PermissionDenied),
        (ConnectError::resource_exhausted("m"), ErrorCode::ResourceExhausted),
        (ConnectError::failed_precondition("m"), ErrorCode::FailedPrecondition),
        (ConnectError::aborted("m"), ErrorCode::Aborted),
        (ConnectError::out_of_range("m"), ErrorCode::OutOfRange),
        (ConnectError::unimplemented("m"), ErrorCode::Unimplemented),
        (ConnectError::internal("m"), ErrorCode::Internal),
        (ConnectError::unavailable("m"), ErrorCode::Unavailable),
        (ConnectError::data_loss("m"), ErrorCode::DataLoss),
        (ConnectError::unauthenticated("m"), ErrorCode::Unauthenticated),
    ];
    for (err, code) in cases {
        assert_eq!(err.code, code);
        assert_eq!(err.to_string(), format!("{}: m", code.as_str()));
        assert_eq!(err.http_status(), code.http_status());
    }
    assert_eq!(ConnectError::unsupported_media_type("x").http_status().as_u16(), 415);
    assert_eq!(ConnectError::method_not_allowed("x").http_status().as_u16(), 405);
    let mut err = ConnectError::internal("x").with_detail(ErrorDetail::from_message("a.B", b"\x01\x02"));
    assert_eq!(err.clone().details[0].value.as_deref(), Some("AQI"));
    err.response_headers_mut().insert("x-a", http::HeaderValue::from_static("1"));
    assert_eq!(err.response_headers().get("x-a").unwrap(), "1");
}

#[test]
fn base64_of_details_is_read_back() {
    assert_eq!(detail_b64::encode(b"\xff\xef"), "/+8");
    assert_eq!(detail_b64::decode_lenient("/+8").unwrap(), b"\xff\xef");
    assert_eq!(detail_b64::decode_lenient("/+8=").unwrap(), b"\xff\xef");
    assert!(detail_b64::decode_lenient("-_8").is_none());
}

#[test]
fn the_first_encoding_that_is_offered_is_chosen() {
    let registry = CompressionRegistry::default();
    assert_eq!(registry.negotiate_encoding(Some("br, zstd ,gzip"), None), Some("zstd"));
    assert_eq!(registry.negotiate_encoding(Some("br"), Some("gzip")), None);
    assert_eq!(registry.negotiate_encoding(None, Some("gzip")), Some("gzip"));
    assert_eq!(registry.negotiate_encoding(None, None), None);
    assert_eq!(registry.supported_encodings(), ["gzip", "zstd"]);
}

#[test]
fn streams_are_coded_where_that_was_registered() {
    let registry = CompressionRegistry::new()
        .register(GzipProvider::default())
        .register_streaming(ZstdProvider::default());
    assert!(registry.supports("gzip") && !registry.supports_streaming("gzip"));
    assert!(registry.supports("zstd") && registry.supports_streaming("zstd"));
    assert!(matches!(registry.decompress_stream("identity"), Ok(StreamCoding::Identity)));
    assert!(matches!(registry.compress_stream("zstd"), Ok(StreamCoding::Coded(_))));
    match registry.compress_stream("gzip") {
        Err(e) => assert_eq!(
            e.message.as_deref(),
            Some("streaming compression not supported for encoding: gzip")
        ),
        Ok(_) => panic!("gzip was not registered for streams"),
    }
    match registry.decompress_stream("br") {
        Err(e) => assert_eq!(e.code, ErrorCode::Unimplemented),
        Ok(_) => panic!("br was not registered"),
    }
}

#[test]
fn what_is_compressed_is_read_back_and_keeps_to_limits() {
    let registry = CompressionRegistry::default();
    for encoding in ["gzip", "zstd", "identity"] {
        for data in [&b""[..], b"a", &[7u8; 5000]] {
            let packed = registry.compress(encoding, data).unwrap();
            let back = registry.decompress_with_limit(encoding, packed.clone(), data.len()).unwrap();
            assert_eq!(&back[..], data);
            if !data.is_empty() {
                let err = registry.decompress_with_limit(encoding, packed, data.len() - 1).unwrap_err();
                assert_eq!(err.code, ErrorCode::ResourceExhausted);
            }
        }
    }
}

/// What a provider reads of its own output, up to a number of bytes.
fn read_front(provider: &dyn CompressionProvider, packed: &[u8], at_most: u64) -> Option<Vec<u8>> {
    match provider.decompressor(packed, at_most).unwrap() {
        ReadOutcome::Bytes(bytes) => Some(bytes),
        ReadOutcome::Failed(_) => None,
    }
}

#[test]
fn decompressors_read_no_more_than_they_are_asked_for() {
    let gzip = GzipProvider::with_level(6);
    let zstd = ZstdProvider::with_level(5);
    let providers: [&dyn CompressionProvider; 2] = [&gzip, &zstd];
    let data = [9u8; 3000];
    for provider in providers {
        let packed = provider.compress(&data).unwrap();
        assert_eq!(read_front(provider, &packed, 10), Some(vec![9u8; 10]));
        assert_eq!(read_front(provider, &packed, 3000), Some(data.to_vec()));
        assert_eq!(read_front(provider, &packed, u64::MAX), Some(data.to_vec()));
        assert_eq!(read_front(provider, b"no compressed data", 10), None);
        // Data that is cut off is not taken for data that ends.
        assert_eq!(read_front(provider, &packed[..packed.len() - 1], u64::MAX), None);
    }
}

#[test]
fn what_a_decoder_says_is_reported() {
    let failed = |cause: &str| Err(ReadFailure::Read(cause.to_owned()));
    let unopened = |cause: &str| Err(ReadFailure::Open(cause.to_owned()));

    match ZstdProvider::read_frames(Ok(()), vec![1, 2]).unwrap() {
        ReadOutcome::Bytes(bytes) => assert_eq!(bytes, [1, 2]),
        ReadOutcome::Failed(cause) => panic!("unexpected failure: {cause}"),
    }
    match ZstdProvider::read_frames(failed("cut off"), vec![1]).unwrap() {
        ReadOutcome::Bytes(_) => panic!("unexpected success"),
        ReadOutcome::Failed(cause) => assert_eq!(cause, "cut off"),
    }
    match ZstdProvider::read_frames(unopened("no memory"), Vec::new()) {
        Ok(_) => panic!("unexpected success"),
        Err(err) => {
            assert_eq!(err.code, ErrorCode::InvalidArgument);
            assert_eq!(err.message.as_deref(), Some("zstd decompression failed: no memory"));
        }
    }

    assert_eq!(&ZstdProvider::limited_frames(Ok(()), vec![1, 2], 2).unwrap()[..], [1, 2]);
    let err = ZstdProvider::limited_frames(Ok(()), vec![1, 2], 1).unwrap_err();
    assert_eq!(err.code, ErrorCode::ResourceExhausted);
    for done in [failed("why"), unopened("why")] {
        let err = ZstdProvider::limited_frames(done, Vec::new(), 1).unwrap_err();
        assert_eq!(err.code, ErrorCode::InvalidArgument);
        assert_eq!(err.message.as_deref(), Some("zstd decompression failed: why"));
    }
}

#[test]
fn a_new_registry_has_no_encodings() {
    let registry = CompressionRegistry::new();
    assert_eq!(registry.accept_encoding_header(), "");
    assert!(registry.supported_encodings().is_empty());
    assert!(!registry.supports("gzip"));
    assert!(!registry.supports_streaming("gzip"));
}

#[test]
fn codes_are_parsed_from_their_names() {
    for code in CODES {
        assert_eq!(code.as_str().parse::<ErrorCode>(), Ok(code));
    }
    assert_eq!("Internal".parse::<ErrorCode>(), Err(()));
}

#[test]
fn decompression_begins_small() {
    assert_eq!(initial_decompress_capacity(10, 2, None), 256);
    assert_eq!(initial_decompress_capacity(1000, 4, None), 4000);
    assert_eq!(initial_decompress_capacity(1000, 4, Some(99)), 100);
    assert_eq!(initial_decompress_capacity(usize::MAX, 4, None), usize::MAX);
}

#[test]
fn bodies_are_the_same_in_one_piece() {
    let body = EncodedBody::Segmented(vec![Bytes::from_static(b"ab"), Bytes::new(), Bytes::from_static(b"c")]);
    assert_eq!(body.len(), 3);
    let mut copy = BytesMut::new();
    body.copy_to(&mut copy);
    assert_eq!(&copy[..], b"abc");
    assert_eq!(&body.into_contiguous()[..], b"abc");
    let whole = EncodedBody::Contiguous(Bytes::from_static(b"abc"));
    assert_eq!(whole.into_segments().len(), 1);
}

#[test]
fn envelopes_have_a_largest_length() {
    assert_eq!(envelope_length(0xffff_ffff).unwrap(), u32::MAX);
    assert!(envelope_length(0x1_0000_0000).is_err());
    let mut wire = BytesMut::new();
    EnvelopeEncoder::uncompressed().encode_end_stream(Bytes::from_static(b"{}"), &mut wire).unwrap();
    assert!(Envelope::decode(&mut wire).unwrap().unwrap().is_end_stream());
}

#[test]
fn numbers_are_read() {
    assert_eq!(parse_u32("0"), Some(0));
    assert_eq!(parse_u32("+17"), Some(17));
    assert_eq!(parse_u32("4294967295"), Some(u32::MAX));
    for bad in ["", "+", "4294967296", "99999999999999999999", "1a", "-1", " 1"] {
        assert_eq!(parse_u32(bad), None);
    }
}

#[test]
fn streams_are_bounded() {
    let ms = Duration::from_millis;
    assert!(DeadlinePolicy::new().enforce_on_response_stream(Some(ms(5))).is_none());
    let policy = DeadlinePolicy::new().with_enforce_on_streams(true).with_inter_message_timeout(ms(9));
    let mut bounds = policy.enforce_on_response_stream(Some(ms(5))).unwrap();
    assert_eq!(bounds.absolute(), Some(ms(5)));
    // The first poll starts the timer for the gap, the second does not.
    assert!(matches!(bounds.begin(), BeginPoll::Go(Some(d)) if d == ms(9)));
    assert!(bounds.timers_polled(false, false).is_none());
    assert_eq!(bounds.stream_polled(StreamPoll::Pending), None);
    assert!(matches!(bounds.begin(), BeginPoll::Go(None)));
    assert_eq!(bounds.stream_polled(StreamPoll::Item), Some(ms(9)));
    // The deadline of the whole stream comes first, and ends it.
    let err = bounds.timers_polled(true, true).unwrap();
    assert_eq!(err.to_string(), "deadline_exceeded: request deadline exceeded while streaming");
    assert!(matches!(bounds.begin(), BeginPoll::Finished));

    let mut bounds = policy.enforce_on_response_stream(None).unwrap();
    let err = bounds.timers_polled(false, true).unwrap();
    assert_eq!(err.to_string(), "deadline_exceeded: stream stalled past inter-message timeout");
    let mut bounds = policy.enforce_on_response_stream(None).unwrap();
    bounds.stream_polled(StreamPoll::End);
    assert!(matches!(bounds.begin(), BeginPoll::Finished));
}

#[test]
fn moderation_settles() {
    let ms = Duration::from_millis;
    let policy = DeadlinePolicy::new().with_min(ms(10)).with_max(ms(100));
    for asked in [1u64, 10, 50, 100, 1000] {
        let once = policy.moderate(Some(ms(asked)), "/s/m").unwrap();
        assert!(once >= ms(10) && once <= ms(100));
        assert_eq!(policy.moderate(Some(once), "/s/m"), Some(once));
    }
}

#[test]
fn base64_is_read_only_as_it_is_written() {
    for (text, bytes) in [("Zg", "f"), ("Zg==", "f"), ("Zm8=", "fo"), ("Zm9v", "foo"), ("", "")] {
        assert_eq!(detail_b64::decode_lenient(text).as_deref(), Some(bytes.as_bytes()));
    }
    for text in ["Z", "Zg=", "Zh", "Zg===", "Zm8==", "Z-", "=", "Zg==Zg", "Zg\u{e9}"] {
        assert_eq!(detail_b64::decode_lenient(text), None, "{text}");
    }
}

#[test]
fn a_gzip_member_ends_in_checksum_and_size() {
    let member = GzipProvider::new().compress(b"123456789").unwrap();
    assert_eq!(member[member.len() - 8..], [0x26, 0x39, 0xf4, 0xcb, 9, 0, 0, 0]);
}

#[test]
fn bytes_are_written_in_base64() {
    for (bytes, text) in [
        (&b""[..], ""),
        (&b"f"[..], "Zg"),
        (&b"fo"[..], "Zm8"),
        (&b"foo"[..], "Zm9v"),
        (&b"foob"[..], "Zm9vYg"),
        (&[0xfb, 0xff][..], "+/8"),
    ] {
        assert_eq!(detail_b64::encode(bytes), text);
    }
}
