//! Compression: providers, the registry and the policy.
use bytes::Bytes;
use connectrpc::compression::gzip::gzip_header_len;
use connectrpc::compression::registry::CustomProvider;
use connectrpc::compression::CompressionPolicy;
use connectrpc::compression::CompressionProvider;
use connectrpc::compression::CompressionRegistry;
use connectrpc::compression::GzipProvider;
use connectrpc::compression::ReadOutcome;
use connectrpc::compression::ZstdProvider;
use connectrpc::error::ConnectError;
use connectrpc::error::ErrorCode;
use std::io::Read;
use std::io::Write;

fn assert_invalid_argument(err: &ConnectError) {
    assert_eq!(err.code, ErrorCode::InvalidArgument, "{err:?}");
}

/// Build a gzip header with the given flag byte and optional fields, without a
/// deflate stream or a trailer.
fn gz_hdr(flags: u8, extra: &[u8]) -> Vec<u8> {
    let mut h = vec![
        0x1f, 0x8b, // magic
        0x08, // method = deflate
        flags, 0, 0, 0, 0,    // mtime
        0,    // XFL
        0xff, // OS = unknown
    ];
    h.extend_from_slice(extra);
    h
}

/// The default limit on a message.
const ALLOCATION_TEST_LIMIT: usize = 4 * 1024 * 1024;

/// The capacity of the allocation behind `bytes`.
fn backing_capacity(bytes: Bytes) -> usize {
    bytes
        .try_into_mut()
        .expect("freshly decompressed Bytes has no other references")
        .capacity()
}

/// Upper bound on the allocation behind a tiny decompressed message.
const SMALL_MESSAGE_RETENTION_BOUND: usize = 4096;

/// A minimal, valid gzip member header with nothing after it.
const MINIMAL_GZIP_HEADER: [u8; 10] =
    [0x1f, 0x8b, 0x08, 0x00, 0x00, 0x00, 0x00, 0x00, 0x00, 0xff];

/// A provider that reverses the bytes.
struct MockProvider;

impl CompressionProvider for MockProvider {
    fn name(&self) -> &'static str {
        "mock"
    }

    fn compress(&self, data: &[u8]) -> Result<Bytes, ConnectError> {
        Ok(Bytes::from(data.iter().rev().copied().collect::<Vec<_>>()))
    }

    fn decompressor(&self, data: &[u8], at_most: u64) -> Result<ReadOutcome, ConnectError> {
        let reversed: Vec<u8> = data.iter().rev().copied().collect();
        let end = reversed.len().min(at_most as usize);
        Ok(ReadOutcome::Bytes(reversed[..end].to_vec()))
    }
}

#[test]
fn test_empty_registry() {
    let registry = CompressionRegistry::new();
    assert!(!registry.supports("gzip"));
    assert!(!registry.supports("zstd"));
    assert!(registry.supported_encodings().is_empty());
}

#[test]
fn test_identity_always_works() {
    let registry = CompressionRegistry::new();
    let data = b"hello world";
    let result = registry
        .decompress_with_limit("identity", Bytes::from_static(data), usize::MAX)
        .unwrap();
    assert_eq!(&result[..], data);
}

#[test]
fn test_gzip_large_roundtrip() {
    let provider = GzipProvider::default();
    let data: Vec<u8> = (0..1_000_000).map(|i| (i % 256) as u8).collect();
    let compressed = provider.compress(&data).unwrap();
    let decompressed = provider
        .decompress_with_limit(&compressed, usize::MAX)
        .unwrap();
    assert_eq!(&decompressed[..], &data[..]);
}

#[test]
fn test_gzip_pooled_cross_compat_with_gz_decoder() {
    let provider = GzipProvider::default();
    let data: Vec<u8> = (0..100_000).map(|i| (i % 256) as u8).collect();
    let compressed = provider.compress(&data).unwrap();
    // Verify standard GzDecoder can read our output
    let mut decoder = flate2::read::GzDecoder::new(&compressed[..]);
    let mut decompressed = Vec::new();
    decoder.read_to_end(&mut decompressed).unwrap();
    assert_eq!(&decompressed[..], &data[..]);
}

#[test]
fn test_gzip_pooled_cross_compat_with_gz_encoder() {
    let provider = GzipProvider::default();
    let data: Vec<u8> = (0..100_000).map(|i| (i % 256) as u8).collect();
    // Compress with standard GzEncoder
    let mut encoder = flate2::write::GzEncoder::new(Vec::new(), flate2::Compression::new(6));
    encoder.write_all(&data).unwrap();
    let compressed = encoder.finish().unwrap();
    // Decompress with our pooled provider
    let decompressed = provider
        .decompress_with_limit(&compressed, usize::MAX)
        .unwrap();
    assert_eq!(&decompressed[..], &data[..]);
}

#[test]
fn test_gzip_default_level_is_fast() {
    assert_eq!(GzipProvider::DEFAULT_LEVEL, 1);
    // Round-trip at the default (fastest) level.
    let provider = GzipProvider::default();
    let data = vec![b'x'; 50_000];
    let compressed = provider.compress(&data).unwrap();
    assert!(compressed.len() < data.len());
    let decompressed = provider
        .decompress_with_limit(&compressed, usize::MAX)
        .unwrap();
    assert_eq!(&decompressed[..], &data[..]);
}

#[test]
fn test_gzip_cross_level_decode() {
    // Output from any level must decode with any provider instance
    // (level only affects encode); also exercises pool reuse across
    // two compress calls on the level-6 provider.
    let fast = GzipProvider::default();
    let slow = GzipProvider::with_level(6);
    let data: Vec<u8> = (0..32_768).map(|i| (i % 251) as u8).collect();
    for src in [&fast, &slow] {
        let _ = src.compress(&data).unwrap();
        let compressed = src.compress(&data).unwrap();
        for dst in [&fast, &slow] {
            let out = dst.decompress_with_limit(&compressed, usize::MAX).unwrap();
            assert_eq!(&out[..], &data[..]);
        }
    }
}

#[test]
fn test_gzip_header_len_basic() {
    // No flags → 10-byte fixed header
    assert_eq!(gzip_header_len(&gz_hdr(0x00, &[])).unwrap(), 10);
}

#[test]
fn test_gzip_header_len_fextra() {
    // FEXTRA (0x04): 2-byte LE length + that many bytes
    let extra = [3u8, 0, 0xAA, 0xBB, 0xCC]; // xlen=3, then 3 bytes
    assert_eq!(gzip_header_len(&gz_hdr(0x04, &extra)).unwrap(), 10 + 2 + 3);
}

#[test]
fn test_gzip_header_len_fextra_truncated() {
    // FEXTRA declares xlen=100 but only 2 bytes follow
    let extra = [100u8, 0, 0xAA, 0xBB];
    assert!(gzip_header_len(&gz_hdr(0x04, &extra)).is_err());
}

#[test]
fn test_gzip_header_len_fname() {
    // FNAME (0x08): null-terminated string
    let extra = b"test.txt\0";
    assert_eq!(gzip_header_len(&gz_hdr(0x08, extra)).unwrap(), 10 + 9);
}

#[test]
fn test_gzip_header_len_fname_truncated() {
    // FNAME with no null terminator
    assert!(gzip_header_len(&gz_hdr(0x08, b"nonul")).is_err());
}

#[test]
fn test_gzip_header_len_fcomment() {
    // FCOMMENT (0x10): null-terminated string
    let extra = b"a comment\0";
    assert_eq!(gzip_header_len(&gz_hdr(0x10, extra)).unwrap(), 10 + 10);
}

#[test]
fn test_gzip_header_len_fcomment_truncated() {
    assert!(gzip_header_len(&gz_hdr(0x10, b"nonul")).is_err());
}

#[test]
fn test_gzip_header_len_fhcrc() {
    // FHCRC (0x02): 2-byte CRC of header
    assert_eq!(gzip_header_len(&gz_hdr(0x02, &[0xAB, 0xCD])).unwrap(), 12);
}

#[test]
fn test_gzip_header_len_fhcrc_truncated() {
    // FHCRC but only 1 byte follows
    assert!(gzip_header_len(&gz_hdr(0x02, &[0xAB])).is_err());
}

#[test]
fn test_gzip_header_len_all_flags() {
    // FEXTRA + FNAME + FCOMMENT + FHCRC, in that order per RFC 1952
    let mut extra = Vec::new();
    extra.extend_from_slice(&[2u8, 0, 0xAA, 0xBB]); // FEXTRA: xlen=2, 2 bytes
    extra.extend_from_slice(b"name\0"); // FNAME: 5 bytes
    extra.extend_from_slice(b"cmt\0"); // FCOMMENT: 4 bytes
    extra.extend_from_slice(&[0x12, 0x34]); // FHCRC: 2 bytes
    let flags = 0x04 | 0x08 | 0x10 | 0x02;
    assert_eq!(
        gzip_header_len(&gz_hdr(flags, &extra)).unwrap(),
        10 + 4 + 5 + 4 + 2
    );
}

#[test]
fn test_gzip_header_len_bad_magic() {
    let mut hdr = gz_hdr(0x00, &[]);
    hdr[0] = 0x00;
    assert!(gzip_header_len(&hdr).is_err());
}

#[test]
fn test_gzip_header_len_bad_method() {
    let mut hdr = gz_hdr(0x00, &[]);
    hdr[2] = 0x07; // not deflate
    assert!(gzip_header_len(&hdr).is_err());
}

#[test]
fn test_gzip_header_len_too_short() {
    assert!(gzip_header_len(&[0x1f, 0x8b, 0x08]).is_err());
}

#[test]
fn test_gzip_provider() {
    let provider = GzipProvider::default();
    let data = b"hello world, this is a test of gzip compression";

    let compressed = provider.compress(data).unwrap();
    assert_ne!(&compressed[..], data);

    let decompressed = provider
        .decompress_with_limit(&compressed, usize::MAX)
        .unwrap();
    assert_eq!(&decompressed[..], data);
}

/// `backing_capacity` must actually observe over-allocation — otherwise
/// the small-message tests below could pass vacuously if `Bytes::from`
/// ever started shrinking the allocation itself.
#[test]
fn test_backing_capacity_observes_overallocation() {
    let mut vec = Vec::with_capacity(1024 * 1024);
    vec.extend_from_slice(b"tiny payload");
    let capacity = backing_capacity(Bytes::from(vec));
    assert!(
        capacity >= 1024 * 1024,
        "expected the over-allocated backing buffer to be visible, got {capacity}"
    );
}

/// Decompressing a small gzip message must not retain a buffer sized by
/// the configured limit: the returned `Bytes` should be backed by an
/// allocation proportional to the actual message.
#[test]
fn test_gzip_decompress_small_message_allocation() {
    let provider = GzipProvider::default();
    let compressed = provider.compress(b"tiny payload").unwrap();
    let out = provider
        .decompress_with_limit(&compressed, ALLOCATION_TEST_LIMIT)
        .unwrap();
    assert_eq!(&out[..], b"tiny payload");
    let capacity = backing_capacity(out);
    assert!(
        capacity < SMALL_MESSAGE_RETENTION_BOUND,
        "small gzip message retained a {capacity}-byte backing buffer"
    );
}

/// Same as the gzip allocation test, for the zstd provider.
#[test]
fn test_zstd_decompress_small_message_allocation() {
    let provider = ZstdProvider::default();
    let compressed = provider.compress(b"tiny payload").unwrap();
    let out = provider
        .decompress_with_limit(&compressed, ALLOCATION_TEST_LIMIT)
        .unwrap();
    assert_eq!(&out[..], b"tiny payload");
    let capacity = backing_capacity(out);
    assert!(
        capacity < SMALL_MESSAGE_RETENTION_BOUND,
        "small zstd message retained a {capacity}-byte backing buffer"
    );
}

/// Same as the gzip allocation test, for the trait's default
/// `decompress_with_limit` implementation (used by custom providers).
#[test]
fn test_default_trait_decompress_small_message_allocation() {
    let provider = MockProvider;
    let compressed = provider.compress(b"tiny payload").unwrap();
    let out = provider
        .decompress_with_limit(&compressed, ALLOCATION_TEST_LIMIT)
        .unwrap();
    assert_eq!(&out[..], b"tiny payload");
    let capacity = backing_capacity(out);
    assert!(
        capacity < SMALL_MESSAGE_RETENTION_BOUND,
        "small message retained a {capacity}-byte backing buffer via the default impl"
    );
}

/// A gzip member that is only a header — no deflate data, no trailer —
/// must be rejected rather than treated as an incomplete stream to wait
/// on.
#[test]
fn test_gzip_decompress_header_only() {
    let err = {
        GzipProvider::default().decompress_with_limit(&MINIMAL_GZIP_HEADER, 1024)
    }
    .expect_err("header-only gzip member must be rejected");
    assert_invalid_argument(&err);
    assert!(
        err.to_string()
            .contains("truncated or invalid deflate stream"),
        "unexpected error message: {}", err.to_string()
    );
}

/// A gzip stream cut off in the middle of the deflate data must produce
/// an error.
#[test]
fn test_gzip_decompress_truncated_deflate_stream() {
    let provider = GzipProvider::default();
    let data = b"hello world, this is a test of gzip compression";
    let compressed = provider.compress(data).unwrap();

    let err = {
        // Keep the 10-byte header plus a prefix of the deflate stream,
        // drop the rest (including the 8-byte trailer).
        provider.decompress_with_limit(&compressed[..14], 1024)
    }
    .expect_err("truncated deflate stream must be rejected");
    assert_invalid_argument(&err);
    // Which check rejects the prefix depends on where the deflate encoder
    // happened to place block boundaries: an incomplete block is caught by
    // the stalled-stream handling, while a prefix that ends on a complete
    // block is caught by the trailer-length check. Either way the
    // truncated payload must be rejected.
    let msg = err.to_string();
    assert!(
        msg.contains("truncated or invalid deflate stream")
            || msg.contains("too short for trailer"),
        "unexpected error message: {msg}"
    );
}

/// A truncated gzip payload is also rejected when it arrives through the
/// registry (the path the request/response handling code uses).
#[test]
fn test_gzip_registry_decompress_truncated() {
    let registry = CompressionRegistry::new().register(GzipProvider::default());
    let err = {
        registry.decompress_with_limit(
            "gzip",
            Bytes::copy_from_slice(&MINIMAL_GZIP_HEADER),
            1024,
        )
    }
    .expect_err("truncated gzip payload must be rejected via the registry");
    assert_invalid_argument(&err);
    assert!(
        err.to_string()
            .contains("truncated or invalid deflate stream"),
        "unexpected error message: {}", err.to_string()
    );
}

/// A complete deflate stream with the 8-byte CRC/length trailer cut off
/// must produce an error. (The deflate stream itself decodes fully here;
/// this is rejected by the trailer-length check rather than the
/// truncated-stream handling.)
#[test]
fn test_gzip_decompress_missing_trailer() {
    let provider = GzipProvider::default();
    let data = b"hello world, this is a test of gzip compression";
    let compressed = provider.compress(data).unwrap();

    let missing_trailer = &compressed[..compressed.len() - 8];
    let err = provider
        .decompress_with_limit(missing_trailer, 1024)
        .expect_err("gzip member without its trailer must be rejected");
    assert_invalid_argument(&err);
    assert!(
        err.to_string().contains("too short for trailer"),
        "unexpected error message: {}", err.to_string()
    );
}

#[test]
fn test_gzip_malformed_payloads_are_invalid_argument() {
    let provider = GzipProvider::default();

    let err = provider
        .decompress_with_limit(b"not gzip", 1024)
        .expect_err("bad gzip header must be rejected");
    assert_invalid_argument(&err);

    let data = b"hello world, this is a test of gzip compression";
    let compressed = provider.compress(data).unwrap();
    let trailer_start = compressed.len() - 8;

    let mut bad_crc = compressed.to_vec();
    bad_crc[trailer_start] ^= 0xff;
    let err = provider
        .decompress_with_limit(&bad_crc, 1024)
        .expect_err("gzip CRC mismatch must be rejected");
    assert_invalid_argument(&err);

    let mut bad_size = compressed.to_vec();
    let last = bad_size.len() - 1;
    bad_size[last] ^= 0xff;
    let err = provider
        .decompress_with_limit(&bad_size, 1024)
        .expect_err("gzip size mismatch must be rejected");
    assert_invalid_argument(&err);
}

#[test]
fn test_gzip_registry() {
    let registry = CompressionRegistry::new().register(GzipProvider::default());

    assert!(registry.supports("gzip"));
    assert!(!registry.supports("zstd"));

    let data = b"test data";
    let compressed = registry.compress("gzip", data).unwrap();
    let decompressed = registry
        .decompress_with_limit("gzip", compressed, usize::MAX)
        .unwrap();
    assert_eq!(&decompressed[..], data);
}

#[test]
fn test_zstd_provider() {
    let provider = ZstdProvider::default();
    let data = b"hello world, this is a test of zstd compression";

    let compressed = provider.compress(data).unwrap();
    assert_ne!(&compressed[..], data);

    let decompressed = provider
        .decompress_with_limit(&compressed, usize::MAX)
        .unwrap();
    assert_eq!(&decompressed[..], data);
}

#[test]
fn test_zstd_malformed_payload_is_invalid_argument() {
    let err = ZstdProvider::default()
        .decompress_with_limit(b"not zstd", 1024)
        .expect_err("malformed zstd payload must be rejected");
    assert_invalid_argument(&err);
}

#[test]
fn test_zstd_high_compression_ratio() {
    // Highly compressible data (e.g. zeroes) can compress more than 100
    // times, far beyond the first guess at the size of the output.
    let provider = ZstdProvider::default();
    let data = vec![0u8; 100_000];
    let compressed = provider.compress(&data).unwrap();
    // Sanity: compression ratio should be well above 4×
    assert!(
        compressed.len() * 4 < data.len(),
        "expected high compression ratio; got {} bytes -> {} bytes",
        data.len(),
        compressed.len()
    );
    let decompressed = provider
        .decompress_with_limit(&compressed, usize::MAX)
        .unwrap();
    assert_eq!(decompressed.len(), data.len());
    assert!(decompressed.iter().all(|&b| b == 0));
}

#[test]
fn test_zstd_registry() {
    let registry = CompressionRegistry::new().register(ZstdProvider::default());

    assert!(registry.supports("zstd"));
    assert!(!registry.supports("gzip"));

    let data = b"test data";
    let compressed = registry.compress("zstd", data).unwrap();
    let decompressed = registry
        .decompress_with_limit("zstd", compressed, usize::MAX)
        .unwrap();
    assert_eq!(&decompressed[..], data);
}

#[test]
fn test_unsupported_encoding() {
    let registry = CompressionRegistry::new();
    let result =
        registry.decompress_with_limit("unknown", Bytes::from_static(b"data"), usize::MAX);
    assert!(result.is_err());
}

#[test]
fn test_decompress_empty_body_with_encoding_header() {
    // Clients may set Content-Encoding but skip compressing empty payloads.
    // A decoder (especially zstd) would reject this as an incomplete frame —
    // the registry must short-circuit.
    let registry = CompressionRegistry::default();
    let result = registry.decompress_with_limit("zstd", Bytes::new(), usize::MAX);
    assert_eq!(result.unwrap().len(), 0);

    let result = registry.decompress_with_limit("gzip", Bytes::new(), usize::MAX);
    assert_eq!(result.unwrap().len(), 0);

    // Also works via decompress_with_limit
    let result = registry.decompress_with_limit("zstd", Bytes::new(), 1024);
    assert_eq!(result.unwrap().len(), 0);
}

#[test]
fn test_decompress_empty_body_unknown_encoding_still_errors() {
    // The empty-body short-circuit must NOT mask unsupported encodings.
    // Content-Encoding: foo (unknown) should error even with empty body.
    let registry = CompressionRegistry::default();
    let result = registry.decompress_with_limit("foo", Bytes::new(), usize::MAX);
    let err = result.unwrap_err();
    assert_eq!(err.code, ErrorCode::Unimplemented);
}

#[test]
fn test_default_registry() {
    let registry = CompressionRegistry::default();
    assert!(registry.supports("gzip"));
    assert!(registry.supports("zstd"));
}

#[test]
fn test_accept_encoding_header() {
    let registry = CompressionRegistry::new();
    assert_eq!(registry.accept_encoding_header(), "");
    {
        let registry = CompressionRegistry::new().register(GzipProvider::default());
        assert_eq!(registry.accept_encoding_header(), "gzip");
    }
}

#[test]
fn test_accept_encoding_header_sorted_deterministic() {
    // Cached string must be identical regardless of registration order.
    let r1 = CompressionRegistry::new()
        .register(GzipProvider::default())
        .register(ZstdProvider::default());
    let r2 = CompressionRegistry::new()
        .register(ZstdProvider::default())
        .register(GzipProvider::default());
    assert_eq!(r1.accept_encoding_header(), "gzip, zstd");
    assert_eq!(r2.accept_encoding_header(), "gzip, zstd");
}

#[test]
fn test_custom_provider() {
    let registry = CompressionRegistry::new().register(CustomProvider { inner: Box::new(MockProvider) });

    assert!(registry.supports("mock"));

    let data = b"hello";
    let compressed = registry.compress("mock", data).unwrap();
    assert_eq!(&compressed[..], b"olleh");

    let decompressed = registry
        .decompress_with_limit("mock", compressed, usize::MAX)
        .unwrap();
    assert_eq!(&decompressed[..], data);
}

#[test]
fn test_gzip_decompress_with_limit_under() {
    let provider = GzipProvider::default();
    let data = b"hello world";
    let compressed = provider.compress(data).unwrap();

    // Limit larger than data — succeeds
    let result = provider.decompress_with_limit(&compressed, 1024);
    assert!(result.is_ok());
    assert_eq!(&result.unwrap()[..], data);
}

#[test]
fn test_gzip_decompress_with_limit_exact() {
    let provider = GzipProvider::default();
    let data = b"hello world";
    let compressed = provider.compress(data).unwrap();

    // Limit exactly equal to data length — succeeds
    let result = provider.decompress_with_limit(&compressed, data.len());
    assert!(result.is_ok());
    assert_eq!(&result.unwrap()[..], data);
}

#[test]
fn test_gzip_decompress_with_limit_exceeded() {
    let provider = GzipProvider::default();
    // Create data larger than our limit
    let data = vec![0u8; 1024];
    let compressed = provider.compress(&data).unwrap();

    // Limit smaller than decompressed size — fails
    let result = provider.decompress_with_limit(&compressed, 512);
    assert!(result.is_err());
    let err = result.unwrap_err();
    assert_eq!(err.code, ErrorCode::ResourceExhausted);
}

#[test]
fn test_zstd_decompress_with_limit_under() {
    let provider = ZstdProvider::default();
    let data = b"hello world";
    let compressed = provider.compress(data).unwrap();

    let result = provider.decompress_with_limit(&compressed, 1024);
    assert!(result.is_ok());
    assert_eq!(&result.unwrap()[..], data);
}

#[test]
fn test_zstd_decompress_with_limit_exact() {
    let provider = ZstdProvider::default();
    let data = b"hello world";
    let compressed = provider.compress(data).unwrap();

    let result = provider.decompress_with_limit(&compressed, data.len());
    assert!(result.is_ok());
    assert_eq!(&result.unwrap()[..], data);
}

#[test]
fn test_zstd_decompress_with_limit_exceeded() {
    let provider = ZstdProvider::default();
    let data = vec![0u8; 1024];
    let compressed = provider.compress(&data).unwrap();

    let result = provider.decompress_with_limit(&compressed, 512);
    assert!(result.is_err());
    let err = result.unwrap_err();
    assert_eq!(err.code, ErrorCode::ResourceExhausted);
}

#[test]
fn test_compression_policy_default() {
    let policy = CompressionPolicy::default();
    // Below threshold — should not compress
    assert!(!policy.should_compress(512));
    assert!(!policy.should_compress(1023));
    // At and above threshold — should compress
    assert!(policy.should_compress(1024));
    assert!(policy.should_compress(4096));
}

#[test]
fn test_compression_policy_disabled() {
    let policy = CompressionPolicy::disabled();
    assert!(!policy.should_compress(0));
    assert!(!policy.should_compress(1024));
    assert!(!policy.should_compress(1_000_000));
}

#[test]
fn test_compression_policy_custom_min_size() {
    let policy = CompressionPolicy::default().min_size(4096);
    assert!(!policy.should_compress(1024));
    assert!(!policy.should_compress(4095));
    assert!(policy.should_compress(4096));
    assert!(policy.should_compress(8192));
}

#[test]
fn test_compression_policy_empty_message() {
    // Default policy (min_size=1024) skips empty bodies.
    let default_policy = CompressionPolicy::default();
    assert!(!default_policy.should_compress(0));

    // min_size=0 compresses even empty bodies.
    let zero_min = CompressionPolicy::default().min_size(0);
    assert!(zero_min.should_compress(0));

    let disabled = CompressionPolicy::disabled();
    assert!(!disabled.should_compress(0));
}

#[test]
fn test_compression_policy_with_override() {
    let policy = CompressionPolicy::default();

    // No override — uses policy as-is
    let effective = policy.with_override(None);
    assert!(!effective.should_compress(512));
    assert!(effective.should_compress(2048));

    // Force compression — min_size = 0 means even empty bodies compress.
    let forced = policy.with_override(Some(true));
    assert!(forced.should_compress(0));
    assert!(forced.should_compress(1));

    // Disable compression
    let disabled = policy.with_override(Some(false));
    assert!(!disabled.should_compress(0));
    assert!(!disabled.should_compress(1_000_000));
}

#[test]
fn test_identity_decompress_with_limit() {
    let registry = CompressionRegistry::new();
    let data = Bytes::from_static(b"hello world");

    // Under limit
    let result = registry.decompress_with_limit("identity", data.clone(), 1024);
    assert!(result.is_ok());

    // Exact limit
    let result = registry.decompress_with_limit("identity", data.clone(), data.len());
    assert!(result.is_ok());

    // Over limit
    let result = registry.decompress_with_limit("identity", data, 5);
    assert!(result.is_err());
}
