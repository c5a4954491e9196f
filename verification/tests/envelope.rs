//! Envelope framing.
use bytes::BufMut;
use bytes::Bytes;
use bytes::BytesMut;
use connectrpc::compression::CompressionPolicy;
use connectrpc::compression::CompressionRegistry;
use connectrpc::envelope::assembler::EnvelopeAssembler;
use connectrpc::envelope::assembler::READ_SLAB_SIZE;
use connectrpc::envelope::decoder::Decoded;
use connectrpc::envelope::decoder::EnvelopeDecoder;
use connectrpc::envelope::encoder::write_envelope;
use connectrpc::envelope::encoder::EnvelopeEncoder;
use connectrpc::envelope::flags;
use connectrpc::envelope::Envelope;
use connectrpc::envelope::HEADER_SIZE;
use connectrpc::error::ErrorCode;
use connectrpc::response::EncodedBody;
use std::sync::Arc;

/// A decoder without an encoding.
fn decoder(max_message_size: usize) -> EnvelopeDecoder {
    EnvelopeDecoder::new(max_message_size, None, Arc::new(CompressionRegistry::default()))
}

/// Decode the next item, which must be a message.
fn message(dec: &mut EnvelopeDecoder, frame: &mut Bytes) -> Bytes {
    match dec.decode(frame).unwrap() {
        Some(Decoded::Message(data)) => data,
        other => panic!("expected a message, got {other:?}"),
    }
}

/// Feed `frames` in order and collect every envelope, asserting after
/// each frame that the in-flight allocation stays within
/// `min(declared, 2 × received)`.
fn assemble_all(assembler: &mut EnvelopeAssembler, frames: &[&[u8]]) -> Vec<Envelope> {
    let mut out = Vec::new();
    for f in frames {
        let mut frame = Bytes::copy_from_slice(f);
        while let Some(env) = assembler.feed(&mut frame).unwrap() {
            out.push(env);
        }
        assert!(
            frame.is_empty(),
            "feed returns None only once the frame is consumed"
        );
        assert!(
            assembler.body.capacity() <= assembler.expected.min(2 * assembler.body.len().max(1)),
            "cap {} len {} expected {}",
            assembler.body.capacity(),
            assembler.body.len(),
            assembler.expected
        );
    }
    out
}

#[test]
fn encode_body_parts_chains_large_payload_by_refcount() {
    let payload = Bytes::from(vec![7u8; 64]);
    let ptr = payload.as_ptr();
    let (head, chained) = Envelope::encode_body_parts(flags::DATA, EncodedBody::Contiguous(payload.clone()), 64);
    assert_eq!(head.len(), HEADER_SIZE);
    let [chained] = &chained[..] else {
        panic!("payload at threshold must chain as one segment");
    };
    assert!(std::ptr::eq(chained.as_ptr(), ptr), "must not copy");

    // Reassembled bytes are identical to the contiguous encoding.
    let mut reassembled = BytesMut::from(&head[..]);
    reassembled.put_slice(chained);
    assert_eq!(
        reassembled.freeze(),
        Envelope::data(payload).encode(),
        "chained wire bytes must match contiguous encoding"
    );
}

/// A payload that compresses is chained on the COMPRESSED payload's
/// size, with the COMPRESSED flag in the header segment.
#[test]
fn encode_chained_chains_large_compressed_payload() {
    let registry = Arc::new(CompressionRegistry::default());
    let enc = EnvelopeEncoder::new(
        Some((Arc::clone(&registry), "gzip".to_owned())),
        CompressionPolicy::default().with_min_size(0),
    );
    // Incompressible-ish random-ish payload so the compressed form stays
    // above the chain threshold.
    let data: Vec<u8> = (0..64 * 1024u32)
        .map(|i| (i.wrapping_mul(2654435761) >> 13) as u8)
        .collect();
    let mut dst = BytesMut::new();
    let mut chained = Vec::new();
    enc.encode_chained(EncodedBody::Contiguous(Bytes::from(data)), &mut dst, &mut chained, 1024)
        .unwrap();
    let [chained] = &chained[..] else {
        panic!("large compressed payload must chain as one segment");
    };

    assert_eq!(dst.len(), HEADER_SIZE);
    assert_eq!(dst[0], flags::COMPRESSED);
    assert_eq!(
        u32::from_be_bytes([dst[1], dst[2], dst[3], dst[4]]) as usize,
        chained.len()
    );

    // Reassembled envelope decodes back to the original payload.
    let mut wire = dst;
    wire.put_slice(chained);
    let mut dec = EnvelopeDecoder::new(1024 * 1024, Some("gzip".to_owned()), registry);
    let decoded = message(&mut dec, &mut wire.freeze());
    assert_eq!(decoded.len(), 64 * 1024);
}

/// A body the encoder already split keeps its segments through
/// `encode_chained`: only the header lands in `dst`, and every segment,
/// large or small, comes back as the same allocation in wire order. The
/// framing stream decides which of them to copy.
#[test]
fn encode_chained_keeps_segments_of_a_large_body() {
    let lead = Bytes::from_static(b"tag");
    let big = Bytes::from(vec![3u8; 64]);
    let tail = Bytes::from_static(b"end");
    let body = EncodedBody::Segmented(vec![lead.clone(), big.clone(), tail.clone()]);
    let total = body.len();

    let enc = EnvelopeEncoder::uncompressed();
    let mut dst = BytesMut::new();
    let mut segments = Vec::new();
    enc.encode_chained(body, &mut dst, &mut segments, 32)
        .unwrap();

    assert_eq!(dst.len(), HEADER_SIZE, "only the header is copied");
    assert_eq!(
        u32::from_be_bytes([dst[1], dst[2], dst[3], dst[4]]) as usize,
        total,
        "header declares the total across segments"
    );
    let [s0, s1, s2] = &segments[..] else {
        panic!("expected three segments, got {}", segments.len());
    };
    assert!(std::ptr::eq(s0.as_ptr(), lead.as_ptr()));
    assert!(std::ptr::eq(s1.as_ptr(), big.as_ptr()));
    assert!(std::ptr::eq(s2.as_ptr(), tail.as_ptr()));
}

/// Below the threshold a segmented body is copied in after the header,
/// exactly as a contiguous one would be.
#[test]
fn encode_chained_copies_a_small_segmented_body() {
    let body =
        EncodedBody::Segmented(vec![Bytes::from_static(b"ab"), Bytes::from_static(b"cd")]);
    let enc = EnvelopeEncoder::uncompressed();
    let mut dst = BytesMut::new();
    let mut segments = Vec::new();
    enc.encode_chained(body, &mut dst, &mut segments, 32)
        .unwrap();

    assert!(segments.is_empty());
    assert_eq!(
        dst.freeze(),
        Envelope::data(Bytes::from_static(b"abcd")).encode()
    );
}

/// Compression flattens a segmented body first, so the compressed
/// envelope decodes to the concatenation of the segments.
#[test]
fn encode_chained_compresses_a_segmented_body_as_one() {
    let registry = Arc::new(CompressionRegistry::default());
    let enc = EnvelopeEncoder::new(
        Some((Arc::clone(&registry), "gzip".to_owned())),
        CompressionPolicy::default().with_min_size(0),
    );
    let body = EncodedBody::Segmented(vec![
        Bytes::from(vec![b'a'; 4096]),
        Bytes::from(vec![b'b'; 4096]),
    ]);
    let expected = body.clone().into_contiguous();

    let mut wire = BytesMut::new();
    let mut segments = Vec::new();
    enc.encode_chained(body, &mut wire, &mut segments, usize::MAX)
        .unwrap();
    assert!(segments.is_empty());
    assert_eq!(wire[0], flags::COMPRESSED);

    let mut dec = EnvelopeDecoder::new(1024 * 1024, Some("gzip".to_owned()), registry);
    let decoded = message(&mut dec, &mut wire.freeze());
    assert_eq!(decoded, expected);
}

#[test]
fn encode_body_parts_small_payload_stays_contiguous() {
    let payload = Bytes::from_static(b"tiny");
    let (head, chained) = Envelope::encode_body_parts(flags::DATA, EncodedBody::Contiguous(payload.clone()), 64);
    assert!(chained.is_empty());
    assert_eq!(head, Envelope::data(payload).encode());
}

/// The property every branch has to hold: the header declares the total
/// length across all segments, and concatenating what is emitted equals
/// the contiguous envelope. A header that disagreed with the bytes after
/// it would desynchronize the peer's framing rather than fail locally, so
/// each branch is pinned rather than left to chance.
#[test]
fn encode_body_parts_declares_the_length_it_emits() {
    let cases: Vec<(&str, EncodedBody)> = vec![
        ("empty", EncodedBody::Contiguous(Bytes::new())),
        (
            "sub-threshold contiguous",
            EncodedBody::Contiguous(Bytes::from_static(b"small")),
        ),
        (
            "sub-threshold segmented",
            EncodedBody::Segmented(vec![Bytes::from_static(b"ab"), Bytes::from_static(b"cd")]),
        ),
        (
            "over-threshold contiguous",
            EncodedBody::Contiguous(Bytes::from(vec![9u8; 128])),
        ),
        (
            "over-threshold two segments",
            EncodedBody::Segmented(vec![
                Bytes::from(vec![1u8; 64]),
                Bytes::from(vec![2u8; 64]),
            ]),
        ),
        (
            "over-threshold many segments",
            EncodedBody::Segmented((0..5).map(|i| Bytes::from(vec![i as u8; 40])).collect()),
        ),
    ];

    for (name, body) in cases {
        let total = body.len();
        let expected = Envelope::data(body.clone().into_contiguous()).encode();

        let (head, segments) = Envelope::encode_body_parts(flags::DATA, body, 64);

        let declared = u32::from_be_bytes([head[1], head[2], head[3], head[4]]) as usize;
        assert_eq!(declared, total, "{name}: header must declare the total");

        let emitted: usize =
            head.len() - HEADER_SIZE + segments.iter().map(Bytes::len).sum::<usize>();
        assert_eq!(
            emitted, total,
            "{name}: emitted payload bytes must match the declared length"
        );

        let mut reassembled = BytesMut::from(&head[..]);
        for segment in &segments {
            assert!(!segment.is_empty(), "{name}: no empty segments");
            reassembled.put_slice(segment);
        }
        assert_eq!(
            reassembled.freeze(),
            expected,
            "{name}: must reassemble to the contiguous envelope"
        );
    }
}

/// De-framing an immutable `Bytes` body hands the payload over as a
/// slice of the input rather than a copy, and advances past the envelope.
#[test]
fn decode_bytes_with_limit_is_zero_copy() {
    let mut wire = BytesMut::new();
    write_envelope(flags::COMPRESSED, b"payload", &mut wire).unwrap();
    wire.put_slice(b"next");
    let wire = wire.freeze();

    let mut buf = wire.clone();
    let envelope = Envelope::decode_bytes_with_limit(&mut buf, 64)
        .unwrap()
        .unwrap();
    assert_eq!(envelope.flags, flags::COMPRESSED);
    assert_eq!(envelope.data, "payload");
    assert!(std::ptr::eq(
        envelope.data.as_ptr(),
        wire[HEADER_SIZE..].as_ptr()
    ));
    assert_eq!(buf, "next");

    let mut short = wire.slice(..HEADER_SIZE + 3);
    assert!(
        Envelope::decode_bytes_with_limit(&mut short, 64)
            .unwrap()
            .is_none()
    );
    assert_eq!(short.len(), HEADER_SIZE + 3);
    assert!(Envelope::decode_bytes_with_limit(&mut wire.clone(), 6).is_err());
}

#[test]
fn test_envelope_roundtrip() {
    let original = Envelope::data(Bytes::from_static(b"hello world"));
    let encoded = original.encode();

    let mut buf = BytesMut::from(&encoded[..]);
    let decoded = Envelope::decode(&mut buf).unwrap().unwrap();

    assert_eq!(decoded.flags, original.flags);
    assert_eq!(decoded.data, original.data);
}

#[test]
fn test_envelope_partial() {
    let mut buf = BytesMut::from(&[0u8, 0, 0, 0][..]);
    assert!(Envelope::decode(&mut buf).unwrap().is_none());
}

#[test]
fn test_envelope_size_limit() {
    // Create an envelope header claiming a 1MB message
    let mut buf = BytesMut::new();
    buf.put_u8(0); // flags
    buf.put_u32(1024 * 1024); // 1MB length

    // With a 512KB limit, this should fail immediately
    let result = Envelope::decode_with_limit(&mut buf, 512 * 1024);
    assert!(result.is_err());
    let err = result.unwrap_err();
    assert_eq!(err.code, ErrorCode::ResourceExhausted);
}

#[test]
fn test_envelope_size_limit_ok() {
    // Create a small envelope
    let original = Envelope::data(Bytes::from_static(b"small"));
    let encoded = original.encode();
    let mut buf = BytesMut::from(&encoded[..]);

    // With a 1MB limit, this should succeed
    let result = Envelope::decode_with_limit(&mut buf, 1024 * 1024);
    assert!(result.is_ok());
    assert!(result.unwrap().is_some());
}

#[test]
fn test_envelope_unlimited_decode_huge_length_no_panic() {
    // `decode` uses max_size = usize::MAX, so the size check does not bound
    // `length`. A header claiming u32::MAX bytes must return `Ok(None)`
    // (waiting for data that never comes), not panic on `HEADER_SIZE +
    // length`. On a 32-bit target the unsaturated add would overflow.
    let mut buf = BytesMut::new();
    buf.put_u8(0); // flags
    buf.put_u32(u32::MAX); // length prefix
    let result = Envelope::decode(&mut buf);
    assert!(matches!(result, Ok(None)));
}

#[test]
fn assembler_partial_header_is_partial() {
    let mut assembler = EnvelopeAssembler::new(1024);
    assert!(!assembler.has_partial());
    assert!(assemble_all(&mut assembler, &[&[0u8, 0, 0]]).is_empty());
    assert!(assembler.has_partial());
}

#[test]
fn assembler_multiple_envelopes_in_one_frame() {
    let mut wire = BytesMut::new();
    wire.extend_from_slice(&Envelope::data(Bytes::from_static(b"first")).encode());
    wire.extend_from_slice(&Envelope::end_stream(Bytes::from_static(b"{}")).encode());
    wire.extend_from_slice(&Envelope::data(Bytes::new()).encode());
    wire.extend_from_slice(&Envelope::data(Bytes::from_static(b"last")).encode()[..3]);
    let mut assembler = EnvelopeAssembler::new(1024);
    let out = assemble_all(&mut assembler, &[&wire]);
    assert_eq!(out.len(), 3);
    assert_eq!(out[0].data, Bytes::from_static(b"first"));
    assert!(out[1].is_end_stream());
    assert_eq!(out[1].data, Bytes::from_static(b"{}"));
    assert!(
        out[2].data.is_empty(),
        "zero-length payload is a valid envelope"
    );
    assert!(assembler.has_partial(), "head of the next envelope is carried");
}

/// A large payload split across many transport frames comes out as one
/// exactly-sized, uniquely-owned `Bytes`; the assembler keeps nothing.
#[test]
fn assembler_payload_split_across_many_frames() {
    const LEN: usize = 1024 * 1024 + 3;
    let payload: Vec<u8> = (0..LEN).map(|i| i as u8).collect();
    let wire = Envelope::data(Bytes::from(payload.clone())).encode();
    let frames: Vec<&[u8]> = wire.chunks(16 * 1024).collect();
    let mut assembler = EnvelopeAssembler::new(LEN);
    let out = assemble_all(&mut assembler, &frames);
    assert_eq!(out.len(), 1);
    assert_eq!(out[0].data.len(), LEN);
    assert_eq!(&out[0].data[..], &payload[..]);
    assert!(out[0].data.is_unique(), "message must own its allocation");
    assert!(!assembler.has_partial());
    assert_eq!(assembler.body.capacity(), 0, "assembler retains nothing");
}

/// Small payloads are cut from a per-stream slab: they do not reference
/// the transport frame, a held one shares at most its own slab, and the
/// assembler keeps no reference to a slab it has moved past.
#[test]
fn assembler_small_messages_come_from_a_bounded_slab() {
    let envelope = Envelope::data(Bytes::from(vec![7u8; 100])).encode();
    let per_slab = READ_SLAB_SIZE / 100;
    let mut wire = BytesMut::new();
    for _ in 0..2 * per_slab {
        wire.extend_from_slice(&envelope);
    }
    let mut frame = wire.freeze();
    let backing = frame.clone();
    let mut assembler = EnvelopeAssembler::new(1024);
    let mut out = Vec::new();
    while let Some(env) = assembler.feed(&mut frame).unwrap() {
        out.push(env.data);
    }
    assert_eq!(out.len(), 2 * per_slab);
    drop(frame);
    assert!(backing.is_unique(), "no message references the frame");
    let held = out.swap_remove(0);
    assert!(!held.is_unique(), "neighbours share the first slab");
    drop(out);
    assert!(held.is_unique(), "assembler moved past the first slab");
    assert_eq!(&held[..], &[7u8; 100][..]);
}

/// The slab/own-allocation threshold is half the slab: a 4096-byte
/// payload is cut from the slab (and shares it with its neighbour), a
/// 4097-byte payload is its own allocation.
#[test]
fn assembler_slab_threshold() {
    let at = vec![3u8; READ_SLAB_SIZE / 2];
    let mut wire = BytesMut::new();
    wire.extend_from_slice(&Envelope::data(Bytes::from(at.clone())).encode());
    wire.extend_from_slice(&Envelope::data(Bytes::from(at.clone())).encode());
    let mut assembler = EnvelopeAssembler::new(READ_SLAB_SIZE);
    let out = assemble_all(&mut assembler, &[&wire]);
    assert_eq!(out.len(), 2);
    assert_eq!(&out[0].data[..], &at[..]);
    assert!(
        !out[0].data.is_unique(),
        "slab-cut, shared with its neighbour"
    );
    assert_eq!(
        out[1].data.as_ptr() as usize,
        out[0].data.as_ptr() as usize + at.len(),
        "both halves of one slab"
    );
    assert_eq!(assembler.body.capacity(), 0);

    let over = vec![4u8; READ_SLAB_SIZE / 2 + 1];
    let wire = Envelope::data(Bytes::from(over.clone())).encode();
    let mut assembler = EnvelopeAssembler::new(READ_SLAB_SIZE);
    let out = assemble_all(&mut assembler, &[&wire]);
    assert_eq!(&out[0].data[..], &over[..]);
    assert!(out[0].data.is_unique(), "own exact allocation");
    assert!(assembler.slab.is_none(), "large path never touches the slab");
    assert_eq!(assembler.body.capacity(), 0);
}

/// A large payload between two small ones goes around the slab: the
/// second small message is cut from the same slab, right after the first.
/// The frames that start and complete the large payload also carry the
/// small ones (straddling), and every envelope is still delivered.
#[test]
fn assembler_large_payload_bypasses_the_slab() {
    let big = vec![1u8; 100 * 1024];
    let mut wire = BytesMut::new();
    wire.extend_from_slice(&Envelope::data(Bytes::from_static(b"one")).encode());
    wire.extend_from_slice(&Envelope::data(Bytes::from(big.clone())).encode());
    wire.extend_from_slice(&Envelope::data(Bytes::from_static(b"two")).encode());
    let frames: Vec<&[u8]> = wire.chunks(16 * 1024).collect();
    let mut assembler = EnvelopeAssembler::new(1024 * 1024);
    let out = assemble_all(&mut assembler, &frames);
    assert_eq!(out.len(), 3);
    assert_eq!(out[0].data, Bytes::from_static(b"one"));
    assert_eq!(&out[1].data[..], &big[..]);
    assert_eq!(out[2].data, Bytes::from_static(b"two"));
    assert!(out[1].data.is_unique(), "large payload owns its allocation");
    assert_eq!(
        out[2].data.as_ptr() as usize,
        out[0].data.as_ptr() as usize + 3,
        "second small message continues the first slab"
    );
}

/// A small payload split across frames whose first fragment arrives when
/// the slab is nearly full is still assembled contiguously: the slab is
/// rolled to exactly one fresh READ_SLAB_SIZE block (messages held) or
/// reclaimed in place at its original size (messages dropped) at the
/// start of the payload, never part-way through it.
#[test]
fn assembler_split_small_payload_at_slab_roll() {
    let filler = Envelope::data(Bytes::from(vec![7u8; 100])).encode();
    let per_slab = READ_SLAB_SIZE / 100;
    let payload: Vec<u8> = (0..READ_SLAB_SIZE / 2).map(|i| i as u8).collect();
    let wire = Envelope::data(Bytes::from(payload.clone())).encode();
    let third = wire.len() / 3;
    for hold in [true, false] {
        let mut assembler = EnvelopeAssembler::new(READ_SLAB_SIZE);
        let mut fill = BytesMut::new();
        for _ in 0..per_slab {
            fill.extend_from_slice(&filler);
        }
        let held = assemble_all(&mut assembler, &[&fill]);
        assert_eq!(held.len(), per_slab);
        let first = held[0].data.as_ptr() as usize;
        assert!(assembler.slab.as_ref().unwrap().capacity() < payload.len());
        let held = hold.then_some(held);
        let out = assemble_all(
            &mut assembler,
            &[&wire[..third], &wire[third..2 * third], &wire[2 * third..]],
        );
        assert_eq!(out.len(), 1);
        assert_eq!(&out[0].data[..], &payload[..], "hold={hold}");
        let at = out[0].data.as_ptr() as usize;
        if hold {
            assert!(
                !(first..first + READ_SLAB_SIZE).contains(&at),
                "rolled to a fresh slab"
            );
        } else {
            assert_eq!(at, first, "reclaimed the released slab in place");
        }
        assert_eq!(
            assembler.slab.as_ref().unwrap().capacity(),
            READ_SLAB_SIZE - payload.len(),
            "rolled or reclaimed slab has the original READ_SLAB_SIZE (hold={hold})"
        );
        drop(held);
    }
}

/// A zero-length payload allocates nothing: no slab, no body.
#[test]
fn assembler_empty_payload_allocates_nothing() {
    let mut wire = BytesMut::new();
    wire.extend_from_slice(&Envelope::data(Bytes::new()).encode());
    wire.extend_from_slice(&Envelope::end_stream(Bytes::new()).encode());
    let mut assembler = EnvelopeAssembler::new(1024);
    let out = assemble_all(&mut assembler, &[&wire]);
    assert_eq!(out.len(), 2);
    assert!(out[0].data.is_empty() && out[1].data.is_empty());
    assert!(out[1].is_end_stream());
    assert!(assembler.slab.is_none());
    assert_eq!(assembler.body.capacity(), 0);
}

/// An over-limit length is rejected on the header, before any payload
/// byte is buffered or allocated for.
#[test]
fn assembler_rejects_over_limit_before_allocating() {
    let mut wire = vec![0u8; HEADER_SIZE];
    wire[1..].copy_from_slice(&4096u32.to_be_bytes());
    wire.extend_from_slice(&[0xAA; 4096]);
    let mut assembler = EnvelopeAssembler::new(1024);
    let mut frame = Bytes::from(wire);
    let err = assembler.feed(&mut frame).unwrap_err();
    assert_eq!(err.code, ErrorCode::ResourceExhausted);
    assert_eq!(
        err.message.as_deref(),
        Some("message size 4096 exceeds limit 1024")
    );
    assert_eq!(assembler.body.capacity(), 0, "nothing allocated for it");
    assert_eq!(frame.len(), 4096, "payload left unread");
}

#[test]
fn assembler_grpc_web_trailer_limit() {
    let block = vec![b'x'; 2000];
    let trailer = Envelope {
        flags: flags::GRPC_WEB_TRAILER,
        data: Bytes::from(block.clone()),
    }
    .encode();
    // Without the allowance the trailer frame is just an envelope.
    let mut assembler = EnvelopeAssembler::new(1024);
    let err = assembler.feed(&mut trailer.clone()).unwrap_err();
    assert_eq!(
        err.message.as_deref(),
        Some("message size 2000 exceeds limit 1024")
    );
    // With it, trailer frames get their own limit; data frames do not.
    let mut assembler = EnvelopeAssembler::new(1024).with_grpc_web_trailer_limit(4096);
    let out = assemble_all(&mut assembler, &[&trailer]);
    assert_eq!(out[0].flags, flags::GRPC_WEB_TRAILER);
    assert_eq!(&out[0].data[..], &block[..]);
    let data = Envelope::data(Bytes::from(block)).encode();
    assert!(assembler.feed(&mut data.clone()).is_err());
    // A trailer frame over its own limit says so.
    let mut assembler = EnvelopeAssembler::new(1024).with_grpc_web_trailer_limit(1500);
    let err = assembler.feed(&mut trailer.clone()).unwrap_err();
    assert_eq!(err.code, ErrorCode::ResourceExhausted);
    assert_eq!(
        err.message.as_deref(),
        Some("grpc-web trailer size 2000 exceeds limit 1500")
    );
}

/// Whatever the frame boundaries, the assembler yields exactly what
/// `Envelope::decode` yields over the contiguous wire.
#[test]
fn assembler_matches_contiguous_decode_at_every_split() {
    let mut wire = BytesMut::new();
    for env in [
        Envelope::data(Bytes::new()),
        Envelope::data(Bytes::from_static(b"x")),
        Envelope::data(Bytes::from(vec![9u8; 3000])),
        Envelope::end_stream(Bytes::from_static(b"{}")),
        Envelope {
            flags: flags::GRPC_WEB_TRAILER,
            data: Bytes::from_static(b"grpc-status: 0\r\n"),
        },
        Envelope::data(Bytes::from_static(b"tail")),
    ] {
        wire.extend_from_slice(&env.encode());
    }
    let mut contiguous = wire.clone();
    let mut expected = Vec::new();
    while let Some(env) = Envelope::decode(&mut contiguous).unwrap() {
        expected.push((env.flags, env.data));
    }
    assert_eq!(expected.len(), 6);

    let irregular: Vec<usize> = [0, 1, 6, 7, 13, 2900, 3016, 3017, 3030, wire.len()].into();
    let mut splits: Vec<Vec<&[u8]>> = [1, 3, HEADER_SIZE, 7, 4096]
        .iter()
        .map(|&n| wire.chunks(n).collect())
        .collect();
    splits.push(irregular.windows(2).map(|w| &wire[w[0]..w[1]]).collect());
    for frames in splits {
        let mut assembler = EnvelopeAssembler::new(4096);
        let got: Vec<_> = assemble_all(&mut assembler, &frames)
            .into_iter()
            .map(|e| (e.flags, e.data))
            .collect();
        assert_eq!(
            got,
            expected,
            "frames of {:?}",
            frames.first().map(|f| f.len())
        );
        assert!(!assembler.has_partial());
    }
}

/// `feed` never leaves an exhausted transport frame alive in the caller's
/// slot, whether it stopped mid-header or mid-payload.
#[test]
fn assembler_releases_exhausted_frame() {
    let wire = Envelope::data(Bytes::from(vec![7u8; 64])).encode();
    for end in [3, 40] {
        let mut assembler = EnvelopeAssembler::new(1024);
        let mut slot = Bytes::copy_from_slice(&wire[..end]);
        let backing = slot.clone();
        assert!(assembler.feed(&mut slot).unwrap().is_none());
        assert!(slot.is_empty());
        assert!(
            backing.is_unique(),
            "exhausted frame still referenced from the slot (end={end})"
        );
    }
}

#[test]
fn test_decoder_complete_message() {
    let mut dec = decoder(1024);
    let mut frame = Envelope::data(Bytes::from_static(b"hello")).encode();

    assert_eq!(message(&mut dec, &mut frame), Bytes::from_static(b"hello"));
    assert!(frame.is_empty());
    assert!(dec.finish().is_ok());
}

#[test]
fn test_decoder_incomplete_header() {
    let mut dec = decoder(1024);
    // Only 3 bytes — not enough for the 5-byte header
    let mut frame = Bytes::from_static(&[0u8, 0, 0]);

    assert!(dec.decode(&mut frame).unwrap().is_none());
    assert!(frame.is_empty(), "frame is consumed into the header carry");
}

#[test]
fn test_decoder_incomplete_payload() {
    let mut dec = decoder(1024);
    // Header says 10 bytes of payload, but we only provide 3
    let mut buf = BytesMut::new();
    buf.put_u8(flags::DATA);
    buf.put_u32(10);
    buf.put_slice(&[1, 2, 3]);
    let mut frame = buf.freeze();

    assert!(dec.decode(&mut frame).unwrap().is_none());
    assert!(frame.is_empty());
    // The rest arrives in a later frame.
    let mut rest = Bytes::from_static(&[4, 5, 6, 7, 8, 9, 10]);
    let msg = message(&mut dec, &mut rest);
    assert_eq!(&msg[..], &[1, 2, 3, 4, 5, 6, 7, 8, 9, 10]);
}

#[test]
fn test_decoder_end_stream_signals_eof() {
    let mut dec = decoder(1024);
    let mut wire = BytesMut::new();
    wire.extend_from_slice(&Envelope::end_stream(Bytes::from_static(b"{}")).encode());
    wire.extend_from_slice(b"trailing");
    let mut frame = wire.freeze();

    // End-stream is terminal and leaves the trailing bytes in the frame
    // for the caller to account for.
    assert!(matches!(
        dec.decode(&mut frame).unwrap(),
        Some(Decoded::EndStream)
    ));
    assert_eq!(&frame[..], b"trailing");
    assert!(dec.finish().is_ok());
}

#[test]
fn test_decoder_message_exceeds_size_limit() {
    let mut dec = decoder(4); // max 4 bytes per message
    let mut frame = Envelope::data(Bytes::from_static(b"too long")).encode();

    let err = dec.decode(&mut frame).unwrap_err();
    assert_eq!(err.code, ErrorCode::ResourceExhausted);
}

#[test]
fn test_decoder_multiple_envelopes_in_frame() {
    let mut dec = decoder(1024);
    let e1 = Envelope::data(Bytes::from_static(b"first"));
    let e2 = Envelope::data(Bytes::from_static(b"second"));
    let mut buf = BytesMut::new();
    buf.extend_from_slice(&e1.encode());
    buf.extend_from_slice(&e2.encode());
    let mut frame = buf.freeze();

    let r1 = message(&mut dec, &mut frame);
    assert_eq!(r1, Bytes::from_static(b"first"));
    let r2 = message(&mut dec, &mut frame);
    assert_eq!(r2, Bytes::from_static(b"second"));
    assert!(dec.decode(&mut frame).unwrap().is_none());
    assert!(frame.is_empty());
}

#[test]
fn test_decoder_data_then_end_stream() {
    let mut dec = decoder(1024);
    let data_env = Envelope::data(Bytes::from_static(b"msg"));
    let end_env = Envelope::end_stream(Bytes::from_static(b"{}"));
    let mut buf = BytesMut::new();
    buf.extend_from_slice(&data_env.encode());
    buf.extend_from_slice(&end_env.encode());
    let mut frame = buf.freeze();

    let r1 = message(&mut dec, &mut frame);
    assert_eq!(r1, Bytes::from_static(b"msg"));
    assert!(matches!(
        dec.decode(&mut frame).unwrap(),
        Some(Decoded::EndStream)
    ));
    assert!(frame.is_empty());
}

#[test]
fn test_finish_without_data() {
    let dec = decoder(1024);
    // Body ending before any envelope is a clean end of stream
    assert!(dec.finish().is_ok());
}

#[test]
fn test_finish_with_partial_header() {
    let mut dec = decoder(1024);
    // Partial header — body ended with incomplete envelope
    assert!(
        dec.decode(&mut Bytes::from_static(&[0u8, 0, 0]))
            .unwrap()
            .is_none()
    );

    let err = dec.finish().unwrap_err();
    assert_eq!(err.code, ErrorCode::InvalidArgument);
    assert_eq!(err.message.as_deref(), Some("incomplete request envelope"));
}

#[test]
fn test_finish_with_partial_payload() {
    let mut dec = decoder(1024);
    let wire = Envelope::data(Bytes::from_static(b"hello")).encode();
    assert!(dec.decode(&mut wire.slice(..7)).unwrap().is_none());

    let err = dec.finish().unwrap_err();
    assert_eq!(err.code, ErrorCode::InvalidArgument);
}

#[test]
fn test_decoder_compressed_without_encoding_header() {
    let mut dec = decoder(1024);
    // Compressed flag set but decoder has no streaming_encoding
    let mut frame = Envelope::compressed(Bytes::from_static(b"data")).encode();

    let err = dec.decode(&mut frame).unwrap_err();
    assert_eq!(err.code, ErrorCode::Internal);
}

#[test]
fn test_encoder_uncompressed() {
    let enc = EnvelopeEncoder::uncompressed();
    let mut buf = BytesMut::new();
    enc.encode(Bytes::from_static(b"hello"), &mut buf).unwrap();

    // Should produce a DATA envelope: [0x00, len=5, "hello"]
    assert_eq!(buf.len(), HEADER_SIZE + 5);
    assert_eq!(buf[0], flags::DATA);
    assert_eq!(u32::from_be_bytes([buf[1], buf[2], buf[3], buf[4]]), 5);
    assert_eq!(&buf[HEADER_SIZE..], b"hello");
}

#[test]
fn test_encoder_empty_payload_skips_compression() {
    // Empty payload stays uncompressed under default policy (0 < min_size=1024).
    let registry = Arc::new(CompressionRegistry::default());
    let enc = EnvelopeEncoder::new(Some((registry, "gzip".to_owned())), CompressionPolicy::default());
    let mut buf = BytesMut::new();
    enc.encode(Bytes::new(), &mut buf).unwrap();

    assert_eq!(buf[0], flags::DATA, "empty payload should use DATA flag");
    assert_eq!(u32::from_be_bytes([buf[1], buf[2], buf[3], buf[4]]), 0);
}

#[test]
fn test_encoder_with_compression() {
    let registry = Arc::new(CompressionRegistry::default());
    let enc = EnvelopeEncoder::new(
        Some((registry, "gzip".to_owned())),
        CompressionPolicy::default().with_min_size(0),
    );
    let mut buf = BytesMut::new();
    enc.encode(Bytes::from_static(b"compress me"), &mut buf)
        .unwrap();

    assert_eq!(buf[0], flags::COMPRESSED, "should use COMPRESSED flag");
    let payload_len = u32::from_be_bytes([buf[1], buf[2], buf[3], buf[4]]) as usize;
    assert!(payload_len > 0);
    assert_eq!(buf.len(), HEADER_SIZE + payload_len);
}

#[test]
fn test_encoder_end_stream() {
    let enc = EnvelopeEncoder::uncompressed();
    let mut buf = BytesMut::new();
    enc.encode_end_stream(Bytes::from_static(b"{}"), &mut buf)
        .unwrap();

    assert_eq!(buf[0], flags::END_STREAM);
    assert_eq!(u32::from_be_bytes([buf[1], buf[2], buf[3], buf[4]]), 2);
    assert_eq!(&buf[HEADER_SIZE..], b"{}");
}

#[test]
fn test_encoder_decoder_roundtrip() {
    let registry = Arc::new(CompressionRegistry::default());
    let enc = EnvelopeEncoder::new(
        Some((Arc::clone(&registry), "gzip".to_owned())),
        CompressionPolicy::default(),
    );
    let mut dec = EnvelopeDecoder::new(1024, Some("gzip".to_owned()), registry);

    let original = Bytes::from_static(b"roundtrip test data");
    let mut buf = BytesMut::new();
    enc.encode(original.clone(), &mut buf).unwrap();
    let mut frame = buf.freeze();

    let decoded = message(&mut dec, &mut frame);
    assert_eq!(decoded, original);
    assert!(frame.is_empty());
}

#[test]
fn test_encoder_multiple_messages() {
    let enc = EnvelopeEncoder::uncompressed();
    let mut buf = BytesMut::new();
    enc.encode(Bytes::from_static(b"one"), &mut buf).unwrap();
    enc.encode(Bytes::from_static(b"two"), &mut buf).unwrap();

    // Two envelopes back-to-back
    assert_eq!(buf.len(), 2 * HEADER_SIZE + 3 + 3);

    // Decode both with a decoder
    let mut dec = decoder(1024);
    let mut frame = buf.freeze();
    let r1 = message(&mut dec, &mut frame);
    assert_eq!(r1, Bytes::from_static(b"one"));
    let r2 = message(&mut dec, &mut frame);
    assert_eq!(r2, Bytes::from_static(b"two"));
    assert!(frame.is_empty());
}
