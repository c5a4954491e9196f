//! Gzip: the member format around the raw deflate streams of `flate2`.
use bytes::Bytes;
use flate2::Compress;
use flate2::Compression;
use flate2::Crc;
use flate2::Decompress;
use flate2::FlushCompress;
use flate2::FlushDecompress;
use flate2::Status;
use std::io::Read;
use vstd::prelude::*;
use vstd::rwlock::RwLock;
use vstd::rwlock::RwLockPredicate;

use super::front_of;
use super::initial_decompress_capacity;
use super::limit_error;
use super::limit_error_view;
use super::outcome_view;
use super::readable;
use super::CompressionProvider;
use super::Outcome;
use super::ReadOutcome;
use super::ReadView;
use crate::buffer::bytes_from_vec;
use crate::buffer::BufferView;
use crate::error::plain_error;
use crate::error::ConnectError;
use crate::error::ErrorCode;
use crate::error::ErrorView;

verus! {

// ---------------------------------------------------------------------------
// Raw deflate streams
// ---------------------------------------------------------------------------

#[verifier::external_type_specification]
#[verifier::external_body]
pub struct ExCompress(flate2::Compress);

#[verifier::external_type_specification]
#[verifier::external_body]
pub struct ExDecompress(flate2::Decompress);

/// The level that a compressor was made with.
pub uninterp spec fn deflate_level(c: flate2::Compress) -> u32;

/// The bytes that a compressor has taken in since it was made or reset.
pub uninterp spec fn deflate_taken(c: flate2::Compress) -> Seq<u8>;

/// The bytes that a compressor has put out since it was made or reset.
pub uninterp spec fn deflate_given(c: flate2::Compress) -> Seq<u8>;

/// The whole of what a compressor is compressing; nothing before the first
/// step after it was made or reset.
pub uninterp spec fn deflate_whole(c: flate2::Compress) -> Option<Seq<u8>>;

/// The bytes that a decompressor has taken in since it was made or reset.
pub uninterp spec fn inflate_taken(d: flate2::Decompress) -> Seq<u8>;

/// The bytes that a decompressor has put out since it was made or reset.
pub uninterp spec fn inflate_given(d: flate2::Decompress) -> Seq<u8>;

/// What the raw deflate stream at the front of `bytes` stands for, and how
/// many bytes long it is; nothing where it is malformed or does not end.
pub uninterp spec fn inflated(bytes: Seq<u8>) -> Option<(Seq<u8>, nat)>;

/// One step of the division that makes up a CRC-32 checksum, lowest bit first.
pub open spec fn crc_step(c: u32) -> u32 {
    if c & 1 == 1 {
        (c >> 1) ^ 0xEDB8_8320
    } else {
        c >> 1
    }
}

/// Some steps of the division.
pub open spec fn crc_steps(c: u32, n: nat) -> u32
    decreases n,
{
    if n == 0 {
        c
    } else {
        crc_step(crc_steps(c, (n - 1) as nat))
    }
}

/// What the division has come to behind the given bytes, with eight steps for
/// each of them.
pub open spec fn crc_state(data: Seq<u8>) -> u32
    decreases data.len(),
{
    if data.len() == 0 {
        0xFFFF_FFFF
    } else {
        crc_steps(crc_state(data.drop_last()) ^ (data.last() as u32), 8)
    }
}

/// The CRC-32 checksum.
pub open spec fn crc32_of(data: Seq<u8>) -> u32 {
    crc_state(data) ^ 0xFFFF_FFFF
}

/// How far a step of a stream has come.
pub enum Step {
    /// Something was taken in or put out, and there is more to do.
    Going,
    /// The stream is complete.
    Ended,
    /// Nothing could be taken in or put out.
    Stalled,
}

/// A compressor that has not begun a stream.
pub open spec fn fresh_compressor(c: flate2::Compress, level: u32) -> bool {
    &&& deflate_level(c) == level
    &&& deflate_taken(c) == Seq::<u8>::empty()
    &&& deflate_given(c) == Seq::<u8>::empty()
    &&& deflate_whole(c) is None
}

/// A decompressor that has not begun a stream.
pub open spec fn fresh_decompressor(d: flate2::Decompress) -> bool {
    &&& inflate_taken(d) == Seq::<u8>::empty()
    &&& inflate_given(d) == Seq::<u8>::empty()
}

/// `Compress::new` of `Compression::new`, without a zlib header. It panics for
/// a level above nine.
#[verifier::external_body]
fn compressor_new(level: u32) -> (c: Compress)
    requires
        level <= 9,
    ensures
        fresh_compressor(c, level),
{
    Compress::new(Compression::new(level), false)
}

/// `Compress::reset` makes the compressor ready for another stream at its
/// level.
#[verifier::external_body]
fn compressor_reset(c: &mut Compress)
    ensures
        fresh_compressor(*final(c), deflate_level(*old(c))),
{
    c.reset()
}

/// `Compress::total_in` counts the bytes taken in.
pub assume_specification[ flate2::Compress::total_in ](c: &flate2::Compress) -> (n: u64)
    ensures
        n == deflate_taken(*c).len(),
;

/// `Compress::total_out` counts the bytes put out.
pub assume_specification[ flate2::Compress::total_out ](c: &flate2::Compress) -> (n: u64)
    ensures
        n == deflate_given(*c).len(),
;

/// `Compress::compress` with the flush mode `Finish`, where `input` is all that
/// is to follow what was taken in: no more input may be given after the first
/// step. It takes in a front part of the input and writes to the front of the
/// output. It goes on, with progress, until the stream is complete. A stream
/// of less than 2^32 bytes is complete only when all was taken in, and then it
/// inflates to what was taken in.
#[verifier::external_body]
fn deflate_step(c: &mut Compress, input: &[u8], output: &mut [u8]) -> (step: Result<Step, String>)
    requires
        old(output)@.len() > 0,
        deflate_whole(*old(c)) matches Some(whole) ==> whole == deflate_taken(*old(c)) + input@,
    ensures
        deflate_whole(*final(c)) == Some(deflate_taken(*old(c)) + input@),
        deflate_level(*final(c)) == deflate_level(*old(c)),
        final(output)@.len() == old(output)@.len(),
        deflate_taken(*old(c)).len() <= deflate_taken(*final(c)).len() <= deflate_taken(*old(c)).len() + input@.len(),
        deflate_taken(*final(c)) == deflate_taken(*old(c)) + input@.take(
            deflate_taken(*final(c)).len() - deflate_taken(*old(c)).len(),
        ),
        deflate_given(*old(c)).len() <= deflate_given(*final(c)).len() <= deflate_given(*old(c)).len()
            + old(output)@.len(),
        deflate_given(*final(c)) == deflate_given(*old(c)) + final(output)@.take(
            deflate_given(*final(c)).len() - deflate_given(*old(c)).len(),
        ),
        step matches Ok(Step::Going) ==> deflate_taken(*final(c)).len() > deflate_taken(*old(c)).len()
            || deflate_given(*final(c)).len() > deflate_given(*old(c)).len(),
        deflate_taken(*old(c)).len() + input@.len() <= u32::MAX ==> (step matches Ok(s) && !(s is Stalled)),
        deflate_taken(*old(c)).len() + input@.len() <= u32::MAX ==> (step matches Ok(Step::Ended)
            ==> deflate_taken(*final(c)) == deflate_taken(*old(c)) + input@ && (forall|tail: Seq<u8>|
            inflated(#[trigger] (deflate_given(*final(c)) + tail)) == Some(
                (deflate_taken(*final(c)), deflate_given(*final(c)).len()),
            ))),
{
    match c.compress(input, output, FlushCompress::Finish) {
        Ok(Status::Ok) => Ok(Step::Going),
        Ok(Status::StreamEnd) => Ok(Step::Ended),
        Ok(Status::BufError) => Ok(Step::Stalled),
        Err(e) => Err(e.to_string()),
    }
}

/// `Decompress::new` without a zlib header.
#[verifier::external_body]
fn decompressor_new() -> (d: Decompress)
    ensures
        fresh_decompressor(d),
{
    Decompress::new(false)
}

/// `Decompress::reset` makes the decompressor ready for another stream.
#[verifier::external_body]
fn decompressor_reset(d: &mut Decompress)
    ensures
        fresh_decompressor(*final(d)),
{
    d.reset(false)
}

/// `Decompress::total_in` counts the bytes taken in.
pub assume_specification[ flate2::Decompress::total_in ](d: &flate2::Decompress) -> (n: u64)
    ensures
        n == inflate_taken(*d).len(),
;

/// `Decompress::total_out` counts the bytes put out.
pub assume_specification[ flate2::Decompress::total_out ](d: &flate2::Decompress) -> (n: u64)
    ensures
        n == inflate_given(*d).len(),
;

/// `Decompress::decompress` without a flush mode, where `input` is all that
/// follows what was taken in. It takes in a front part of the input and writes
/// to the front of the output. Where the bytes hold a whole stream it goes on,
/// with progress and never beyond the stream's contents, until the stream is
/// complete; where they do not, it is never complete.
#[verifier::external_body]
fn inflate_step(d: &mut Decompress, input: &[u8], output: &mut [u8]) -> (step: Result<Step, String>)
    requires
        old(output)@.len() > 0,
    ensures
        final(output)@.len() == old(output)@.len(),
        inflate_taken(*old(d)).len() <= inflate_taken(*final(d)).len() <= inflate_taken(*old(d)).len() + input@.len(),
        inflate_taken(*final(d)) == inflate_taken(*old(d)) + input@.take(
            inflate_taken(*final(d)).len() - inflate_taken(*old(d)).len(),
        ),
        inflate_given(*old(d)).len() <= inflate_given(*final(d)).len() <= inflate_given(*old(d)).len()
            + old(output)@.len(),
        inflate_given(*final(d)) == inflate_given(*old(d)) + final(output)@.take(
            inflate_given(*final(d)).len() - inflate_given(*old(d)).len(),
        ),
        step matches Ok(Step::Going) ==> inflate_taken(*final(d)).len() > inflate_taken(*old(d)).len()
            || inflate_given(*final(d)).len() > inflate_given(*old(d)).len(),
        step matches Ok(Step::Ended) ==> inflated(inflate_taken(*old(d)) + input@) == Some(
            (inflate_given(*final(d)), inflate_taken(*final(d)).len()),
        ),
        inflated(inflate_taken(*old(d)) + input@) matches Some(whole) ==> (step matches Ok(s) && !(s is Stalled)),
        inflated(inflate_taken(*old(d)) + input@) matches Some(whole) ==> inflate_given(*final(d)).len()
            <= whole.0.len(),
{
    match d.decompress(input, output, FlushDecompress::None) {
        Ok(Status::Ok) => Ok(Step::Going),
        Ok(Status::StreamEnd) => Ok(Step::Ended),
        Ok(Status::BufError) => Ok(Step::Stalled),
        Err(e) => Err(e.to_string()),
    }
}

/// The checksum that `flate2::Crc` computes over `data` is its CRC-32.
#[verifier::external_body]
fn crc32(data: &[u8]) -> (sum: u32)
    ensures
        sum == crc32_of(data@),
{
    let mut crc = Crc::new();
    crc.update(data);
    crc.sum()
}

// ---------------------------------------------------------------------------
// The member header
// ---------------------------------------------------------------------------

/// The number that two bytes stand for, least significant first.
pub open spec fn le16(b0: u8, b1: u8) -> nat {
    (b0 + b1 * 0x100) as nat
}

/// The number that four bytes stand for, least significant first.
pub open spec fn le32(b0: u8, b1: u8, b2: u8, b3: u8) -> nat {
    (b0 + b1 * 0x100 + b2 * 0x1_0000 + b3 * 0x100_0000) as nat
}

/// A number below 2^32 as four bytes, least significant first.
pub open spec fn le32_bytes(n: nat) -> Seq<u8> {
    seq![
        (n % 0x100) as u8,
        (n / 0x100 % 0x100) as u8,
        (n / 0x1_0000 % 0x100) as u8,
        (n / 0x100_0000 % 0x100) as u8,
    ]
}

/// The place of the first zero byte at or behind `from`.
pub open spec fn first_zero(data: Seq<u8>, from: nat) -> Option<nat>
    decreases data.len() - from,
{
    if from >= data.len() {
        None
    } else if data[from as int] == 0 {
        Some(from)
    } else {
        first_zero(data, from + 1)
    }
}

/// Where the extra field ends that starts at `pos`, if the header has one.
pub open spec fn past_extra(data: Seq<u8>, pos: nat) -> Option<nat> {
    if data[3] & 0x04 == 0 {
        Some(pos)
    } else if pos + 2 > data.len() {
        None
    } else {
        Some(pos + 2 + le16(data[pos as int], data[pos as int + 1]))
    }
}

/// Where the zero-terminated text ends that starts at `pos`, if the header has
/// one.
pub open spec fn past_text(data: Seq<u8>, present: bool, pos: nat) -> Option<nat> {
    if !present {
        Some(pos)
    } else {
        match first_zero(data, pos) {
            Some(end) => Some(end + 1),
            None => None,
        }
    }
}

/// Where the deflate stream of a gzip member begins whose fixed header is
/// sound: behind the extra field, the name, the comment and the header
/// checksum, as far as the flags announce them.
pub open spec fn past_optional_fields(data: Seq<u8>) -> Option<nat> {
    match past_extra(data, 10) {
        None => None,
        Some(extra_end) => match past_text(data, data[3] & 0x08 != 0, extra_end) {
            None => None,
            Some(name_end) => match past_text(data, data[3] & 0x10 != 0, name_end) {
                None => None,
                Some(comment_end) => {
                    let end = comment_end + if data[3] & 0x02 != 0 {
                        2nat
                    } else {
                        0nat
                    };
                    if end <= data.len() {
                        Some(end)
                    } else {
                        None
                    }
                },
            },
        },
    }
}

/// Where the deflate stream of a gzip member begins, or what is wrong with its
/// header.
pub open spec fn gzip_header(data: Seq<u8>) -> Result<nat, Seq<char>> {
    if data.len() < 10 {
        Err("gzip data too short for header"@)
    } else if data[0] != 0x1f || data[1] != 0x8b {
        Err("invalid gzip magic"@)
    } else if data[2] != 0x08 {
        Err("unsupported gzip compression method"@)
    } else {
        match past_optional_fields(data) {
            Some(end) => Ok(end),
            None => Err("truncated gzip header"@),
        }
    }
}

/// The error for a compressed payload that cannot be read.
fn malformed_compressed_payload(message: &str) -> (err: ConnectError)
    ensures
        err@ == plain_error(ErrorCode::InvalidArgument, message@),
{
    ConnectError::invalid_argument(message)
}

/// The error for a compressor that could not go on.
fn compress_error(cause: &str) -> (err: ConnectError)
    ensures
        is_compress_error(err@),
{
    let mut message = "gzip compression failed: ".to_owned();
    message.push_str(cause);
    let err = ConnectError::internal(message);
    assert(err@ == plain_error(ErrorCode::Internal, "gzip compression failed: "@ + cause@));
    err
}

/// Skip a zero-terminated text.
fn skip_text(data: &[u8], start: usize) -> (end: Option<usize>)
    ensures
        match past_text(data@, true, start as nat) {
            Some(e) => end == Some(e as usize) && e <= data@.len(),
            None => end is None,
        },
{
    let mut pos: usize = start;
    while pos < data.len() && data[pos] != 0
        invariant
            start <= pos,
            first_zero(data@, start as nat) == first_zero(data@, pos as nat),
        decreases data@.len() - pos,
    {
        pos = pos + 1;
    }
    if pos >= data.len() {
        None
    } else {
        Some(pos + 1)
    }
}

/// Parse a gzip header (RFC 1952) and return the byte offset where the deflate
/// stream begins.
pub fn gzip_header_len(data: &[u8]) -> (start: Result<usize, ConnectError>)
    ensures
        match gzip_header(data@) {
            Ok(end) => start matches Ok(s) && s == end && s <= data@.len(),
            Err(text) => start matches Err(e) && e@ == plain_error(ErrorCode::InvalidArgument, text),
        },
{
    if data.len() < 10 {
        return Err(malformed_compressed_payload("gzip data too short for header"));
    }
    if data[0] != 0x1f || data[1] != 0x8b {
        return Err(malformed_compressed_payload("invalid gzip magic"));
    }
    if data[2] != 0x08 {
        return Err(malformed_compressed_payload("unsupported gzip compression method"));
    }
    let flags: u8 = data[3];
    let mut pos: usize = 10;

    if flags & 0x04 != 0 {
        if data.len() - pos < 2 {
            return Err(malformed_compressed_payload("truncated gzip header"));
        }
        let xlen: usize = data[pos] as usize + data[pos + 1] as usize * 0x100;
        if data.len() - pos - 2 < xlen {
            // Past the end of the data, so no later field ends within it.
            proof {
                let end = (pos + 2 + xlen) as nat;
                assert(past_extra(data@, 10) == Some(end));
                assert(first_zero(data@, end) is None);
                assert(past_optional_fields(data@) is None);
            }
            return Err(malformed_compressed_payload("truncated gzip header"));
        }
        pos = pos + 2 + xlen;
    }
    assert(past_extra(data@, 10) == Some(pos as nat));
    if flags & 0x08 != 0 {
        match skip_text(data, pos) {
            Some(end) => pos = end,
            None => return Err(malformed_compressed_payload("truncated gzip header")),
        }
    }
    if flags & 0x10 != 0 {
        match skip_text(data, pos) {
            Some(end) => pos = end,
            None => return Err(malformed_compressed_payload("truncated gzip header")),
        }
    }
    if flags & 0x02 != 0 {
        if data.len() - pos < 2 {
            return Err(malformed_compressed_payload("truncated gzip header"));
        }
        pos = pos + 2;
    }
    Ok(pos)
}

// ---------------------------------------------------------------------------
// Members
// ---------------------------------------------------------------------------

/// The fixed header of a member without optional fields.
pub open spec fn plain_header() -> Seq<u8> {
    seq![0x1fu8, 0x8b, 0x08, 0x00, 0x00, 0x00, 0x00, 0x00, 0x00, 0xff]
}

/// The trailer of a member: the checksum and the size of its contents.
pub open spec fn gzip_trailer(data: Seq<u8>) -> Seq<u8> {
    le32_bytes(crc32_of(data) as nat) + le32_bytes(data.len() % 0x1_0000_0000)
}

/// A raw deflate stream that stands for `data`, whatever follows it.
pub open spec fn deflates(stream: Seq<u8>, data: Seq<u8>) -> bool {
    forall|tail: Seq<u8>| inflated(#[trigger] (stream + tail)) == Some((data, stream.len()))
}

/// A gzip member that was made of `data`.
pub open spec fn gzip_member(member: Seq<u8>, data: Seq<u8>) -> bool {
    exists|stream: Seq<u8>| #[trigger]
        deflates(stream, data) && member == plain_header() + stream + gzip_trailer(data)
}

/// An error of the compressor.
pub open spec fn is_compress_error(e: ErrorView) -> bool {
    exists|cause: Seq<char>|
        e == plain_error(ErrorCode::Internal, #[trigger] ("gzip compression failed: "@ + cause))
}

/// What compressing comes to: a member made of the data. Of more data than a
/// single call of the compressor can take it is said only which error may come.
pub open spec fn gzip_compressed(data: Seq<u8>, r: Outcome) -> bool {
    &&& data.len() <= u32::MAX ==> (r matches Ok(member) && gzip_member(member, data))
    &&& r matches Err(e) ==> is_compress_error(e)
}

/// The text of the error for a deflate stream that does not end.
pub open spec fn stalled_text() -> Seq<char> {
    "gzip decompression stalled: truncated or invalid deflate stream"@
}

/// An error for a deflate stream that is malformed or does not end.
pub open spec fn is_bad_stream_error(e: ErrorView) -> bool {
    ||| e == plain_error(ErrorCode::InvalidArgument, stalled_text())
    ||| exists|cause: Seq<char>|
        e == plain_error(
            ErrorCode::InvalidArgument,
            #[trigger] ("gzip decompression failed: "@ + cause),
        )
}

/// What a member comes to whose deflate stream is `used` bytes of `stream` and
/// stands for `out`.
pub open spec fn member_outcome(stream: Seq<u8>, out: Seq<u8>, used: nat, max: nat) -> Outcome {
    let at = used as int;
    if out.len() > max {
        Err(limit_error_view(max))
    } else if stream.len() < used + 8 {
        Err(plain_error(ErrorCode::InvalidArgument, "gzip data too short for trailer"@))
    } else if le32(stream[at], stream[at + 1], stream[at + 2], stream[at + 3]) != crc32_of(out) {
        Err(plain_error(ErrorCode::InvalidArgument, "gzip CRC32 mismatch"@))
    } else if le32(stream[at + 4], stream[at + 5], stream[at + 6], stream[at + 7]) != out.len()
        % 0x1_0000_0000 {
        Err(plain_error(ErrorCode::InvalidArgument, "gzip size mismatch"@))
    } else {
        Ok(out)
    }
}

/// What decompressing under a limit comes to. Of a deflate stream that is
/// malformed or does not end, the error may be that for the limit where more
/// than the limit had come out before.
pub open spec fn gzip_decompressed(data: Seq<u8>, max: nat, r: Outcome) -> bool {
    match gzip_header(data) {
        Err(text) => r == Outcome::Err(plain_error(ErrorCode::InvalidArgument, text)),
        Ok(start) => {
            let stream = data.skip(start as int);
            match inflated(stream) {
                Some(whole) => r == member_outcome(stream, whole.0, whole.1, max),
                None => r matches Err(e) && (e == limit_error_view(max) || is_bad_stream_error(e)),
            }
        },
    }
}

/// A number written in four bytes is read back.
proof fn lemma_le32(n: nat)
    requires
        n < 0x1_0000_0000,
    ensures
        le32(le32_bytes(n)[0], le32_bytes(n)[1], le32_bytes(n)[2], le32_bytes(n)[3]) == n,
{
}

/// What was compressed is read back: decompressing a member that was made of
/// `data`, under a limit that `data` keeps to, gives `data`.
pub proof fn lemma_gzip_round_trip(data: Seq<u8>, member: Seq<u8>, max: nat, r: Outcome)
    requires
        gzip_member(member, data),
        data.len() <= max,
        gzip_decompressed(member, max, r),
    ensures
        r == Outcome::Ok(data),
{
    let stream = choose|stream: Seq<u8>| #[trigger]
        deflates(stream, data) && member == plain_header() + stream + gzip_trailer(data);
    assert(0u8 & 0x04 == 0 && 0u8 & 0x08 == 0 && 0u8 & 0x10 == 0 && 0u8 & 0x02 == 0) by (bit_vector);
    assert(member[0] == 0x1f && member[1] == 0x8b && member[2] == 8 && member[3] == 0);
    assert(gzip_header(member) == Ok::<nat, Seq<char>>(10));
    let rest = member.skip(10);
    let trailer = gzip_trailer(data);
    assert(rest =~= stream + trailer);
    assert(inflated(stream + trailer) == Some((data, stream.len())));
    let at = stream.len() as int;
    assert forall|i: int| 0 <= i < 8 implies #[trigger] rest[at + i] == trailer[i] by {}
    assert(rest[at] == trailer[0] && rest[at + 1] == trailer[1] && rest[at + 2] == trailer[2] && rest[at + 3]
        == trailer[3] && rest[at + 4] == trailer[4] && rest[at + 5] == trailer[5] && rest[at + 6] == trailer[6]
        && rest[at + 7] == trailer[7]);
    lemma_le32(crc32_of(data) as nat);
    lemma_le32(data.len() % 0x1_0000_0000);
}

/// Append a number in four bytes, least significant first.
fn push_le32(output: &mut Vec<u8>, n: u32)
    ensures
        final(output)@ == old(output)@ + le32_bytes(n as nat),
{
    output.push((n % 0x100) as u8);
    output.push((n / 0x100 % 0x100) as u8);
    output.push((n / 0x1_0000 % 0x100) as u8);
    output.push((n / 0x100_0000 % 0x100) as u8);
    assert(output@ =~= old(output)@ + le32_bytes(n as nat));
}

/// The number that four bytes stand for, least significant first.
fn read_le32(bytes: &[u8], at: usize) -> (n: u32)
    requires
        at + 4 <= bytes@.len(),
    ensures
        n == le32(bytes@[at as int], bytes@[at + 1], bytes@[at + 2], bytes@[at + 3]),
{
    bytes[at] as u32 + bytes[at + 1] as u32 * 0x100 + bytes[at + 2] as u32 * 0x1_0000 + bytes[at + 3] as u32
        * 0x100_0000
}

// ---------------------------------------------------------------------------
// The provider
// ---------------------------------------------------------------------------

/// Pooled compressors are fresh and of one level.
pub struct CompressorPool {
    /// The level.
    pub level: u32,
}

impl RwLockPredicate<Vec<Compress>> for CompressorPool {
    open spec fn inv(self, v: Vec<Compress>) -> bool {
        &&& v@.len() <= MAX_POOL_SIZE
        &&& forall|i: int| 0 <= i < v@.len() ==> fresh_compressor(#[trigger] v@[i], self.level)
    }
}

/// Pooled decompressors are fresh.
pub struct DecompressorPool;

impl RwLockPredicate<Vec<Decompress>> for DecompressorPool {
    open spec fn inv(self, v: Vec<Decompress>) -> bool {
        &&& v@.len() <= MAX_POOL_SIZE
        &&& forall|i: int| 0 <= i < v@.len() ==> fresh_decompressor(#[trigger] v@[i])
    }
}

/// The most idle compressors or decompressors that a pool retains.
pub const MAX_POOL_SIZE: usize = 64;

/// Gzip compression with pooled `flate2` states, which are costly to allocate.
pub struct GzipProvider {
    level: u32,
    compressors: RwLock<Vec<Compress>, CompressorPool>,
    decompressors: RwLock<Vec<Decompress>, DecompressorPool>,
}

impl Default for GzipProvider {
    /// A provider at the default level.
    fn default() -> (provider: Self)
        ensures
            provider.compression_level() == Self::DEFAULT_LEVEL,
    {
        GzipProvider::with_level(Self::DEFAULT_LEVEL)
    }
}

impl GzipProvider {
    /// Default compression level: 1 (fastest).
    pub const DEFAULT_LEVEL: u32 = 1;

    #[verifier::type_invariant]
    spec fn type_inv(self) -> bool {
        &&& self.level <= 9
        &&& self.compressors.pred() == (CompressorPool { level: self.level })
    }

    /// The compression level.
    pub closed spec fn compression_level(&self) -> u32 {
        self.level
    }

    /// A provider at the default level.
    pub fn new() -> (provider: Self)
        ensures
            provider.compression_level() == Self::DEFAULT_LEVEL,
    {
        GzipProvider::with_level(Self::DEFAULT_LEVEL)
    }

    /// A provider at the given level, from 0 for none to 9 for the most.
    pub fn with_level(level: u32) -> (provider: Self)
        requires
            level <= 9,
        ensures
            provider.compression_level() == level,
    {
        GzipProvider {
            level,
            compressors: RwLock::new(Vec::new(), Ghost(CompressorPool { level })),
            decompressors: RwLock::new(Vec::new(), Ghost(DecompressorPool)),
        }
    }

    /// The level.
    pub fn level(&self) -> (level: u32)
        ensures
            level == self.compression_level(),
    {
        self.level
    }

    /// A fresh compressor, from the pool where it has one.
    fn take_compressor(&self) -> (c: Compress)
        ensures
            fresh_compressor(c, self.compression_level()),
    {
        proof {
            use_type_invariant(self);
        }
        let (mut pool, handle) = self.compressors.acquire_write();
        let pooled = pool.pop();
        handle.release_write(pool);
        match pooled {
            Some(c) => c,
            None => compressor_new(self.level),
        }
    }

    /// Hand a compressor back to the pool, unless that is full.
    fn return_compressor(&self, c: Compress)
        requires
            deflate_level(c) == self.compression_level(),
    {
        proof {
            use_type_invariant(self);
        }
        let mut c = c;
        compressor_reset(&mut c);
        let (mut pool, handle) = self.compressors.acquire_write();
        if pool.len() < MAX_POOL_SIZE {
            pool.push(c);
        }
        handle.release_write(pool);
    }

    /// A fresh decompressor, from the pool where it has one.
    fn take_decompressor(&self) -> (d: Decompress)
        ensures
            fresh_decompressor(d),
    {
        let (mut pool, handle) = self.decompressors.acquire_write();
        let pooled = pool.pop();
        handle.release_write(pool);
        match pooled {
            Some(d) => d,
            None => decompressor_new(),
        }
    }

    /// Hand a decompressor back to the pool, unless that is full.
    fn return_decompressor(&self, d: Decompress) {
        let mut d = d;
        decompressor_reset(&mut d);
        let (mut pool, handle) = self.decompressors.acquire_write();
        if pool.len() < MAX_POOL_SIZE {
            pool.push(d);
        }
        handle.release_write(pool);
    }

    /// Write a whole gzip member: header, deflate stream, trailer.
    fn compress_inner(compressor: &mut Compress, data: &[u8]) -> (r: Result<Bytes, ConnectError>)
        requires
            fresh_compressor(*old(compressor), deflate_level(*old(compressor))),
        ensures
            deflate_level(*final(compressor)) == deflate_level(*old(compressor)),
            gzip_compressed(data@, outcome_view(r)),
    {
        let mut output: Vec<u8> = Vec::with_capacity(data.len().saturating_add(32));
        let header: [u8; 10] = [0x1f, 0x8b, 0x08, 0x00, 0x00, 0x00, 0x00, 0x00, 0x00, 0xff];
        output.extend_from_slice(&header);
        assert(output@ =~= plain_header() + deflate_given(*compressor));

        let mut consumed: usize = 0;
        let mut ended: bool = false;
        while !ended
            invariant
                consumed <= data@.len(),
                deflate_level(*compressor) == deflate_level(*old(compressor)),
                deflate_taken(*compressor) == data@.take(consumed as int),
                deflate_whole(*compressor) matches Some(whole) ==> whole == data@,
                output@ == plain_header() + deflate_given(*compressor),
                ended && data@.len() <= u32::MAX ==> deflates(deflate_given(*compressor), data@),
            decreases
                    (if ended {
                        0int
                    } else {
                        1int
                    }),
                    (data@.len() - consumed) + (usize::MAX - output@.len()),
        {
            let size: usize = if output.len() > 4096 {
                output.len()
            } else {
                4096
            };
            let mut chunk: Vec<u8> = vec![0u8; size];
            let ghost before = *compressor;
            let written_before: u64 = compressor.total_out();
            let rest = vstd::slice::slice_subrange(data, consumed, data.len());
            assert(deflate_taken(before) + rest@ =~= data@);
            let step = deflate_step(compressor, rest, chunk.as_mut_slice());
            let written: usize = (compressor.total_out() - written_before) as usize;
            let ghost taken = deflate_taken(*compressor).len() - consumed;
            assert(deflate_taken(*compressor) =~= data@.take(consumed + taken));
            consumed = compressor.total_in() as usize;
            output.extend_from_slice(vstd::slice::slice_subrange(chunk.as_slice(), 0, written));
            assert(output@ =~= plain_header() + deflate_given(*compressor));
            match step {
                Ok(Step::Ended) => ended = true,
                Ok(Step::Going) => {},
                Ok(Step::Stalled) => return Err(compress_error("stalled")),
                Err(cause) => return Err(compress_error(cause.as_str())),
            }
            // What is left to write before a vector is full.
            assert(output.len() <= usize::MAX);
        }
        let ghost stream = deflate_given(*compressor);
        push_le32(&mut output, crc32(data));
        push_le32(&mut output, (data.len() as u64 % 0x1_0000_0000) as u32);
        assert(output@ =~= plain_header() + stream + gzip_trailer(data@));
        Ok(bytes_from_vec(output))
    }

    /// Read a whole gzip member, and refuse it as soon as more than the limit
    /// has come out.
    fn decompress_inner(decompressor: &mut Decompress, data: &[u8], max_size: usize) -> (r: Result<
        Bytes,
        ConnectError,
    >)
        requires
            fresh_decompressor(*old(decompressor)),
        ensures
            gzip_decompressed(data@, max_size as nat, outcome_view(r)),
    {
        let deflate_start: usize = match gzip_header_len(data) {
            Ok(start) => start,
            Err(e) => return Err(e),
        };
        let stream = vstd::slice::slice_subrange(data, deflate_start, data.len());
        assert(stream@ =~= data@.skip(deflate_start as int));
        let mut output: Vec<u8> = Vec::with_capacity(initial_decompress_capacity(data.len(), 2, Some(max_size)));
        assert(output@ =~= inflate_given(*decompressor));

        let mut consumed: usize = 0;
        let mut ended: bool = false;
        while !ended
            invariant
                gzip_header(data@) == Ok::<nat, Seq<char>>(deflate_start as nat),
                stream@ == data@.skip(deflate_start as int),
                consumed <= stream@.len(),
                inflate_taken(*decompressor) == stream@.take(consumed as int),
                output@ == inflate_given(*decompressor),
                output@.len() <= max_size,
                ended ==> inflated(stream@) == Some((output@, consumed as nat)),
                inflated(stream@) matches Some(whole) ==> output@.len() <= whole.0.len(),
            decreases
                    (if ended {
                        0int
                    } else {
                        1int
                    }),
                    (stream@.len() - consumed) + (max_size - output@.len()),
        {
            // Room for one byte beyond the limit, which tells that it is passed.
            let left: usize = max_size - output.len();
            let room: usize = if left < usize::MAX {
                left + 1
            } else {
                left
            };
            let wanted: usize = if output.len() > 4096 {
                output.len()
            } else {
                4096
            };
            let size: usize = if wanted < room {
                wanted
            } else {
                room
            };
            let mut chunk: Vec<u8> = vec![0u8; size];
            let ghost before = *decompressor;
            let written_before: u64 = decompressor.total_out();
            let rest = vstd::slice::slice_subrange(stream, consumed, stream.len());
            assert(inflate_taken(before) + rest@ =~= stream@);
            let step = inflate_step(decompressor, rest, chunk.as_mut_slice());
            let written: usize = (decompressor.total_out() - written_before) as usize;
            let ghost taken = inflate_taken(*decompressor).len() - consumed;
            assert(inflate_taken(*decompressor) =~= stream@.take(consumed + taken));
            let ghost (consumed_before, length_before) = (consumed as int, output@.len());
            consumed = decompressor.total_in() as usize;
            output.extend_from_slice(vstd::slice::slice_subrange(chunk.as_slice(), 0, written));
            assert(output@ =~= inflate_given(*decompressor));
            match step {
                Ok(Step::Ended) => ended = true,
                Ok(Step::Going) => {},
                Ok(Step::Stalled) => return Err(
                    malformed_compressed_payload(
                        "gzip decompression stalled: truncated or invalid deflate stream",
                    ),
                ),
                Err(cause) => {
                    let mut message = "gzip decompression failed: ".to_owned();
                    message.push_str(cause.as_str());
                    assert(is_bad_stream_error(
                        plain_error(ErrorCode::InvalidArgument, "gzip decompression failed: "@ + cause@),
                    ));
                    return Err(malformed_compressed_payload(message.as_str()));
                },
            }
            if output.len() > max_size {
                return Err(limit_error(max_size));
            }
            assert(!ended ==> consumed > consumed_before || output@.len() > length_before);
        }

        // The 8-byte trailer (CRC32 + ISIZE) follows the deflate stream.
        if stream.len() - consumed < 8 {
            return Err(malformed_compressed_payload("gzip data too short for trailer"));
        }
        let expected_crc: u32 = read_le32(stream, consumed);
        let expected_size: u32 = read_le32(stream, consumed + 4);
        if crc32(output.as_slice()) != expected_crc {
            return Err(malformed_compressed_payload("gzip CRC32 mismatch"));
        }
        if expected_size != (output.len() as u64 % 0x1_0000_0000) as u32 {
            return Err(malformed_compressed_payload("gzip size mismatch"));
        }
        Ok(bytes_from_vec(output))
    }
}

/// What `GzDecoder` reads from the gzip member at the front of `data`; nothing
/// where that is malformed or truncated.
pub uninterp spec fn gz_decoded(data: Seq<u8>) -> Option<Seq<u8>>;

/// `Read::read_to_end` of the first `at_most` bytes of a `GzDecoder` over
/// `data`, appended to `buf`. It succeeds on sound data where what is to be
/// read fits a vector, and reads what a member was made of. Of malformed data it
/// is said only that it fails unless that many bytes came out before.
#[verifier::external_body]
fn gz_read(data: &[u8], at_most: u64, buf: &mut Vec<u8>) -> (done: Result<(), String>)
    requires
        old(buf)@.len() == 0,
    ensures
        final(buf)@.len() <= at_most,
        gz_decoded(data@) matches Some(out) ==> (readable(out, at_most as nat) ==> done is Ok),
        gz_decoded(data@) matches Some(out) ==> (done is Ok ==> final(buf)@ == front_of(out, at_most as nat)),
        gz_decoded(data@) is None ==> (done is Ok ==> final(buf)@.len() == at_most),
        forall|x: Seq<u8>| #[trigger]
            gzip_member(data@, x) ==> (readable(x, at_most as nat) ==> done is Ok) && (done is Ok ==> final(buf)@
                == front_of(x, at_most as nat)),
{
    flate2::read::GzDecoder::new(data).take(at_most).read_to_end(buf).map(|_n| ()).map_err(|e| e.to_string())
}

/// What reading the first `at_most` bytes of sound data comes to. It fails only
/// where they do not fit a vector.
pub open spec fn front_read(out: Seq<u8>, at_most: nat, r: Result<ReadView, ErrorView>) -> bool {
    ||| r == Ok::<ReadView, ErrorView>(ReadView::Bytes(front_of(out, at_most)))
    ||| !readable(out, at_most) && r matches Ok(ReadView::Failed(_))
}

/// What was compressed is read back a part at a time too: reading a member that
/// was made of `data` gives the front of `data`, as much as was asked for.
pub proof fn lemma_gzip_is_read(
    provider: GzipProvider,
    data: Seq<u8>,
    member: Seq<u8>,
    at_most: nat,
    r: Result<ReadView, ErrorView>,
)
    requires
        gzip_member(member, data),
        readable(data, at_most),
        provider.reads(member, at_most, r),
    ensures
        r == Ok::<ReadView, ErrorView>(ReadView::Bytes(front_of(data, at_most))),
{
}

impl CompressionProvider for GzipProvider {
    open spec fn label(&self) -> Seq<char> {
        "gzip"@
    }

    open spec fn compresses(&self, data: Seq<u8>, r: Outcome) -> bool {
        gzip_compressed(data, r)
    }

    open spec fn reads(&self, data: Seq<u8>, at_most: nat, r: Result<ReadView, ErrorView>) -> bool {
        &&& r is Ok
        &&& match gz_decoded(data) {
            Some(out) => front_read(out, at_most, r),
            None => r matches Ok(ReadView::Bytes(b)) ==> b.len() == at_most,
        }
        &&& forall|x: Seq<u8>| #[trigger] gzip_member(data, x) ==> front_read(x, at_most, r)
    }

    open spec fn decompresses(&self, data: Seq<u8>, max_size: nat, r: Outcome) -> bool {
        gzip_decompressed(data, max_size, r)
    }

    fn name(&self) -> (name: &'static str) {
        "gzip"
    }

    fn compress(&self, data: &[u8]) -> (r: Result<Bytes, ConnectError>) {
        let mut compressor = self.take_compressor();
        let r = GzipProvider::compress_inner(&mut compressor, data);
        self.return_compressor(compressor);
        r
    }

    fn decompressor(&self, data: &[u8], at_most: u64) -> (r: Result<ReadOutcome, ConnectError>) {
        let mut buf: Vec<u8> = Vec::new();
        match gz_read(data, at_most, &mut buf) {
            Ok(()) => Ok(ReadOutcome::Bytes(buf)),
            Err(cause) => Ok(ReadOutcome::Failed(cause)),
        }
    }

    fn decompress_with_limit(&self, data: &[u8], max_size: usize) -> (r: Result<Bytes, ConnectError>)
        ensures
            gzip_decompressed(data@, max_size as nat, outcome_view(r)),
    {
        let mut decompressor = self.take_decompressor();
        let r = GzipProvider::decompress_inner(&mut decompressor, data, max_size);
        self.return_decompressor(decompressor);
        r
    }
}

} // verus!
