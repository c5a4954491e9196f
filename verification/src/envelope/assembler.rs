//! Assembly of envelopes from transport frames that cut them anywhere.
use bytes::Bytes;
use bytes::BytesMut;
use vstd::prelude::*;

use super::declared_length;
use super::flags;
use super::lemma_scan_extends;
use super::marks_web_trailer;
use super::over_limit_error;
use super::over_limit_text;
use super::read_be32;
use super::scanned;
use super::Envelope;
use super::Scan;
use super::HEADER_SIZE;
use crate::buffer::bytes_advance;
use crate::buffer::bytes_from_vec;
use crate::buffer::BufferView;
use crate::error::plain_error;
use crate::error::ConnectError;
use crate::error::ErrorCode;

verus! {

/// Size of the per-stream slab that small streamed payloads are copied into.
/// It bounds what a held small message can keep alive and what an idle stream
/// retains.
pub const READ_SLAB_SIZE: usize = 8192;

/// The largest payload that is assembled in the slab.
pub const SLAB_PAYLOAD: usize = 4096;

/// `Vec::capacity` is never below the length.
#[verifier::external_body]
fn vec_capacity(v: &Vec<u8>) -> (capacity: usize)
    ensures
        capacity >= v@.len(),
{
    v.capacity()
}

/// `Vec::reserve_exact` makes room and leaves the elements as they are. It
/// panics where the room exceeds what an allocation can hold.
#[verifier::external_body]
fn vec_reserve_exact(v: &mut Vec<u8>, additional: usize)
    requires
        old(v)@.len() + additional <= isize::MAX,
    ensures
        final(v)@ == old(v)@,
{
    v.reserve_exact(additional)
}

/// The limits that an assembler holds its frames to.
pub struct Limits {
    /// For messages.
    pub message: nat,
    /// For gRPC-Web trailer frames, where they have a limit of their own.
    pub trailer: Option<nat>,
}

/// The limit for a frame with the given flags.
pub open spec fn limit_for(limits: Limits, flags: u8) -> nat {
    match limits.trailer {
        Some(limit) => if marks_web_trailer(flags) {
            limit
        } else {
            limits.message
        },
        None => limits.message,
    }
}

/// What a frame with the given flags is called in an error.
pub open spec fn kind_for(limits: Limits, flags: u8) -> Seq<char> {
    if limits.trailer is Some && marks_web_trailer(flags) {
        "grpc-web trailer"@
    } else {
        "message"@
    }
}

/// Look for an envelope at the front of `bytes`, each kind of frame under its
/// own limit.
pub open spec fn scanned_under(bytes: Seq<u8>, limits: Limits) -> Scan {
    scanned(bytes, limit_for(limits, bytes[0]))
}

/// Incremental envelope decoder fed one transport body frame at a time.
///
/// It carries at most the 5 header bytes between frames and checks the
/// declared length against the limit before anything is allocated. Payloads
/// larger than half of [`READ_SLAB_SIZE`] are assembled into their own
/// allocation, which grows with the bytes received; smaller payloads are
/// copied into a per-stream slab and split off its front.
pub struct EnvelopeAssembler {
    max_message_size: usize,
    grpc_web_trailer_limit: Option<usize>,
    header: [u8; 5],
    header_len: usize,
    /// The payload length that the header declared.
    pub expected: usize,
    /// A large payload, as far as it has arrived.
    pub body: Vec<u8>,
    /// Where small payloads are assembled.
    pub slab: Option<BytesMut>,
}

impl EnvelopeAssembler {
    /// The limits that frames are held to.
    pub closed spec fn limits(&self) -> Limits {
        Limits {
            message: self.max_message_size as nat,
            trailer: match self.grpc_web_trailer_limit {
                Some(limit) => Some(limit as nat),
                None => None,
            },
        }
    }

    spec fn slab_bytes(&self) -> Seq<u8> {
        match self.slab {
            Some(slab) => slab@,
            None => Seq::empty(),
        }
    }

    /// The payload bytes received so far.
    spec fn received(&self) -> Seq<u8> {
        if self.header_len < HEADER_SIZE {
            Seq::empty()
        } else if self.expected <= SLAB_PAYLOAD {
            self.slab_bytes()
        } else {
            self.body@
        }
    }

    /// The bytes received of the envelope that is not complete yet.
    pub closed spec fn pending(&self) -> Seq<u8> {
        self.header@.take(self.header_len as int) + self.received()
    }

    /// The parts of the assembler agree with one another.
    pub closed spec fn inv(&self) -> bool {
        &&& self.header_len <= HEADER_SIZE
        &&& self.header_len < HEADER_SIZE ==> self.slab_bytes().len() == 0 && self.body@.len() == 0
        &&& self.header_len == HEADER_SIZE ==> {
            &&& self.expected == declared_length(self.header@)
            &&& self.expected <= limit_for(self.limits(), self.header@[0])
            &&& self.received().len() < self.expected
            &&& self.expected <= SLAB_PAYLOAD ==> self.body@.len() == 0
            &&& self.expected > SLAB_PAYLOAD ==> self.slab_bytes().len() == 0
        }
    }

    /// An assembler that has received nothing, with one limit for all frames.
    pub fn new(max_message_size: usize) -> (assembler: Self)
        ensures
            assembler.inv(),
            assembler.pending() == Seq::<u8>::empty(),
            assembler.limits() == (Limits { message: max_message_size as nat, trailer: None }),
    {
        let assembler = EnvelopeAssembler {
            max_message_size,
            grpc_web_trailer_limit: None,
            header: [0; 5],
            header_len: 0,
            expected: 0,
            body: Vec::new(),
            slab: None,
        };
        assert(assembler.pending() =~= Seq::<u8>::empty());
        assembler
    }

    /// Accept gRPC-Web trailer frames up to `limit` bytes regardless of the
    /// message limit (trailers are metadata, not a message).
    pub fn with_grpc_web_trailer_limit(self, limit: usize) -> (assembler: Self)
        requires
            self.inv(),
            self.pending().len() == 0,
        ensures
            assembler.inv(),
            assembler.pending() == self.pending(),
            assembler.limits() == (Limits { trailer: Some(limit as nat), ..self.limits() }),
    {
        EnvelopeAssembler { grpc_web_trailer_limit: Some(limit), ..self }
    }

    /// The limit for messages.
    pub fn max_message_size(&self) -> (limit: usize)
        ensures
            limit == self.limits().message,
    {
        self.max_message_size
    }

    /// Whether an envelope has started (at least one header byte) and not yet
    /// been emitted.
    pub fn has_partial(&self) -> (partial: bool)
        requires
            self.inv(),
        ensures
            partial == (self.pending().len() > 0),
    {
        self.header_len > 0
    }

    /// Consume bytes from the front of `frame` until one envelope completes
    /// (`Ok(Some)`; `frame` keeps any bytes after it, so call again) or the
    /// frame is exhausted (`Ok(None)`).
    ///
    /// An error comes as soon as a header declares more than the limit, before
    /// anything is allocated for it, and leaves the payload unread. Framing is
    /// lost at that point; the stream must be abandoned.
    #[verifier::rlimit(60)]
    #[verifier::spinoff_prover]
    pub fn feed(&mut self, frame: &mut Bytes) -> (outcome: Result<Option<Envelope>, ConnectError>)
        requires
            old(self).inv(),
        ensures
            final(self).limits() == old(self).limits(),
            match scanned_under(old(self).pending() + old(frame)@, old(self).limits()) {
                Scan::Partial => outcome matches Ok(None) && final(self).inv() && final(self).pending()
                    == old(self).pending() + old(frame)@ && final(frame)@ == Seq::<u8>::empty(),
                Scan::TooLarge { length } => outcome matches Err(e) && e@ == plain_error(
                    ErrorCode::ResourceExhausted,
                    over_limit_text(
                        kind_for(old(self).limits(), (old(self).pending() + old(frame)@)[0]),
                        length,
                        limit_for(old(self).limits(), (old(self).pending() + old(frame)@)[0]),
                    ),
                ) && final(frame)@ == (old(self).pending() + old(frame)@).skip(HEADER_SIZE as int),
                Scan::Whole { flags, payload, rest } => outcome matches Ok(Some(envelope))
                    && envelope.flags == flags && envelope.data@ == payload && final(self).inv()
                    && final(self).pending() == Seq::<u8>::empty() && final(frame)@ == rest,
            },
    {
        let ghost all = old(self).pending() + old(frame)@;
        if self.header_len < HEADER_SIZE {
            let take: usize = if HEADER_SIZE - self.header_len < frame.len() {
                HEADER_SIZE - self.header_len
            } else {
                frame.len()
            };
            let start: usize = self.header_len;
            let mut i: usize = 0;
            while i < take
                invariant
                    i <= take,
                    take <= frame@.len(),
                    start + take <= HEADER_SIZE,
                    frame@ == old(frame)@,
                    self.header@.len() == 5,
                    self.max_message_size == old(self).max_message_size,
                    self.grpc_web_trailer_limit == old(self).grpc_web_trailer_limit,
                    self.header_len == start,
                    start == old(self).header_len,
                    self.expected == old(self).expected,
                    self.body == old(self).body,
                    self.slab == old(self).slab,
                    forall|k: int| 0 <= k < start ==> self.header@[k] == old(self).header@[k],
                    forall|k: int| start <= k < start + i ==> self.header@[k] == frame@[k - start],
                decreases take - i,
            {
                let byte: u8 = frame[i];
                self.header[start + i] = byte;
                i = i + 1;
            }
            bytes_advance(frame, take);
            self.header_len = start + take;
            if self.header_len < HEADER_SIZE {
                // Exhausted mid-header.
                *frame = Bytes::new();
                assert(self.pending() =~= all);
                return Ok(None);
            }
            assert(all.take(5) =~= self.header@);
            assert(all.skip(5) =~= frame@);
            assert(declared_length(all) == declared_length(self.header@));
            let length: usize = read_be32(self.header[1], self.header[2], self.header[3], self.header[4]) as usize;
            let trailer: bool = self.header[0] & flags::GRPC_WEB_TRAILER != 0;
            let (what, limit): (&str, usize) = match self.grpc_web_trailer_limit {
                Some(limit) => if trailer {
                    ("grpc-web trailer", limit)
                } else {
                    ("message", self.max_message_size)
                },
                None => ("message", self.max_message_size),
            };
            if length > limit {
                return Err(over_limit_error(what, length, limit));
            }
            self.expected = length;
        }
        assert(all =~= self.header@ + self.received() + frame@);
        assert(declared_length(all) == declared_length(self.header@));
        let data = if self.expected == 0 {
            Some(Bytes::new())
        } else if self.expected <= SLAB_PAYLOAD {
            self.fill_slab(frame)
        } else {
            self.fill_body(frame)
        };
        if frame.is_empty() {
            *frame = Bytes::new();
            assert(frame@ =~= Seq::<u8>::empty());
        }
        match data {
            Some(data) => {
                self.header_len = 0;
                assert(self.pending() =~= Seq::<u8>::empty());
                assert(all.subrange(5, 5 + self.expected as int) =~= data@);
                assert(all.skip(5 + self.expected as int) =~= frame@);
                Ok(Some(Envelope { flags: self.header[0], data }))
            },
            None => {
                assert(self.pending() =~= all);
                Ok(None)
            },
        }
    }

    /// What assembling in one place comes to.
    spec fn filled(before: Self, frame: Seq<u8>, after: Self, left: Seq<u8>, data: Option<Bytes>) -> bool {
        let all = before.received() + frame;
        &&& after.max_message_size == before.max_message_size
        &&& after.grpc_web_trailer_limit == before.grpc_web_trailer_limit
        &&& after.header == before.header
        &&& after.header_len == before.header_len
        &&& after.expected == before.expected
        &&& match data {
            Some(data) => {
                &&& all.len() >= before.expected
                &&& data@ == all.take(before.expected as int)
                &&& left == all.skip(before.expected as int)
                &&& after.slab_bytes().len() == 0
                &&& after.body@.len() == 0
            },
            None => {
                &&& all.len() < before.expected
                &&& after.received() == all
                &&& left.len() == 0
                &&& before.expected <= SLAB_PAYLOAD ==> after.body@.len() == 0
                &&& before.expected > SLAB_PAYLOAD ==> after.slab_bytes().len() == 0
            },
        }
    }

    /// Copy a small payload into the slab; split it off once complete.
    fn fill_slab(&mut self, frame: &mut Bytes) -> (data: Option<Bytes>)
        requires
            old(self).header_len == HEADER_SIZE,
            0 < old(self).expected <= SLAB_PAYLOAD,
            old(self).slab_bytes().len() < old(self).expected,
            old(self).body@.len() == 0,
        ensures
            Self::filled(*old(self), old(frame)@, *final(self), final(frame)@, data),
    {
        let expected: usize = self.expected;
        if self.slab.is_none() {
            self.slab = Some(BytesMut::with_capacity(READ_SLAB_SIZE));
        }
        let ghost all = old(self).slab_bytes() + old(frame)@;
        assert(self.slab_bytes() =~= old(self).slab_bytes());
        match &mut self.slab {
            Some(slab) => {
                if slab.is_empty() {
                    // Start of a payload. A no-op while the slab has room; once
                    // it is used up this reuses it in place if every message cut
                    // from it has been dropped, and otherwise allocates a fresh
                    // block.
                    slab.reserve(expected);
                }
                let missing: usize = expected - slab.len();
                let take: usize = if missing < frame.len() {
                    missing
                } else {
                    frame.len()
                };
                let front = frame.split_to(take);
                slab.extend_from_slice(&front);
                if slab.len() == expected {
                    let data = slab.split_to(expected).freeze();
                    assert(data@ =~= all.take(expected as int));
                    assert(frame@ =~= all.skip(expected as int));
                    Some(data)
                } else {
                    assert(slab@ =~= all);
                    None
                }
            },
            None => None,
        }
    }

    /// Assemble a larger payload into its own allocation.
    fn fill_body(&mut self, frame: &mut Bytes) -> (data: Option<Bytes>)
        requires
            old(self).header_len == HEADER_SIZE,
            old(self).expected > SLAB_PAYLOAD,
            old(self).body@.len() < old(self).expected,
            old(self).slab_bytes().len() == 0,
        ensures
            Self::filled(*old(self), old(frame)@, *final(self), final(frame)@, data),
    {
        let ghost all = old(self).body@ + old(frame)@;
        let missing: usize = self.expected - self.body.len();
        let take: usize = if missing < frame.len() {
            missing
        } else {
            frame.len()
        };
        let capacity: usize = vec_capacity(&self.body);
        if capacity - self.body.len() < take {
            let target: usize = growth_target(capacity, self.body.len() + take, self.expected);
            if target <= isize::MAX as usize {
                let additional: usize = target - self.body.len();
                vec_reserve_exact(&mut self.body, additional);
            }
        }
        let front = frame.split_to(take);
        self.body.extend_from_slice(&front);
        assert(self.body@ =~= old(self).body@ + front@);
        if self.body.len() < self.expected {
            assert(self.body@ =~= all);
            return None;
        }
        let mut whole: Vec<u8> = Vec::new();
        std::mem::swap(&mut whole, &mut self.body);
        assert(whole@ =~= all.take(self.expected as int));
        assert(frame@ =~= all.skip(self.expected as int));
        Some(bytes_from_vec(whole))
    }
}

/// The capacity to grow an assembly buffer to: room for the bytes that have
/// arrived, at most twice what there was, and never more than the declared
/// length, so that a peer cannot claim memory by declaring a length.
pub fn growth_target(capacity: usize, arrived: usize, declared: usize) -> (target: usize)
    requires
        arrived <= declared,
    ensures
        arrived <= target <= declared,
        target <= arrived || target <= 2 * capacity,
        target == declared || target >= 2 * capacity,
{
    let doubled: usize = if capacity > usize::MAX / 2 {
        usize::MAX
    } else {
        capacity * 2
    };
    let wanted: usize = if doubled > arrived {
        doubled
    } else {
        arrived
    };
    if wanted < declared {
        wanted
    } else {
        declared
    }
}

// ---------------------------------------------------------------------------
// Whole streams
// ---------------------------------------------------------------------------

/// How a run of envelopes ends.
pub enum StreamTail {
    /// With bytes that are less than an envelope.
    Left { bytes: Seq<u8> },
    /// With a header that declares more than its limit.
    Lost { length: nat },
}

/// A run of envelopes, as flags and payload, and how it ends.
#[verifier::ext_equal]
pub struct Run {
    /// The envelopes in order.
    pub envelopes: Seq<(u8, Seq<u8>)>,
    /// What comes behind the last of them.
    pub tail: StreamTail,
}

/// One run behind some envelopes.
pub open spec fn behind(envelopes: Seq<(u8, Seq<u8>)>, run: Run) -> Run {
    Run { envelopes: envelopes + run.envelopes, tail: run.tail }
}

/// The envelopes that one contiguous byte sequence holds.
pub open spec fn contiguous_run(bytes: Seq<u8>, limits: Limits) -> Run
    decreases bytes.len(),
{
    match scanned_under(bytes, limits) {
        Scan::Partial => Run { envelopes: Seq::empty(), tail: StreamTail::Left { bytes } },
        Scan::TooLarge { length } => Run { envelopes: Seq::empty(), tail: StreamTail::Lost { length } },
        Scan::Whole { flags, payload, rest } => if rest.len() < bytes.len() {
            behind(seq![(flags, payload)], contiguous_run(rest, limits))
        } else {
            Run { envelopes: Seq::empty(), tail: StreamTail::Left { bytes } }
        },
    }
}

/// The envelopes that an assembler emits when it is fed one frame after the
/// other, each until it is exhausted, starting with `pending` bytes.
pub open spec fn assembled_run(pending: Seq<u8>, frames: Seq<Seq<u8>>, limits: Limits) -> Run
    decreases frames.len(),
{
    if frames.len() == 0 {
        contiguous_run(pending, limits)
    } else {
        let first = contiguous_run(pending + frames[0], limits);
        match first.tail {
            StreamTail::Left { bytes } => behind(
                first.envelopes,
                assembled_run(bytes, frames.drop_first(), limits),
            ),
            StreamTail::Lost { .. } => first,
        }
    }
}

/// All the bytes of a sequence of frames.
pub open spec fn joined(frames: Seq<Seq<u8>>) -> Seq<u8>
    decreases frames.len(),
{
    if frames.len() == 0 {
        Seq::empty()
    } else {
        frames[0] + joined(frames.drop_first())
    }
}

/// Reading on from where a run ended is reading it all at once.
proof fn lemma_run_extends(bytes: Seq<u8>, more: Seq<u8>, limits: Limits)
    ensures
        contiguous_run(bytes + more, limits) == match contiguous_run(bytes, limits).tail {
            StreamTail::Left { bytes: left } => behind(
                contiguous_run(bytes, limits).envelopes,
                contiguous_run(left + more, limits),
            ),
            StreamTail::Lost { .. } => contiguous_run(bytes, limits),
        },
    decreases bytes.len(),
{
    let whole = contiguous_run(bytes + more, limits);
    match scanned_under(bytes, limits) {
        Scan::Partial => {
            assert(behind(Seq::empty(), whole) =~= whole);
        },
        Scan::TooLarge { length } => {
            lemma_scan_extends(bytes, more, limit_for(limits, bytes[0]));
            assert((bytes + more)[0] == bytes[0]);
        },
        Scan::Whole { flags, payload, rest } => {
            lemma_scan_extends(bytes, more, limit_for(limits, bytes[0]));
            assert((bytes + more)[0] == bytes[0]);
            lemma_run_extends(rest, more, limits);
            let first = seq![(flags, payload)];
            let run = contiguous_run(rest, limits);
            match run.tail {
                StreamTail::Left { bytes: left } => {
                    let next = contiguous_run(left + more, limits);
                    assert(behind(first, behind(run.envelopes, next)) =~= behind(
                        first + run.envelopes,
                        next,
                    ));
                },
                StreamTail::Lost { .. } => {},
            }
        },
    }
}

/// How the transport cuts a stream into frames does not matter: the assembler
/// emits exactly the envelopes that decoding all bytes at once would give, and
/// ends with the same bytes left over or at the same oversized header.
pub proof fn lemma_frames_do_not_matter(pending: Seq<u8>, frames: Seq<Seq<u8>>, limits: Limits)
    ensures
        assembled_run(pending, frames, limits) == contiguous_run(pending + joined(frames), limits),
    decreases frames.len(),
{
    if frames.len() == 0 {
        assert(pending + joined(frames) =~= pending);
    } else {
        let rest = frames.drop_first();
        assert(pending + joined(frames) =~= (pending + frames[0]) + joined(rest));
        lemma_run_extends(pending + frames[0], joined(rest), limits);
        match contiguous_run(pending + frames[0], limits).tail {
            StreamTail::Left { bytes } => lemma_frames_do_not_matter(bytes, rest, limits),
            StreamTail::Lost { .. } => {},
        }
    }
}

} // verus!
