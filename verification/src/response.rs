//! Encoded message bodies.
use bytes::Bytes;
use bytes::BytesMut;
use vstd::prelude::*;

use crate::buffer::BufferView;

verus! {

/// An encoded message body, in one piece or in segments that an encoder handed
/// over without copying them.
#[derive(Debug, Clone)]
pub enum EncodedBody {
    /// In one piece.
    Contiguous(Bytes),
    /// In segments, in wire order.
    Segmented(Vec<Bytes>),
}

/// The bytes of segments in order.
pub open spec fn segment_bytes(segments: Seq<Bytes>) -> Seq<u8>
    decreases segments.len(),
{
    if segments.len() == 0 {
        Seq::empty()
    } else {
        segment_bytes(segments.drop_last()) + segments.last()@
    }
}

impl EncodedBody {
    /// The segments of the body.
    pub open spec fn pieces(&self) -> Seq<Bytes> {
        match self {
            EncodedBody::Contiguous(bytes) => seq![*bytes],
            EncodedBody::Segmented(segments) => segments@,
        }
    }

    /// The bytes of the body.
    pub open spec fn content(&self) -> Seq<u8> {
        segment_bytes(self.pieces())
    }

    /// The number of bytes over all segments.
    pub fn len(&self) -> (total: usize)
        requires
            self.content().len() <= usize::MAX,
        ensures
            total == self.content().len(),
    {
        match self {
            EncodedBody::Contiguous(bytes) => {
                proof {
                    lemma_single_segment(*bytes);
                }
                bytes.len()
            },
            EncodedBody::Segmented(segments) => {
                let mut total: usize = 0;
                let mut i: usize = 0;
                assert(segments@.take(0) =~= Seq::empty());
                while i < segments.len()
                    invariant
                        i <= segments@.len(),
                        segment_bytes(segments@).len() <= usize::MAX,
                        total == segment_bytes(segments@.take(i as int)).len(),
                    decreases segments@.len() - i,
                {
                    assert(segments@.take(i as int + 1).drop_last() =~= segments@.take(i as int));
                    proof {
                        lemma_front_is_shorter(segments@, i as int + 1);
                    }
                    total = total + segments[i].len();
                    i = i + 1;
                }
                assert(segments@.take(segments@.len() as int) =~= segments@);
                total
            },
        }
    }

    /// Append the bytes of the body to a buffer.
    pub fn copy_to(&self, dst: &mut BytesMut)
        ensures
            final(dst)@ == old(dst)@ + self.content(),
    {
        match self {
            EncodedBody::Contiguous(bytes) => {
                proof {
                    lemma_single_segment(*bytes);
                }
                dst.extend_from_slice(bytes);
            },
            EncodedBody::Segmented(segments) => {
                let mut i: usize = 0;
                assert(segments@.take(0) =~= Seq::empty());
                assert(dst@ =~= old(dst)@ + segment_bytes(segments@.take(0)));
                while i < segments.len()
                    invariant
                        i <= segments@.len(),
                        dst@ == old(dst)@ + segment_bytes(segments@.take(i as int)),
                    decreases segments@.len() - i,
                {
                    assert(segments@.take(i as int + 1).drop_last() =~= segments@.take(i as int));
                    dst.extend_from_slice(&segments[i]);
                    assert(dst@ =~= old(dst)@ + segment_bytes(segments@.take(i as int + 1)));
                    i = i + 1;
                }
                assert(segments@.take(segments@.len() as int) =~= segments@);
            },
        }
    }

    /// The body in one piece.
    pub fn into_contiguous(self) -> (bytes: Bytes)
        ensures
            bytes@ == self.content(),
    {
        match self {
            EncodedBody::Contiguous(bytes) => {
                proof {
                    lemma_single_segment(bytes);
                }
                bytes
            },
            EncodedBody::Segmented(segments) => {
                let mut buf = BytesMut::new();
                let body = EncodedBody::Segmented(segments);
                body.copy_to(&mut buf);
                assert(buf@ =~= body.content());
                buf.freeze()
            },
        }
    }

    /// The segments of the body.
    pub fn into_segments(self) -> (segments: Vec<Bytes>)
        ensures
            segments@ == self.pieces(),
    {
        match self {
            EncodedBody::Contiguous(bytes) => {
                let mut segments: Vec<Bytes> = Vec::new();
                segments.push(bytes);
                assert(segments@ =~= seq![bytes]);
                segments
            },
            EncodedBody::Segmented(segments) => segments,
        }
    }
}

/// One segment is the whole body.
pub proof fn lemma_single_segment(bytes: Bytes)
    ensures
        segment_bytes(seq![bytes]) == bytes@,
{
    reveal_with_fuel(segment_bytes, 2);
    assert(seq![bytes].drop_last() =~= Seq::empty());
    assert(segment_bytes(seq![bytes]) =~= bytes@);
}

/// The first segments hold no more than all.
proof fn lemma_front_is_shorter(segments: Seq<Bytes>, n: int)
    requires
        0 <= n <= segments.len(),
    ensures
        segment_bytes(segments.take(n)).len() <= segment_bytes(segments).len(),
    decreases segments.len(),
{
    if n < segments.len() {
        lemma_front_is_shorter(segments.drop_last(), n);
        assert(segments.drop_last().take(n) =~= segments.take(n));
    } else {
        assert(segments.take(n) =~= segments);
    }
}

/// The bytes of segments one after the other.
pub proof fn lemma_segments_append(a: Seq<Bytes>, b: Seq<Bytes>)
    ensures
        segment_bytes(a + b) == segment_bytes(a) + segment_bytes(b),
    decreases b.len(),
{
    if b.len() == 0 {
        assert(a + b =~= a);
        assert(segment_bytes(a) + segment_bytes(b) =~= segment_bytes(a));
    } else {
        lemma_segments_append(a, b.drop_last());
        assert((a + b).drop_last() =~= a + b.drop_last());
        assert(segment_bytes(a + b) =~= segment_bytes(a) + segment_bytes(b));
    }
}

} // verus!
