//! Laws on envelopes: what their bytes are, and how they are read.
use vstd::prelude::*;

use crate::envelope::assembler::contiguous_run;
use crate::envelope::assembler::kind_for;
use crate::envelope::assembler::limit_for;
use crate::envelope::assembler::scanned_under;
use crate::envelope::assembler::Limits;
use crate::envelope::assembler::StreamTail;
use crate::envelope::declared_length;
use crate::envelope::envelope_bytes;
use crate::envelope::flags;
use crate::envelope::header_bytes;
use crate::envelope::lemma_envelope_round_trip;
use crate::envelope::lemma_header_declares;
use crate::envelope::marks_compressed;
use crate::envelope::marks_end_stream;
use crate::envelope::marks_web_trailer;
use crate::envelope::over_limit_text;
use crate::envelope::scanned;
use crate::envelope::Scan;
use crate::text::decimal;

verus! {

/// The bits of the flags of an envelope.
pub proof fn law_flag_bits(f: u8)
    ensures
        marks_compressed(f) <==> f % 2 == 1,
        marks_end_stream(f) <==> f / 2 % 2 == 1,
        marks_web_trailer(f) <==> f >= 128,
        flags::DATA == 0,
        flags::COMPRESSED == 1,
        flags::END_STREAM == 2,
        flags::GRPC_WEB_TRAILER == 128,
{
    assert((f & 1 != 0) == (f % 2 == 1)) by (bit_vector);
    assert((f & 2 != 0) == (f / 2 % 2 == 1)) by (bit_vector);
    assert((f & 128 != 0) == (f >= 128)) by (bit_vector);
}

/// An envelope is a byte of flags, four bytes that are the length of the
/// payload with the most significant byte first, and the payload.
pub proof fn law_envelope_layout(f: u8, payload: Seq<u8>)
    requires
        payload.len() <= u32::MAX,
    ensures
        envelope_bytes(f, payload).len() == 5 + payload.len(),
        envelope_bytes(f, payload)[0] == f,
        0x100_0000 * envelope_bytes(f, payload)[1] + 0x1_0000 * envelope_bytes(f, payload)[2] + 0x100
            * envelope_bytes(f, payload)[3] + envelope_bytes(f, payload)[4] == payload.len(),
        envelope_bytes(f, payload).skip(5) == payload,
{
    let bytes = envelope_bytes(f, payload);
    lemma_header_declares(f, payload.len(), payload);
    assert(bytes.skip(5) =~= payload);
}

/// A payload of exactly the limit is read, and one that is longer by a byte is
/// not: a header over the limit is refused before any of its payload arrives.
pub proof fn law_limit_is_inclusive(f: u8, length: nat, max: nat, arrived: Seq<u8>)
    requires
        length <= u32::MAX,
    ensures
        length > max ==> scanned(header_bytes(f, length) + arrived, max) == (Scan::TooLarge { length }),
        length <= max && arrived.len() < length ==> scanned(header_bytes(f, length) + arrived, max) is Partial,
        length <= max && arrived.len() >= length ==> scanned(header_bytes(f, length) + arrived, max) == (Scan::Whole {
            flags: f,
            payload: arrived.take(length as int),
            rest: arrived.skip(length as int),
        }),
{
    let bytes = header_bytes(f, length) + arrived;
    lemma_header_declares(f, length, arrived);
    if length <= max && arrived.len() >= length {
        assert(bytes.subrange(5, 5 + length as int) =~= arrived.take(length as int));
        assert(bytes.skip(5 + length as int) =~= arrived.skip(length as int));
    }
}

/// Less than a header says nothing.
pub proof fn law_short_front_says_nothing(bytes: Seq<u8>, max: nat)
    requires
        bytes.len() < 5,
    ensures
        scanned(bytes, max) is Partial,
{
}

/// Nothing is made up and nothing is lost: what is read of a whole envelope,
/// written again, is what was there.
pub proof fn law_read_envelope_is_what_was_there(bytes: Seq<u8>, max: nat)
    ensures
        scanned(bytes, max) matches Scan::Whole { flags, payload, rest } ==> payload.len() <= max && bytes
            == envelope_bytes(flags, payload) + rest,
{
    if let Scan::Whole { flags, payload, rest } = scanned(bytes, max) {
        let n = declared_length(bytes);
        assert(n / 0x100_0000 == bytes[1]);
        assert(n / 0x1_0000 % 0x100 == bytes[2]);
        assert(n / 0x100 % 0x100 == bytes[3]);
        assert(n % 0x100 == bytes[4]);
        assert(bytes =~= envelope_bytes(flags, payload) + rest);
    }
}

/// A trailer frame is held to the limit for trailers where there is one, and
/// every other frame to the limit for messages. The error for either says which
/// it is.
pub proof fn law_limits_by_frame(limits: Limits, f: u8)
    ensures
        f < 128 ==> limit_for(limits, f) == limits.message && kind_for(limits, f) == "message"@,
        limits.trailer is None ==> limit_for(limits, f) == limits.message && kind_for(limits, f) == "message"@,
        f >= 128 && limits.trailer is Some ==> limit_for(limits, f) == limits.trailer->0 && kind_for(limits, f)
            == "grpc-web trailer"@,
{
    law_flag_bits(f);
}

/// What an error says of a frame over its limit: what it is, its length and the
/// limit, in this order.
pub proof fn law_over_limit_text(what: Seq<char>, length: nat, limit: nat)
    ensures
        over_limit_text(what, length, limit) == what + " size "@ + decimal(length) + " exceeds limit "@ + decimal(limit),
        over_limit_text(what, length, limit).take(what.len() as int) == what,
{
    assert(over_limit_text(what, length, limit).take(what.len() as int) =~= what);
}

/// The envelopes of a stream, one after the other.
pub open spec fn written_envelopes(list: Seq<(u8, Seq<u8>)>) -> Seq<u8>
    decreases list.len(),
{
    if list.len() == 0 {
        Seq::empty()
    } else {
        envelope_bytes(list[0].0, list[0].1) + written_envelopes(list.drop_first())
    }
}

/// A stream of envelopes is read back as the envelopes that were written, in
/// order, with nothing left over.
pub proof fn law_stream_of_envelopes_is_read_back(list: Seq<(u8, Seq<u8>)>, limits: Limits)
    requires
        forall|i: int|
            0 <= i < list.len() ==> (#[trigger] list[i]).1.len() <= limit_for(limits, list[i].0) && list[i].1.len()
                <= u32::MAX,
    ensures
        contiguous_run(written_envelopes(list), limits).envelopes == list,
        contiguous_run(written_envelopes(list), limits).tail == (StreamTail::Left { bytes: Seq::empty() }),
    decreases list.len(),
{
    let bytes = written_envelopes(list);
    if list.len() > 0 {
        let (f, payload) = list[0];
        let rest = list.drop_first();
        assert forall|i: int| 0 <= i < rest.len() implies (#[trigger] rest[i]).1.len() <= limit_for(limits, rest[i].0)
            && rest[i].1.len() <= u32::MAX by {
            assert(rest[i] == list[i + 1]);
        }
        law_stream_of_envelopes_is_read_back(rest, limits);
        lemma_envelope_round_trip(f, payload, written_envelopes(rest), limit_for(limits, f));
        assert(bytes[0] == f);
        assert(scanned_under(bytes, limits) == (Scan::Whole { flags: f, payload, rest: written_envelopes(rest) }));
        assert(seq![(f, payload)] + rest =~= list);
    } else {
        assert(list =~= Seq::empty());
    }
}

/// A stream that is cut off behind whole envelopes leaves just what of the next
/// one has arrived.
pub proof fn law_cut_stream_keeps_the_rest(list: Seq<(u8, Seq<u8>)>, rest: Seq<u8>, limits: Limits)
    requires
        forall|i: int|
            0 <= i < list.len() ==> (#[trigger] list[i]).1.len() <= limit_for(limits, list[i].0) && list[i].1.len()
                <= u32::MAX,
        scanned_under(rest, limits) is Partial,
    ensures
        contiguous_run(written_envelopes(list) + rest, limits).envelopes == list,
        contiguous_run(written_envelopes(list) + rest, limits).tail == (StreamTail::Left { bytes: rest }),
    decreases list.len(),
{
    let bytes = written_envelopes(list) + rest;
    if list.len() > 0 {
        let (f, payload) = list[0];
        let more = list.drop_first();
        assert forall|i: int| 0 <= i < more.len() implies (#[trigger] more[i]).1.len() <= limit_for(limits, more[i].0)
            && more[i].1.len() <= u32::MAX by {
            assert(more[i] == list[i + 1]);
        }
        law_cut_stream_keeps_the_rest(more, rest, limits);
        let behind = written_envelopes(more) + rest;
        assert(bytes =~= envelope_bytes(f, payload) + behind);
        lemma_envelope_round_trip(f, payload, behind, limit_for(limits, f));
        assert(bytes[0] == f);
        assert(scanned_under(bytes, limits) == (Scan::Whole { flags: f, payload, rest: behind }));
        assert(seq![(f, payload)] + more =~= list);
    } else {
        assert(bytes =~= rest);
        assert(list =~= Seq::empty());
    }
}

} // verus!
