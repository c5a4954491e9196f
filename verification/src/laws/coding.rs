//! Laws on compression: when it applies, what is negotiated, and what the
//! encodings make of data.
use vstd::prelude::*;

use crate::client::unary::blamed;
use crate::client::unary::response_unpacked;
use crate::compression::front_of;
use crate::compression::gzip::crc32_of;
use crate::compression::gzip::deflates;
use crate::compression::gzip::first_zero;
use crate::compression::gzip::gzip_compressed;
use crate::compression::gzip::gzip_decompressed;
use crate::compression::gzip::gzip_header;
use crate::compression::gzip::gzip_member;
use crate::compression::gzip::gzip_trailer;
use crate::compression::gzip::inflated;
use crate::compression::gzip::is_bad_stream_error;
use crate::compression::gzip::le32;
use crate::compression::gzip::le32_bytes;
use crate::compression::gzip::past_extra;
use crate::compression::gzip::past_text;
use crate::compression::gzip::plain_header;
use crate::compression::gzip::stalled_text;
use crate::compression::initial_capacity;
use crate::compression::limited;
use crate::compression::one_beyond;
use crate::compression::registry::accepted_names;
use crate::compression::registry::ascending;
use crate::compression::registry::comma_joined;
use crate::compression::registry::first_offered;
use crate::compression::registry::negotiated;
use crate::compression::registry::registry_compresses;
use crate::compression::registry::registry_decompresses;
use crate::compression::registry::stream_coding;
use crate::compression::registry::RegistryView;
use crate::compression::registry::StreamCoding;
use crate::compression::zstandard::frames_limited;
use crate::compression::zstandard::frames_read;
use crate::compression::zstandard::is_bad_frame_error;
use crate::compression::zstandard::is_no_compressor_error;
use crate::compression::zstandard::zstd_compressed;
use crate::compression::zstandard::zstd_decoded;
use crate::compression::zstandard::zstd_decompressed;
use crate::compression::zstandard::ReadFailure;
use crate::compression::CompressionPolicy;
use crate::compression::CompressionProvider;
use crate::compression::GzipProvider;
use crate::compression::Outcome;
use crate::compression::ReadView;
use crate::compression::ZstdProvider;
use crate::error::plain_error;
use crate::error::ConnectError;
use crate::error::ErrorCode;
use crate::error::ErrorView;
use crate::laws::texts::is_tight;
use crate::laws::texts::law_beginnings;
use crate::laws::texts::law_nothing_to_cut;
use crate::laws::texts::law_split_undoes_joining;
use crate::laws::texts::law_trimming_takes_white_space_only;
use crate::text::begins_with;
use crate::text::decimal;
use crate::text::precedes;
use crate::text::split;
use crate::text::trimmed;

verus! {

// ---------------------------------------------------------------------------
// When to compress
// ---------------------------------------------------------------------------

/// A message is compressed where compression is enabled and the message is not
/// smaller than the minimum. A message of exactly the minimum is compressed.
pub proof fn law_policy_applies_from_its_minimum(policy: CompressionPolicy, size: nat)
    ensures
        policy.enabled && size >= policy.min_size ==> policy.applies(size),
        size < policy.min_size ==> !policy.applies(size),
        !policy.enabled ==> !policy.applies(size),
{
}

/// A call can have any message compressed, or none, whatever the policy says;
/// and a call that says nothing leaves the policy as it is.
pub proof fn law_call_overrides_policy(policy: CompressionPolicy, size: nat)
    ensures
        policy.overridden(Some(true)).applies(size),
        !policy.overridden(Some(false)).applies(size),
        policy.overridden(None) == policy,
        policy.overridden(Some(false)) == (CompressionPolicy { enabled: false, min_size: 0 }),
        policy.overridden(Some(true)) == (CompressionPolicy { enabled: true, min_size: 0 }),
{
}

// ---------------------------------------------------------------------------
// Negotiation
// ---------------------------------------------------------------------------

/// Names that can stand in a list: not empty, without white space around them
/// and without a comma.
pub open spec fn can_be_listed(names: Seq<Seq<char>>) -> bool {
    forall|i: int|
        0 <= i < names.len() ==> (#[trigger] names[i]).len() > 0 && is_tight(names[i]) && !names[i].contains(',')
}

/// A list of names comes apart at its first comma.
proof fn lemma_list_front(names: Seq<Seq<char>>)
    requires
        names.len() > 1,
    ensures
        comma_joined(names) == names[0] + seq![',', ' '] + comma_joined(names.drop_first()),
    decreases names.len(),
{
    reveal_strlit(", ");
    reveal_with_fuel(comma_joined, 2);
    assert(", "@ =~= seq![',', ' ']);
    if names.len() == 2 {
        assert(names.drop_last()[0] == names[0]);
        assert(names.drop_first()[0] == names[1]);
        assert(comma_joined(names) =~= names[0] + seq![',', ' '] + names[1]);
    } else {
        lemma_list_front(names.drop_last());
        assert(names.drop_last().drop_first() =~= names.drop_first().drop_last());
        assert(names.drop_first().last() == names.last());
        assert(comma_joined(names) =~= names[0] + seq![',', ' '] + comma_joined(names.drop_first()));
    }
}

/// The pieces of a list with white space in front.
proof fn lemma_list_pieces(names: Seq<Seq<char>>, blank: Seq<char>)
    requires
        names.len() > 0,
        can_be_listed(names),
        blank.len() <= 1,
        blank.len() == 1 ==> blank[0] == ' ',
    ensures
        accepted_names(blank + comma_joined(names)) == names,
    decreases names.len(),
{
    let text = blank + comma_joined(names);
    let trim = |piece: Seq<char>| trimmed(piece);
    let first = blank + names[0];
    assert(names[0].len() > 0 && is_tight(names[0]) && !names[0].contains(','));
    assert(!first.contains(',')) by {
        if first.contains(',') {
            let i = choose|i: int| 0 <= i < first.len() && first[i] == ',';
            if i >= blank.len() {
                assert(names[0][i - blank.len()] == ',');
            }
        }
    }
    law_trimming_takes_white_space_only(blank, names[0], Seq::empty());
    assert(blank + names[0] + Seq::<char>::empty() =~= first);
    if names.len() == 1 {
        assert(text =~= first);
        law_nothing_to_cut(first, ',');
        assert(accepted_names(text) =~= names);
    } else {
        let rest = names.drop_first();
        assert forall|i: int| 0 <= i < rest.len() implies (#[trigger] rest[i]).len() > 0 && is_tight(rest[i])
            && !rest[i].contains(',') by {
            assert(rest[i] == names[i + 1]);
        }
        lemma_list_front(names);
        let behind = seq![' '] + comma_joined(rest);
        assert(text =~= first + seq![','] + behind);
        law_split_undoes_joining(first, ',', behind);
        lemma_list_pieces(rest, seq![' ']);
        let pieces = split(text, ',');
        assert(pieces =~= seq![first] + split(behind, ','));
        assert(pieces.map_values(trim) =~= seq![trimmed(first)] + split(behind, ',').map_values(trim));
        assert(accepted_names(text) =~= seq![names[0]] + rest);
        assert(seq![names[0]] + rest =~= names);
    }
}

/// A list of encodings that was written is read back as the names that it was
/// written from, in order.
pub proof fn law_list_of_names_is_read_back(names: Seq<Seq<char>>)
    requires
        names.len() > 0,
        can_be_listed(names),
    ensures
        accepted_names(comma_joined(names)) == names,
{
    lemma_list_pieces(names, Seq::empty());
    assert(Seq::<char>::empty() + comma_joined(names) =~= comma_joined(names));
}

/// Of the names that are wanted the first is taken that is offered and is not
/// `identity`. None is taken where there is no such name.
pub proof fn law_first_offered_is_taken(wanted: Seq<Seq<char>>, offered: Set<Seq<char>>, i: int)
    ensures
        0 <= i < wanted.len() && offered.contains(wanted[i]) && wanted[i] != "identity"@ && (forall|j: int|
            0 <= j < i ==> !offered.contains(#[trigger] wanted[j]) || wanted[j] == "identity"@) ==> first_offered(
            wanted,
            offered,
        ) == Some(wanted[i]),
        (forall|j: int| 0 <= j < wanted.len() ==> !offered.contains(#[trigger] wanted[j]) || wanted[j] == "identity"@)
            ==> first_offered(wanted, offered) is None,
        first_offered(wanted, offered) matches Some(name) ==> offered.contains(name) && wanted.contains(name) && name
            != "identity"@,
    decreases wanted.len(),
{
    if wanted.len() > 0 {
        let rest = wanted.drop_first();
        law_first_offered_is_taken(rest, offered, i - 1);
        assert forall|j: int| 0 <= j < rest.len() implies rest[j] == #[trigger] wanted[j + 1] by {}
        if 0 <= i < wanted.len() && offered.contains(wanted[i]) && wanted[i] != "identity"@ && (forall|j: int|
            0 <= j < i ==> !offered.contains(#[trigger] wanted[j]) || wanted[j] == "identity"@) {
            if i > 0 {
                assert(!offered.contains(wanted[0]) || wanted[0] == "identity"@);
                assert forall|j: int| 0 <= j < i - 1 implies !offered.contains(#[trigger] rest[j]) || rest[j]
                    == "identity"@ by {
                    assert(rest[j] == wanted[j + 1]);
                }
                assert(rest[i - 1] == wanted[i]);
            }
        }
        if forall|j: int| 0 <= j < wanted.len() ==> !offered.contains(#[trigger] wanted[j]) || wanted[j] == "identity"@ {
            assert(!offered.contains(wanted[0]) || wanted[0] == "identity"@);
            assert forall|j: int| 0 <= j < rest.len() implies !offered.contains(#[trigger] rest[j]) || rest[j]
                == "identity"@ by {
                assert(rest[j] == wanted[j + 1]);
            }
        }
        if let Some(name) = first_offered(wanted, offered) {
            if wanted[0] != name {
                let k = choose|k: int| 0 <= k < rest.len() && rest[k] == name;
                assert(wanted[k + 1] == name);
            } else {
                assert(wanted[0] == name);
            }
        }
    }
}

/// The client's list decides in the client's order, and the encoding of the
/// request plays no part in it.
pub proof fn law_client_order_decides(
    names: Seq<Seq<char>>,
    request: Option<Seq<char>>,
    offered: Set<Seq<char>>,
    i: int,
)
    requires
        can_be_listed(names),
        0 <= i < names.len(),
        offered.contains(names[i]),
        names[i] != "identity"@,
        forall|j: int| 0 <= j < i ==> !offered.contains(#[trigger] names[j]) || names[j] == "identity"@,
    ensures
        negotiated(Some(comma_joined(names)), request, offered) == Some(names[i]),
{
    law_list_of_names_is_read_back(names);
    law_first_offered_is_taken(names, offered, i);
}

/// Where the client lists nothing that is offered there is no compression, even
/// where the request was compressed. A client without a list is answered in the
/// encoding of its request, where that is offered.
pub proof fn law_response_encoding_falls_back(
    names: Seq<Seq<char>>,
    request: Seq<char>,
    offered: Set<Seq<char>>,
)
    requires
        can_be_listed(names),
        names.len() > 0,
    ensures
        (forall|j: int| 0 <= j < names.len() ==> !offered.contains(#[trigger] names[j]) || names[j] == "identity"@)
            ==> negotiated(Some(comma_joined(names)), Some(request), offered) is None,
        negotiated(None, None, offered) is None,
        offered.contains(request) && request != "identity"@ ==> negotiated(None, Some(request), offered) == Some(request),
        !offered.contains(request) || request == "identity"@ ==> negotiated(None, Some(request), offered) is None,
{
    law_list_of_names_is_read_back(names);
    law_first_offered_is_taken(names, offered, 0);
    law_first_offered_is_taken(seq![request], offered, 0);
    let one = seq![request];
    assert(one[0] == request);
    if !offered.contains(request) || request == "identity"@ {
        assert forall|j: int| 0 <= j < one.len() implies !offered.contains(#[trigger] one[j]) || one[j]
            == "identity"@ by {
            assert(one[j] == request);
        }
    }
}

/// Names in ascending order follow one another, each before all that come
/// behind it, and none stands twice.
pub proof fn law_ascending_names(names: Seq<Seq<char>>, i: int, j: int)
    requires
        ascending(names),
        0 <= i < j < names.len(),
    ensures
        precedes(names[i], names[j]),
        names[i] != names[j],
{
    crate::text::lemma_precedes_total(names[i], names[j]);
}

/// The names of the encodings that come with the library.
pub proof fn law_provider_names(gzip: GzipProvider, zstd: ZstdProvider)
    ensures
        gzip.label() == "gzip"@,
        zstd.label() == "zstd"@,
{
}

// ---------------------------------------------------------------------------
// Registries
// ---------------------------------------------------------------------------

/// Under `identity` data stays as it is in either direction. Only a limit
/// refuses it.
pub proof fn law_identity_changes_nothing(
    registry: RegistryView,
    data: Seq<u8>,
    max: nat,
    packed: Outcome,
    r: Outcome,
)
    requires
        registry_compresses(registry, "identity"@, data, packed),
        registry_decompresses(registry, "identity"@, data, max, r),
    ensures
        packed == Outcome::Ok(data),
        data.len() <= max ==> r == Outcome::Ok(data),
        data.len() > max ==> r == Outcome::Err(
            plain_error(
                ErrorCode::ResourceExhausted,
                "message size "@ + decimal(data.len()) + " exceeds limit "@ + decimal(max),
            ),
        ),
{
    reveal_strlit("message");
    reveal_strlit(" size ");
    reveal_strlit("message size ");
    assert("message"@ + " size "@ =~= "message size "@);
}

/// An encoding that is not registered is refused in either direction.
pub proof fn law_unknown_encoding_is_refused(
    registry: RegistryView,
    encoding: Seq<char>,
    data: Seq<u8>,
    max: nat,
    packed: Outcome,
    r: Outcome,
)
    requires
        encoding != "identity"@,
        !registry.providers.contains_key(encoding),
        registry_compresses(registry, encoding, data, packed),
        registry_decompresses(registry, encoding, data, max, r),
    ensures
        packed == Outcome::Err(
            plain_error(ErrorCode::Unimplemented, "unsupported compression encoding: "@ + encoding),
        ),
        r == packed,
{
}

/// Nothing decompresses to nothing, in every encoding that is registered.
pub proof fn law_nothing_decompresses_to_nothing(registry: RegistryView, encoding: Seq<char>, max: nat, r: Outcome)
    requires
        registry.providers.contains_key(encoding),
        registry_decompresses(registry, encoding, Seq::empty(), max, r),
    ensures
        r == Outcome::Ok(Seq::<u8>::empty()),
{
}

/// What is registered does the work.
pub proof fn law_registered_provider_does_the_work(
    registry: RegistryView,
    encoding: Seq<char>,
    data: Seq<u8>,
    max: nat,
    packed: Outcome,
    r: Outcome,
)
    requires
        encoding != "identity"@,
        registry.providers.contains_key(encoding),
        data.len() > 0,
        registry_compresses(registry, encoding, data, packed),
        registry_decompresses(registry, encoding, data, max, r),
    ensures
        registry.providers[encoding].compresses(data, packed),
        registry.providers[encoding].decompresses(data, max, r),
        r matches Ok(out) ==> out.len() <= max,
{
}

/// A stream can be coded under `identity` and under what was registered for
/// streams, and under nothing else.
pub proof fn law_streams_are_coded_by_what_is_registered(
    registry: RegistryView,
    what: Seq<char>,
    encoding: Seq<char>,
    r: Result<StreamCoding, ConnectError>,
)
    requires
        stream_coding(registry, what, encoding, r),
    ensures
        encoding == "identity"@ ==> r matches Ok(StreamCoding::Identity),
        encoding != "identity"@ && registry.streaming.contains_key(encoding) ==> (r matches Ok(StreamCoding::Coded(p))
            && *p == registry.streaming[encoding]),
        encoding != "identity"@ && !registry.streaming.contains_key(encoding) ==> (r matches Err(e) && e@
            == plain_error(ErrorCode::Unimplemented, what + encoding)),
{
}

// ---------------------------------------------------------------------------
// Limits
// ---------------------------------------------------------------------------

/// Reading a byte beyond the limit tells what keeps to it: exactly the limit
/// does, and a byte more does not.
pub proof fn law_limit_on_what_is_read(out: Seq<u8>, max: nat, cause: Seq<char>, e: ErrorView)
    ensures
        out.len() <= max ==> limited(Ok(ReadView::Bytes(out)), max) == Outcome::Ok(out),
        out.len() > max ==> limited(Ok(ReadView::Bytes(out)), max) == Outcome::Err(
            plain_error(ErrorCode::ResourceExhausted, "decompressed size exceeds limit "@ + decimal(max)),
        ),
        limited(Ok(ReadView::Failed(cause)), max) == Outcome::Err(
            plain_error(ErrorCode::Internal, "decompression failed: "@ + cause),
        ),
        limited(Err(e), max) == Outcome::Err(e),
        max < u64::MAX ==> one_beyond(max) == max + 1,
{
}

/// A buffer begins with at least 256 bytes where the limit allows it, never
/// with more than a byte beyond the limit, and else with the product.
pub proof fn law_first_capacity_is_bounded(input_len: nat, multiplier: nat, limit: usize)
    ensures
        initial_capacity(input_len, multiplier, Some(limit)) <= limit + 1,
        limit >= 255 ==> initial_capacity(input_len, multiplier, Some(limit)) >= 256,
        limit < 255 ==> initial_capacity(input_len, multiplier, Some(limit)) == limit + 1,
        256 <= input_len * multiplier <= usize::MAX ==> initial_capacity(input_len, multiplier, None) == input_len
            * multiplier,
        256 <= input_len * multiplier <= limit ==> initial_capacity(input_len, multiplier, Some(limit)) == input_len
            * multiplier,
        input_len * multiplier < 256 ==> initial_capacity(input_len, multiplier, None) == 256,
{
}

// ---------------------------------------------------------------------------
// gzip
// ---------------------------------------------------------------------------

/// The first zero byte behind a text without one stands at its end.
proof fn lemma_text_ends(before: Seq<u8>, text: Seq<u8>, rest: Seq<u8>, i: nat)
    requires
        forall|j: int| 0 <= j < text.len() ==> #[trigger] text[j] != 0,
        i <= text.len(),
    ensures
        first_zero(before + text + seq![0u8] + rest, before.len() + i) == Some(before.len() + text.len()),
    decreases text.len() - i,
{
    let data = before + text + seq![0u8] + rest;
    let at = before.len() + i;
    if i < text.len() {
        assert(data[at as int] == text[i as int]);
        lemma_text_ends(before, text, rest, i + 1);
    } else {
        assert(data[at as int] == 0);
    }
}

/// An optional field of a header, empty where there is none.
pub open spec fn field_bytes(field: Option<Seq<u8>>) -> Seq<u8> {
    match field {
        Some(bytes) => bytes,
        None => Seq::empty(),
    }
}

/// An extra field with its length.
pub open spec fn extra_field(extra: Option<Seq<u8>>) -> Option<Seq<u8>> {
    match extra {
        Some(bytes) => Some(seq![(bytes.len() % 256) as u8, (bytes.len() / 256) as u8] + bytes),
        None => None,
    }
}

/// A text with the zero byte that ends it.
pub open spec fn ended_text(text: Option<Seq<u8>>) -> Option<Seq<u8>> {
    match text {
        Some(bytes) => Some(bytes + seq![0u8]),
        None => None,
    }
}

/// Whether a text holds no zero byte.
pub open spec fn is_free_of_zero(text: Option<Seq<u8>>) -> bool {
    text matches Some(bytes) ==> forall|j: int| 0 <= j < bytes.len() ==> #[trigger] bytes[j] != 0
}

/// The fixed part of a header with the given flags.
pub open spec fn fixed_header(flags: u8, stamp: Seq<u8>) -> Seq<u8> {
    seq![0x1fu8, 0x8b, 8, flags] + stamp
}

/// A header with optional fields: the flags say which of them there are.
pub open spec fn flags_say(
    flags: u8,
    extra: Option<Seq<u8>>,
    name: Option<Seq<u8>>,
    comment: Option<Seq<u8>>,
    checksum: Option<Seq<u8>>,
) -> bool {
    &&& extra is Some <==> flags / 4 % 2 == 1
    &&& name is Some <==> flags / 8 % 2 == 1
    &&& comment is Some <==> flags / 16 % 2 == 1
    &&& checksum is Some <==> flags / 2 % 2 == 1
}

/// The bits of the flags of a header.
proof fn lemma_header_flags(f: u8)
    ensures
        (f & 0x04 == 0) == (f / 4 % 2 == 0),
        (f & 0x08 != 0) == (f / 8 % 2 == 1),
        (f & 0x10 != 0) == (f / 16 % 2 == 1),
        (f & 0x02 != 0) == (f / 2 % 2 == 1),
{
    assert((f & 0x04 == 0) == (f / 4 % 2 == 0)) by (bit_vector);
    assert((f & 0x08 != 0) == (f / 8 % 2 == 1)) by (bit_vector);
    assert((f & 0x10 != 0) == (f / 16 % 2 == 1)) by (bit_vector);
    assert((f & 0x02 != 0) == (f / 2 % 2 == 1)) by (bit_vector);
}

/// The extra field of a header is skipped.
proof fn lemma_extra_is_skipped(data: Seq<u8>, fixed: Seq<u8>, extra: Option<Seq<u8>>, rest: Seq<u8>)
    requires
        fixed.len() == 10,
        data == fixed + field_bytes(extra_field(extra)) + rest,
        extra is Some <==> fixed[3] / 4 % 2 == 1,
        extra matches Some(bytes) ==> bytes.len() <= 65535,
    ensures
        past_extra(data, 10) == Some(10 + field_bytes(extra_field(extra)).len()),
{
    lemma_header_flags(fixed[3]);
    assert(data[3] == fixed[3]);
    if let Some(bytes) = extra {
        let e = field_bytes(extra_field(extra));
        assert(e[0] == bytes.len() % 256 && e[1] == bytes.len() / 256);
        assert(data[10] == e[0] && data[11] == e[1]);
    }
}

/// A text of a header is skipped.
proof fn lemma_text_is_skipped(data: Seq<u8>, before: Seq<u8>, text: Option<Seq<u8>>, rest: Seq<u8>)
    requires
        data == before + field_bytes(ended_text(text)) + rest,
        is_free_of_zero(text),
    ensures
        past_text(data, text is Some, before.len()) == Some(before.len() + field_bytes(ended_text(text)).len()),
{
    if let Some(bytes) = text {
        lemma_text_ends(before, bytes, rest, 0);
        assert(before + bytes + seq![0u8] + rest =~= data);
    }
}

/// Parts of a header put together in another order of steps.
proof fn lemma_regrouped(fixed: Seq<u8>, e: Seq<u8>, n: Seq<u8>, c: Seq<u8>, k: Seq<u8>, rest: Seq<u8>)
    ensures
        fixed + e + n + c + k + rest == fixed + e + (n + c + k + rest),
        fixed + e + n + c + k + rest == (fixed + e) + n + (c + k + rest),
        fixed + e + n + c + k + rest == (fixed + e + n) + c + (k + rest),
{
    let a = fixed + e;
    assert(a + n + c + k + rest =~= a + (n + c + k + rest));
    assert(a + n + c + k + rest =~= a + n + (c + k + rest));
    let b = a + n;
    assert(b + c + k + rest =~= b + c + (k + rest));
}

/// Where a header with sound fields ends.
proof fn lemma_fields_end(data: Seq<u8>, flags: u8, a: nat, b: nat, c: nat, k: nat)
    requires
        data.len() >= 10,
        data[0] == 0x1f,
        data[1] == 0x8b,
        data[2] == 8,
        data[3] == flags,
        past_extra(data, 10) == Some(a),
        past_text(data, flags / 8 % 2 == 1, a) == Some(b),
        past_text(data, flags / 16 % 2 == 1, b) == Some(c),
        k == if flags / 2 % 2 == 1 {
            2nat
        } else {
            0nat
        },
        c + k <= data.len(),
    ensures
        gzip_header(data) == Ok::<nat, Seq<char>>(c + k),
{
    lemma_header_flags(flags);
}

/// The compressed stream of a member begins behind the optional fields of its
/// header: an extra field with its length, a name and a comment that each end
/// with a zero byte, and a checksum of two bytes, in this order.
pub proof fn law_optional_fields_are_skipped(
    flags: u8,
    stamp: Seq<u8>,
    extra: Option<Seq<u8>>,
    name: Option<Seq<u8>>,
    comment: Option<Seq<u8>>,
    checksum: Option<Seq<u8>>,
    rest: Seq<u8>,
)
    requires
        stamp.len() == 6,
        flags_say(flags, extra, name, comment, checksum),
        extra matches Some(bytes) ==> bytes.len() <= 65535,
        is_free_of_zero(name),
        is_free_of_zero(comment),
        checksum matches Some(bytes) ==> bytes.len() == 2,
    ensures
        gzip_header(
            fixed_header(flags, stamp) + field_bytes(extra_field(extra)) + field_bytes(ended_text(name)) + field_bytes(
                ended_text(comment),
            ) + field_bytes(checksum) + rest,
        ) == Ok::<nat, Seq<char>>(
            10 + field_bytes(extra_field(extra)).len() + field_bytes(ended_text(name)).len() + field_bytes(
                ended_text(comment),
            ).len() + field_bytes(checksum).len(),
        ),
{
    let fixed = fixed_header(flags, stamp);
    let (e, n, c, k) = (
        field_bytes(extra_field(extra)),
        field_bytes(ended_text(name)),
        field_bytes(ended_text(comment)),
        field_bytes(checksum),
    );
    let data = fixed + e + n + c + k + rest;
    lemma_regrouped(fixed, e, n, c, k, rest);
    assert(fixed.len() == 10);
    lemma_extra_is_skipped(data, fixed, extra, n + c + k + rest);
    lemma_text_is_skipped(data, fixed + e, name, c + k + rest);
    lemma_text_is_skipped(data, fixed + e + n, comment, k + rest);
    let front = fixed + e;
    assert(data == front + (n + c + k + rest)) by {
        assert(front + n + c + k + rest =~= front + (n + c + k + rest));
    }
    assert(data[0] == fixed[0] && data[1] == fixed[1] && data[2] == fixed[2] && data[3] == fixed[3]);
    lemma_fields_end(
        data,
        flags,
        (fixed + e).len(),
        (fixed + e + n).len(),
        (fixed + e + n + c).len(),
        k.len(),
    );
}

/// Data that is too short, that does not begin as gzip does, or that names
/// another method is refused with an error that says so.
pub proof fn law_other_data_is_no_gzip(data: Seq<u8>, max: nat, r: Outcome)
    requires
        gzip_decompressed(data, max, r),
    ensures
        data.len() < 10 ==> r == Outcome::Err(
            plain_error(ErrorCode::InvalidArgument, "gzip data too short for header"@),
        ),
        data.len() >= 10 && (data[0] != 0x1f || data[1] != 0x8b) ==> r == Outcome::Err(
            plain_error(ErrorCode::InvalidArgument, "invalid gzip magic"@),
        ),
        data.len() >= 10 && data[0] == 0x1f && data[1] == 0x8b && data[2] != 8 ==> r == Outcome::Err(
            plain_error(ErrorCode::InvalidArgument, "unsupported gzip compression method"@),
        ),
{
}

/// A member is read where its trailer is that of its contents, and only there:
/// the checksum and the length, each with the least significant byte first.
/// What comes behind the trailer plays no part.
pub proof fn law_member_is_held_to_its_trailer(
    stream: Seq<u8>,
    data: Seq<u8>,
    trailer: Seq<u8>,
    more: Seq<u8>,
    max: nat,
    r: Outcome,
)
    requires
        deflates(stream, data),
        trailer.len() == 8,
        data.len() <= max,
        gzip_decompressed(plain_header() + stream + trailer + more, max, r),
    ensures
        trailer == le32_bytes(crc32_of(data) as nat) + le32_bytes(data.len() % 0x1_0000_0000) ==> r == Outcome::Ok(
            data,
        ),
        trailer != le32_bytes(crc32_of(data) as nat) + le32_bytes(data.len() % 0x1_0000_0000) ==> (r matches Err(e)
            && e.code == ErrorCode::InvalidArgument),
        trailer.take(4) != le32_bytes(crc32_of(data) as nat) ==> r == Outcome::Err(
            plain_error(ErrorCode::InvalidArgument, "gzip CRC32 mismatch"@),
        ),
        trailer.take(4) == le32_bytes(crc32_of(data) as nat) && trailer.skip(4) != le32_bytes(
            data.len() % 0x1_0000_0000,
        ) ==> r == Outcome::Err(plain_error(ErrorCode::InvalidArgument, "gzip size mismatch"@)),
{
    let member = plain_header() + stream + trailer + more;
    lemma_header_flags(0);
    assert(member[0] == 0x1f && member[1] == 0x8b && member[2] == 8 && member[3] == 0);
    assert(gzip_header(member) == Ok::<nat, Seq<char>>(10));
    let rest = member.skip(10);
    assert(rest =~= stream + (trailer + more));
    assert(inflated(stream + (trailer + more)) == Some((data, stream.len())));
    let at = stream.len() as int;
    assert forall|i: int| 0 <= i < 8 implies #[trigger] rest[at + i] == trailer[i] by {}
    assert(rest[at] == trailer[0] && rest[at + 1] == trailer[1] && rest[at + 2] == trailer[2] && rest[at + 3]
        == trailer[3] && rest[at + 4] == trailer[4] && rest[at + 5] == trailer[5] && rest[at + 6] == trailer[6]
        && rest[at + 7] == trailer[7]);
    lemma_four_bytes(trailer.take(4), crc32_of(data) as nat);
    lemma_four_bytes(trailer.skip(4), data.len() % 0x1_0000_0000);
    let wanted = le32_bytes(crc32_of(data) as nat) + le32_bytes(data.len() % 0x1_0000_0000);
    assert(trailer =~= trailer.take(4) + trailer.skip(4));
    if trailer == wanted {
        assert(wanted.take(4) =~= le32_bytes(crc32_of(data) as nat));
        assert(wanted.skip(4) =~= le32_bytes(data.len() % 0x1_0000_0000));
    }
}

/// Four bytes stand for a number exactly where they are how it is written.
proof fn lemma_four_bytes(bytes: Seq<u8>, n: nat)
    requires
        bytes.len() == 4,
        n < 0x1_0000_0000,
    ensures
        bytes == le32_bytes(n) <==> le32(bytes[0], bytes[1], bytes[2], bytes[3]) == n,
{
    let value = le32(bytes[0], bytes[1], bytes[2], bytes[3]);
    assert(value % 0x100 == bytes[0]);
    assert(value / 0x100 % 0x100 == bytes[1]);
    assert(value / 0x1_0000 % 0x100 == bytes[2]);
    assert(value / 0x100_0000 % 0x100 == bytes[3]);
    if value == n {
        assert(bytes =~= le32_bytes(n));
    }
}

/// A member whose contents are over the limit is refused for that, and one of
/// exactly the limit is not.
pub proof fn law_member_is_held_to_the_limit(data: Seq<u8>, member: Seq<u8>, max: nat, r: Outcome)
    requires
        gzip_member(member, data),
        gzip_decompressed(member, max, r),
    ensures
        data.len() > max ==> r == Outcome::Err(
            plain_error(ErrorCode::ResourceExhausted, "decompressed size exceeds limit "@ + decimal(max)),
        ),
        data.len() <= max ==> r == Outcome::Ok(data),
{
    if data.len() <= max {
        crate::compression::gzip::lemma_gzip_round_trip(data, member, max, r);
    } else {
        let stream = choose|stream: Seq<u8>| #[trigger]
            deflates(stream, data) && member == plain_header() + stream + gzip_trailer(data);
        lemma_header_flags(0);
        assert(member[0] == 0x1f && member[1] == 0x8b && member[2] == 8 && member[3] == 0);
        assert(gzip_header(member) == Ok::<nat, Seq<char>>(10));
        assert(member.skip(10) =~= stream + gzip_trailer(data));
    }
}

/// A member that was cut off within its trailer is refused.
pub proof fn law_cut_member_is_refused(
    stream: Seq<u8>,
    data: Seq<u8>,
    trailer: Seq<u8>,
    max: nat,
    r: Outcome,
)
    requires
        deflates(stream, data),
        trailer.len() < 8,
        data.len() <= max,
        gzip_decompressed(plain_header() + stream + trailer, max, r),
    ensures
        r == Outcome::Err(plain_error(ErrorCode::InvalidArgument, "gzip data too short for trailer"@)),
{
    let member = plain_header() + stream + trailer;
    lemma_header_flags(0);
    assert(member[0] == 0x1f && member[1] == 0x8b && member[2] == 8 && member[3] == 0);
    assert(gzip_header(member) == Ok::<nat, Seq<char>>(10));
    assert(member.skip(10) =~= stream + trailer);
}

/// What gzip makes of data begins with the marks of gzip, without optional
/// fields, and ends with the checksum and the length of the data.
pub proof fn law_gzip_member_layout(data: Seq<u8>, member: Seq<u8>)
    requires
        data.len() <= u32::MAX,
        gzip_compressed(data, Outcome::Ok(member)),
    ensures
        member.len() >= 18,
        member.take(4) == seq![0x1fu8, 0x8b, 8, 0],
        member.subrange(member.len() - 8, member.len() as int) == le32_bytes(crc32_of(data) as nat) + le32_bytes(
            data.len(),
        ),
{
    let stream = choose|stream: Seq<u8>| #[trigger]
        deflates(stream, data) && member == plain_header() + stream + gzip_trailer(data);
    assert(member.take(4) =~= seq![0x1fu8, 0x8b, 8, 0]);
    assert(data.len() % 0x1_0000_0000 == data.len());
    assert(member.subrange(member.len() - 8, member.len() as int) =~= gzip_trailer(data));
}

/// Data that gzip can take in a single call is always compressed.
pub proof fn law_gzip_does_not_fail(data: Seq<u8>, r: Outcome)
    requires
        data.len() <= u32::MAX,
        gzip_compressed(data, r),
    ensures
        r is Ok,
        gzip_member(r->Ok_0, data),
{
}

// ---------------------------------------------------------------------------
// zstd
// ---------------------------------------------------------------------------

/// Frames that stand for more than the limit are never read, and frames within
/// it are read as what they stand for or not at all.
pub proof fn law_frames_are_held_to_the_limit(data: Seq<u8>, out: Seq<u8>, max: nat, r: Outcome)
    requires
        zstd_decompressed(data, max, r),
    ensures
        zstd_decoded(data) == Some(out) && out.len() > max ==> r is Err,
        zstd_decoded(data) == Some(out) && r is Ok ==> r == Outcome::Ok(out),
        zstd_decoded(data) is None ==> r is Err,
        r matches Err(e) ==> e.code == ErrorCode::ResourceExhausted || e.code == ErrorCode::InvalidArgument,
        zstd_decoded(data) == Some(out) && out.len() <= max ==> (r matches Err(e) ==> e.code
            == ErrorCode::InvalidArgument),
{
}

/// What was read of frames is handed out as long as it keeps to the limit. A
/// failure of the decoder blames the data.
pub proof fn law_read_frames(out: Seq<u8>, max: nat, cause: String)
    ensures
        frames_read(Ok(()), out) == Ok::<ReadView, ErrorView>(ReadView::Bytes(out)),
        frames_read(Err(ReadFailure::Read(cause)), out) == Ok::<ReadView, ErrorView>(ReadView::Failed(cause@)),
        frames_read(Err(ReadFailure::Open(cause)), out) == Err::<ReadView, ErrorView>(
            plain_error(ErrorCode::InvalidArgument, "zstd decompression failed: "@ + cause@),
        ),
        out.len() <= max ==> frames_limited(Ok(()), out, max) == Outcome::Ok(out),
        out.len() > max ==> frames_limited(Ok(()), out, max) == Outcome::Err(
            plain_error(ErrorCode::ResourceExhausted, "decompressed size exceeds limit "@ + decimal(max)),
        ),
        frames_limited(Err(ReadFailure::Read(cause)), out, max) == Outcome::Err(
            plain_error(ErrorCode::InvalidArgument, "zstd decompression failed: "@ + cause@),
        ),
        frames_limited(Err(ReadFailure::Open(cause)), out, max) == Outcome::Err(
            plain_error(ErrorCode::InvalidArgument, "zstd decompression failed: "@ + cause@),
        ),
{
}

/// What zstd makes of data stands for that data and is not empty. Where it
/// fails, and where gzip does, it is no fault of the caller.
pub proof fn law_compressors_blame_nobody(data: Seq<u8>, by_zstd: Outcome, by_gzip: Outcome)
    requires
        zstd_compressed(data, by_zstd),
        gzip_compressed(data, by_gzip),
    ensures
        by_zstd matches Ok(frame) ==> zstd_decoded(frame) == Some(data) && frame.len() > 0,
        by_zstd matches Err(e) ==> e.code == ErrorCode::Internal,
        by_gzip matches Err(e) ==> e.code == ErrorCode::Internal,
{
}

/// A compressed stream that is cut off or malformed blames the data, unless
/// more than the limit came out of it before.
pub proof fn law_malformed_stream_blames_the_data(data: Seq<u8>, start: nat, max: nat, r: Outcome)
    requires
        gzip_header(data) == Ok::<nat, Seq<char>>(start),
        inflated(data.skip(start as int)) is None,
        gzip_decompressed(data, max, r),
    ensures
        r matches Err(e) && (e.code == ErrorCode::InvalidArgument || e == plain_error(
            ErrorCode::ResourceExhausted,
            "decompressed size exceeds limit "@ + decimal(max),
        )),
{
}

/// The front of data is as much of it as was asked for, or all of it.
pub proof fn law_front_of_data(data: Seq<u8>, at_most: nat)
    ensures
        at_most >= data.len() ==> front_of(data, at_most) == data,
        at_most <= data.len() ==> front_of(data, at_most).len() == at_most,
        data == front_of(data, at_most) + data.skip(front_of(data, at_most).len() as int),
{
    assert(data.take(data.len() as int) =~= data);
    assert(data =~= front_of(data, at_most) + data.skip(front_of(data, at_most).len() as int));
}

/// A response in an encoding that is not registered is the server's fault, and
/// one whose data cannot be read is lost data. What can be read is passed on.
pub proof fn law_responses_are_unpacked(
    registry: RegistryView,
    encoding: Seq<char>,
    data: Seq<u8>,
    max: nat,
    r: Outcome,
)
    requires
        response_unpacked(registry, encoding, data, max, r),
    ensures
        encoding == "identity"@ && data.len() <= max ==> r == Outcome::Ok(data),
        encoding != "identity"@ && !registry.providers.contains_key(encoding) ==> r == Outcome::Err(
            plain_error(ErrorCode::Internal, "unsupported compression encoding: "@ + encoding),
        ),
        encoding != "identity"@ && registry.providers.contains_key(encoding) && registry.providers[encoding] is Gzip
            && 0 < data.len() < 10 ==> r == Outcome::Err(
            plain_error(ErrorCode::DataLoss, "gzip data too short for header"@),
        ),
        r matches Ok(out) ==> registry_decompresses(registry, encoding, data, max, Outcome::Ok(out)),
{
    let raw = choose|raw: Outcome| #[trigger]
        registry_decompresses(registry, encoding, data, max, raw) && r == blamed(raw);
    assert(registry_decompresses(registry, encoding, data, max, raw));
}

/// Errors of the encodings say what failed before they say why.
pub proof fn law_errors_of_encodings_say_what_failed(e: ErrorView)
    ensures
        is_bad_frame_error(e) ==> e.code == ErrorCode::InvalidArgument && e.message is Some && begins_with(
            e.message->0,
            "zstd decompression failed: "@,
        ),
        is_no_compressor_error(e) ==> e.code == ErrorCode::Internal && e.message is Some && begins_with(
            e.message->0,
            "failed to create zstd compressor: "@,
        ),
        crate::compression::zstandard::is_compress_error(e) ==> e.code == ErrorCode::Internal && e.message is Some
            && begins_with(e.message->0, "zstd compression failed: "@),
        crate::compression::gzip::is_compress_error(e) ==> e.code == ErrorCode::Internal && e.message is Some
            && begins_with(e.message->0, "gzip compression failed: "@),
        is_bad_stream_error(e) ==> e.code == ErrorCode::InvalidArgument && (e.message == Some(
            "gzip decompression stalled: truncated or invalid deflate stream"@,
        ) || (e.message is Some && begins_with(e.message->0, "gzip decompression failed: "@))),
{
    let none = Seq::<char>::empty();
    if is_bad_frame_error(e) {
        let cause = choose|cause: Seq<char>|
            e == plain_error(ErrorCode::InvalidArgument, #[trigger] ("zstd decompression failed: "@ + cause));
        law_beginnings("zstd decompression failed: "@, cause, none, 0);
    }
    if is_no_compressor_error(e) {
        let cause = choose|cause: Seq<char>|
            e == plain_error(ErrorCode::Internal, #[trigger] ("failed to create zstd compressor: "@ + cause));
        law_beginnings("failed to create zstd compressor: "@, cause, none, 0);
    }
    if crate::compression::zstandard::is_compress_error(e) {
        let cause = choose|cause: Seq<char>|
            e == plain_error(ErrorCode::Internal, #[trigger] ("zstd compression failed: "@ + cause));
        law_beginnings("zstd compression failed: "@, cause, none, 0);
    }
    if crate::compression::gzip::is_compress_error(e) {
        let cause = choose|cause: Seq<char>|
            e == plain_error(ErrorCode::Internal, #[trigger] ("gzip compression failed: "@ + cause));
        law_beginnings("gzip compression failed: "@, cause, none, 0);
    }
    if is_bad_stream_error(e) && e != plain_error(ErrorCode::InvalidArgument, stalled_text()) {
        let cause = choose|cause: Seq<char>|
            e == plain_error(ErrorCode::InvalidArgument, #[trigger] ("gzip decompression failed: "@ + cause));
        law_beginnings("gzip decompression failed: "@, cause, none, 0);
    }
}

} // verus!
