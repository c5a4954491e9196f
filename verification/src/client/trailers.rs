//! Trailing metadata: gRPC-Web trailer frames, the metadata of the last
//! envelope of a stream, and trailers among the headers of a response.
use bytes::Bytes;
use http::HeaderMap;
use http::HeaderName;
use http::HeaderValue;
use vstd::prelude::*;
use vstd::slice::slice_subrange;
use vstd::utf8::decode_utf8;
use vstd::utf8::encode_utf8;
use vstd::utf8::valid_utf8;

use crate::buffer::BufferView;
use crate::client::config::is_header_name;
use crate::compression::outcome_view;
use crate::compression::registry::registry_decompresses;
use crate::compression::CompressionRegistry;
use crate::compression::Outcome;
use crate::envelope::declared_length;
use crate::envelope::encoder::Coding;
use crate::envelope::flags;
use crate::envelope::marks_compressed;
use crate::envelope::marks_web_trailer;
use crate::envelope::read_be32;
use crate::envelope::HEADER_SIZE;
use crate::headers::appended;
use crate::headers::canonical_name;
use crate::headers::collected;
use crate::headers::fits;
use crate::headers::header_map_new;
use crate::headers::header_map_pairs;
use crate::headers::header_map_try_append;
use crate::headers::header_name_clone;
use crate::headers::header_name_from_bytes;
use crate::headers::header_name_str;
use crate::headers::header_name_text;
use crate::headers::header_value_clone;
use crate::headers::header_value_from_str;
use crate::headers::is_canonical_name;
use crate::headers::is_crowded;
use crate::headers::is_header_value;
use crate::headers::joined_headers;
use crate::headers::lemma_collected_holds;
use crate::headers::lemma_collected_step;
use crate::headers::lemma_fits_subset;
use crate::headers::lemma_joined_appended;
use crate::headers::lemma_joined_nothing;
use crate::headers::lemma_part_appended;
use crate::headers::lemma_refused_when_crowded;
use crate::headers::lemma_stays_crowded;
use crate::headers::no_headers;
use crate::headers::pairs_view;
use crate::headers::part_of;
use crate::headers::plain_value;
use crate::headers::takes;
use crate::headers::value_view;
use crate::headers::within_ceiling;
use crate::headers::HeaderContents;
use crate::headers::HeadersView;
use crate::headers::ValueView;
use crate::text::begins_with;
use crate::text::chars_of;
use crate::text::find_char;
use crate::text::first_index;
use crate::text::split;
use crate::text::split_text;
use crate::text::string_of;
use crate::text::strip_prefix;
use crate::text::texts;
use crate::text::trim;
use crate::text::trim_end_char;
use crate::text::trimmed;
use crate::text::utf8_text;
use crate::text::without_trailing;

verus! {

// ---------------------------------------------------------------------------
// Collections with a ceiling
// ---------------------------------------------------------------------------

/// Names and values as text and bytes.
pub type HeaderPairs = Seq<(Seq<char>, ValueView)>;

/// Pairs appended in order, up to one that the collection refuses for want of
/// room, if there is such a one.
pub open spec fn appended_capped(before: HeaderContents, pairs: HeaderPairs, after: HeaderContents) -> bool {
    exists|n: int| #[trigger] appended_up_to(before, pairs, n, after)
}

/// The first `n` pairs appended in order, and all of them where that is sure to
/// fit. There are never more names than a collection holds.
pub open spec fn appended_up_to(before: HeaderContents, pairs: HeaderPairs, n: int, after: HeaderContents) -> bool {
    &&& 0 <= n <= pairs.len()
    &&& after == joined_headers(before, collected(pairs.take(n)))
    &&& n < pairs.len() ==> !fits(joined_headers(before, collected(pairs.take(n + 1))))
    &&& within_ceiling(before) ==> within_ceiling(after)
}

/// Trailers never have more names than a collection holds, however many were
/// sent.
pub proof fn lemma_trailers_keep_the_ceiling(pairs: HeaderPairs, trailers: HeaderContents)
    requires
        appended_capped(no_headers(), pairs, trailers),
    ensures
        trailers.dom().finite(),
        trailers.dom().len() <= 32768,
{
    assert(no_headers().dom() =~= Set::<Seq<char>>::empty());
}

/// Append pairs in order, and stop where the collection has no room.
fn append_capped(headers: &mut HeaderMap, pairs: &Vec<(HeaderName, HeaderValue)>)
    ensures
        appended_capped(old(headers)@, pairs_view(pairs@), final(headers)@),
{
    let ghost all = pairs_view(pairs@);
    let ghost start = headers@;
    let mut i: usize = 0;
    proof {
        assert(all.take(0) =~= Seq::empty());
        lemma_joined_nothing(start);
    }
    while i < pairs.len()
        invariant
            i <= pairs@.len(),
            start == old(headers)@,
            all == pairs_view(pairs@),
            headers@ == joined_headers(start, collected(all.take(i as int))),
            within_ceiling(start) ==> within_ceiling(headers@),
        decreases pairs@.len() - i,
    {
        let name = header_name_clone(&pairs[i].0);
        let value = header_value_clone(&pairs[i].1);
        proof {
            lemma_collected_step(pairs@, i as int);
            lemma_joined_appended(
                start,
                collected(all.take(i as int)),
                header_name_text(name),
                value_view(value),
            );
        }
        if !header_map_try_append(headers, name, value) {
            assert(appended_up_to(start, all, i as int, headers@));
            return;
        }
        i = i + 1;
    }
    assert(appended_up_to(start, all, i as int, headers@));
}

// ---------------------------------------------------------------------------
// gRPC-Web trailer frames
// ---------------------------------------------------------------------------

/// The limit on a trailer frame and on what it decompresses to.
pub const MAX_TRAILER_SIZE: usize = 1_048_576;

/// Where the first trailer frame ends, if all of it is there.
pub open spec fn trailer_end(data: Seq<u8>) -> Option<nat>
    decreases data.len(),
{
    if data.len() < 5 {
        None
    } else {
        let end = 5 + declared_length(data);
        if end > data.len() {
            None
        } else if marks_web_trailer(data[0]) {
            Some(end)
        } else {
            match trailer_end(data.skip(end as int)) {
                Some(more) => Some(end + more),
                None => None,
            }
        }
    }
}

/// A trailer frame that is there stays where it is when more bytes arrive.
pub proof fn lemma_trailer_end_stays(data: Seq<u8>, more: Seq<u8>)
    ensures
        trailer_end(data) matches Some(end) ==> end <= data.len() && trailer_end(data + more) == Some(end)
            && trailer_end(data.take(end as int)) == Some(end),
    decreases data.len(),
{
    let all = data + more;
    if data.len() >= 5 && 5 + declared_length(data) <= data.len() {
        let end = 5 + declared_length(data) as int;
        assert(declared_length(all) == declared_length(data));
        assert(all.skip(end) =~= data.skip(end) + more);
        lemma_trailer_end_stays(data.skip(end), more);
        if let Some(whole) = trailer_end(data) {
            let front = data.take(whole as int);
            assert(declared_length(front) == declared_length(data));
            assert(front.skip(end) =~= data.skip(end).take(whole - end));
        }
    }
}

/// Where the first trailer frame ends, if all of it is there.
pub fn grpc_web_trailer_frame_end(data: &[u8]) -> (end: Option<usize>)
    ensures
        match end {
            Some(e) => trailer_end(data@) == Some(e as nat) && e <= data@.len(),
            None => trailer_end(data@) is None,
        },
{
    let mut offset: usize = 0;
    assert(data@.skip(0) =~= data@);
    while data.len() - offset >= HEADER_SIZE
        invariant
            offset <= data@.len(),
            match trailer_end(data@.skip(offset as int)) {
                Some(more) => trailer_end(data@) == Some(offset as nat + more),
                None => trailer_end(data@) is None,
            },
        decreases data@.len() - offset,
    {
        let ghost rest = data@.skip(offset as int);
        let length: usize = read_be32(data[offset + 1], data[offset + 2], data[offset + 3], data[offset + 4]) as usize;
        assert(declared_length(rest) == length);
        let available: usize = data.len() - offset - HEADER_SIZE;
        if length > available {
            return None;
        }
        let frame_end: usize = offset + HEADER_SIZE + length;
        if data[offset] & flags::GRPC_WEB_TRAILER != 0 {
            return Some(frame_end);
        }
        assert(rest.skip(5 + length as int) =~= data@.skip(frame_end as int));
        offset = frame_end;
    }
    None
}

/// The header that a line stands for, if it is one. Both `name: value` and
/// `name:value` are.
pub open spec fn line_header(line: Seq<char>) -> Option<(Seq<char>, ValueView)> {
    let text = without_trailing(line, '\r');
    let at = first_index(text, ':') as int;
    let name = trimmed(text.take(at));
    let value = trimmed(text.skip(at + 1));
    if at < text.len() && is_header_name(name) && is_header_value(encode_utf8(value)) {
        Some((canonical_name(encode_utf8(name)), plain_value(encode_utf8(value))))
    } else {
        None
    }
}

/// The headers among lines.
pub open spec fn line_headers(lines: Seq<Seq<char>>) -> HeaderPairs
    decreases lines.len(),
{
    if lines.len() == 0 {
        Seq::empty()
    } else {
        match line_header(lines.last()) {
            Some(pair) => line_headers(lines.drop_last()).push(pair),
            None => line_headers(lines.drop_last()),
        }
    }
}

/// The trailers in the payload of a trailer frame: none at all where it is no
/// text.
pub open spec fn text_trailers(payload: Seq<u8>, r: Option<HeaderContents>) -> bool {
    if valid_utf8(payload) {
        r matches Some(h) && appended_capped(no_headers(), line_headers(split(decode_utf8(payload), '\n')), h)
    } else {
        r is None
    }
}

/// What decompression makes of the payload of a trailer frame.
pub open spec fn packed_trailers(payload: Outcome, r: Option<HeaderContents>) -> bool {
    match payload {
        Ok(bytes) => text_trailers(bytes, r),
        Err(_) => r is None,
    }
}

/// The trailers in the payload of a compressed trailer frame.
pub open spec fn compressed_trailers(
    coding: Coding,
    payload: Seq<u8>,
    max: nat,
    r: Option<HeaderContents>,
) -> bool {
    exists|unpacked: Outcome| #[trigger]
        registry_decompresses(coding.registry, coding.encoding, payload, max, unpacked) && packed_trailers(
            unpacked,
            r,
        )
}

/// What decompression made of a payload is what it may make of it.
proof fn lemma_compressed_trailers(
    coding: Coding,
    payload: Seq<u8>,
    max: nat,
    unpacked: Outcome,
    r: Option<HeaderContents>,
)
    requires
        registry_decompresses(coding.registry, coding.encoding, payload, max, unpacked),
        packed_trailers(unpacked, r),
    ensures
        compressed_trailers(coding, payload, max, r),
{
}

/// The trailers in a trailer frame at the front of the data: none where the
/// frame is not whole, too large, or cannot be read.
pub open spec fn frame_trailers(data: Seq<u8>, coding: Option<Coding>, r: Option<HeaderContents>) -> bool {
    if data.len() < 5 || !marks_web_trailer(data[0]) || declared_length(data) > MAX_TRAILER_SIZE || data.len() < 5
        + declared_length(data) {
        r is None
    } else {
        let payload = data.subrange(5, 5 + declared_length(data) as int);
        if !marks_compressed(data[0]) {
            text_trailers(payload, r)
        } else {
            match coding {
                None => r is None,
                Some(c) => compressed_trailers(c, payload, MAX_TRAILER_SIZE as nat, r),
            }
        }
    }
}

/// The contents of optional headers.
pub open spec fn opt_headers(h: Option<HeaderMap>) -> Option<HeaderContents> {
    match h {
        Some(m) => Some(m@),
        None => None,
    }
}

/// The header that a line stands for, if it is one.
fn parse_line(line: &str) -> (r: Option<(HeaderName, HeaderValue)>)
    ensures
        match r {
            Some((name, value)) => line_header(line@) == Some((header_name_text(name), value_view(value))),
            None => line_header(line@) is None,
        },
{
    let text = trim_end_char(line, '\r');
    let chars = chars_of(text.as_str());
    let at: usize = find_char(chars.as_slice(), ':');
    if at == chars.len() {
        return None;
    }
    let front = slice_subrange(chars.as_slice(), 0, at);
    let back = slice_subrange(chars.as_slice(), at + 1, chars.len());
    assert(front@ =~= text@.take(at as int));
    assert(back@ =~= text@.skip(at + 1));
    let name = string_of(trim(front));
    let value = string_of(trim(back));
    match (header_name_from_bytes(name.as_str().as_bytes()), header_value_from_str(value.as_str())) {
        (Some(n), Some(v)) => Some((n, v)),
        _ => None,
    }
}

/// The trailers in the payload of a trailer frame.
fn parse_trailer_text(payload: &[u8]) -> (r: Option<HeaderMap>)
    ensures
        text_trailers(payload@, opt_headers(r)),
{
    let text = match utf8_text(payload) {
        Some(text) => text,
        None => return None,
    };
    let chars = chars_of(text);
    let lines = split_text(chars.as_slice(), '\n');
    let ghost all = texts(lines@);
    let mut pairs: Vec<(HeaderName, HeaderValue)> = Vec::new();
    let mut i: usize = 0;
    assert(all.take(0) =~= Seq::empty());
    assert(pairs_view(pairs@) =~= Seq::empty());
    while i < lines.len()
        invariant
            i <= lines@.len(),
            all == texts(lines@),
            pairs_view(pairs@) == line_headers(all.take(i as int)),
        decreases lines@.len() - i,
    {
        let ghost next = all.take(i as int + 1);
        assert(next.drop_last() =~= all.take(i as int));
        assert(next.last() == lines@[i as int]@);
        let ghost before = pairs@;
        if let Some(pair) = parse_line(lines[i].as_str()) {
            pairs.push(pair);
            assert(pairs_view(pairs@) =~= pairs_view(before).push(
                (header_name_text(pair.0), value_view(pair.1)),
            ));
        }
        i = i + 1;
    }
    assert(all.take(all.len() as int) =~= all);
    let mut headers = header_map_new();
    append_capped(&mut headers, &pairs);
    Some(headers)
}

/// What a registry and the name of an encoding come to.
pub open spec fn coding_of(decompression: Option<(&CompressionRegistry, &str)>) -> Option<Coding> {
    match decompression {
        Some((registry, encoding)) => Some(Coding { registry: registry@, encoding: encoding@ }),
        None => None,
    }
}

/// Parse a gRPC-Web trailer frame from the front of a response body,
/// decompressing it where it says that it is compressed.
pub fn parse_grpc_web_trailer_frame_with_compression(
    data: &[u8],
    decompression: Option<(&CompressionRegistry, &str)>,
) -> (r: Option<HeaderMap>)
    ensures
        frame_trailers(data@, coding_of(decompression), opt_headers(r)),
{
    if data.len() < HEADER_SIZE || data[0] & flags::GRPC_WEB_TRAILER == 0 {
        return None;
    }
    let length: usize = read_be32(data[1], data[2], data[3], data[4]) as usize;
    if length > MAX_TRAILER_SIZE || data.len() - HEADER_SIZE < length {
        return None;
    }
    let payload = slice_subrange(data, HEADER_SIZE, HEADER_SIZE + length);
    if data[0] & flags::COMPRESSED == 0 {
        return parse_trailer_text(payload);
    }
    match decompression {
        Some((registry, encoding)) => {
            let unpacked = registry.decompress_with_limit(encoding, Bytes::copy_from_slice(payload), MAX_TRAILER_SIZE);
            let ghost outcome = outcome_view(unpacked);
            assert(registry_decompresses(registry@, encoding@, payload@, MAX_TRAILER_SIZE as nat, outcome));
            let r = match unpacked {
                Ok(bytes) => parse_trailer_text(&bytes),
                Err(_) => None,
            };
            proof {
                lemma_compressed_trailers(
                    coding_of(decompression)->0,
                    payload@,
                    MAX_TRAILER_SIZE as nat,
                    outcome,
                    opt_headers(r),
                );
            }
            r
        },
        None => None,
    }
}

// ---------------------------------------------------------------------------
// The metadata of the last envelope
// ---------------------------------------------------------------------------

/// The valid headers among the values of a name.
pub open spec fn value_headers(name: Seq<char>, values: Seq<String>) -> HeaderPairs
    decreases values.len(),
{
    if values.len() == 0 {
        Seq::empty()
    } else if is_header_name(name) && is_header_value(encode_utf8(values.last()@)) {
        value_headers(name, values.drop_last()).push(
            (canonical_name(encode_utf8(name)), plain_value(encode_utf8(values.last()@))),
        )
    } else {
        value_headers(name, values.drop_last())
    }
}

/// The valid headers of metadata: names, each with its values.
pub open spec fn metadata_headers(metadata: Seq<(String, Vec<String>)>) -> HeaderPairs
    decreases metadata.len(),
{
    if metadata.len() == 0 {
        Seq::empty()
    } else {
        metadata_headers(metadata.drop_last()) + value_headers(metadata.last().0@, metadata.last().1@)
    }
}

/// Collect the valid headers among the values of a name.
fn push_values(pairs: &mut Vec<(HeaderName, HeaderValue)>, name: &str, values: &Vec<String>)
    ensures
        pairs_view(final(pairs)@) == pairs_view(old(pairs)@) + value_headers(name@, values@),
{
    let ghost start = pairs_view(pairs@);
    let mut i: usize = 0;
    assert(values@.take(0) =~= Seq::empty());
    assert(start + Seq::empty() =~= start);
    while i < values.len()
        invariant
            i <= values@.len(),
            pairs_view(pairs@) == start + value_headers(name@, values@.take(i as int)),
        decreases values@.len() - i,
    {
        let ghost next = values@.take(i as int + 1);
        assert(next.drop_last() =~= values@.take(i as int));
        assert(next.last() == values@[i as int]);
        let ghost before = pairs@;
        if let (Some(n), Some(v)) = (
            header_name_from_bytes(name.as_bytes()),
            header_value_from_str(values[i].as_str()),
        ) {
            pairs.push((n, v));
            assert(pairs_view(pairs@) =~= pairs_view(before).push((header_name_text(n), value_view(v))));
            assert(pairs_view(pairs@) =~= start + value_headers(name@, next));
        }
        i = i + 1;
    }
    assert(values@.take(values@.len() as int) =~= values@);
}

/// Append the metadata of the last envelope of a stream. Names and values that
/// are no headers are skipped, and it stops where the collection has no room.
pub fn append_metadata_capped(trailers: &mut HeaderMap, metadata: &Vec<(String, Vec<String>)>)
    ensures
        appended_capped(old(trailers)@, metadata_headers(metadata@), final(trailers)@),
{
    let mut pairs: Vec<(HeaderName, HeaderValue)> = Vec::new();
    let mut i: usize = 0;
    assert(metadata@.take(0) =~= Seq::empty());
    assert(pairs_view(pairs@) =~= Seq::empty());
    while i < metadata.len()
        invariant
            i <= metadata@.len(),
            pairs_view(pairs@) == metadata_headers(metadata@.take(i as int)),
        decreases metadata@.len() - i,
    {
        let ghost next = metadata@.take(i as int + 1);
        assert(next.drop_last() =~= metadata@.take(i as int));
        assert(next.last() == metadata@[i as int]);
        push_values(&mut pairs, metadata[i].0.as_str(), &metadata[i].1);
        i = i + 1;
    }
    assert(metadata@.take(metadata@.len() as int) =~= metadata@);
    append_capped(trailers, &pairs);
}

// ---------------------------------------------------------------------------
// Trailers among headers
// ---------------------------------------------------------------------------

/// What the header of a trailer begins with.
pub open spec fn trailer_prefix() -> Seq<char> {
    "trailer-"@
}

/// The headers that are no trailers.
pub open spec fn plain_headers(h: HeaderContents) -> HeaderContents {
    Map::new(
        |name: Seq<char>| h.contains_key(name) && !begins_with(name, trailer_prefix()),
        |name: Seq<char>| h[name],
    )
}

/// The trailers among headers, without what marks them.
pub open spec fn prefixed_trailers(h: HeaderContents) -> HeaderContents {
    Map::new(
        |name: Seq<char>| is_canonical_name(name) && h.contains_key(trailer_prefix() + name),
        |name: Seq<char>| h[trailer_prefix() + name],
    )
}

/// Every header of a response is either a header or a trailer of the call, and
/// keeps its values; only a trailer without a name is dropped.
pub proof fn lemma_split_is_complete(h: HeaderContents, name: Seq<char>)
    requires
        h.contains_key(name),
        is_canonical_name(name),
        name != trailer_prefix(),
    ensures
        !begins_with(name, trailer_prefix()) ==> plain_headers(h).contains_key(name) && plain_headers(h)[name]
            == h[name],
        begins_with(name, trailer_prefix()) ==> !plain_headers(h).contains_key(name) && prefixed_trailers(
            h,
        ).contains_key(name.skip(8)) && prefixed_trailers(h)[name.skip(8)] == h[name],
{
    reveal_strlit("trailer-");
    if begins_with(name, trailer_prefix()) {
        assert(trailer_prefix() + name.skip(8) =~= name);
        if name.len() == 8 {
            assert(name =~= trailer_prefix());
        }
        assert forall|i: int| 0 <= i < name.skip(8).len() implies crate::headers::is_name_char(
            #[trigger] name.skip(8)[i],
        ) by {
            assert(name.skip(8)[i] == name[i + 8]);
        }
    }
}

/// One header more is one header or one trailer more.
proof fn lemma_split_step(h: HeaderContents, name: Seq<char>, value: ValueView)
    ensures
        !begins_with(name, trailer_prefix()) ==> plain_headers(appended(h, name, value)) == appended(
            plain_headers(h),
            name,
            value,
        ) && prefixed_trailers(appended(h, name, value)) == prefixed_trailers(h),
        begins_with(name, trailer_prefix()) ==> plain_headers(appended(h, name, value)) == plain_headers(h),
        begins_with(name, trailer_prefix()) && is_canonical_name(name.skip(8)) ==> prefixed_trailers(
            appended(h, name, value),
        ) == appended(prefixed_trailers(h), name.skip(8), value),
        begins_with(name, trailer_prefix()) && !is_canonical_name(name.skip(8)) ==> prefixed_trailers(
            appended(h, name, value),
        ) == prefixed_trailers(h),
{
    reveal_strlit("trailer-");
    let next = appended(h, name, value);
    assert forall|n: Seq<char>| #![trigger trailer_prefix() + n] begins_with(trailer_prefix() + n, trailer_prefix())
        && (trailer_prefix() + n).skip(8) == n by {
        assert((trailer_prefix() + n).take(8) =~= trailer_prefix());
        assert((trailer_prefix() + n).skip(8) =~= n);
    }
    if begins_with(name, trailer_prefix()) {
        assert(trailer_prefix() + name.skip(8) =~= name);
        assert(plain_headers(next) =~= plain_headers(h));
        if is_canonical_name(name.skip(8)) {
            assert(prefixed_trailers(next) =~= appended(prefixed_trailers(h), name.skip(8), value));
        } else {
            assert(prefixed_trailers(next) =~= prefixed_trailers(h));
        }
    } else {
        assert(plain_headers(next) =~= appended(plain_headers(h), name, value));
        assert(prefixed_trailers(next) =~= prefixed_trailers(h));
    }
}

/// A part of the pairs makes a part of the headers, and of the trailers.
proof fn lemma_split_front(pairs: HeaderPairs, i: int)
    requires
        0 <= i <= pairs.len(),
    ensures
        plain_headers(collected(pairs.take(i))).dom().subset_of(plain_headers(collected(pairs)).dom()),
        prefixed_trailers(collected(pairs.take(i))).dom().subset_of(prefixed_trailers(collected(pairs)).dom()),
{
    crate::headers::lemma_collected_front(pairs, i);
}

/// A collection that is crowded stays so, and one that refuses a value is so.
proof fn lemma_append_to_crowded(h: HeaderContents, name: Seq<char>, value: ValueView, done: bool)
    requires
        h.dom().finite(),
        fits(appended(h, name, value)) ==> done,
    ensures
        is_crowded(h) ==> is_crowded(appended(h, name, value)),
        !done ==> is_crowded(h),
{
    if is_crowded(h) {
        lemma_stays_crowded(h, name, value);
    }
    if !done {
        lemma_refused_when_crowded(h, name, value);
    }
}

/// Part the headers of a response into headers and trailers.
pub fn split_trailers(response_headers: &HeaderMap) -> (parts: (HeaderMap, HeaderMap))
    ensures
        takes(parts.0@, plain_headers(response_headers@)),
        takes(parts.1@, prefixed_trailers(response_headers@)),
        within_ceiling(parts.0@),
        within_ceiling(parts.1@),
{
    let mut headers = header_map_new();
    let mut trailers = header_map_new();
    let pairs = header_map_pairs(response_headers);
    let ghost all = pairs_view(pairs@);
    let ghost whole = response_headers@;
    let mut i: usize = 0;
    assert(all.take(0) =~= Seq::empty());
    assert(plain_headers(no_headers()) =~= no_headers());
    assert(prefixed_trailers(no_headers()) =~= no_headers());
    assert(no_headers().dom() =~= Set::<Seq<char>>::empty());
    while i < pairs.len()
        invariant
            i <= pairs@.len(),
            all == pairs_view(pairs@),
            collected(all) == whole,
            within_ceiling(headers@),
            within_ceiling(trailers@),
            headers@ == plain_headers(collected(all.take(i as int))) || is_crowded(headers@),
            trailers@ == prefixed_trailers(collected(all.take(i as int))) || is_crowded(trailers@),
            part_of(headers@, plain_headers(whole)),
            part_of(trailers@, prefixed_trailers(whole)),
            fits(plain_headers(whole)) ==> headers@ == plain_headers(collected(all.take(i as int))),
            fits(prefixed_trailers(whole)) ==> trailers@ == prefixed_trailers(collected(all.take(i as int))),
        decreases pairs@.len() - i,
    {
        let name = &pairs[i].0;
        let value = header_value_clone(&pairs[i].1);
        let ghost next = collected(all.take(i as int + 1));
        proof {
            lemma_collected_step(pairs@, i as int);
            lemma_split_step(
                collected(all.take(i as int)),
                header_name_text(*name),
                value_view(value),
            );
            lemma_collected_holds(all, i as int);
            lemma_split_front(all, i as int + 1);
            if fits(plain_headers(whole)) {
                lemma_fits_subset(plain_headers(next), plain_headers(whole));
            }
            if fits(prefixed_trailers(whole)) {
                lemma_fits_subset(prefixed_trailers(next), prefixed_trailers(whole));
            }
        }
        let text = header_name_str(name);
        match strip_prefix(text, "trailer-") {
            Some(rest) => {
                proof {
                    reveal_strlit("trailer-");
                    lemma_lower_case(rest@);
                }
                if let Some(n) = header_name_from_bytes(rest.as_str().as_bytes()) {
                    proof {
                        let marked = trailer_prefix() + header_name_text(n);
                        assert(marked =~= text@);
                        lemma_part_appended(
                            trailers@,
                            prefixed_trailers(whole),
                            header_name_text(n),
                            value_view(value),
                        );
                    }
                    let ghost (before, name, shown) = (trailers@, header_name_text(n), value_view(value));
                    let done = header_map_try_append(&mut trailers, n, value);
                    proof {
                        lemma_append_to_crowded(before, name, shown, done);
                    }
                }
            },
            None => {
                proof {
                    lemma_part_appended(
                        headers@,
                        plain_headers(whole),
                        header_name_text(*name),
                        value_view(value),
                    );
                }
                let ghost (before, shown) = (headers@, value_view(value));
                let done = header_map_try_append(&mut headers, header_name_clone(name), value);
                proof {
                    lemma_append_to_crowded(before, header_name_text(*name), shown, done);
                }
            },
        }
        i = i + 1;
    }
    assert(all.take(all.len() as int) =~= all);
    (headers, trailers)
}

/// ASCII text without upper-case letters is the canonical form of itself.
proof fn lemma_lower_case(text: Seq<char>)
    requires
        vstd::utf8::is_ascii_chars(text),
        forall|i: int| 0 <= i < text.len() ==> !('A' <= (#[trigger] text[i]) <= 'Z'),
    ensures
        canonical_name(encode_utf8(text)) == text,
{
    vstd::utf8::is_ascii_chars_encode_utf8(text);
    let bytes = encode_utf8(text);
    assert forall|i: int| 0 <= i < text.len() implies canonical_name(bytes)[i] == text[i] by {
        assert(!('A' <= text[i] <= 'Z'));
        assert(bytes[i] == text[i] as u8);
    }
    assert(canonical_name(bytes) =~= text);
}

} // verus!
