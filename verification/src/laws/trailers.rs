//! Laws on trailers: what was written is what is read.
use vstd::prelude::*;
use vstd::utf8::encode_utf8;
use vstd::utf8::is_ascii_chars;

use crate::client::config::is_header_name;
use crate::client::trailers::appended_capped;
use crate::client::trailers::appended_up_to;
use crate::client::trailers::frame_trailers;
use crate::client::trailers::line_header;
use crate::client::trailers::line_headers;
use crate::client::trailers::metadata_headers;
use crate::client::trailers::packed_trailers;
use crate::client::trailers::plain_headers;
use crate::client::trailers::prefixed_trailers;
use crate::client::trailers::trailer_end;
use crate::client::trailers::trailer_prefix;
use crate::client::trailers::value_headers;
use crate::client::trailers::HeaderPairs;
use crate::compression::registry::registry_decompresses;
use crate::compression::Outcome;
use crate::envelope::declared_length;
use crate::envelope::encoder::Coding;
use crate::envelope::envelope_bytes;
use crate::envelope::lemma_header_declares;
use crate::headers::appended;
use crate::headers::canonical_name;
use crate::headers::collected;
use crate::headers::first_value;
use crate::headers::fits;
use crate::headers::is_canonical_name;
use crate::headers::is_header_value;
use crate::headers::is_name_char;
use crate::headers::joined_headers;
use crate::headers::no_headers;
use crate::headers::values_of;
use crate::headers::HeaderContents;
use crate::headers::ValueView;
use crate::laws::framing::law_flag_bits;
use crate::laws::texts::is_tight;
use crate::laws::texts::law_first_index_behind;
use crate::laws::texts::law_nothing_to_cut;
use crate::laws::texts::law_split_undoes_joining;
use crate::laws::texts::law_trailing_repetitions_go;
use crate::laws::texts::law_trimming_takes_white_space_only;
use crate::text::begins_with;
use crate::text::first_index;
use crate::text::is_white_space;
use crate::text::split;
use crate::text::without_trailing;

verus! {

// ---------------------------------------------------------------------------
// Names and values
// ---------------------------------------------------------------------------

/// A header name as somebody may write it: letters of either case, digits, and
/// the signs that a name may hold.
pub open spec fn is_name_text(name: Seq<char>) -> bool {
    &&& 0 < name.len() <= 65535
    &&& forall|i: int| 0 <= i < name.len() ==> is_name_char(#[trigger] name[i]) || 'A' <= name[i] <= 'Z'
}

/// A character with an upper-case letter of ASCII turned into lower case.
pub open spec fn lower_char(c: char) -> char {
    if 'A' <= c <= 'Z' {
        (c as nat + 32) as char
    } else {
        c
    }
}

/// A text with its upper-case letters of ASCII turned into lower case.
pub open spec fn lower_text(text: Seq<char>) -> Seq<char> {
    Seq::new(text.len(), |i: int| lower_char(text[i]))
}

/// A header value as somebody may write it on a line: what a value may hold,
/// with no white space around it and no line break. It may hold colons.
pub open spec fn is_value_text(value: Seq<char>) -> bool {
    is_header_value(encode_utf8(value)) && is_tight(value) && !value.contains('\n')
}

/// A name in any case is a header name, and stands for the name in lower case.
pub proof fn law_names_are_lower_case(name: Seq<char>)
    requires
        is_name_text(name),
    ensures
        is_header_name(name),
        canonical_name(encode_utf8(name)) == lower_text(name),
        is_canonical_name(lower_text(name)),
{
    assert(is_ascii_chars(name)) by {
        assert forall|i: int| 0 <= i < name.len() implies '\0' <= #[trigger] name[i] <= '\u{7f}' by {
            assert(is_name_char(name[i]) || 'A' <= name[i] <= 'Z');
        }
    }
    vstd::utf8::is_ascii_chars_encode_utf8(name);
    let bytes = encode_utf8(name);
    let lower = lower_text(name);
    assert forall|i: int| 0 <= i < name.len() implies canonical_name(bytes)[i] == lower[i] && is_name_char(
        #[trigger] lower[i],
    ) by {
        assert(is_name_char(name[i]) || 'A' <= name[i] <= 'Z');
        assert(bytes[i] == name[i] as u8);
    }
    assert(canonical_name(bytes) =~= lower);
}

/// The name and the value that a line stands for.
pub open spec fn pair_of(name: Seq<char>, value: Seq<char>) -> (Seq<char>, ValueView) {
    (lower_text(name), (encode_utf8(value), false))
}

// ---------------------------------------------------------------------------
// Lines
// ---------------------------------------------------------------------------

/// A line of a trailer frame is read back as it was written: the name in lower
/// case and the whole value, colons and all. It does not matter how many blanks
/// stand behind the first colon, nor how many carriage return characters end the line.
pub proof fn law_line_is_read_back(name: Seq<char>, blanks: Seq<char>, value: Seq<char>, ending: Seq<char>)
    requires
        is_name_text(name),
        forall|i: int| 0 <= i < blanks.len() ==> #[trigger] blanks[i] == ' ' || blanks[i] == '\t',
        is_value_text(value),
        forall|i: int| 0 <= i < ending.len() ==> #[trigger] ending[i] == '\r',
    ensures
        line_header(name + seq![':'] + blanks + value + ending) == Some(pair_of(name, value)),
{
    let text = name + seq![':'] + blanks + value;
    let line = text + ending;
    assert(text.last() != '\r') by {
        if value.len() > 0 {
            assert(text.last() == value.last());
        } else if blanks.len() > 0 {
            assert(text.last() == blanks.last());
        } else {
            assert(text.last() == ':');
        }
    }
    law_trailing_repetitions_go(text, '\r', ending);
    assert(without_trailing(line, '\r') == text);
    assert(!name.contains(':')) by {
        if name.contains(':') {
            let i = choose|i: int| 0 <= i < name.len() && name[i] == ':';
            assert(is_name_char(name[i]) || 'A' <= name[i] <= 'Z');
        }
    }
    assert(text =~= name + seq![':'] + (blanks + value));
    law_first_index_behind(name, ':', blanks + value);
    let at = name.len() as int;
    assert(first_index(text, ':') == at);
    assert(text.take(at) =~= name);
    assert(text.skip(at + 1) =~= blanks + value);
    assert(!is_white_space(name[0]) && !is_white_space(name.last())) by {
        assert(is_name_char(name[0]) || 'A' <= name[0] <= 'Z');
        assert(is_name_char(name.last()) || 'A' <= name.last() <= 'Z');
    }
    law_trimming_takes_white_space_only(Seq::empty(), name, Seq::empty());
    assert(Seq::<char>::empty() + name + Seq::<char>::empty() =~= name);
    law_trimming_takes_white_space_only(blanks, value, Seq::empty());
    assert(blanks + value + Seq::<char>::empty() =~= blanks + value);
    law_names_are_lower_case(name);
}

/// Both usual forms of a line are read back, `name: value` and `name:value`,
/// with a carriage return at the end or without.
pub proof fn law_usual_lines_are_read_back(name: Seq<char>, value: Seq<char>)
    requires
        is_name_text(name),
        is_value_text(value),
    ensures
        line_header(name + ": "@ + value + "\r"@) == Some((lower_text(name), (encode_utf8(value), false))),
        line_header(name + ": "@ + value) == Some((lower_text(name), (encode_utf8(value), false))),
        line_header(name + ":"@ + value + "\r"@) == Some((lower_text(name), (encode_utf8(value), false))),
        line_header(name + ":"@ + value) == Some((lower_text(name), (encode_utf8(value), false))),
{
    reveal_strlit(": ");
    reveal_strlit(":");
    reveal_strlit("\r");
    let none = Seq::<char>::empty();
    law_line_is_read_back(name, seq![' '], value, seq!['\r']);
    law_line_is_read_back(name, seq![' '], value, none);
    law_line_is_read_back(name, none, value, seq!['\r']);
    law_line_is_read_back(name, none, value, none);
    assert(name + seq![':'] + seq![' '] + value + seq!['\r'] =~= name + ": "@ + value + "\r"@);
    assert(name + seq![':'] + seq![' '] + value + none =~= name + ": "@ + value);
    assert(name + seq![':'] + none + value + seq!['\r'] =~= name + ":"@ + value + "\r"@);
    assert(name + seq![':'] + none + value + none =~= name + ":"@ + value);
}

/// A line without a colon stands for nothing. What a line stands for has a
/// valid name and a valid value, which is never marked as sensitive.
pub proof fn law_other_lines_stand_for_nothing(line: Seq<char>)
    ensures
        !line.contains(':') ==> line_header(line) is None,
        line_header(line) matches Some((name, value)) ==> is_canonical_name(name) && is_header_value(value.0)
            && !value.1,
{
    if !line.contains(':') {
        let text = without_trailing(line, '\r');
        lemma_front_of(line, '\r');
        assert(!text.contains(':')) by {
            if text.contains(':') {
                let i = choose|i: int| 0 <= i < text.len() && text[i] == ':';
                assert(line[i] == ':');
            }
        }
        law_nothing_to_cut(text, ':');
    }
}

/// What is left of a text is its front.
proof fn lemma_front_of(s: Seq<char>, c: char)
    ensures
        without_trailing(s, c).len() <= s.len(),
        without_trailing(s, c) == s.take(without_trailing(s, c).len() as int),
    decreases s.len(),
{
    if s.len() > 0 && s.last() == c {
        lemma_front_of(s.drop_last(), c);
    }
    let left = without_trailing(s, c);
    assert(left =~= s.take(left.len() as int));
}

// ---------------------------------------------------------------------------
// Frames
// ---------------------------------------------------------------------------

/// Trailers as the text of a trailer frame: a line for each of them.
pub open spec fn written_lines(list: Seq<(Seq<char>, Seq<char>)>) -> Seq<char>
    decreases list.len(),
{
    if list.len() == 0 {
        Seq::empty()
    } else {
        list[0].0 + seq![':', ' '] + list[0].1 + seq!['\r', '\n'] + written_lines(list.drop_first())
    }
}

/// Names and values that can be written as lines.
pub open spec fn can_be_written(list: Seq<(Seq<char>, Seq<char>)>) -> bool {
    forall|i: int| 0 <= i < list.len() ==> is_name_text((#[trigger] list[i]).0) && is_value_text(list[i].1)
}

/// The headers that names and values stand for.
pub open spec fn pairs_of(list: Seq<(Seq<char>, Seq<char>)>) -> HeaderPairs {
    Seq::new(list.len(), |i: int| pair_of(list[i].0, list[i].1))
}

/// A line in front is a header in front.
proof fn lemma_first_line(line: Seq<char>, rest: Seq<Seq<char>>)
    ensures
        line_headers(seq![line] + rest) == match line_header(line) {
            Some(pair) => seq![pair] + line_headers(rest),
            None => line_headers(rest),
        },
    decreases rest.len(),
{
    let all = seq![line] + rest;
    if rest.len() == 0 {
        assert(all.drop_last() =~= Seq::empty());
        assert(all.last() == line);
        assert(line_headers(Seq::empty()) =~= Seq::empty());
        assert(line_headers(all.drop_last()) =~= Seq::empty());
        match line_header(line) {
            Some(pair) => {
                assert(line_headers(all) =~= seq![pair] + line_headers(rest));
            },
            None => {
                assert(line_headers(all) =~= line_headers(rest));
            },
        }
    } else {
        lemma_first_line(line, rest.drop_last());
        assert(all.drop_last() =~= seq![line] + rest.drop_last());
        assert(all.last() == rest.last());
        match line_header(line) {
            Some(pair) => {
                assert(line_headers(all) =~= seq![pair] + line_headers(rest));
            },
            None => {},
        }
    }
}

/// The lines of a text that was written are the headers that it was written
/// from: all of them, in order, and no others.
pub proof fn law_lines_are_read_back(list: Seq<(Seq<char>, Seq<char>)>)
    requires
        can_be_written(list),
    ensures
        line_headers(split(written_lines(list), '\n')) == pairs_of(list),
    decreases list.len(),
{
    let text = written_lines(list);
    if list.len() == 0 {
        law_nothing_to_cut(text, '\n');
        lemma_first_line(text, Seq::empty());
        assert(seq![text] + Seq::<Seq<char>>::empty() =~= seq![text]);
        law_other_lines_stand_for_nothing(text);
        assert(line_headers(Seq::<Seq<char>>::empty()) =~= Seq::empty());
        assert(line_headers(split(text, '\n')) =~= pairs_of(list));
    } else {
        let (name, value) = list[0];
        assert(is_name_text(name) && is_value_text(value));
        let rest = list.drop_first();
        assert forall|i: int| 0 <= i < rest.len() implies is_name_text((#[trigger] rest[i]).0) && is_value_text(
            rest[i].1,
        ) by {
            assert(rest[i] == list[i + 1]);
        }
        law_lines_are_read_back(rest);
        let line = name + seq![':'] + seq![' '] + value + seq!['\r'];
        assert(text =~= line + seq!['\n'] + written_lines(rest));
        assert(!line.contains('\n')) by {
            if line.contains('\n') {
                let i = choose|i: int| 0 <= i < line.len() && line[i] == '\n';
                if i < name.len() {
                    assert(line[i] == name[i]);
                    assert(is_name_char(name[i]) || 'A' <= name[i] <= 'Z');
                } else if name.len() + 2 <= i < name.len() + 2 + value.len() {
                    assert(line[i] == value[i - name.len() - 2]);
                    assert(value.contains('\n'));
                }
            }
        }
        law_split_undoes_joining(line, '\n', written_lines(rest));
        law_line_is_read_back(name, seq![' '], value, seq!['\r']);
        lemma_first_line(line, split(written_lines(rest), '\n'));
        assert(seq![pair_of(name, value)] + pairs_of(rest) =~= pairs_of(list));
    }
}

/// A trailer frame that was written is read back, whatever comes behind it: as
/// many trailers as a collection is sure to take are all there, each name with
/// its values in order.
pub proof fn law_trailer_frame_is_read_back(
    list: Seq<(Seq<char>, Seq<char>)>,
    more: Seq<u8>,
    coding: Option<Coding>,
    r: Option<HeaderContents>,
)
    requires
        can_be_written(list),
        list.len() <= 6553,
        encode_utf8(written_lines(list)).len() <= 1_048_576,
        frame_trailers(envelope_bytes(0x80, encode_utf8(written_lines(list))) + more, coding, r),
    ensures
        r == Some(collected(pairs_of(list))),
{
    let payload = encode_utf8(written_lines(list));
    let data = envelope_bytes(0x80, payload) + more;
    assert(data =~= crate::envelope::header_bytes(0x80, payload.len()) + (payload + more));
    lemma_header_declares(0x80, payload.len(), payload + more);
    law_flag_bits(0x80);
    assert(data.subrange(5, 5 + payload.len() as int) =~= payload);
    vstd::utf8::encode_utf8_valid_utf8(written_lines(list));
    vstd::utf8::encode_utf8_decode_utf8(written_lines(list));
    law_lines_are_read_back(list);
    law_capped_takes_what_fits(no_headers(), pairs_of(list), r->0);
    lemma_joined_behind_nothing(collected(pairs_of(list)));
}

/// A frame that is not marked as a trailer frame, that is cut off, or that is
/// over the limit of 1 MiB says nothing at all.
pub proof fn law_unreadable_frame_says_nothing(
    f: u8,
    payload: Seq<u8>,
    cut: int,
    coding: Option<Coding>,
    r: Option<HeaderContents>,
)
    requires
        payload.len() <= u32::MAX,
        0 <= cut <= 5 + payload.len(),
        f < 128 || cut < 5 + payload.len() || payload.len() > 1_048_576,
        frame_trailers(envelope_bytes(f, payload).take(cut), coding, r),
    ensures
        r is None,
{
    let whole = envelope_bytes(f, payload);
    let data = whole.take(cut);
    lemma_header_declares(f, payload.len(), payload);
    law_flag_bits(f);
    if cut >= 5 {
        assert(declared_length(data) == declared_length(whole));
        assert(data[0] == f);
    }
}

/// A compressed trailer frame cannot be read where no encoding was announced.
pub proof fn law_compressed_frame_needs_an_encoding(f: u8, payload: Seq<u8>, r: Option<HeaderContents>)
    requires
        payload.len() <= u32::MAX,
        f % 2 == 1,
        frame_trailers(envelope_bytes(f, payload), None, r),
    ensures
        r is None,
{
    lemma_header_declares(f, payload.len(), payload);
    law_flag_bits(f);
}

/// Where the first trailer frame of a body ends: behind that frame, counting the
/// frames before it.
pub proof fn law_trailer_frame_is_found(f: u8, payload: Seq<u8>, rest: Seq<u8>)
    requires
        payload.len() <= u32::MAX,
    ensures
        f >= 128 ==> trailer_end(envelope_bytes(f, payload) + rest) == Some(5 + payload.len()),
        f < 128 ==> trailer_end(envelope_bytes(f, payload) + rest) == match trailer_end(rest) {
            Some(end) => Some(5 + payload.len() + end),
            None => None,
        },
        rest.len() < payload.len() ==> trailer_end(crate::envelope::header_bytes(f, payload.len()) + rest) is None,
{
    let data = envelope_bytes(f, payload) + rest;
    assert(data =~= crate::envelope::header_bytes(f, payload.len()) + (payload + rest));
    lemma_header_declares(f, payload.len(), payload + rest);
    lemma_header_declares(f, payload.len(), rest);
    law_flag_bits(f);
    assert(data.skip(5 + payload.len() as int) =~= rest);
}

// ---------------------------------------------------------------------------
// Collections
// ---------------------------------------------------------------------------

/// Nothing before a collection is that collection.
proof fn lemma_joined_behind_nothing(h: HeaderContents)
    ensures
        joined_headers(no_headers(), h) == h,
{
    assert forall|n: Seq<char>| h.contains_key(n) implies joined_headers(no_headers(), h)[n] == h[n] by {
        assert(joined_headers(no_headers(), h)[n] =~= h[n]);
    }
    assert(joined_headers(no_headers(), h) =~= h);
}

/// There are no more names than there are pairs.
proof fn lemma_names_of_pairs(pairs: HeaderPairs)
    ensures
        collected(pairs).dom().finite(),
        collected(pairs).dom().len() <= pairs.len(),
    decreases pairs.len(),
{
    if pairs.len() == 0 {
        assert(no_headers().dom() =~= Set::<Seq<char>>::empty());
    } else {
        lemma_names_of_pairs(pairs.drop_last());
        let before = collected(pairs.drop_last());
        let name = pairs.last().0;
        assert(collected(pairs).dom() =~= before.dom().insert(name));
    }
}

/// As many pairs as a collection is sure to take are all there, behind what was
/// there before.
pub proof fn law_capped_takes_what_fits(before: HeaderContents, pairs: HeaderPairs, after: HeaderContents)
    requires
        before.dom().finite(),
        before.dom().len() + pairs.len() <= 6553,
        appended_capped(before, pairs, after),
    ensures
        after == joined_headers(before, collected(pairs)),
{
    let n = choose|n: int| #[trigger] appended_up_to(before, pairs, n, after);
    if n < pairs.len() {
        let front = pairs.take(n + 1);
        lemma_names_of_pairs(front);
        let all = joined_headers(before, collected(front));
        assert(all.dom() =~= before.dom().union(collected(front).dom()));
        vstd::set_lib::lemma_len_union(before.dom(), collected(front).dom());
        assert(fits(all));
    } else {
        assert(pairs.take(n) =~= pairs);
    }
}

/// Every value stands under its name, behind the values that came before it,
/// and nothing else changes.
pub proof fn law_appending_adds_one_value(h: HeaderContents, name: Seq<char>, value: ValueView, other: Seq<char>)
    ensures
        values_of(appended(h, name, value), name) == values_of(h, name).push(value),
        other != name ==> values_of(appended(h, name, value), other) == values_of(h, other),
        other != name ==> (appended(h, name, value).contains_key(other) <==> h.contains_key(other)),
        appended(h, name, value).contains_key(name),
{
    assert(values_of(appended(h, name, value), name) =~= values_of(h, name).push(value));
}

/// The values under a name are those of the pairs with that name, in order.
pub proof fn law_collected_values(pairs: HeaderPairs, name: Seq<char>)
    ensures
        values_of(collected(pairs), name) == pairs.filter(|p: (Seq<char>, ValueView)| p.0 == name).map_values(
            |p: (Seq<char>, ValueView)| p.1,
        ),
    decreases pairs.len(),
{
    let has = |p: (Seq<char>, ValueView)| p.0 == name;
    let value = |p: (Seq<char>, ValueView)| p.1;
    reveal(Seq::filter);
    if pairs.len() == 0 {
        assert(pairs.filter(has).map_values(value) =~= Seq::empty());
        assert(values_of(collected(pairs), name) =~= Seq::empty());
    } else {
        law_collected_values(pairs.drop_last(), name);
        let before = collected(pairs.drop_last());
        let (n, v) = pairs.last();
        law_appending_adds_one_value(before, n, v, name);
        let front = pairs.drop_last().filter(has);
        if n == name {
            assert(pairs.filter(has) =~= front.push(pairs.last()));
            assert(pairs.filter(has).map_values(value) =~= front.map_values(value).push(v));
        } else {
            assert(pairs.filter(has) =~= front);
        }
    }
}

/// The first value under a name is the oldest, and later values do not replace
/// it.
pub proof fn law_first_value_is_the_oldest(h: HeaderContents, name: Seq<char>, value: ValueView)
    requires
        h.contains_key(name) ==> h[name].len() > 0,
    ensures
        first_value(appended(h, name, value), name) == (if h.contains_key(name) {
            first_value(h, name)
        } else {
            Some(value.0)
        }),
        !h.contains_key(name) ==> first_value(h, name) is None,
{
}

// ---------------------------------------------------------------------------
// Metadata
// ---------------------------------------------------------------------------

/// All valid values of a valid name are headers, in order.
pub proof fn law_metadata_values_are_kept(name: Seq<char>, values: Seq<String>)
    requires
        is_name_text(name),
        forall|i: int| 0 <= i < values.len() ==> is_header_value(encode_utf8((#[trigger] values[i])@)),
    ensures
        value_headers(name, values) == Seq::new(
            values.len(),
            |i: int| (lower_text(name), (encode_utf8(values[i]@), false)),
        ),
    decreases values.len(),
{
    law_names_are_lower_case(name);
    let wanted = Seq::new(values.len(), |i: int| (lower_text(name), (encode_utf8(values[i]@), false)));
    if values.len() > 0 {
        assert(is_header_value(encode_utf8(values[values.len() - 1]@)));
        law_metadata_values_are_kept(name, values.drop_last());
    }
    assert(value_headers(name, values) =~= wanted);
}

/// A value that is no header value is left out, and takes no other with it.
/// Under a name that is no header name there is nothing.
pub proof fn law_invalid_metadata_is_left_out(name: Seq<char>, values: Seq<String>, value: String)
    ensures
        !is_header_value(encode_utf8(value@)) ==> value_headers(name, values.push(value)) == value_headers(
            name,
            values,
        ),
        !is_header_name(name) ==> value_headers(name, values) == Seq::<(Seq<char>, ValueView)>::empty(),
    decreases values.len(),
{
    assert(values.push(value).drop_last() =~= values);
    if values.len() > 0 {
        law_invalid_metadata_is_left_out(name, values.drop_last(), value);
    }
}

/// The names of metadata follow one another: their headers do so too.
pub proof fn law_metadata_goes_name_by_name(
    metadata: Seq<(String, Vec<String>)>,
    more: Seq<(String, Vec<String>)>,
    entry: (String, Vec<String>),
)
    ensures
        metadata_headers(seq![entry]) == value_headers(entry.0@, entry.1@),
        metadata_headers(metadata + more) == metadata_headers(metadata) + metadata_headers(more),
    decreases more.len(),
{
    let one = seq![entry];
    assert(one.drop_last() =~= Seq::empty());
    assert(metadata_headers(one.drop_last()) =~= Seq::empty());
    assert(metadata_headers(one) =~= value_headers(entry.0@, entry.1@));
    let all = metadata + more;
    if more.len() == 0 {
        assert(all =~= metadata);
        assert(metadata_headers(metadata) + metadata_headers(more) =~= metadata_headers(metadata));
    } else {
        law_metadata_goes_name_by_name(metadata, more.drop_last(), entry);
        assert(all.drop_last() =~= metadata + more.drop_last());
        assert(metadata_headers(all) =~= metadata_headers(metadata) + metadata_headers(more));
    }
}

// ---------------------------------------------------------------------------
// Trailers among headers
// ---------------------------------------------------------------------------

/// The trailers of a call are the headers whose names begin with `trailer-`,
/// under the rest of their names. The other headers are the headers of the call,
/// and no header is both.
pub proof fn law_trailers_among_headers(h: HeaderContents, name: Seq<char>)
    requires
        is_canonical_name(name),
    ensures
        prefixed_trailers(h).contains_key(name) <==> h.contains_key("trailer-"@ + name),
        h.contains_key("trailer-"@ + name) ==> prefixed_trailers(h)[name] == h["trailer-"@ + name],
        !plain_headers(h).contains_key("trailer-"@ + name),
        plain_headers(h).contains_key(name) <==> h.contains_key(name) && !begins_with(name, "trailer-"@),
        plain_headers(h).contains_key(name) ==> plain_headers(h)[name] == h[name],
        trailer_prefix() == "trailer-"@,
{
    let marked = "trailer-"@ + name;
    assert(marked.take("trailer-"@.len() as int) =~= "trailer-"@);
}

// ---------------------------------------------------------------------------
// Compressed frames
// ---------------------------------------------------------------------------

/// A compressed trailer frame is read as what its payload decompresses to: where
/// that can only be the text of trailers, these are the trailers.
pub proof fn law_compressed_trailer_frame_is_read_back(
    list: Seq<(Seq<char>, Seq<char>)>,
    payload: Seq<u8>,
    more: Seq<u8>,
    coding: Coding,
    r: Option<HeaderContents>,
)
    requires
        can_be_written(list),
        list.len() <= 6553,
        payload.len() <= 1_048_576,
        forall|unpacked: Outcome| #[trigger]
            registry_decompresses(coding.registry, coding.encoding, payload, 1_048_576, unpacked) ==> unpacked
                == Outcome::Ok(encode_utf8(written_lines(list))),
        frame_trailers(envelope_bytes(0x81, payload) + more, Some(coding), r),
    ensures
        r == Some(collected(pairs_of(list))),
{
    let data = envelope_bytes(0x81, payload) + more;
    assert(data =~= crate::envelope::header_bytes(0x81, payload.len()) + (payload + more));
    lemma_header_declares(0x81, payload.len(), payload + more);
    law_flag_bits(0x81);
    assert(data.subrange(5, 5 + payload.len() as int) =~= payload);
    let unpacked = choose|unpacked: Outcome| #[trigger]
        registry_decompresses(coding.registry, coding.encoding, payload, 1_048_576, unpacked) && packed_trailers(
            unpacked,
            r,
        );
    assert(registry_decompresses(coding.registry, coding.encoding, payload, 1_048_576, unpacked));
    vstd::utf8::encode_utf8_valid_utf8(written_lines(list));
    vstd::utf8::encode_utf8_decode_utf8(written_lines(list));
    law_lines_are_read_back(list);
    law_capped_takes_what_fits(no_headers(), pairs_of(list), r->0);
    lemma_joined_behind_nothing(collected(pairs_of(list)));
}

/// What is no text holds no trailers.
pub proof fn law_trailers_are_text(payload: Seq<u8>, more: Seq<u8>, coding: Option<Coding>, r: Option<HeaderContents>)
    requires
        payload.len() <= u32::MAX,
        !vstd::utf8::valid_utf8(payload),
        frame_trailers(envelope_bytes(0x80, payload) + more, coding, r),
    ensures
        r is None,
{
    let data = envelope_bytes(0x80, payload) + more;
    assert(data =~= crate::envelope::header_bytes(0x80, payload.len()) + (payload + more));
    lemma_header_declares(0x80, payload.len(), payload + more);
    law_flag_bits(0x80);
    assert(data.subrange(5, 5 + payload.len() as int) =~= payload);
}

/// A compressed trailer frame that cannot be decompressed says nothing.
pub proof fn law_undecodable_trailer_frame_says_nothing(
    payload: Seq<u8>,
    more: Seq<u8>,
    coding: Coding,
    r: Option<HeaderContents>,
)
    requires
        payload.len() <= u32::MAX,
        forall|unpacked: Outcome| #[trigger]
            registry_decompresses(coding.registry, coding.encoding, payload, 1_048_576, unpacked) ==> unpacked is Err,
        frame_trailers(envelope_bytes(0x81, payload) + more, Some(coding), r),
    ensures
        r is None,
{
    let data = envelope_bytes(0x81, payload) + more;
    assert(data =~= crate::envelope::header_bytes(0x81, payload.len()) + (payload + more));
    lemma_header_declares(0x81, payload.len(), payload + more);
    law_flag_bits(0x81);
    assert(data.subrange(5, 5 + payload.len() as int) =~= payload);
    if payload.len() <= 1_048_576 {
        let unpacked = choose|unpacked: Outcome| #[trigger]
            registry_decompresses(coding.registry, coding.encoding, payload, 1_048_576, unpacked) && packed_trailers(
                unpacked,
                r,
            );
        assert(registry_decompresses(coding.registry, coding.encoding, payload, 1_048_576, unpacked));
    }
}

} // verus!
