//! Laws on the settings of a call, and on collections of headers.
use http::HeaderMap;
use vstd::prelude::*;
use vstd::utf8::encode_utf8;
use vstd::utf8::is_ascii_chars;

use crate::client::config::either;
use crate::client::config::header_added;
use crate::client::config::is_header_name;
use crate::client::config::merged_headers;
use crate::client::config::with_added;
use crate::client::request::sent_headers;
use crate::client::request::HeaderList;
use crate::codec::codec_outcome;
use crate::error::plain_error;
use crate::error::ConnectError;
use crate::error::ErrorCode;
use crate::headers::all_values_valid;
use crate::headers::appended;
use crate::headers::canonical_name;
use crate::headers::collected;
use crate::headers::first_is_sensitive;
use crate::headers::fits;
use crate::headers::is_header_value;
use crate::headers::is_name_char;
use crate::headers::joined_headers;
use crate::headers::quoted;
use crate::headers::shown_bytes;
use crate::headers::takes;
use crate::headers::values_of;
use crate::headers::HeaderContents;
use crate::headers::HeadersView;
use crate::headers::ValueView;
use crate::laws::trailers::is_name_text;
use crate::laws::trailers::law_names_are_lower_case;
use crate::laws::trailers::lower_text;

verus! {

/// What a call sets is in effect, and else what the configuration sets.
pub proof fn law_call_setting_wins<T>(call: T, configured: Option<T>)
    ensures
        either(Some(call), configured) == Some(call),
        either(None::<T>, configured) == configured,
{
}

/// A header that is set, in whatever case, stands under its name in lower case
/// behind the values that were set before, and nothing else changes. It is not
/// marked as sensitive.
pub proof fn law_header_is_added(
    before: HeaderContents,
    name: Seq<char>,
    value: Seq<char>,
    after: HeaderContents,
    other: Seq<char>,
)
    requires
        is_name_text(name),
        is_header_value(encode_utf8(value)),
        before.dom().finite(),
        before.dom().len() < 6553,
        header_added(before, name, value, after),
    ensures
        values_of(after, lower_text(name)) == values_of(before, lower_text(name)).push((encode_utf8(value), false)),
        other != lower_text(name) ==> values_of(after, other) == values_of(before, other),
{
    law_names_are_lower_case(name);
    let n = lower_text(name);
    let v = (encode_utf8(value), false);
    assert(with_added(before, name, value) == appended(before, n, v));
    assert(appended(before, n, v).dom() =~= before.dom().insert(n));
    assert(fits(with_added(before, name, value)));
    crate::laws::trailers::law_appending_adds_one_value(before, n, v, other);
}

/// A header is refused only by a collection that has as many names as it is
/// sure to take, and then nothing changes.
pub proof fn law_header_is_refused_when_crowded(
    before: HeaderContents,
    name: Seq<char>,
    value: Seq<char>,
    after: HeaderContents,
)
    requires
        is_name_text(name),
        is_header_value(encode_utf8(value)),
        header_added(before, name, value, after),
    ensures
        after == before || after == appended(before, lower_text(name), (encode_utf8(value), false)),
        after == before ==> before.dom().finite() && before.dom().len() >= 6553,
{
    law_names_are_lower_case(name);
    let n = lower_text(name);
    let v = (encode_utf8(value), false);
    crate::laws::trailers::law_appending_adds_one_value(before, n, v, n);
    assert(values_of(before, n).push(v).len() == values_of(before, n).len() + 1);
    assert(appended(before, n, v) != before);
}

/// What is no header changes nothing.
pub proof fn law_invalid_header_is_not_added(
    before: HeaderContents,
    name: Seq<char>,
    value: Seq<char>,
    after: HeaderContents,
)
    requires
        !is_header_name(name) || !is_header_value(encode_utf8(value)),
        header_added(before, name, value, after),
    ensures
        after == before,
{
}

/// A collection that is to hold no more names than it is sure to take holds just
/// these; and it never holds what it was not to hold.
pub proof fn law_small_collections_are_whole(h: HeaderContents, whole: HeaderContents, name: Seq<char>, i: int)
    requires
        takes(h, whole),
    ensures
        whole.dom().finite() && whole.dom().len() <= 6553 ==> h == whole,
        h != whole ==> h.dom().finite() && h.dom().len() >= 6553,
        h.contains_key(name) ==> whole.contains_key(name),
        h.contains_key(name) && 0 <= i < h[name].len() ==> whole[name].contains(h[name][i]),
{
}

/// Of two collections one after the other every name has the values of the first
/// and then those of the second.
pub proof fn law_joined_collections(a: HeaderContents, b: HeaderContents, name: Seq<char>)
    ensures
        values_of(joined_headers(a, b), name) == values_of(a, name) + values_of(b, name),
        joined_headers(a, b).contains_key(name) <==> a.contains_key(name) || b.contains_key(name),
{
    assert(values_of(joined_headers(a, b), name) =~= values_of(a, name) + values_of(b, name));
}

/// The headers that are sent: under a name that the call sets just what the call
/// sets, and under any other what the protocol sets. None are sent where a value
/// of the protocol is no header value.
pub proof fn law_sent_headers(
    list: HeaderList,
    user: HeaderContents,
    headers: Option<HeaderMap>,
    name: Seq<char>,
)
    requires
        sent_headers(list, user, headers),
        merged_headers(collected(list), user).dom().finite(),
        merged_headers(collected(list), user).dom().len() <= 6553,
    ensures
        all_values_valid(list) <==> headers is Some,
        headers matches Some(h) ==> values_of(h@, name) == (if user.contains_key(name) {
            user[name]
        } else {
            values_of(collected(list), name)
        }),
{
    crate::client::config::lemma_merged_headers(collected(list), user, name);
}

/// What was encoded or decoded is passed on, and else there is an error with the
/// given code that says what was tried and why it failed.
pub proof fn law_codec_outcome<M>(value: M, cause: String, code: ErrorCode, what: Seq<char>, r: Result<M, ConnectError>)
    ensures
        codec_outcome(Ok::<M, String>(value), code, what, r) ==> r == Ok::<M, ConnectError>(value),
        codec_outcome(Err::<M, String>(cause), code, what, r) ==> r is Err && r->Err_0@ == plain_error(
            code,
            what + cause@,
        ),
{
}

/// Visible text without quotation marks is shown as it is, between quotation
/// marks.
pub proof fn law_visible_value_is_shown(value: Seq<u8>)
    requires
        forall|i: int| 0 <= i < value.len() ==> 32 <= #[trigger] value[i] < 127 && value[i] != 34,
    ensures
        quoted(value) == seq!['"'] + crate::headers::ascii_text(value) + seq!['"'],
{
    lemma_shown_as_it_is(value);
}

/// Visible text is shown as it is.
proof fn lemma_shown_as_it_is(value: Seq<u8>)
    requires
        forall|i: int| 0 <= i < value.len() ==> 32 <= #[trigger] value[i] < 127 && value[i] != 34,
    ensures
        shown_bytes(value) == crate::headers::ascii_text(value),
    decreases value.len(),
{
    if value.len() > 0 {
        let front = value.drop_last();
        assert forall|i: int| 0 <= i < front.len() implies 32 <= #[trigger] front[i] < 127 && front[i] != 34 by {
            assert(front[i] == value[i]);
        }
        lemma_shown_as_it_is(front);
        assert(32 <= value[value.len() - 1] < 127 && value[value.len() - 1] != 34);
    }
    assert(shown_bytes(value) =~= crate::headers::ascii_text(value));
}

/// A value is shown as sensitive where the first value under its name is marked
/// so, whatever later values are.
pub proof fn law_mark_of_the_first_value_counts(h: HeaderContents, name: Seq<char>, value: ValueView)
    ensures
        h.contains_key(name) && h[name].len() > 0 ==> first_is_sensitive(h, name) == h[name][0].1,
        !h.contains_key(name) ==> !first_is_sensitive(h, name),
        !h.contains_key(name) ==> first_is_sensitive(appended(h, name, value), name) == value.1,
        h.contains_key(name) && h[name].len() > 0 ==> first_is_sensitive(appended(h, name, value), name)
            == first_is_sensitive(h, name),
{
}

/// What holds any other character of ASCII than a name may hold is no header
/// name, and neither is what is empty.
pub proof fn law_other_texts_are_no_names(name: Seq<char>, i: int)
    requires
        is_ascii_chars(name),
    ensures
        name.len() == 0 ==> !is_header_name(name),
        0 <= i < name.len() && !is_name_char(name[i]) && !('A' <= name[i] <= 'Z') ==> !is_header_name(name),
{
    vstd::utf8::is_ascii_chars_encode_utf8(name);
    let bytes = encode_utf8(name);
    if 0 <= i < name.len() && !is_name_char(name[i]) && !('A' <= name[i] <= 'Z') {
        assert('\0' <= name[i] <= '\u{7f}');
        assert(bytes[i] == name[i] as u8);
        assert(canonical_name(bytes)[i] == name[i]);
    }
}

/// The characters of a header name: lower-case letters, digits, and fifteen
/// signs.
pub proof fn law_name_characters(c: char)
    ensures
        is_name_char(c) <==> ('a' <= c <= 'z' || '0' <= c <= '9' || "!#$%&'*+-.^_`|~"@.contains(c)),
{
    reveal_strlit("!#$%&'*+-.^_`|~");
    let signs = "!#$%&'*+-.^_`|~"@;
    assert(signs =~= seq!['!', '#', '$', '%', '&', '\'', '*', '+', '-', '.', '^', '_', '`', '|', '~']);
    assert(signs[0] == '!' && signs[1] == '#' && signs[2] == '$' && signs[3] == '%' && signs[4] == '&');
    assert(signs[5] == '\'' && signs[6] == '*' && signs[7] == '+' && signs[8] == '-' && signs[9] == '.');
    assert(signs[10] == '^' && signs[11] == '_' && signs[12] == '`' && signs[13] == '|' && signs[14] == '~');
}

} // verus!
