//! HTTP header collections of the `http` crate, as finite maps from a
//! lower-case header name to the values stored under it, oldest first.
use http::HeaderName;
use http::HeaderValue;
use http::HeaderMap;
use http::StatusCode;
use vstd::prelude::*;

use crate::text::low_hex_digit;

verus! {

#[verifier::external_type_specification]
#[verifier::external_body]
#[verifier::reject_recursive_types(T)]
pub struct ExHeaderMap<T>(http::HeaderMap<T>);

#[verifier::external_type_specification]
#[verifier::external_body]
pub struct ExHeaderName(http::HeaderName);

#[verifier::external_type_specification]
#[verifier::external_body]
pub struct ExHeaderValue(http::HeaderValue);

#[verifier::external_type_specification]
#[verifier::external_body]
pub struct ExStatusCode(http::StatusCode);

/// A header value: its bytes, and whether it is marked as sensitive.
pub type ValueView = (Seq<u8>, bool);

/// The values of every header name, oldest first.
pub type HeaderContents = Map<Seq<char>, Seq<ValueView>>;

/// What a `HeaderMap` holds: under each name that it has, the values in the
/// order in which they were appended, each with its bytes and with whether it is
/// marked as sensitive.
pub uninterp spec fn headers_content(m: http::HeaderMap) -> Map<Seq<char>, Seq<(Seq<u8>, bool)>>;

/// The text of a header name.
pub uninterp spec fn header_name_text(n: http::HeaderName) -> Seq<char>;

/// The bytes of a header value.
pub uninterp spec fn header_value_content(v: http::HeaderValue) -> Seq<u8>;

/// Whether a header value is marked as sensitive.
pub uninterp spec fn header_value_sensitive(v: http::HeaderValue) -> bool;

/// A header value as its contents.
pub open spec fn value_view(v: http::HeaderValue) -> ValueView {
    (header_value_content(v), header_value_sensitive(v))
}

/// A header value that is not marked as sensitive.
pub open spec fn plain_value(bytes: Seq<u8>) -> ValueView {
    (bytes, false)
}

/// The three-digit number of a status code.
pub uninterp spec fn status_number(s: http::StatusCode) -> u16;

/// A header collection seen as its contents.
pub trait HeadersView {
    /// The values under each name.
    spec fn view(&self) -> HeaderContents;
}

impl HeadersView for http::HeaderMap {
    open spec fn view(&self) -> HeaderContents {
        headers_content(*self)
    }
}

// ---------------------------------------------------------------------------
// Names and values
// ---------------------------------------------------------------------------

/// The characters that a header name is made of, in lower case.
pub open spec fn is_name_char(c: char) -> bool {
    ||| 'a' <= c <= 'z'
    ||| '0' <= c <= '9'
    ||| c == '!' || c == '#' || c == '$' || c == '%' || c == '&' || c == '\''
    ||| c == '*' || c == '+' || c == '-' || c == '.' || c == '^' || c == '_'
    ||| c == '`' || c == '|' || c == '~'
}

/// A header name in its canonical, lower-case form.
pub open spec fn is_canonical_name(name: Seq<char>) -> bool {
    &&& 0 < name.len() <= 65535
    &&& forall|i: int| 0 <= i < name.len() ==> is_name_char(#[trigger] name[i])
}

/// An ASCII upper-case letter turned into its lower-case form.
pub open spec fn lower_byte(b: u8) -> u8 {
    if 65 <= b <= 90 {
        (b + 32) as u8
    } else {
        b
    }
}

/// The bytes of a header name in canonical form.
pub open spec fn canonical_name(name: Seq<u8>) -> Seq<char> {
    Seq::new(name.len(), |i: int| lower_byte(name[i]) as char)
}

/// A byte that a header value may hold.
pub open spec fn is_value_byte(b: u8) -> bool {
    (b >= 32 && b != 127) || b == 9
}

/// Bytes that make a header value.
pub open spec fn is_header_value(value: Seq<u8>) -> bool {
    forall|i: int| 0 <= i < value.len() ==> is_value_byte(#[trigger] value[i])
}

/// A byte of a header value that is readable as text.
pub open spec fn is_visible_byte(b: u8) -> bool {
    (32 <= b && b < 127) || b == 9
}

/// A header value that is readable as text.
pub open spec fn is_visible_text(value: Seq<u8>) -> bool {
    forall|i: int| 0 <= i < value.len() ==> is_visible_byte(#[trigger] value[i])
}

/// Single-byte characters, one for each byte.
pub open spec fn ascii_text(value: Seq<u8>) -> Seq<char> {
    Seq::new(value.len(), |i: int| value[i] as char)
}

/// `HeaderName::from_bytes` accepts the bytes of a header name in any case,
/// and makes the name in lower case.
#[verifier::external_body]
pub(crate) fn header_name_from_bytes(src: &[u8]) -> (name: Option<HeaderName>)
    ensures
        name is Some <==> is_canonical_name(canonical_name(src@)),
        name matches Some(n) ==> header_name_text(n) == canonical_name(src@),
{
    HeaderName::from_bytes(src).ok()
}

/// `HeaderName::as_str` reads the name. A name is ASCII and never holds an
/// upper-case letter.
#[verifier::external_body]
pub(crate) fn header_name_str(name: &HeaderName) -> (text: &str)
    ensures
        text@ == header_name_text(*name),
        vstd::utf8::is_ascii_chars(text@),
        forall|i: int| 0 <= i < text@.len() ==> !('A' <= (#[trigger] text@[i]) <= 'Z'),
{
    name.as_str()
}

/// `HeaderName::clone` copies the name.
#[verifier::external_body]
pub(crate) fn header_name_clone(name: &HeaderName) -> (copy: HeaderName)
    ensures
        header_name_text(copy) == header_name_text(*name),
{
    name.clone()
}

/// `HeaderValue::from_str` accepts text whose bytes a header value may hold. The
/// value is not marked as sensitive.
#[verifier::external_body]
pub(crate) fn header_value_from_str(src: &str) -> (value: Option<HeaderValue>)
    ensures
        value is Some <==> is_header_value(vstd::utf8::encode_utf8(src@)),
        value matches Some(v) ==> value_view(v) == plain_value(vstd::utf8::encode_utf8(src@)),
{
    HeaderValue::from_str(src).ok()
}

/// `HeaderValue::clone` copies the value and its mark.
#[verifier::external_body]
pub(crate) fn header_value_clone(value: &HeaderValue) -> (copy: HeaderValue)
    ensures
        value_view(copy) == value_view(*value),
{
    value.clone()
}

/// `HeaderValue::to_str` reads a value made of visible ASCII characters and
/// tabs as text, and refuses any other.
#[verifier::external_body]
pub(crate) fn header_value_str(value: &HeaderValue) -> (text: Option<&str>)
    ensures
        text is Some <==> is_visible_text(header_value_content(*value)),
        text matches Some(s) ==> s@ == ascii_text(header_value_content(*value)),
{
    value.to_str().ok()
}

/// A byte of a header value as it is shown: in hexadecimal behind `\x` where it
/// is not visible, and a quotation mark behind a backslash.
pub open spec fn shown_byte(b: u8) -> Seq<char> {
    if b == 34 {
        seq!['\\', '"']
    } else if is_visible_byte(b) {
        seq![b as char]
    } else if b < 16 {
        seq!['\\', 'x', low_hex_digit(b as nat)]
    } else {
        seq!['\\', 'x', low_hex_digit((b / 16) as nat), low_hex_digit((b % 16) as nat)]
    }
}

/// The bytes of a header value as they are shown.
pub open spec fn shown_bytes(value: Seq<u8>) -> Seq<char>
    decreases value.len(),
{
    if value.len() == 0 {
        Seq::empty()
    } else {
        shown_bytes(value.drop_last()) + shown_byte(value.last())
    }
}

/// A header value as it is shown, between quotation marks.
pub open spec fn quoted(value: Seq<u8>) -> Seq<char> {
    seq!['"'] + shown_bytes(value) + seq!['"']
}

/// What is shown of a header value that is marked as sensitive.
pub open spec fn sensitive_text() -> Seq<char> {
    "Sensitive"@
}

/// The `Debug` of a header value shows its bytes between quotation marks, and
/// nothing of them where it is marked as sensitive.
#[verifier::external_body]
pub(crate) fn header_value_debug_text(value: &HeaderValue) -> (text: String)
    ensures
        text@ == if header_value_sensitive(*value) {
            sensitive_text()
        } else {
            quoted(header_value_content(*value))
        },
{
    format!("{value:?}")
}

// ---------------------------------------------------------------------------
// Status codes
// ---------------------------------------------------------------------------

/// `StatusCode::as_u16` is the number of the status, which has three digits.
#[verifier::external_body]
pub(crate) fn status_as_u16(status: &StatusCode) -> (number: u16)
    ensures
        number == status_number(*status),
        100 <= number < 1000,
{
    status.as_u16()
}

/// `StatusCode::from_u16` makes the status with a given three-digit number.
/// It refuses any other number.
#[verifier::external_body]
pub(crate) fn status_from_u16(number: u16) -> (status: StatusCode)
    requires
        100 <= number < 1000,
    ensures
        status_number(status) == number,
{
    StatusCode::from_u16(number).expect("three-digit status")
}

/// Whether a status reports success.
pub open spec fn is_success_number(number: u16) -> bool {
    200 <= number < 300
}

/// Whether a status reports success: it lies in the 2xx class.
pub fn status_is_success(status: &StatusCode) -> (success: bool)
    ensures
        success == is_success_number(status_number(*status)),
{
    let number: u16 = status_as_u16(status);
    200 <= number && number < 300
}

// ---------------------------------------------------------------------------
// Collections
// ---------------------------------------------------------------------------

/// The contents without any name.
pub open spec fn no_headers() -> HeaderContents {
    Map::empty()
}

/// The contents after `value` was appended under `name`.
pub open spec fn appended(h: HeaderContents, name: Seq<char>, value: ValueView) -> HeaderContents {
    if h.contains_key(name) {
        h.insert(name, h[name].push(value))
    } else {
        h.insert(name, seq![value])
    }
}

/// The first value under `name`, if there is one.
pub open spec fn first_value(h: HeaderContents, name: Seq<char>) -> Option<Seq<u8>> {
    if h.contains_key(name) && h[name].len() > 0 {
        Some(h[name][0].0)
    } else {
        None
    }
}

/// Whether the first value under `name` is marked as sensitive.
pub open spec fn first_is_sensitive(h: HeaderContents, name: Seq<char>) -> bool {
    h.contains_key(name) && h[name].len() > 0 && h[name][0].1
}

/// The number of names up to which a collection is sure to take another
/// value. A `HeaderMap` may refuse more where names collide.
pub const SURE_NAMES: usize = 6553;

/// Contents with so few names that a collection is sure to take them.
pub open spec fn fits(h: HeaderContents) -> bool {
    h.dom().finite() && h.dom().len() <= SURE_NAMES
}

/// The most names that a collection ever holds.
pub const MAX_NAMES: usize = 32_768;

/// Contents with no more names than a collection ever holds.
pub open spec fn within_ceiling(h: HeaderContents) -> bool {
    h.dom().finite() && h.dom().len() <= MAX_NAMES
}

/// The contents built by appending the pairs in order.
pub open spec fn collected(pairs: Seq<(Seq<char>, ValueView)>) -> HeaderContents
    decreases pairs.len(),
{
    if pairs.len() == 0 {
        no_headers()
    } else {
        appended(collected(pairs.drop_last()), pairs.last().0, pairs.last().1)
    }
}

/// Name and value pairs as their contents.
pub open spec fn pairs_view(pairs: Seq<(HeaderName, HeaderValue)>) -> Seq<(Seq<char>, ValueView)> {
    Seq::new(
        pairs.len(),
        |i: int| (header_name_text(pairs[i].0), value_view(pairs[i].1)),
    )
}

/// `HeaderMap::new` makes a collection without names.
#[verifier::external_body]
pub(crate) fn header_map_new() -> (m: HeaderMap)
    ensures
        headers_content(m) == no_headers(),
{
    HeaderMap::new()
}

/// `HeaderMap::clone` copies every name and value.
#[verifier::external_body]
pub(crate) fn header_map_clone(m: &HeaderMap) -> (copy: HeaderMap)
    ensures
        headers_content(copy) == headers_content(*m),
{
    m.clone()
}

/// `HeaderMap::is_empty` tells whether there is no name.
#[verifier::external_body]
pub(crate) fn header_map_is_empty(m: &HeaderMap) -> (empty: bool)
    ensures
        empty == (headers_content(*m) == no_headers()),
{
    m.is_empty()
}

/// `HeaderMap::get` finds the first value under a name. The claim is limited
/// to names in canonical form.
#[verifier::external_body]
pub(crate) fn header_map_get<'a>(m: &'a HeaderMap, name: &str) -> (value: Option<&'a HeaderValue>)
    ensures
        is_canonical_name(name@) ==> (value is Some <==> headers_content(*m).contains_key(name@)),
        is_canonical_name(name@) ==> (value matches Some(v) ==> first_value(headers_content(*m), name@)
            == Some(header_value_content(*v)) && first_is_sensitive(headers_content(*m), name@)
            == header_value_sensitive(*v)),
{
    m.get(name)
}

/// `HeaderMap::try_append` adds a value under a name, behind those that are
/// there. It refuses, and changes nothing, where the collection would grow
/// beyond its size; with few names that does not happen. A collection never
/// holds more than 32768 names.
#[verifier::external_body]
pub(crate) fn header_map_try_append(m: &mut HeaderMap, name: HeaderName, value: HeaderValue) -> (done: bool)
    ensures
        done ==> headers_content(*final(m)) == appended(headers_content(*old(m)), header_name_text(name), value_view(value)),
        !done ==> headers_content(*final(m)) == headers_content(*old(m)),
        fits(appended(headers_content(*old(m)), header_name_text(name), value_view(value))) ==> done,
        within_ceiling(headers_content(*final(m))),
{
    m.try_append(name, value).is_ok()
}

/// `HeaderMap::remove` drops every value under a name.
#[verifier::external_body]
pub(crate) fn header_map_remove(m: &mut HeaderMap, name: &HeaderName)
    ensures
        headers_content(*final(m)) == headers_content(*old(m)).remove(header_name_text(*name)),
{
    m.remove(name);
}

/// `HeaderMap::iter` walks over every value with its name. The values of one
/// name come in the order in which they were appended; the order among names
/// is left open.
#[verifier::external_body]
pub(crate) fn header_map_pairs(m: &HeaderMap) -> (pairs: Vec<(HeaderName, HeaderValue)>)
    ensures
        collected(pairs_view(pairs@)) == headers_content(*m),
{
    m.iter().map(|(name, value)| (name.clone(), value.clone())).collect()
}

/// Fewer names fit where more do.
pub proof fn lemma_fits_subset(small: HeaderContents, large: HeaderContents)
    requires
        small.dom().subset_of(large.dom()),
        fits(large),
    ensures
        fits(small),
{
    vstd::set_lib::lemma_len_subset(small.dom(), large.dom());
}

/// Appending one pair more.
pub proof fn lemma_collected_step(pairs: Seq<(HeaderName, HeaderValue)>, i: int)
    requires
        0 <= i < pairs.len(),
    ensures
        collected(pairs_view(pairs).take(i + 1)) == appended(
            collected(pairs_view(pairs).take(i)),
            header_name_text(pairs[i].0),
            value_view(pairs[i].1),
        ),
{
    let all = pairs_view(pairs);
    assert(all.take(i + 1).drop_last() =~= all.take(i));
    assert(all.take(i + 1).last() == all[i]);
}

/// The contents of one collection followed by those of another: under each
/// name the values of the first, then those of the second.
pub open spec fn joined_headers(a: HeaderContents, b: HeaderContents) -> HeaderContents {
    Map::new(
        |name: Seq<char>| a.contains_key(name) || b.contains_key(name),
        |name: Seq<char>| values_of(a, name) + values_of(b, name),
    )
}

/// The values under a name, none where the name is not there.
pub open spec fn values_of(h: HeaderContents, name: Seq<char>) -> Seq<ValueView> {
    if h.contains_key(name) {
        h[name]
    } else {
        Seq::empty()
    }
}

/// Appending behind the second collection is appending behind both.
pub proof fn lemma_joined_appended(a: HeaderContents, b: HeaderContents, name: Seq<char>, value: ValueView)
    ensures
        joined_headers(a, appended(b, name, value)) == appended(joined_headers(a, b), name, value),
{
    let left = joined_headers(a, appended(b, name, value));
    let right = appended(joined_headers(a, b), name, value);
    assert forall|n: Seq<char>| left.contains_key(n) implies left[n] == right[n] by {
        assert(left[n] =~= right[n]);
    }
    assert(left =~= right);
}

/// Nothing behind a collection is that collection.
pub proof fn lemma_joined_nothing(a: HeaderContents)
    ensures
        joined_headers(a, no_headers()) == a,
{
    assert forall|n: Seq<char>| a.contains_key(n) implies joined_headers(a, no_headers())[n] == a[n] by {
        assert(joined_headers(a, no_headers())[n] =~= a[n]);
    }
    assert(joined_headers(a, no_headers()) =~= a);
}

/// The first pairs have no name that all have not.
pub proof fn lemma_collected_front(pairs: Seq<(Seq<char>, ValueView)>, i: int)
    requires
        0 <= i <= pairs.len(),
    ensures
        collected(pairs.take(i)).dom().subset_of(collected(pairs).dom()),
    decreases pairs.len(),
{
    if i < pairs.len() {
        lemma_collected_front(pairs.drop_last(), i);
        assert(pairs.drop_last().take(i) =~= pairs.take(i));
    } else {
        assert(pairs.take(i) =~= pairs);
    }
}

/// There are no more names than pairs.
proof fn lemma_collected_size(pairs: Seq<(Seq<char>, ValueView)>)
    ensures
        collected(pairs).dom().finite(),
        collected(pairs).dom().len() <= pairs.len(),
    decreases pairs.len(),
{
    if pairs.len() > 0 {
        lemma_collected_size(pairs.drop_last());
    }
}

/// Every value of `part` stands under the same name in `whole`.
pub open spec fn part_of(part: HeaderContents, whole: HeaderContents) -> bool {
    forall|name: Seq<char>| #[trigger]
        part.contains_key(name) ==> whole.contains_key(name) && all_among(part[name], whole[name])
}

/// Every value is among others.
pub open spec fn all_among(values: Seq<ValueView>, others: Seq<ValueView>) -> bool {
    forall|i: int| 0 <= i < values.len() ==> others.contains(#[trigger] values[i])
}

/// Contents with so many names that a collection may refuse more.
pub open spec fn is_crowded(h: HeaderContents) -> bool {
    h.dom().finite() && h.dom().len() >= SURE_NAMES
}

/// What a collection comes to that is to hold `whole`: just that, and only a
/// part of it where it cannot take so many names. Nothing is left out before it
/// has as many names as it is sure to take.
pub open spec fn takes(h: HeaderContents, whole: HeaderContents) -> bool {
    &&& part_of(h, whole)
    &&& fits(whole) ==> h == whole
    &&& h == whole || is_crowded(h)
}

/// What is refused is refused by a crowded collection.
pub proof fn lemma_refused_when_crowded(h: HeaderContents, name: Seq<char>, value: ValueView)
    requires
        h.dom().finite(),
        !fits(appended(h, name, value)),
    ensures
        is_crowded(h),
{
    assert(appended(h, name, value).dom() =~= h.dom().insert(name));
}

/// A crowded collection stays so when a value is appended.
pub proof fn lemma_stays_crowded(h: HeaderContents, name: Seq<char>, value: ValueView)
    requires
        is_crowded(h),
    ensures
        is_crowded(appended(h, name, value)),
{
    assert(appended(h, name, value).dom() =~= h.dom().insert(name));
}

/// A value more of the whole makes another part of it.
pub proof fn lemma_part_appended(part: HeaderContents, whole: HeaderContents, name: Seq<char>, value: ValueView)
    requires
        part_of(part, whole),
        whole.contains_key(name),
        whole[name].contains(value),
    ensures
        part_of(appended(part, name, value), whole),
{
    let more = appended(part, name, value);
    assert forall|n: Seq<char>| #[trigger] more.contains_key(n) implies whole.contains_key(n) && all_among(
        more[n],
        whole[n],
    ) by {
        if part.contains_key(n) {
            assert(all_among(part[n], whole[n]));
        }
    }
}

/// What was collected holds every pair.
pub proof fn lemma_collected_holds(pairs: Seq<(Seq<char>, ValueView)>, i: int)
    requires
        0 <= i < pairs.len(),
    ensures
        collected(pairs).contains_key(pairs[i].0),
        collected(pairs)[pairs[i].0].contains(pairs[i].1),
    decreases pairs.len(),
{
    let before = collected(pairs.drop_last());
    let (name, value) = pairs.last();
    if i < pairs.len() - 1 {
        lemma_collected_holds(pairs.drop_last(), i);
        assert(pairs.drop_last()[i] == pairs[i]);
        if pairs[i].0 == name {
            let at = choose|at: int| 0 <= at < before[name].len() && before[name][at] == pairs[i].1;
            assert(before[name].push(value)[at] == pairs[i].1);
        }
    } else {
        let values = collected(pairs)[name];
        assert(values[values.len() - 1] == value);
    }
}

/// Both collections are parts of the two joined.
pub proof fn lemma_joined_parts(a: HeaderContents, b: HeaderContents)
    ensures
        part_of(a, joined_headers(a, b)),
        part_of(b, joined_headers(a, b)),
{
    let whole = joined_headers(a, b);
    assert forall|n: Seq<char>| #[trigger] a.contains_key(n) implies whole.contains_key(n) && all_among(a[n], whole[n]) by {
        assert forall|i: int| 0 <= i < a[n].len() implies whole[n].contains(#[trigger] a[n][i]) by {
            assert(whole[n][i] == a[n][i]);
        }
    }
    assert forall|n: Seq<char>| #[trigger] b.contains_key(n) implies whole.contains_key(n) && all_among(b[n], whole[n]) by {
        assert forall|i: int| 0 <= i < b[n].len() implies whole[n].contains(#[trigger] b[n][i]) by {
            assert(whole[n][i + values_of(a, n).len()] == b[n][i]);
        }
    }
}

/// Append every value of `other`, as far as the collection can take it.
pub fn append_all(headers: &mut HeaderMap, other: &HeaderMap)
    ensures
        takes(final(headers)@, joined_headers(old(headers)@, other@)),
        part_of(old(headers)@, final(headers)@),
{
    append_pairs(headers, header_map_pairs(other));
}

/// Append every pair of a list, as far as the collection can take it.
pub fn append_pairs(headers: &mut HeaderMap, pairs: Vec<(HeaderName, HeaderValue)>)
    ensures
        takes(final(headers)@, joined_headers(old(headers)@, collected(pairs_view(pairs@)))),
        part_of(old(headers)@, final(headers)@),
{
    let ghost all = pairs_view(pairs@);
    let ghost start = headers@;
    let mut i: usize = 0;
    assert(all.take(0) =~= Seq::empty());
    proof {
        lemma_joined_nothing(start);
        lemma_joined_parts(start, collected(all));
    }
    while i < pairs.len()
        invariant
            i <= pairs@.len(),
            all == pairs_view(pairs@),
            part_of(start, headers@),
            part_of(headers@, joined_headers(start, collected(all))),
            headers@ == joined_headers(start, collected(all.take(i as int))) || is_crowded(headers@),
            fits(joined_headers(start, collected(all))) ==> headers@ == joined_headers(
                start,
                collected(all.take(i as int)),
            ),
        decreases pairs@.len() - i,
    {
        let name = header_name_clone(&pairs[i].0);
        let value = header_value_clone(&pairs[i].1);
        proof {
            lemma_collected_step(pairs@, i as int);
            lemma_joined_appended(
                start,
                collected(all.take(i as int)),
                header_name_text(name),
                value_view(value),
            );
            if fits(joined_headers(start, collected(all))) {
                lemma_collected_front(all, i as int + 1);
                lemma_fits_subset(
                    joined_headers(start, collected(all.take(i as int + 1))),
                    joined_headers(start, collected(all)),
                );
            }
        }
        let ghost before = headers@;
        let done = header_map_try_append(headers, name, value);
        proof {
            if done {
                lemma_taken_from(start, all, i as int, before);
                if is_crowded(before) {
                    lemma_stays_crowded(before, header_name_text(name), value_view(value));
                }
            } else {
                lemma_refused_when_crowded(before, header_name_text(name), value_view(value));
            }
        }
        i = i + 1;
    }
    assert(all.take(all.len() as int) =~= all);
}

/// A part of the joined collections stays one when a pair is appended, and
/// loses nothing.
proof fn lemma_taken_from(start: HeaderContents, pairs: Seq<(Seq<char>, ValueView)>, i: int, part: HeaderContents)
    requires
        0 <= i < pairs.len(),
        part_of(start, part),
        part_of(part, joined_headers(start, collected(pairs))),
    ensures
        part_of(start, appended(part, pairs[i].0, pairs[i].1)),
        part_of(appended(part, pairs[i].0, pairs[i].1), joined_headers(start, collected(pairs))),
{
    let (name, value) = pairs[i];
    let whole = joined_headers(start, collected(pairs));
    let more = appended(part, name, value);
    lemma_collected_holds(pairs, i);
    lemma_joined_parts(start, collected(pairs));
    let values = collected(pairs)[name];
    assert(all_among(values, whole[name]));
    let at = choose|at: int| 0 <= at < values.len() && values[at] == value;
    assert(whole[name].contains(values[at]));
    lemma_part_appended(part, whole, name, value);
    assert forall|n: Seq<char>| #[trigger] start.contains_key(n) implies more.contains_key(n) && all_among(
        start[n],
        more[n],
    ) by {
        assert(all_among(start[n], part[n]));
        assert forall|k: int| 0 <= k < start[n].len() implies more[n].contains(#[trigger] start[n][k]) by {
            let place = choose|place: int| 0 <= place < part[n].len() && part[n][place] == start[n][k];
            assert(more[n][place] == start[n][k]);
        }
    }
}

/// Remove every name of `other`.
pub fn remove_all(headers: &mut HeaderMap, other: &HeaderMap)
    ensures
        final(headers)@ == old(headers)@.remove_keys(other@.dom()),
{
    let pairs = header_map_pairs(other);
    let ghost all = pairs_view(pairs@);
    let ghost start = headers@;
    let mut i: usize = 0;
    assert(all.take(0) =~= Seq::empty());
    assert(start.remove_keys(no_headers().dom()) =~= start);
    while i < pairs.len()
        invariant
            i <= pairs@.len(),
            all == pairs_view(pairs@),
            headers@ == start.remove_keys(collected(all.take(i as int)).dom()),
        decreases pairs@.len() - i,
    {
        proof {
            lemma_collected_step(pairs@, i as int);
        }
        header_map_remove(headers, &pairs[i].0);
        assert(headers@ =~= start.remove_keys(collected(all.take(i as int + 1)).dom()));
        i = i + 1;
    }
    assert(all.take(all.len() as int) =~= all);
}

// ---------------------------------------------------------------------------
// Collections of given headers
// ---------------------------------------------------------------------------

/// Names and values as their contents.
pub open spec fn list_view(list: Seq<(&'static str, String)>) -> Seq<(Seq<char>, ValueView)> {
    Seq::new(list.len(), |i: int| (list[i].0@, plain_value(vstd::utf8::encode_utf8(list[i].1@))))
}

/// Whether every value can be that of a header.
pub open spec fn all_values_valid(pairs: Seq<(Seq<char>, ValueView)>) -> bool {
    forall|i: int| 0 <= i < pairs.len() ==> is_header_value((#[trigger] pairs[i]).1.0)
}

/// The bytes of a name in canonical form make that name.
pub proof fn lemma_canonical_bytes(name: Seq<char>)
    requires
        is_canonical_name(name),
    ensures
        canonical_name(vstd::utf8::encode_utf8(name)) == name,
{
    assert(vstd::utf8::is_ascii_chars(name)) by {
        assert forall|i: int| 0 <= i < name.len() implies name[i] as u32 <= 127 by {
            assert(is_name_char(name[i]));
        }
    }
    vstd::utf8::is_ascii_chars_encode_utf8(name);
    let bytes = vstd::utf8::encode_utf8(name);
    assert forall|i: int| 0 <= i < name.len() implies canonical_name(bytes)[i] == name[i] by {
        assert(is_name_char(name[i]));
        assert(bytes[i] == name[i] as u8);
    }
    assert(canonical_name(bytes) =~= name);
}

/// A collection of the given headers, or `None` where one of the values cannot
/// be that of a header.
pub fn headers_from(list: &Vec<(&'static str, String)>) -> (headers: Option<HeaderMap>)
    requires
        list@.len() <= SURE_NAMES,
        forall|i: int| 0 <= i < list@.len() ==> is_canonical_name((#[trigger] list@[i]).0@),
    ensures
        match headers {
            Some(h) => all_values_valid(list_view(list@)) && h@ == collected(list_view(list@)),
            None => !all_values_valid(list_view(list@)),
        },
{
    let ghost all = list_view(list@);
    let mut headers = header_map_new();
    let mut i: usize = 0;
    assert(all.take(0) =~= Seq::empty());
    while i < list.len()
        invariant
            i <= list@.len() <= SURE_NAMES,
            all == list_view(list@),
            forall|j: int| 0 <= j < list@.len() ==> is_canonical_name((#[trigger] list@[j]).0@),
            headers@ == collected(all.take(i as int)),
            forall|j: int| 0 <= j < i ==> is_header_value((#[trigger] all[j]).1.0),
        decreases list@.len() - i,
    {
        let name = list[i].0;
        proof {
            lemma_canonical_bytes(name@);
            assert(all[i as int] == (name@, plain_value(vstd::utf8::encode_utf8(list@[i as int].1@))));
            assert(all.take(i as int + 1).drop_last() =~= all.take(i as int));
            lemma_collected_size(all.take(i as int + 1));
        }
        match (header_name_from_bytes(name.as_bytes()), header_value_from_str(list[i].1.as_str())) {
            (Some(name), Some(value)) => {
                let _ = header_map_try_append(&mut headers, name, value);
            },
            _ => {
                assert(!is_header_value(all[i as int].1.0));
                return None;
            },
        }
        i = i + 1;
    }
    assert(all.take(all.len() as int) =~= all);
    Some(headers)
}

} // verus!
