//! Laws on the details of a gRPC status, and on base64.
use vstd::prelude::*;
use vstd::utf8::encode_utf8;

use crate::client::request::url_base64;
use crate::error::detail_b64::lemma_details_read_back;
use crate::error::detail_b64::leniently_decoded;
use crate::error::detail_b64::padded_base64;
use crate::error::detail_b64::unpadded_base64;
use crate::error::DetailView;
use crate::grpc_status::any_detail;
use crate::grpc_status::decoded_details;
use crate::grpc_status::fields;
use crate::grpc_status::first_field;
use crate::grpc_status::last_payload;
use crate::grpc_status::short_name;
use crate::grpc_status::status_details;
use crate::grpc_status::varint;
use crate::grpc_status::Field;
use crate::radix64::base64_bytes;
use crate::radix64::base64_text;
use crate::radix64::digit;
use crate::radix64::lemma_ends_in_digit;
use crate::radix64::Alphabet;

verus! {

// ---------------------------------------------------------------------------
// Numbers of variable length
// ---------------------------------------------------------------------------

/// A number in groups of seven bits, the lowest first, each but the last with
/// its high bit set.
pub open spec fn varint_bytes(n: nat) -> Seq<u8>
    decreases n,
{
    if n < 128 {
        seq![n as u8]
    } else {
        seq![(128 + n % 128) as u8] + varint_bytes(n / 128)
    }
}

/// How many numbers fit in so many groups.
pub open spec fn groups(k: nat) -> nat
    decreases k,
{
    if k == 0 {
        1
    } else {
        128 * groups((k - 1) as nat)
    }
}

/// A number that was written is read back, whatever follows it.
pub proof fn law_varint_is_read_back(n: nat, longest: nat, rest: Seq<u8>)
    requires
        n <= u64::MAX,
        longest > 0,
        n < groups(longest),
    ensures
        varint(varint_bytes(n) + rest, longest) == Some((n, varint_bytes(n).len())),
        0 < varint_bytes(n).len() <= longest,
    decreases longest,
{
    let bytes = varint_bytes(n) + rest;
    if n < 128 {
        assert(bytes[0] == n);
    } else {
        if longest == 1 {
            reveal_with_fuel(groups, 2);
        }
        assert(bytes[0] == 128 + n % 128);
        assert(n / 128 < groups((longest - 1) as nat));
        law_varint_is_read_back(n / 128, (longest - 1) as nat, rest);
        assert(bytes.skip(1) =~= varint_bytes(n / 128) + rest);
        assert(n % 128 + 128 * (n / 128) == n);
    }
}

/// Every number of 64 bits fits in ten groups.
proof fn lemma_ten_groups()
    ensures
        u64::MAX < groups(10),
{
    reveal_with_fuel(groups, 11);
}

// ---------------------------------------------------------------------------
// Fields
// ---------------------------------------------------------------------------

/// A field that is delimited by its length.
pub open spec fn field_of(number: nat, payload: Seq<u8>) -> Seq<u8> {
    varint_bytes(8 * number + 2) + varint_bytes(payload.len()) + payload
}

/// A field that is a number.
pub open spec fn number_field(number: nat, value: nat) -> Seq<u8> {
    varint_bytes(8 * number) + varint_bytes(value)
}

/// A field that was written is read back, whatever follows it.
pub proof fn law_field_is_read_back(number: nat, payload: Seq<u8>, rest: Seq<u8>)
    requires
        0 < number < 0x2000_0000,
        payload.len() <= u64::MAX,
    ensures
        first_field(field_of(number, payload) + rest) == Some(
            (Field { number, payload: Some(payload) }, field_of(number, payload).len()),
        ),
        field_of(number, payload).len() > 0,
{
    lemma_ten_groups();
    let key = 8 * number + 2;
    let bytes = field_of(number, payload) + rest;
    let behind = varint_bytes(payload.len()) + (payload + rest);
    law_varint_is_read_back(key, 10, behind);
    assert(bytes =~= varint_bytes(key) + behind);
    let n = varint_bytes(key).len() as int;
    assert(bytes.skip(n) =~= behind);
    law_varint_is_read_back(payload.len(), 10, payload + rest);
    let m = varint_bytes(payload.len()).len() as int;
    assert(behind.subrange(m, m + payload.len() as int) =~= payload);
    assert(key / 8 == number && key % 8 == 2);
}

/// A number that is no detail is passed over.
pub proof fn law_number_field_is_passed_over(number: nat, value: nat, rest: Seq<u8>)
    requires
        0 < number < 0x2000_0000,
        value <= u64::MAX,
    ensures
        first_field(number_field(number, value) + rest) == Some(
            (Field { number, payload: None }, number_field(number, value).len()),
        ),
        number_field(number, value).len() > 0,
{
    lemma_ten_groups();
    let key = 8 * number;
    let bytes = number_field(number, value) + rest;
    let behind = varint_bytes(value) + rest;
    law_varint_is_read_back(key, 10, behind);
    assert(bytes =~= varint_bytes(key) + behind);
    assert(bytes.skip(varint_bytes(key).len() as int) =~= behind);
    law_varint_is_read_back(value, 10, rest);
}

/// A field in front is the first of the fields.
proof fn lemma_first_of_fields(bytes: Seq<u8>, field: Field, length: nat, rest: Seq<u8>)
    requires
        first_field(bytes) == Some((field, length)),
        0 < length <= bytes.len(),
        bytes.skip(length as int) == rest,
    ensures
        fields(bytes) == match fields(rest) {
            Some(list) => Some(seq![field] + list),
            None => None,
        },
{
}

/// Fields one after the other.
pub open spec fn written_fields(list: Seq<(nat, Seq<u8>)>) -> Seq<u8>
    decreases list.len(),
{
    if list.len() == 0 {
        Seq::empty()
    } else {
        field_of(list[0].0, list[0].1) + written_fields(list.drop_first())
    }
}

/// Fields that can be written.
pub open spec fn are_fields(list: Seq<(nat, Seq<u8>)>) -> bool {
    forall|i: int| 0 <= i < list.len() ==> 0 < (#[trigger] list[i]).0 < 0x2000_0000 && list[i].1.len() <= u64::MAX
}

/// The contents of fields.
pub open spec fn field_views(list: Seq<(nat, Seq<u8>)>) -> Seq<Field> {
    Seq::new(list.len(), |i: int| Field { number: list[i].0, payload: Some(list[i].1) })
}

/// Fields that were written are read back, all of them and in order.
pub proof fn law_fields_are_read_back(list: Seq<(nat, Seq<u8>)>)
    requires
        are_fields(list),
    ensures
        fields(written_fields(list)) == Some(field_views(list)),
    decreases list.len(),
{
    let bytes = written_fields(list);
    if list.len() == 0 {
        assert(field_views(list) =~= Seq::empty());
    } else {
        let rest = list.drop_first();
        assert forall|i: int| 0 <= i < rest.len() implies 0 < (#[trigger] rest[i]).0 < 0x2000_0000 && rest[i].1.len()
            <= u64::MAX by {
            assert(rest[i] == list[i + 1]);
        }
        law_fields_are_read_back(rest);
        let (number, payload) = list[0];
        law_field_is_read_back(number, payload, written_fields(rest));
        let length = field_of(number, payload).len();
        assert(bytes.skip(length as int) =~= written_fields(rest));
        lemma_first_of_fields(bytes, Field { number, payload: Some(payload) }, length, written_fields(rest));
        assert(seq![Field { number, payload: Some(payload) }] + field_views(rest) =~= field_views(list));
    }
}

/// Of fields with the same number the last counts, and there is nothing where
/// there is none.
pub proof fn law_last_field_counts(list: Seq<Field>, number: nat, payload: Seq<u8>, other: Field)
    ensures
        last_payload(list.push(Field { number, payload: Some(payload) }), number) == payload,
        other.number != number || other.payload is None ==> last_payload(list.push(other), number) == last_payload(
            list,
            number,
        ),
        last_payload(Seq::empty(), number) == Seq::<u8>::empty(),
{
    assert(list.push(Field { number, payload: Some(payload) }).drop_last() =~= list);
    assert(list.push(other).drop_last() =~= list);
}

// ---------------------------------------------------------------------------
// Details
// ---------------------------------------------------------------------------

/// The name of a type is what stands behind the last slash of its URL.
pub proof fn law_short_name(prefix: Seq<char>, name: Seq<char>)
    requires
        !name.contains('/'),
    ensures
        short_name(prefix + seq!['/'] + name) == name,
        short_name(name) == name,
    decreases name.len(),
{
    let url = prefix + seq!['/'] + name;
    if name.len() == 0 {
        assert(url.last() == '/');
        assert(short_name(url) =~= name);
        assert(short_name(name) =~= name);
    } else {
        let front = name.drop_last();
        assert(!front.contains('/')) by {
            if front.contains('/') {
                let i = choose|i: int| 0 <= i < front.len() && front[i] == '/';
                assert(name[i] == '/');
            }
        }
        assert(name[name.len() - 1] != '/') by {
            if name[name.len() - 1] == '/' {
                assert(name.contains('/'));
            }
        }
        law_short_name(prefix, front);
        assert(url.drop_last() =~= prefix + seq!['/'] + front);
        assert(url.last() == name.last());
        assert(front.push(name.last()) =~= name);
    }
}

/// A detail as it stands in a status: the URL of its type and its value.
pub open spec fn any_bytes(url: Seq<char>, value: Seq<u8>) -> Seq<u8> {
    field_of(1, encode_utf8(url)) + field_of(2, value)
}

/// A detail that was written is read back: the name of its type, and its value
/// in base64.
pub proof fn law_detail_is_read_back(prefix: Seq<char>, name: Seq<char>, value: Seq<u8>)
    requires
        !name.contains('/'),
        encode_utf8(prefix + seq!['/'] + name).len() <= u64::MAX,
        value.len() <= u64::MAX,
    ensures
        any_detail(any_bytes(prefix + seq!['/'] + name, value)) == Some(
            DetailView { type_url: name, value: Some(unpadded_base64(value)), debug: None },
        ),
{
    let url = prefix + seq!['/'] + name;
    let text = encode_utf8(url);
    let list = seq![(1nat, text), (2nat, value)];
    law_fields_are_read_back(list);
    reveal_with_fuel(written_fields, 3);
    assert(list.drop_first().drop_first() =~= Seq::empty());
    assert(list.drop_first()[0] == list[1]);
    assert(written_fields(list) =~= any_bytes(url, value));
    let views = field_views(list);
    let second = Field { number: 2, payload: Some(value) };
    let first = Field { number: 1, payload: Some(text) };
    assert(views =~= Seq::empty().push(first).push(second));
    law_last_field_counts(Seq::empty().push(first), 2, value, second);
    law_last_field_counts(Seq::empty().push(first), 1, text, second);
    law_last_field_counts(Seq::empty(), 1, text, first);
    vstd::utf8::encode_utf8_valid_utf8(url);
    vstd::utf8::encode_utf8_decode_utf8(url);
    law_short_name(prefix, name);
}

/// The details of a status follow its code and its message.
pub open spec fn status_bytes(code: nat, message: Seq<u8>, details: Seq<Seq<u8>>) -> Seq<u8> {
    number_field(1, code) + field_of(2, message) + written_fields(detail_fields(details))
}

/// Details as fields of a status.
pub open spec fn detail_fields(details: Seq<Seq<u8>>) -> Seq<(nat, Seq<u8>)> {
    Seq::new(details.len(), |i: int| (3nat, details[i]))
}

/// Whether details stand for what they are said to stand for.
pub open spec fn stand_for(details: Seq<Seq<u8>>, views: Seq<DetailView>) -> bool {
    &&& details.len() == views.len()
    &&& forall|i: int| 0 <= i < details.len() ==> #[trigger] any_detail(details[i]) == Some(views[i])
}

/// The details of a status that was written are read back, all of them and in
/// order. The code and the message are none of them.
pub proof fn law_details_are_read_back(code: nat, message: Seq<u8>, details: Seq<Seq<u8>>, views: Seq<DetailView>)
    requires
        code <= u64::MAX,
        message.len() <= u64::MAX,
        forall|i: int| 0 <= i < details.len() ==> (#[trigger] details[i]).len() <= u64::MAX,
        stand_for(details, views),
    ensures
        decoded_details(status_bytes(code, message, details)) == views,
{
    let list = detail_fields(details);
    assert forall|i: int| 0 <= i < list.len() implies 0 < (#[trigger] list[i]).0 < 0x2000_0000 && list[i].1.len()
        <= u64::MAX by {
        assert(details[i].len() <= u64::MAX);
    }
    law_fields_are_read_back(list);
    let tail = written_fields(list);
    let bytes = status_bytes(code, message, details);
    let behind = field_of(2, message) + tail;
    law_field_is_read_back(2, message, tail);
    assert(behind.skip(field_of(2, message).len() as int) =~= tail);
    lemma_first_of_fields(
        behind,
        Field { number: 2, payload: Some(message) },
        field_of(2, message).len(),
        tail,
    );
    law_number_field_is_passed_over(1, code, behind);
    assert(bytes =~= number_field(1, code) + behind);
    assert(bytes.skip(number_field(1, code).len() as int) =~= behind);
    lemma_first_of_fields(bytes, Field { number: 1, payload: None }, number_field(1, code).len(), behind);
    let front = seq![
        Field { number: 1, payload: None::<Seq<u8>> },
        Field { number: 2, payload: Some(message) },
    ];
    let all = front + field_views(list);
    assert(fields(bytes) == Some(all)) by {
        assert(seq![Field { number: 1, payload: None::<Seq<u8>> }] + (seq![Field { number: 2, payload: Some(message) }]
            + field_views(list)) =~= all);
    }
    lemma_details_among(front, details, views);
}

/// The details among fields.
proof fn lemma_details_among(front: Seq<Field>, details: Seq<Seq<u8>>, views: Seq<DetailView>)
    requires
        front.len() == 2,
        front[0].number == 1,
        front[1].number == 2,
        stand_for(details, views),
    ensures
        status_details(front + field_views(detail_fields(details))) == Some(views),
    decreases details.len(),
{
    let all = front + field_views(detail_fields(details));
    if details.len() == 0 {
        assert(all =~= front);
        assert(front.drop_last().drop_last() =~= Seq::empty());
        assert(status_details(front.drop_last().drop_last()) == Some(Seq::<DetailView>::empty()));
        assert(front.drop_last().last() == front[0]);
        assert(status_details(front.drop_last()) == Some(Seq::<DetailView>::empty()));
        assert(status_details(front) == Some(Seq::<DetailView>::empty()));
        assert(views =~= Seq::empty());
    } else {
        let fewer = details.drop_last();
        assert forall|i: int| 0 <= i < fewer.len() implies #[trigger] any_detail(fewer[i]) == Some(
            views.drop_last()[i],
        ) by {
            assert(any_detail(details[i]) == Some(views[i]));
        }
        lemma_details_among(front, fewer, views.drop_last());
        assert(all.drop_last() =~= front + field_views(detail_fields(fewer)));
        assert(all.last().number == 3 && all.last().payload == Some(details.last()));
        assert(any_detail(details[details.len() - 1]) == Some(views[views.len() - 1]));
        assert(views.drop_last().push(views.last()) =~= views);
    }
}

// ---------------------------------------------------------------------------
// Base64
// ---------------------------------------------------------------------------

/// The digits of base64 in either alphabet.
pub proof fn law_base64_digits(n: nat)
    requires
        n < 64,
    ensures
        digit(n, Alphabet::Standard)
            == "ABCDEFGHIJKLMNOPQRSTUVWXYZabcdefghijklmnopqrstuvwxyz0123456789+/"@[n as int],
        digit(n, Alphabet::UrlSafe)
            == "ABCDEFGHIJKLMNOPQRSTUVWXYZabcdefghijklmnopqrstuvwxyz0123456789-_"@[n as int],
{
    reveal_strlit("ABCDEFGHIJKLMNOPQRSTUVWXYZabcdefghijklmnopqrstuvwxyz0123456789+/");
    reveal_strlit("ABCDEFGHIJKLMNOPQRSTUVWXYZabcdefghijklmnopqrstuvwxyz0123456789-_");
}

/// Base64 takes four digits for three bytes, and for one or two bytes at the end
/// a digit more than there are bytes; with padding always a multiple of four.
pub proof fn law_base64_length(bytes: Seq<u8>)
    ensures
        base64_text(bytes, Alphabet::Standard).len() == (4 * bytes.len() + 2) / 3,
        url_base64(bytes).len() == (4 * bytes.len() + 2) / 3,
        padded_base64(bytes).len() % 4 == 0,
{
    lemma_base64_length(bytes, Alphabet::Standard);
    lemma_base64_length(bytes, Alphabet::UrlSafe);
}

/// How long base64 is.
proof fn lemma_base64_length(bytes: Seq<u8>, alphabet: Alphabet)
    ensures
        base64_text(bytes, alphabet).len() == (4 * bytes.len() + 2) / 3,
    decreases bytes.len(),
{
    if bytes.len() >= 3 {
        lemma_base64_length(bytes.skip(3), alphabet);
    }
}

/// Details in base64 are read back whether or not they are padded.
pub proof fn law_details_are_read_leniently(bytes: Seq<u8>)
    ensures
        leniently_decoded(unpadded_base64(bytes)) == Some(bytes),
        leniently_decoded(padded_base64(bytes)) == Some(bytes),
        bytes.len() % 3 == 0 ==> padded_base64(bytes) == unpadded_base64(bytes),
        bytes.len() % 3 == 1 ==> padded_base64(bytes) == unpadded_base64(bytes) + seq!['=', '='],
        bytes.len() % 3 == 2 ==> padded_base64(bytes) == unpadded_base64(bytes) + seq!['='],
{
    lemma_details_read_back(bytes);
    lemma_base64_length(bytes, Alphabet::Standard);
    let padded = padded_base64(bytes);
    if bytes.len() % 3 != 0 {
        assert(padded.last() == '=');
        lemma_ends_in_digit(base64_bytes(padded), Alphabet::Standard);
    }
}

// ---------------------------------------------------------------------------
// Malformed statuses
// ---------------------------------------------------------------------------

/// A number that was read ends with the first byte whose high bit is not set,
/// is no longer than allowed, and fits in 64 bits.
pub proof fn law_varint_is_delimited(bytes: Seq<u8>, longest: nat)
    ensures
        varint(bytes, longest) matches Some((value, length)) ==> value <= u64::MAX && 0 < length <= longest && length
            <= bytes.len() && bytes[length - 1] < 128 && (forall|i: int|
            0 <= i < length - 1 ==> #[trigger] bytes[i] >= 128),
        bytes.len() == 0 ==> varint(bytes, longest) is None,
        (forall|i: int| 0 <= i < longest && i < bytes.len() ==> #[trigger] bytes[i] >= 128) ==> varint(
            bytes,
            longest,
        ) is None,
    decreases longest,
{
    if longest > 0 && bytes.len() > 0 {
        let rest = bytes.skip(1);
        law_varint_is_delimited(rest, (longest - 1) as nat);
        assert forall|i: int| 0 <= i < rest.len() implies #[trigger] rest[i] == bytes[i + 1] by {}
        if bytes[0] >= 128 {
            if let Some((value, length)) = varint(bytes, longest) {
                assert forall|i: int| 0 <= i < length - 1 implies #[trigger] bytes[i] >= 128 by {
                    if i > 0 {
                        assert(rest[i - 1] >= 128);
                    }
                }
                assert(rest[length - 2] < 128);
            }
            if forall|i: int| 0 <= i < longest && i < bytes.len() ==> #[trigger] bytes[i] >= 128 {
                assert forall|i: int| 0 <= i < longest - 1 && i < rest.len() implies #[trigger] rest[i] >= 128 by {
                    assert(bytes[i + 1] >= 128);
                }
            }
        }
    }
}

/// Fields of a fixed size are passed over: eight bytes or four. One that is cut
/// off makes the message malformed, and so do groups and a number of zero.
pub proof fn law_other_fields(number: nat, wire: nat, rest: Seq<u8>)
    requires
        number < 0x2000_0000,
        wire < 8,
    ensures
        number > 0 && wire == 1 && rest.len() >= 8 ==> first_field(varint_bytes(8 * number + wire) + rest) == Some(
            (Field { number, payload: None }, varint_bytes(8 * number + wire).len() + 8),
        ),
        number > 0 && wire == 5 && rest.len() >= 4 ==> first_field(varint_bytes(8 * number + wire) + rest) == Some(
            (Field { number, payload: None }, varint_bytes(8 * number + wire).len() + 4),
        ),
        wire == 1 && rest.len() < 8 ==> first_field(varint_bytes(8 * number + wire) + rest) is None,
        wire == 5 && rest.len() < 4 ==> first_field(varint_bytes(8 * number + wire) + rest) is None,
        wire == 3 || wire == 4 || wire == 6 || wire == 7 ==> first_field(varint_bytes(8 * number + wire) + rest) is None,
        number == 0 ==> first_field(varint_bytes(8 * number + wire) + rest) is None,
{
    lemma_ten_groups();
    let key = 8 * number + wire;
    law_varint_is_read_back(key, 10, rest);
    assert((varint_bytes(key) + rest).skip(varint_bytes(key).len() as int) =~= rest);
    assert(key / 8 == number && key % 8 == wire);
}

/// A field that declares more than is there makes the message malformed.
pub proof fn law_cut_field_is_malformed(number: nat, length: nat, arrived: Seq<u8>)
    requires
        0 < number < 0x2000_0000,
        arrived.len() < length <= u64::MAX,
    ensures
        first_field(varint_bytes(8 * number + 2) + varint_bytes(length) + arrived) is None,
        fields(varint_bytes(8 * number + 2) + varint_bytes(length) + arrived) is None,
        decoded_details(varint_bytes(8 * number + 2) + varint_bytes(length) + arrived).len() == 0,
{
    lemma_ten_groups();
    let key = 8 * number + 2;
    let bytes = varint_bytes(key) + varint_bytes(length) + arrived;
    let behind = varint_bytes(length) + arrived;
    law_varint_is_read_back(key, 10, behind);
    assert(bytes =~= varint_bytes(key) + behind);
    assert(bytes.skip(varint_bytes(key).len() as int) =~= behind);
    law_varint_is_read_back(length, 10, arrived);
    assert(bytes.len() > 0);
}

/// A detail that is malformed spoils all of them.
pub proof fn law_malformed_detail_spoils_all(list: Seq<Field>, i: int)
    requires
        0 <= i < list.len(),
        list[i].number == 3,
        list[i].payload is Some,
        any_detail(list[i].payload->0) is None,
    ensures
        status_details(list) is None,
    decreases list.len(),
{
    if i < list.len() - 1 {
        law_malformed_detail_spoils_all(list.drop_last(), i);
    }
}

/// A detail whose type is no text is malformed.
pub proof fn law_type_of_a_detail_is_text(url: Seq<u8>)
    requires
        url.len() <= u64::MAX,
        !vstd::utf8::valid_utf8(url),
    ensures
        any_detail(field_of(1, url)) is None,
{
    let list = seq![(1nat, url)];
    law_fields_are_read_back(list);
    reveal_with_fuel(written_fields, 2);
    assert(list.drop_first() =~= Seq::empty());
    assert(written_fields(list) =~= field_of(1, url));
    let first = Field { number: 1, payload: Some(url) };
    assert(field_views(list) =~= Seq::empty().push(first));
    law_last_field_counts(Seq::empty(), 1, url, first);
}

} // verus!
