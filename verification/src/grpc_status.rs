//! Error details in the binary form of a gRPC status: the protobuf message
//! `google.rpc.Status`, whose third field repeats `google.protobuf.Any`.
use vstd::prelude::*;
use vstd::slice::slice_subrange;
use vstd::utf8::decode_utf8;
use vstd::utf8::valid_utf8;

use crate::error::detail_b64::unpadded_base64;
use crate::error::details_view;
use crate::error::DetailView;
use crate::error::ErrorDetail;
use crate::text::chars_of;
use crate::text::string_of;
use crate::text::utf8_text;

verus! {

/// The longest varint, in bytes.
pub const MAX_VARINT: usize = 10;

/// A varint at the front of the bytes: its value and its length. There is none
/// where it does not end, is over-long or does not fit in 64 bits.
pub open spec fn varint(bytes: Seq<u8>, longest: nat) -> Option<(nat, nat)>
    decreases longest,
{
    if longest == 0 || bytes.len() == 0 {
        None
    } else if bytes[0] < 128 {
        Some((bytes[0] as nat, 1))
    } else {
        match varint(bytes.skip(1), (longest - 1) as nat) {
            Some((high, length)) => if (bytes[0] - 128) + 128 * high <= u64::MAX {
                Some((((bytes[0] - 128) + 128 * high) as nat, length + 1))
            } else {
                None
            },
            None => None,
        }
    }
}

/// A field of a message.
pub struct Field {
    /// Its number.
    pub number: nat,
    /// Its bytes, where it is delimited by a length.
    pub payload: Option<Seq<u8>>,
}

/// The field at the front of the bytes, and its length. There is none where
/// the bytes are malformed.
pub open spec fn first_field(bytes: Seq<u8>) -> Option<(Field, nat)> {
    match varint(bytes, MAX_VARINT as nat) {
        Some((key, n)) => {
            let number = key / 8;
            let rest = bytes.skip(n as int);
            if number == 0 {
                None
            } else if key % 8 == 0 {
                match varint(rest, MAX_VARINT as nat) {
                    Some((_, m)) => Some((Field { number, payload: None }, n + m)),
                    None => None,
                }
            } else if key % 8 == 1 && rest.len() >= 8 {
                Some((Field { number, payload: None }, n + 8))
            } else if key % 8 == 5 && rest.len() >= 4 {
                Some((Field { number, payload: None }, n + 4))
            } else if key % 8 == 2 {
                match varint(rest, MAX_VARINT as nat) {
                    Some((length, m)) => if m + length <= rest.len() {
                        Some(
                            (
                                Field { number, payload: Some(rest.subrange(m as int, (m + length) as int)) },
                                n + m + length,
                            ),
                        )
                    } else {
                        None
                    },
                    None => None,
                }
            } else {
                None
            }
        },
        None => None,
    }
}

/// The fields of a message, in order. There are none where the bytes are
/// malformed.
pub open spec fn fields(bytes: Seq<u8>) -> Option<Seq<Field>>
    decreases bytes.len(),
{
    if bytes.len() == 0 {
        Some(Seq::empty())
    } else {
        match first_field(bytes) {
            Some((field, length)) => if 0 < length <= bytes.len() {
                match fields(bytes.skip(length as int)) {
                    Some(rest) => Some(seq![field] + rest),
                    None => None,
                }
            } else {
                None
            },
            None => None,
        }
    }
}

/// The bytes of the last field with the given number, or none.
pub open spec fn last_payload(list: Seq<Field>, number: nat) -> Seq<u8>
    decreases list.len(),
{
    if list.len() == 0 {
        Seq::empty()
    } else if list.last().number == number && list.last().payload is Some {
        list.last().payload->0
    } else {
        last_payload(list.drop_last(), number)
    }
}

/// A type URL without what stands before its last slash.
pub open spec fn short_name(url: Seq<char>) -> Seq<char>
    decreases url.len(),
{
    if url.len() == 0 {
        url
    } else if url.last() == '/' {
        Seq::empty()
    } else {
        short_name(url.drop_last()).push(url.last())
    }
}

/// The detail that an `Any` stands for: the name of its type, and its value in
/// base64. There is none where it is malformed.
pub open spec fn any_detail(bytes: Seq<u8>) -> Option<DetailView> {
    match fields(bytes) {
        Some(list) => if valid_utf8(last_payload(list, 1)) {
            Some(
                DetailView {
                    type_url: short_name(decode_utf8(last_payload(list, 1))),
                    value: Some(unpadded_base64(last_payload(list, 2))),
                    debug: None,
                },
            )
        } else {
            None
        },
        None => None,
    }
}

/// The details among the fields of a status. There are none where one of them
/// is malformed.
pub open spec fn status_details(list: Seq<Field>) -> Option<Seq<DetailView>>
    decreases list.len(),
{
    if list.len() == 0 {
        Some(Seq::empty())
    } else {
        match (status_details(list.drop_last()), list.last().payload) {
            (Some(front), Some(payload)) => if list.last().number == 3 {
                match any_detail(payload) {
                    Some(detail) => Some(front.push(detail)),
                    None => None,
                }
            } else {
                Some(front)
            },
            (front, _) => front,
        }
    }
}

/// The details of a status in binary form. A malformed status has none.
pub open spec fn decoded_details(bytes: Seq<u8>) -> Seq<DetailView> {
    match fields(bytes) {
        Some(list) => match status_details(list) {
            Some(details) => details,
            None => Seq::empty(),
        },
        None => Seq::empty(),
    }
}

/// Read the varint at the front of the bytes.
fn read_varint(bytes: &[u8], longest: usize) -> (r: Option<(u64, usize)>)
    ensures
        match r {
            Some((value, length)) => varint(bytes@, longest as nat) == Some((value as nat, length as nat)) && 0
                < length <= bytes@.len(),
            None => varint(bytes@, longest as nat) is None,
        },
    decreases longest,
{
    if longest == 0 || bytes.len() == 0 {
        return None;
    }
    let first: u8 = bytes[0];
    if first < 128 {
        return Some((first as u64, 1));
    }
    let rest = slice_subrange(bytes, 1, bytes.len());
    assert(rest@ =~= bytes@.skip(1));
    match read_varint(rest, longest - 1) {
        Some((high, length)) => {
            let value: u128 = (first - 128) as u128 + 128 * (high as u128);
            if value <= 0xffff_ffff_ffff_ffff {
                Some((value as u64, length + 1))
            } else {
                None
            }
        },
        None => None,
    }
}

/// A field of a message, with its bytes where it has any.
struct FieldRef<'a> {
    number: u64,
    payload: Option<&'a [u8]>,
}

spec fn field_view(field: FieldRef) -> Field {
    Field {
        number: field.number as nat,
        payload: match field.payload {
            Some(p) => Some(p@),
            None => None,
        },
    }
}

/// Read the field at the front of the bytes.
fn read_field<'a>(bytes: &'a [u8]) -> (r: Option<(FieldRef<'a>, usize)>)
    ensures
        match r {
            Some((field, length)) => first_field(bytes@) == Some((field_view(field), length as nat)) && 0 < length
                <= bytes@.len(),
            None => first_field(bytes@) is None,
        },
{
    let (key, n) = match read_varint(bytes, MAX_VARINT) {
        Some(read) => read,
        None => return None,
    };
    let number: u64 = key / 8;
    let rest = slice_subrange(bytes, n, bytes.len());
    assert(rest@ =~= bytes@.skip(n as int));
    if number == 0 {
        return None;
    }
    match key % 8 {
        0 => match read_varint(rest, MAX_VARINT) {
            Some((_, m)) => Some((FieldRef { number, payload: None }, n + m)),
            None => None,
        },
        1 => if rest.len() >= 8 {
            Some((FieldRef { number, payload: None }, n + 8))
        } else {
            None
        },
        5 => if rest.len() >= 4 {
            Some((FieldRef { number, payload: None }, n + 4))
        } else {
            None
        },
        2 => match read_varint(rest, MAX_VARINT) {
            Some((length, m)) => if length <= (rest.len() - m) as u64 {
                let end: usize = m + length as usize;
                let payload = slice_subrange(rest, m, end);
                Some((FieldRef { number, payload: Some(payload) }, n + end))
            } else {
                None
            },
            None => None,
        },
        _ => None,
    }
}

spec fn fields_view(list: Seq<FieldRef>) -> Seq<Field> {
    Seq::new(list.len(), |i: int| field_view(list[i]))
}

/// Read the fields of a message.
fn read_fields<'a>(bytes: &'a [u8]) -> (r: Option<Vec<FieldRef<'a>>>)
    ensures
        match r {
            Some(list) => fields(bytes@) == Some(fields_view(list@)),
            None => fields(bytes@) is None,
        },
{
    let mut list: Vec<FieldRef<'a>> = Vec::new();
    let mut at: usize = 0;
    assert(bytes@.skip(0) =~= bytes@);
    assert(fields(bytes@) matches Some(f) ==> fields_view(list@) + f =~= f);
    while at < bytes.len()
        invariant
            at <= bytes@.len(),
            match fields(bytes@.skip(at as int)) {
                Some(rest) => fields(bytes@) == Some(fields_view(list@) + rest),
                None => fields(bytes@) is None,
            },
        decreases bytes@.len() - at,
    {
        let rest = slice_subrange(bytes, at, bytes.len());
        assert(rest@ =~= bytes@.skip(at as int));
        match read_field(rest) {
            Some((field, length)) => {
                let ghost before = list@;
                assert(rest@.skip(length as int) =~= bytes@.skip(at + length));
                list.push(field);
                assert(fields_view(list@) =~= fields_view(before).push(field_view(field)));
                assert(fields(rest@.skip(length as int)) matches Some(f) ==> fields_view(before) + (seq![
                    field_view(field),
                ] + f) =~= fields_view(list@) + f);
                at = at + length;
            },
            None => return None,
        }
    }
    assert(fields_view(list@) + Seq::empty() =~= fields_view(list@));
    Some(list)
}

/// The bytes of the last field with the given number, or none.
fn payload_of<'a>(list: &Vec<FieldRef<'a>>, number: u64) -> (payload: &'a [u8])
    ensures
        payload@ == last_payload(fields_view(list@), number as nat),
{
    let ghost all = fields_view(list@);
    let mut i: usize = list.len();
    assert(all.take(all.len() as int) =~= all);
    while i > 0
        invariant
            i <= list@.len(),
            all == fields_view(list@),
            last_payload(all, number as nat) == last_payload(all.take(i as int), number as nat),
        decreases i,
    {
        assert(all.take(i as int).last() == field_view(list@[i - 1]));
        assert(all.take(i as int).drop_last() =~= all.take(i - 1));
        i = i - 1;
        if list[i].number == number {
            if let Some(p) = list[i].payload {
                return p;
            }
        }
    }
    assert(all.take(0) =~= Seq::empty());
    let none: &'a [u8] = &[];
    assert(none@ =~= Seq::empty());
    none
}

/// A type URL without what stands before its last slash.
fn shorten(url: &str) -> (name: String)
    ensures
        name@ == short_name(url@),
{
    let chars = chars_of(url);
    let mut start: usize = chars.len();
    assert(chars@.take(chars@.len() as int) =~= chars@);
    assert(chars@.skip(chars@.len() as int) =~= Seq::empty());
    assert(short_name(chars@) + Seq::empty() =~= short_name(chars@));
    while start > 0 && chars[start - 1] != '/'
        invariant
            start <= chars@.len(),
            short_name(chars@) == short_name(chars@.take(start as int)) + chars@.skip(start as int),
        decreases start,
    {
        let ghost front = chars@.take(start as int);
        assert(front.drop_last() =~= chars@.take(start - 1));
        assert(short_name(front.drop_last()).push(front.last()) + chars@.skip(start as int) =~= short_name(
            front.drop_last(),
        ) + chars@.skip(start - 1));
        start = start - 1;
    }
    assert(short_name(chars@.take(start as int)) =~= Seq::empty());
    assert(short_name(chars@) =~= chars@.skip(start as int));
    let tail = slice_subrange(chars.as_slice(), start, chars.len());
    assert(tail@ =~= chars@.skip(start as int));
    string_of(tail)
}

/// Read the detail that an `Any` stands for.
fn read_any(bytes: &[u8]) -> (r: Option<ErrorDetail>)
    ensures
        match r {
            Some(detail) => any_detail(bytes@) == Some(detail@),
            None => any_detail(bytes@) is None,
        },
{
    let list = match read_fields(bytes) {
        Some(list) => list,
        None => return None,
    };
    let url = match utf8_text(payload_of(&list, 1)) {
        Some(url) => url,
        None => return None,
    };
    Some(ErrorDetail::from_message(shorten(url), payload_of(&list, 2)))
}

/// The details of a status in binary form. A malformed status has none.
pub fn decode_details(bytes: &[u8]) -> (details: Vec<ErrorDetail>)
    ensures
        details_view(details@) == decoded_details(bytes@),
{
    let none: Vec<ErrorDetail> = Vec::new();
    assert(details_view(none@) =~= Seq::empty());
    let list = match read_fields(bytes) {
        Some(list) => list,
        None => return none,
    };
    let ghost all = fields_view(list@);
    let mut details: Vec<ErrorDetail> = Vec::new();
    let mut i: usize = 0;
    assert(details_view(details@) =~= Seq::empty());
    while i < list.len()
        invariant
            i <= list@.len(),
            all == fields_view(list@),
            status_details(all.take(i as int)) == Some(details_view(details@)),
            decoded_details(bytes@) == match status_details(all) {
                Some(d) => d,
                None => Seq::empty(),
            },
            details_view(none@) == Seq::<DetailView>::empty(),
        decreases list@.len() - i,
    {
        let ghost next = all.take(i as int + 1);
        assert(next.drop_last() =~= all.take(i as int));
        assert(next.last() == field_view(list@[i as int]));
        let ghost before = details@;
        if list[i].number == 3 {
            if let Some(payload) = list[i].payload {
                match read_any(payload) {
                    Some(detail) => {
                        details.push(detail);
                        assert(details_view(details@) =~= details_view(before).push(detail@));
                    },
                    None => {
                        proof {
                            lemma_malformed_detail(all, i as int + 1);
                        }
                        return none;
                    },
                }
            }
        }
        i = i + 1;
    }
    assert(all.take(all.len() as int) =~= all);
    details
}

/// A malformed detail spoils the status.
proof fn lemma_malformed_detail(list: Seq<Field>, i: int)
    requires
        0 <= i <= list.len(),
        status_details(list.take(i)) is None,
    ensures
        status_details(list) is None,
    decreases list.len(),
{
    if i < list.len() {
        assert(list.drop_last().take(i) =~= list.take(i));
        lemma_malformed_detail(list.drop_last(), i);
    } else {
        assert(list.take(i) =~= list);
    }
}

} // verus!
