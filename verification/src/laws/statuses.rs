//! Laws on the status of a gRPC call: the number, the message, the details and
//! the trailers beside them.
use vstd::prelude::*;
use vstd::utf8::encode_utf8;

use crate::client::request::hex_digit;
use crate::client::request::percent_byte;
use crate::client::request::percent_encoded;
use crate::client::status::details_in;
use crate::client::status::hex_value;
use crate::client::status::lemma_percent_round_trip;
use crate::client::status::message_in;
use crate::client::status::other_trailers;
use crate::client::status::percent_decoded;
use crate::client::status::reported_error;
use crate::client::status::status_in;
use crate::error::code_number;
use crate::error::detail_b64::padded_decoded;
use crate::error::detail_b64::unpadded_decoded;
use crate::error::lemma_code_numbers_differ;
use crate::error::plain_error;
use crate::error::ErrorCode;
use crate::error::ErrorView;
use crate::grpc_status::decoded_details;
use crate::headers::ascii_text;
use crate::headers::first_is_sensitive;
use crate::headers::first_value;
use crate::headers::is_visible_text;
use crate::headers::quoted;
use crate::headers::HeaderContents;
use crate::laws::texts::law_number_is_read_back;
use crate::laws::texts::law_numeral_reads_back;
use crate::laws::texts::law_other_texts_are_no_numbers;
use crate::text::decimal;
use crate::text::lossy_text;
use crate::text::parsed_u32;

verus! {

// ---------------------------------------------------------------------------
// Numbers
// ---------------------------------------------------------------------------

/// A status that was written as a numeral is read as its number.
pub proof fn law_status_is_read_back(raw: Seq<u8>, number: u32)
    requires
        ascii_text(raw) == decimal(number as nat),
    ensures
        status_in(raw) == Some(number),
{
    law_numeral_reads_back(number as nat);
    law_number_is_read_back(number);
    assert forall|i: int| 0 <= i < raw.len() implies crate::headers::is_visible_byte(#[trigger] raw[i]) by {
        assert(ascii_text(raw)[i] == raw[i] as char);
        assert('0' <= decimal(number as nat)[i] <= '9');
    }
}

/// The single byte `0` is the status of success.
pub proof fn law_zero_is_success(raw: Seq<u8>)
    requires
        raw == seq![48u8],
    ensures
        status_in(raw) == Some(0u32),
{
    assert(ascii_text(raw) =~= decimal(0));
    law_status_is_read_back(raw, 0);
}

/// A status that holds anything but digits is none.
pub proof fn law_other_statuses_are_malformed(raw: Seq<u8>, i: int)
    ensures
        raw.len() == 0 ==> status_in(raw) is None,
        0 <= i < raw.len() && !(48 <= raw[i] <= 57) && (i > 0 || raw[i] != 43) ==> status_in(raw) is None,
{
    let text = ascii_text(raw);
    law_other_texts_are_no_numbers(text, i, 0);
    if raw.len() == 0 {
        assert(text =~= Seq::empty());
    }
}

// ---------------------------------------------------------------------------
// What trailers report
// ---------------------------------------------------------------------------

/// Trailers with the status of success report no error, whatever else they
/// hold; and so do trailers without a status.
pub proof fn law_success_is_no_error(h: HeaderContents, r: Option<ErrorView>)
    requires
        first_value(h, "grpc-status"@) is None || first_value(h, "grpc-status"@) == Some(seq![48u8]),
        reported_error(h, r),
    ensures
        r is None,
{
    law_zero_is_success(seq![48u8]);
}

/// Trailers with another status report an error: with the code of that number,
/// with their message and their details, and with all trailers but those that
/// make up the status.
pub proof fn law_failure_is_reported(
    h: HeaderContents,
    number: u32,
    raw: Seq<u8>,
    r: Option<ErrorView>,
    code: ErrorCode,
)
    requires
        number != 0,
        first_value(h, "grpc-status"@) == Some(raw),
        ascii_text(raw) == decimal(number as nat),
        reported_error(h, r),
    ensures
        r is Some,
        number == code_number(code) ==> r->0.code == code,
        number > 16 ==> r->0.code == ErrorCode::Unknown,
        r->0.message == Some(message_in(h)),
        r->0.details == details_in(h),
        r->0.status is None,
        r->0.headers.dom() == Set::<Seq<char>>::empty(),
        r->0.trailers == other_trailers(h),
{
    law_status_is_read_back(raw, number);
    if number == code_number(code) {
        lemma_code_numbers_differ(code, r->0.code);
    }
}

/// A status that cannot be read is an error of its own, never success.
pub proof fn law_malformed_status_is_reported(h: HeaderContents, raw: Seq<u8>, r: Option<ErrorView>)
    requires
        first_value(h, "grpc-status"@) == Some(raw),
        !is_visible_text(raw) || parsed_u32(ascii_text(raw)) is None,
        reported_error(h, r),
    ensures
        r is Some,
        r->0.code == ErrorCode::Unknown,
        !first_is_sensitive(h, "grpc-status"@) ==> r->0 == plain_error(
            ErrorCode::Unknown,
            "protocol error: malformed grpc-status: "@ + quoted(raw),
        ),
        first_is_sensitive(h, "grpc-status"@) ==> r->0 == plain_error(
            ErrorCode::Unknown,
            "protocol error: malformed grpc-status: Sensitive"@,
        ),
{
    reveal_strlit("protocol error: malformed grpc-status: ");
    reveal_strlit("Sensitive");
    reveal_strlit("protocol error: malformed grpc-status: Sensitive");
    assert("protocol error: malformed grpc-status: "@ + "Sensitive"@
        =~= "protocol error: malformed grpc-status: Sensitive"@);
}

/// The trailers beside a status: every name but the three of the status, with
/// its values.
pub proof fn law_other_trailers_are_kept(h: HeaderContents, name: Seq<char>)
    ensures
        !other_trailers(h).contains_key("grpc-status"@),
        !other_trailers(h).contains_key("grpc-message"@),
        !other_trailers(h).contains_key("grpc-status-details-bin"@),
        name != "grpc-status"@ && name != "grpc-message"@ && name != "grpc-status-details-bin"@ ==> (other_trailers(
            h,
        ).contains_key(name) <==> h.contains_key(name)) && (h.contains_key(name) ==> other_trailers(h)[name]
            == h[name]),
{
}

/// A message and details that were written in the usual way are read back.
pub proof fn law_status_message_is_read_back(h: HeaderContents, raw: Seq<u8>, message: Seq<u8>)
    requires
        first_value(h, "grpc-message"@) == Some(raw),
        ascii_text(raw) == percent_encoded(message),
    ensures
        message_in(h) == lossy_text(message),
{
    lemma_percent_visible(message);
    assert forall|i: int| 0 <= i < raw.len() implies crate::headers::is_visible_byte(#[trigger] raw[i]) by {
        assert(ascii_text(raw)[i] == raw[i] as char);
        assert(' ' <= percent_encoded(message)[i] <= '~');
    }
    lemma_percent_round_trip(message);
}

/// A message without a percent sign stands for itself. Without a readable
/// message there is an empty one.
pub proof fn law_plain_message_is_itself(h: HeaderContents, raw: Seq<u8>)
    ensures
        first_value(h, "grpc-message"@) == Some(raw) && is_visible_text(raw) && !encode_utf8(
            ascii_text(raw),
        ).contains(37u8) ==> message_in(h) == lossy_text(encode_utf8(ascii_text(raw))),
        first_value(h, "grpc-message"@) is None ==> message_in(h) == Seq::<char>::empty(),
        first_value(h, "grpc-message"@) == Some(raw) && !is_visible_text(raw) ==> message_in(h) == Seq::<char>::empty(),
{
    let bytes = encode_utf8(ascii_text(raw));
    if !bytes.contains(37u8) {
        law_nothing_to_decode(bytes);
    }
}

/// Details in base64 are read, with padding or without.
pub proof fn law_status_details_are_read(h: HeaderContents, raw: Seq<u8>)
    requires
        first_value(h, "grpc-status-details-bin"@) == Some(raw),
        is_visible_text(raw),
    ensures
        padded_decoded(ascii_text(raw)) matches Some(bytes) ==> details_in(h) == decoded_details(bytes),
        padded_decoded(ascii_text(raw)) is None ==> (unpadded_decoded(ascii_text(raw)) matches Some(bytes)
            ==> details_in(h) == decoded_details(bytes)),
        padded_decoded(ascii_text(raw)) is None && unpadded_decoded(ascii_text(raw)) is None ==> details_in(h).len() == 0,
{
}

// ---------------------------------------------------------------------------
// Percent encoding
// ---------------------------------------------------------------------------

/// Bytes without a percent sign stand for themselves.
pub proof fn law_nothing_to_decode(bytes: Seq<u8>)
    requires
        !bytes.contains(37u8),
    ensures
        percent_decoded(bytes) == bytes,
    decreases bytes.len(),
{
    if bytes.len() > 0 {
        let rest = bytes.skip(1);
        assert(bytes[0] != 37);
        assert(!rest.contains(37u8)) by {
            if rest.contains(37u8) {
                let i = choose|i: int| 0 <= i < rest.len() && rest[i] == 37;
                assert(bytes[i + 1] == 37);
            }
        }
        law_nothing_to_decode(rest);
        assert(seq![bytes[0]] + rest =~= bytes);
    } else {
        assert(bytes =~= Seq::empty());
    }
}

/// A percent sign with two hexadecimal digits of either case stands for the byte
/// that they write; one without them stands for itself.
pub proof fn law_percent_sign(high: u8, low: u8, h: nat, l: nat, rest: Seq<u8>)
    ensures
        hex_value(high) == Some(h) && hex_value(low) == Some(l) ==> percent_decoded(seq![37u8, high, low] + rest)
            == seq![(16 * h + l) as u8] + percent_decoded(rest),
        hex_value(high) is None || hex_value(low) is None ==> percent_decoded(seq![37u8, high, low] + rest)
            == seq![37u8] + percent_decoded(seq![high, low] + rest),
        percent_decoded(seq![37u8]) == seq![37u8],
{
    let bytes = seq![37u8, high, low] + rest;
    assert(bytes.skip(3) =~= rest);
    assert(bytes.skip(1) =~= seq![high, low] + rest);
    assert(seq![37u8].skip(1) =~= Seq::empty());
    assert(percent_decoded(Seq::<u8>::empty()) =~= Seq::empty());
    assert(percent_decoded(seq![37u8]) =~= seq![37u8]);
}

/// The hexadecimal digits of either case.
pub proof fn law_hex_values(b: u8, n: nat)
    requires
        n < 16,
    ensures
        n < 10 ==> hex_value((48 + n) as u8) == Some(n),
        n >= 10 ==> hex_value((55 + n) as u8) == Some(n) && hex_value((87 + n) as u8) == Some(n),
        hex_value(b) is Some ==> 48 <= b <= 57 || 65 <= b <= 70 || 97 <= b <= 102,
{
}

/// In percent encoding letters and digits stand for themselves, and every other
/// byte is a percent sign with two upper-case hexadecimal digits.
pub proof fn law_percent_encoding_of_a_byte(b: u8)
    ensures
        48 <= b <= 57 || 65 <= b <= 90 || 97 <= b <= 122 ==> percent_encoded(seq![b]) == seq![b as char],
        !(48 <= b <= 57 || 65 <= b <= 90 || 97 <= b <= 122) ==> percent_encoded(seq![b]) == seq![
            '%',
            "0123456789ABCDEF"@[(b / 16) as int],
            "0123456789ABCDEF"@[(b % 16) as int],
        ],
{
    reveal_strlit("0123456789ABCDEF");
    let digits = "0123456789ABCDEF"@;
    assert(digits =~= seq!['0', '1', '2', '3', '4', '5', '6', '7', '8', '9', 'A', 'B', 'C', 'D', 'E', 'F']);
    assert forall|n: nat| n < 16 implies #[trigger] hex_digit(n) == digits[n as int] by {}
    let bytes = seq![b];
    assert(bytes.drop_last() =~= Seq::empty());
    assert(percent_encoded(Seq::<u8>::empty()) =~= Seq::empty());
    assert(percent_encoded(bytes) =~= percent_byte(b));
    assert(hex_digit((b / 16) as nat) == digits[(b / 16) as int]);
    assert(hex_digit((b % 16) as nat) == digits[(b % 16) as int]);
}

/// Percent encoding goes byte by byte.
pub proof fn law_percent_encoding_goes_byte_by_byte(a: Seq<u8>, b: Seq<u8>)
    ensures
        percent_encoded(a + b) == percent_encoded(a) + percent_encoded(b),
    decreases b.len(),
{
    if b.len() == 0 {
        assert(a + b =~= a);
        assert(percent_encoded(b) =~= Seq::empty());
        assert(percent_encoded(a) + percent_encoded(b) =~= percent_encoded(a));
    } else {
        law_percent_encoding_goes_byte_by_byte(a, b.drop_last());
        assert((a + b).drop_last() =~= a + b.drop_last());
        assert(percent_encoded(a + b) =~= percent_encoded(a) + percent_encoded(b));
    }
}

/// Percent encoding is visible text.
proof fn lemma_percent_visible(bytes: Seq<u8>)
    ensures
        forall|i: int| 0 <= i < percent_encoded(bytes).len() ==> ' ' <= #[trigger] percent_encoded(bytes)[i] <= '~',
    decreases bytes.len(),
{
    if bytes.len() > 0 {
        lemma_percent_visible(bytes.drop_last());
        let front = percent_encoded(bytes.drop_last());
        let last = percent_byte(bytes.last());
        let all = percent_encoded(bytes);
        assert forall|i: int| 0 <= i < all.len() implies ' ' <= #[trigger] all[i] <= '~' by {
            if i < front.len() {
                assert(all[i] == front[i]);
            } else {
                assert(all[i] == last[i - front.len()]);
            }
        }
    }
}

} // verus!
