//! How a response reports failure: HTTP statuses, gRPC statuses, and the
//! errors of the Connect protocol.
use http::HeaderMap;
use http::StatusCode;
use vstd::prelude::*;
use vstd::utf8::encode_utf8;

use crate::client::config::either;
use crate::client::config::ClientConfig;
use crate::client::request::hex_digit;
use crate::client::request::is_alphanumeric;
use crate::client::request::percent_byte;
use crate::client::request::percent_encoded;
use crate::error::code_number;
use crate::error::detail_b64;
use crate::error::detail_b64::padded_decoded;
use crate::error::detail_b64::unpadded_decoded;
use crate::error::details_view;
use crate::error::named_code;
use crate::error::opt_text;
use crate::error::plain_error;
use crate::error::ConnectError;
use crate::error::DetailView;
use crate::error::ErrorCode;
use crate::error::ErrorDetail;
use crate::error::ErrorView;
use crate::grpc_status::decode_details;
use crate::grpc_status::decoded_details;
use crate::headers::ascii_text;
use crate::headers::first_is_sensitive;
use crate::headers::first_value;
use crate::headers::header_map_clone;
use crate::headers::header_map_get;
use crate::headers::header_map_remove;
use crate::headers::header_name_from_bytes;
use crate::headers::header_value_content;
use crate::headers::header_value_debug_text;
use crate::headers::header_value_str;
use crate::headers::is_canonical_name;
use crate::headers::is_visible_text;
use crate::headers::lemma_canonical_bytes;
use crate::headers::quoted;
use crate::headers::sensitive_text;
use crate::headers::status_as_u16;
use crate::headers::status_number;
use crate::headers::HeaderContents;
use crate::headers::HeadersView;
use crate::protocol::message_type;
use crate::protocol::Protocol;
use crate::text::begins_with;
use crate::text::chars_of;
use crate::text::find_char;
use crate::text::first_index;
use crate::text::lossy_text;
use crate::text::parse_u32;
use crate::text::parsed_u32;
use crate::text::starts_with;
use crate::text::str_eq;
use crate::text::string_of;
use crate::text::trim;
use crate::text::trimmed;
use crate::text::utf8_lossy;

verus! {

/// The code for an HTTP status. Only some statuses have one of their own.
pub open spec fn status_code_for(status: u16) -> ErrorCode {
    if status == 400 {
        ErrorCode::Internal
    } else if status == 401 {
        ErrorCode::Unauthenticated
    } else if status == 403 {
        ErrorCode::PermissionDenied
    } else if status == 404 {
        ErrorCode::Unimplemented
    } else if status == 408 {
        ErrorCode::DeadlineExceeded
    } else if status == 429 || 502 <= status <= 504 {
        ErrorCode::Unavailable
    } else {
        ErrorCode::Unknown
    }
}

/// The code for an HTTP status.
pub fn http_status_to_error_code(status: StatusCode) -> (code: ErrorCode)
    ensures
        code == status_code_for(status_number(status)),
{
    match status_as_u16(&status) {
        400 => ErrorCode::Internal,
        401 => ErrorCode::Unauthenticated,
        403 => ErrorCode::PermissionDenied,
        404 => ErrorCode::Unimplemented,
        408 => ErrorCode::DeadlineExceeded,
        429 => ErrorCode::Unavailable,
        502 => ErrorCode::Unavailable,
        503 => ErrorCode::Unavailable,
        504 => ErrorCode::Unavailable,
        _ => ErrorCode::Unknown,
    }
}

/// An error of decompression as it is reported for a response: an unknown
/// encoding is the server's fault, and a malformed payload is lost data.
pub open spec fn blamed_on_server(e: ErrorView) -> ErrorView {
    ErrorView {
        code: if e.code == ErrorCode::Unimplemented {
            ErrorCode::Internal
        } else if e.code == ErrorCode::InvalidArgument {
            ErrorCode::DataLoss
        } else {
            e.code
        },
        ..e
    }
}

/// Report an error of decompression for a response.
///
/// Decompression blames malformed data and unknown encodings on whoever sent
/// them in a request. In a response the caller is not at fault.
pub fn map_response_decompression_error(e: ConnectError) -> (mapped: ConnectError)
    ensures
        mapped@ == blamed_on_server(e@),
{
    match e.code {
        ErrorCode::Unimplemented => e.with_code(ErrorCode::Internal),
        ErrorCode::InvalidArgument => e.with_code(ErrorCode::DataLoss),
        _ => e,
    }
}

// ---------------------------------------------------------------------------
// gRPC statuses
// ---------------------------------------------------------------------------

/// The value of a hexadecimal digit.
pub open spec fn hex_value(b: u8) -> Option<nat> {
    if 48 <= b <= 57 {
        Some((b - 48) as nat)
    } else if 65 <= b <= 70 {
        Some((b - 55) as nat)
    } else if 97 <= b <= 102 {
        Some((b - 87) as nat)
    } else {
        None
    }
}

/// Bytes out of percent encoding: a percent sign with two hexadecimal digits
/// stands for a byte, and anything else for itself.
pub open spec fn percent_decoded(bytes: Seq<u8>) -> Seq<u8>
    decreases bytes.len(),
{
    if bytes.len() == 0 {
        Seq::empty()
    } else if bytes[0] == 37 && bytes.len() >= 3 && hex_value(bytes[1]) is Some && hex_value(bytes[2]) is Some {
        seq![(16 * hex_value(bytes[1])->0 + hex_value(bytes[2])->0) as u8] + percent_decoded(bytes.skip(3))
    } else {
        seq![bytes[0]] + percent_decoded(bytes.skip(1))
    }
}

/// The front byte of percent encoding comes first.
proof fn lemma_percent_front(bytes: Seq<u8>)
    requires
        bytes.len() > 0,
    ensures
        percent_encoded(bytes) == percent_byte(bytes[0]) + percent_encoded(bytes.drop_first()),
    decreases bytes.len(),
{
    if bytes.len() == 1 {
        assert(bytes.drop_last() =~= Seq::empty());
        assert(bytes.drop_first() =~= Seq::empty());
        assert(percent_encoded(bytes) =~= percent_byte(bytes[0]) + percent_encoded(bytes.drop_first()));
    } else {
        lemma_percent_front(bytes.drop_last());
        assert(bytes.drop_last().drop_first() =~= bytes.drop_first().drop_last());
        assert(percent_encoded(bytes) =~= percent_byte(bytes[0]) + percent_encoded(bytes.drop_first()));
    }
}

/// Percent encoding, as bytes.
spec fn percent_bytes(bytes: Seq<u8>) -> Seq<u8> {
    Seq::new(percent_encoded(bytes).len(), |i: int| percent_encoded(bytes)[i] as u8)
}

/// Percent encoding is ASCII.
proof fn lemma_percent_ascii(bytes: Seq<u8>)
    ensures
        vstd::utf8::is_ascii_chars(percent_encoded(bytes)),
    decreases bytes.len(),
{
    if bytes.len() > 0 {
        lemma_percent_ascii(bytes.drop_last());
        let last = percent_byte(bytes.last());
        assert forall|i: int| 0 <= i < last.len() implies '\0' <= #[trigger] last[i] <= '\u{7f}' by {}
        let all = percent_encoded(bytes);
        let front = percent_encoded(bytes.drop_last());
        assert forall|i: int| 0 <= i < all.len() implies '\0' <= #[trigger] all[i] <= '\u{7f}' by {
            if i < front.len() {
                assert(all[i] == front[i]);
            } else {
                assert(all[i] == last[i - front.len()]);
            }
        }
    }
}

/// Percent encoding is undone by decoding it: what a request carries in its URI
/// in percent encoding is what was put there.
pub proof fn lemma_percent_round_trip(bytes: Seq<u8>)
    ensures
        percent_decoded(encode_utf8(percent_encoded(bytes))) == bytes,
{
    lemma_percent_ascii(bytes);
    vstd::utf8::is_ascii_chars_encode_utf8(percent_encoded(bytes));
    assert(encode_utf8(percent_encoded(bytes)) =~= percent_bytes(bytes));
    lemma_percent_bytes_round_trip(bytes);
}

proof fn lemma_percent_bytes_round_trip(bytes: Seq<u8>)
    ensures
        percent_decoded(percent_bytes(bytes)) == bytes,
    decreases bytes.len(),
{
    if bytes.len() > 0 {
        let b = bytes[0];
        let all = percent_bytes(bytes);
        let rest = percent_bytes(bytes.drop_first());
        lemma_percent_front(bytes);
        lemma_percent_bytes_round_trip(bytes.drop_first());
        if is_alphanumeric(b) {
            assert(all[0] == b);
            assert(all.skip(1) =~= rest);
            assert(percent_decoded(all) =~= seq![b] + bytes.drop_first());
        } else {
            assert(percent_encoded(bytes)[0] == '%');
            assert(all[0] == 37);
            assert(percent_encoded(bytes)[1] == hex_digit((b / 16) as nat));
            assert(percent_encoded(bytes)[2] == hex_digit((b % 16) as nat));
            assert(hex_value(all[1]) == Some((b / 16) as nat));
            assert(hex_value(all[2]) == Some((b % 16) as nat));
            assert(all.skip(3) =~= rest);
            assert(16 * (b / 16) + b % 16 == b);
            assert(percent_decoded(all) =~= seq![b] + bytes.drop_first());
        }
        assert(bytes =~= seq![b] + bytes.drop_first());
    } else {
        assert(percent_bytes(bytes) =~= Seq::empty());
        assert(bytes =~= Seq::empty());
    }
}

/// `percent_decode_str` puts a byte in place of each percent sign with two
/// hexadecimal digits, and leaves anything else.
#[verifier::external_body]
fn decode_percent(text: &str) -> (bytes: Vec<u8>)
    ensures
        bytes@ == percent_decoded(encode_utf8(text@)),
{
    percent_encoding::percent_decode_str(text).collect()
}

/// Decode a gRPC message out of percent encoding. What is then not UTF-8 is
/// replaced.
pub fn grpc_percent_decode(s: &str) -> (message: String)
    ensures
        message@ == lossy_text(percent_decoded(encode_utf8(s@))),
        vstd::utf8::valid_utf8(percent_decoded(encode_utf8(s@))) ==> message@ == vstd::utf8::decode_utf8(
            percent_decoded(encode_utf8(s@)),
        ),
{
    let bytes = decode_percent(s);
    utf8_lossy(bytes.as_slice())
}

/// The first value under a name as text, where it is visible text.
pub open spec fn visible_value(h: HeaderContents, name: Seq<char>) -> Option<Seq<char>> {
    match first_value(h, name) {
        Some(v) => if is_visible_text(v) {
            Some(ascii_text(v))
        } else {
            None
        },
        None => None,
    }
}

/// The first value under a name as text, where it is visible text.
pub fn visible_header<'a>(headers: &'a HeaderMap, name: &str) -> (text: Option<&'a str>)
    requires
        is_canonical_name(name@),
    ensures
        match text {
            Some(t) => visible_value(headers@, name@) == Some(t@),
            None => visible_value(headers@, name@) is None,
        },
{
    match header_map_get(headers, name) {
        Some(value) => header_value_str(value),
        None => None,
    }
}

/// The code with a number in gRPC, which is `Unknown` for a number that has
/// none.
pub open spec fn is_code_for(number: u32, code: ErrorCode) -> bool {
    if 1 <= number <= 16 {
        code_number(code) == number
    } else {
        code == ErrorCode::Unknown
    }
}

/// What the details of a status stand for, with or without padding.
pub open spec fn details_in(h: HeaderContents) -> Seq<DetailView> {
    match visible_value(h, "grpc-status-details-bin"@) {
        Some(text) => match either(padded_decoded(text), unpadded_decoded(text)) {
            Some(bytes) => decoded_details(bytes),
            None => Seq::empty(),
        },
        None => Seq::empty(),
    }
}

/// The message of a status.
pub open spec fn message_in(h: HeaderContents) -> Seq<char> {
    match visible_value(h, "grpc-message"@) {
        Some(text) => lossy_text(percent_decoded(encode_utf8(text))),
        None => Seq::empty(),
    }
}

/// Trailers without those that make up the status.
pub open spec fn other_trailers(h: HeaderContents) -> HeaderContents {
    h.remove("grpc-status"@).remove("grpc-message"@).remove("grpc-status-details-bin"@)
}

/// The error for a status that is no number.
pub open spec fn malformed_status(shown: Seq<char>) -> ErrorView {
    plain_error(ErrorCode::Unknown, "protocol error: malformed grpc-status: "@ + shown)
}

/// A status as an error shows it: nothing of it where it is marked as sensitive.
pub open spec fn shown_status(raw: Seq<u8>, sensitive: bool) -> Seq<char> {
    if sensitive {
        sensitive_text()
    } else {
        quoted(raw)
    }
}

/// The error for a status other than success, which is not zero.
pub open spec fn is_status_error(h: HeaderContents, status: u32, e: ErrorView) -> bool {
    &&& is_code_for(status, e.code)
    &&& e == (ErrorView {
        code: e.code,
        message: Some(message_in(h)),
        details: details_in(h),
        status: None,
        headers: crate::headers::no_headers(),
        trailers: other_trailers(h),
    })
}

/// The error that trailers report: none where they have no status or report
/// success. A status that cannot be read is an error, not success.
pub open spec fn reported_error(h: HeaderContents, r: Option<ErrorView>) -> bool {
    match first_value(h, "grpc-status"@) {
        None => r is None,
        Some(raw) => match status_in(raw) {
            None => r == Some(malformed_status(shown_status(raw, first_is_sensitive(h, "grpc-status"@)))),
            Some(status) => if status == 0 {
                r is None
            } else {
                r matches Some(e) && is_status_error(h, status, e)
            },
        },
    }
}

/// The number that a status stands for.
pub open spec fn status_in(raw: Seq<u8>) -> Option<u32> {
    if is_visible_text(raw) {
        parsed_u32(ascii_text(raw))
    } else {
        None
    }
}

/// The contents of an optional error.
pub open spec fn opt_error(e: Option<ConnectError>) -> Option<ErrorView> {
    match e {
        Some(err) => Some(err@),
        None => None,
    }
}

/// Trailers that report success, or no status at all, report no error; and
/// there is success only where a status is there to say so.
pub proof fn lemma_success_needs_status(h: HeaderContents)
    ensures
        reported_error(h, None) <==> (first_value(h, "grpc-status"@) is None || status_in(
            first_value(h, "grpc-status"@)->0,
        ) == Some(0u32)),
{
}

/// The names of the headers that hold a status.
pub proof fn lemma_status_names()
    ensures
        is_canonical_name("grpc-status"@),
        is_canonical_name("grpc-message"@),
        is_canonical_name("grpc-status-details-bin"@),
        is_canonical_name("content-type"@),
        is_canonical_name("content-encoding"@),
        is_canonical_name("grpc-encoding"@),
        is_canonical_name("connect-content-encoding"@),
{
    reveal_strlit("grpc-status");
    reveal_strlit("grpc-message");
    reveal_strlit("grpc-status-details-bin");
    reveal_strlit("content-type");
    reveal_strlit("content-encoding");
    reveal_strlit("grpc-encoding");
    reveal_strlit("connect-content-encoding");
}

/// Remove the values under a name.
fn remove_name(headers: &mut HeaderMap, name: &str)
    requires
        is_canonical_name(name@),
    ensures
        final(headers)@ == old(headers)@.remove(name@),
{
    proof {
        lemma_canonical_bytes(name@);
    }
    if let Some(n) = header_name_from_bytes(name.as_bytes()) {
        header_map_remove(headers, &n);
    }
}

/// The error that trailers report.
pub fn parse_grpc_error_from_trailers(trailers: &HeaderMap) -> (r: Option<ConnectError>)
    ensures
        reported_error(trailers@, opt_error(r)),
{
    proof {
        lemma_status_names();
    }
    let raw = match header_map_get(trailers, "grpc-status") {
        Some(raw) => raw,
        None => return None,
    };
    let parsed = match header_value_str(raw) {
        Some(text) => parse_u32(text),
        None => None,
    };
    let status: u32 = match parsed {
        Some(status) => status,
        None => {
            let mut text = "protocol error: malformed grpc-status: ".to_owned();
            let shown = header_value_debug_text(raw);
            text.push_str(shown.as_str());
            let err = ConnectError::new(ErrorCode::Unknown, text);
            assert(err@ == malformed_status(
                shown_status(header_value_content(*raw), first_is_sensitive(trailers@, "grpc-status"@)),
            ));
            return Some(err);
        },
    };
    if status == 0 {
        return None;
    }
    let code = match ErrorCode::from_grpc_code(status) {
        Some(code) => code,
        None => ErrorCode::Unknown,
    };
    let message = match visible_header(trailers, "grpc-message") {
        Some(text) => grpc_percent_decode(text),
        None => {
            proof {
                reveal_strlit("");
            }
            assert(""@ =~= Seq::empty());
            "".to_owned()
        },
    };
    let details: Vec<ErrorDetail> = match visible_header(trailers, "grpc-status-details-bin") {
        Some(text) => {
            let decoded = match detail_b64::decode_padded(text) {
                Some(bytes) => Some(bytes),
                None => detail_b64::decode_unpadded(text),
            };
            match decoded {
                Some(bytes) => decode_details(bytes.as_slice()),
                None => Vec::new(),
            }
        },
        None => Vec::new(),
    };
    assert(details_view(details@) =~= details_in(trailers@));
    let mut others = header_map_clone(trailers);
    remove_name(&mut others, "grpc-status");
    remove_name(&mut others, "grpc-message");
    remove_name(&mut others, "grpc-status-details-bin");
    let err = ConnectError::new(code, message).with_details(details).with_trailers(others);
    assert(is_status_error(trailers@, status, err@));
    Some(err)
}

// ---------------------------------------------------------------------------
// Content types
// ---------------------------------------------------------------------------

/// A media type without its parameters.
pub open spec fn media_type(content_type: Seq<char>) -> Seq<char> {
    trimmed(content_type.take(first_index(content_type, ';') as int))
}

/// The content type of a response as text: nothing where it is no visible
/// text.
pub open spec fn content_type_text(value: Seq<u8>) -> Seq<char> {
    if is_visible_text(value) {
        ascii_text(value)
    } else {
        Seq::empty()
    }
}

/// The bare type of a protocol, which stands for any format.
pub open spec fn bare_type(protocol: Protocol) -> Seq<char> {
    match protocol {
        Protocol::GrpcWeb => "application/grpc-web"@,
        _ => "application/grpc"@,
    }
}

/// What the types of a protocol that name a format begin with.
pub open spec fn family_prefix(protocol: Protocol) -> Seq<char> {
    match protocol {
        Protocol::GrpcWeb => "application/grpc-web+"@,
        _ => "application/grpc+"@,
    }
}

/// What judging the content type of a gRPC response comes to. One that names
/// another format is the server's fault; any other is no gRPC response at all.
pub open spec fn content_type_outcome(h: HeaderContents, config: ClientConfig) -> Result<(), ErrorView> {
    match first_value(h, "content-type"@) {
        None => Ok(()),
        Some(value) => {
            let text = content_type_text(value);
            let found = media_type(text);
            let expected = message_type(config.protocol, config.codec_format, false);
            if config.protocol == Protocol::Connect || found == expected || found == bare_type(config.protocol) {
                Ok(())
            } else {
                Err(
                    ErrorView {
                        headers: h,
                        ..plain_error(
                            if begins_with(found, family_prefix(config.protocol)) {
                                ErrorCode::Internal
                            } else {
                                ErrorCode::Unknown
                            },
                            "unexpected content-type: "@ + text + " (expected "@ + expected + ")"@,
                        )
                    },
                )
            }
        },
    }
}

/// A media type without its parameters.
fn media_type_of(content_type: &str) -> (found: String)
    ensures
        found@ == media_type(content_type@),
{
    let chars = chars_of(content_type);
    let at: usize = find_char(chars.as_slice(), ';');
    let front = vstd::slice::slice_subrange(chars.as_slice(), 0, at);
    assert(front@ =~= content_type@.take(at as int));
    string_of(trim(front))
}

/// Judge the content type of a gRPC response. A missing one is accepted.
pub fn validate_grpc_response_content_type(resp_headers: &HeaderMap, config: &ClientConfig) -> (r: Result<
    (),
    ConnectError,
>)
    ensures
        crate::envelope::encoder::unit_view(r) == content_type_outcome(resp_headers@, *config),
{
    proof {
        lemma_status_names();
        reveal_strlit("");
    }
    let value = match header_map_get(resp_headers, "content-type") {
        Some(value) => value,
        None => return Ok(()),
    };
    let text = match header_value_str(value) {
        Some(text) => text,
        None => "",
    };
    assert(text@ =~= content_type_text(header_value_content(*value)));
    let found = media_type_of(text);
    let expected = config.protocol.response_content_type(config.codec_format, false);
    let (bare, prefix) = match config.protocol {
        Protocol::Grpc => ("application/grpc", "application/grpc+"),
        Protocol::GrpcWeb => ("application/grpc-web", "application/grpc-web+"),
        Protocol::Connect => return Ok(()),
    };
    if str_eq(found.as_str(), expected) || str_eq(found.as_str(), bare) {
        return Ok(());
    }
    let code = if starts_with(found.as_str(), prefix) {
        ErrorCode::Internal
    } else {
        ErrorCode::Unknown
    };
    let mut message = "unexpected content-type: ".to_owned();
    message.push_str(text);
    message.push_str(" (expected ");
    message.push_str(expected);
    message.push_str(")");
    let mut err = ConnectError::new(code, message);
    err.set_response_headers(header_map_clone(resp_headers));
    Err(err)
}

// ---------------------------------------------------------------------------
// Errors of the Connect protocol
// ---------------------------------------------------------------------------

/// An error as a server writes it in JSON.
#[derive(Debug)]
pub struct WireError {
    /// The name of the code.
    pub code: Option<String>,
    /// What to tell a person about it.
    pub message: Option<String>,
    /// What to tell a program about it.
    pub details: Vec<ErrorDetail>,
}

/// The error in the body of a response that is not a success.
pub type ConnectErrorResponse = WireError;

/// The error in the last envelope of a stream.
pub type ClientEndStreamError = WireError;

/// What the last envelope of a stream says.
#[derive(Debug)]
pub struct ClientEndStreamResponse {
    /// Why the call failed, if it did.
    pub error: Option<ClientEndStreamError>,
    /// Trailers: names, each with its values.
    pub metadata: Option<Vec<(String, Vec<String>)>>,
}

/// The code with a name, or else another.
pub open spec fn code_or(name: Option<Seq<char>>, fallback: ErrorCode) -> ErrorCode {
    match name {
        Some(n) => match named_code(n) {
            Some(code) => code,
            None => fallback,
        },
        None => fallback,
    }
}

/// What an error in JSON stands for, where its code has the given fallback.
pub open spec fn wire_error(err: WireError, fallback: ErrorCode) -> ErrorView {
    ErrorView {
        details: details_view(err.details@),
        ..plain_error(
            code_or(opt_text(err.code), fallback),
            match err.message {
                Some(m) => m@,
                None => Seq::empty(),
            },
        )
    }
}

/// Make the error that an error in JSON stands for.
pub fn wire_error_to_connect_error(err: WireError, fallback: ErrorCode) -> (e: ConnectError)
    ensures
        e@ == wire_error(err, fallback),
{
    let code = match &err.code {
        Some(name) => match ErrorCode::from_name(name.as_str()) {
            Some(code) => code,
            None => fallback,
        },
        None => fallback,
    };
    let message = match err.message {
        Some(message) => message,
        None => {
            proof {
                reveal_strlit("");
            }
            assert(""@ =~= Seq::empty());
            "".to_owned()
        },
    };
    ConnectError::new(code, message).with_details(err.details)
}

/// The error that the last envelope of a stream reports. A code that is not
/// known is `Unknown`.
pub fn end_stream_error_to_connect_error(err: ClientEndStreamError) -> (e: ConnectError)
    ensures
        e@ == wire_error(err, ErrorCode::Unknown),
{
    wire_error_to_connect_error(err, ErrorCode::Unknown)
}

} // verus!
