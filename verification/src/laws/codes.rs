//! Laws on error codes and on the errors that carry them.
use vstd::prelude::*;

use crate::client::status::blamed_on_server;
use crate::client::status::is_code_for;
use crate::client::status::status_code_for;
use crate::client::status::wire_error;
use crate::client::status::WireError;
use crate::error::code_name;
use crate::error::code_number;
use crate::error::code_status;
use crate::error::error_status;
use crate::error::error_text;
use crate::error::lemma_code_names_differ;
use crate::error::lemma_code_numbers_differ;
use crate::error::named_code;
use crate::error::plain_error;
use crate::error::ErrorCode;
use crate::error::ErrorView;

verus! {

/// What every code is called on the wire.
pub proof fn law_code_names()
    ensures
        code_name(ErrorCode::Canceled) == "canceled"@,
        code_name(ErrorCode::Unknown) == "unknown"@,
        code_name(ErrorCode::InvalidArgument) == "invalid_argument"@,
        code_name(ErrorCode::DeadlineExceeded) == "deadline_exceeded"@,
        code_name(ErrorCode::NotFound) == "not_found"@,
        code_name(ErrorCode::AlreadyExists) == "already_exists"@,
        code_name(ErrorCode::PermissionDenied) == "permission_denied"@,
        code_name(ErrorCode::ResourceExhausted) == "resource_exhausted"@,
        code_name(ErrorCode::FailedPrecondition) == "failed_precondition"@,
        code_name(ErrorCode::Aborted) == "aborted"@,
        code_name(ErrorCode::OutOfRange) == "out_of_range"@,
        code_name(ErrorCode::Unimplemented) == "unimplemented"@,
        code_name(ErrorCode::Internal) == "internal"@,
        code_name(ErrorCode::Unavailable) == "unavailable"@,
        code_name(ErrorCode::DataLoss) == "data_loss"@,
        code_name(ErrorCode::Unauthenticated) == "unauthenticated"@,
{
}

/// Which code every name on the wire stands for.
pub proof fn law_named_codes()
    ensures
        named_code("canceled"@) == Some(ErrorCode::Canceled),
        named_code("unknown"@) == Some(ErrorCode::Unknown),
        named_code("invalid_argument"@) == Some(ErrorCode::InvalidArgument),
        named_code("deadline_exceeded"@) == Some(ErrorCode::DeadlineExceeded),
        named_code("not_found"@) == Some(ErrorCode::NotFound),
        named_code("already_exists"@) == Some(ErrorCode::AlreadyExists),
        named_code("permission_denied"@) == Some(ErrorCode::PermissionDenied),
        named_code("resource_exhausted"@) == Some(ErrorCode::ResourceExhausted),
        named_code("failed_precondition"@) == Some(ErrorCode::FailedPrecondition),
        named_code("aborted"@) == Some(ErrorCode::Aborted),
        named_code("out_of_range"@) == Some(ErrorCode::OutOfRange),
        named_code("unimplemented"@) == Some(ErrorCode::Unimplemented),
        named_code("internal"@) == Some(ErrorCode::Internal),
        named_code("unavailable"@) == Some(ErrorCode::Unavailable),
        named_code("data_loss"@) == Some(ErrorCode::DataLoss),
        named_code("unauthenticated"@) == Some(ErrorCode::Unauthenticated),
{
    law_code_is_named(ErrorCode::Canceled);
    law_code_is_named(ErrorCode::Unknown);
    law_code_is_named(ErrorCode::InvalidArgument);
    law_code_is_named(ErrorCode::DeadlineExceeded);
    law_code_is_named(ErrorCode::NotFound);
    law_code_is_named(ErrorCode::AlreadyExists);
    law_code_is_named(ErrorCode::PermissionDenied);
    law_code_is_named(ErrorCode::ResourceExhausted);
    law_code_is_named(ErrorCode::FailedPrecondition);
    law_code_is_named(ErrorCode::Aborted);
    law_code_is_named(ErrorCode::OutOfRange);
    law_code_is_named(ErrorCode::Unimplemented);
    law_code_is_named(ErrorCode::Internal);
    law_code_is_named(ErrorCode::Unavailable);
    law_code_is_named(ErrorCode::DataLoss);
    law_code_is_named(ErrorCode::Unauthenticated);
}

/// The name of a code reads back as that code.
pub proof fn law_code_is_named(code: ErrorCode)
    ensures
        named_code(code_name(code)) == Some(code),
{
    lemma_code_names_differ();
}

/// A name that no code has stands for none.
pub proof fn law_other_names_stand_for_none(name: Seq<char>)
    requires
        forall|code: ErrorCode| #[trigger] code_name(code) != name,
    ensures
        named_code(name) is None,
{
}

/// The number of every code in gRPC.
pub proof fn law_code_numbers()
    ensures
        code_number(ErrorCode::Canceled) == 1,
        code_number(ErrorCode::Unknown) == 2,
        code_number(ErrorCode::InvalidArgument) == 3,
        code_number(ErrorCode::DeadlineExceeded) == 4,
        code_number(ErrorCode::NotFound) == 5,
        code_number(ErrorCode::AlreadyExists) == 6,
        code_number(ErrorCode::PermissionDenied) == 7,
        code_number(ErrorCode::ResourceExhausted) == 8,
        code_number(ErrorCode::FailedPrecondition) == 9,
        code_number(ErrorCode::Aborted) == 10,
        code_number(ErrorCode::OutOfRange) == 11,
        code_number(ErrorCode::Unimplemented) == 12,
        code_number(ErrorCode::Internal) == 13,
        code_number(ErrorCode::Unavailable) == 14,
        code_number(ErrorCode::DataLoss) == 15,
        code_number(ErrorCode::Unauthenticated) == 16,
{
}

/// The number of a code stands for that code, and a number that no code has
/// for an unknown error.
pub proof fn law_status_number_gives_the_code(code: ErrorCode, number: u32, found: ErrorCode)
    requires
        is_code_for(number, found),
    ensures
        number == code_number(code) ==> found == code,
        number == 0 || number > 16 ==> found == ErrorCode::Unknown,
        1 <= number <= 16 ==> code_number(found) == number,
{
    if number == code_number(code) {
        lemma_code_numbers_differ(code, found);
    }
}

/// The HTTP status that every code is answered with.
pub proof fn law_code_statuses()
    ensures
        code_status(ErrorCode::Canceled) == 499,
        code_status(ErrorCode::Unknown) == 500,
        code_status(ErrorCode::InvalidArgument) == 400,
        code_status(ErrorCode::DeadlineExceeded) == 504,
        code_status(ErrorCode::NotFound) == 404,
        code_status(ErrorCode::AlreadyExists) == 409,
        code_status(ErrorCode::PermissionDenied) == 403,
        code_status(ErrorCode::ResourceExhausted) == 429,
        code_status(ErrorCode::FailedPrecondition) == 400,
        code_status(ErrorCode::Aborted) == 409,
        code_status(ErrorCode::OutOfRange) == 400,
        code_status(ErrorCode::Unimplemented) == 501,
        code_status(ErrorCode::Internal) == 500,
        code_status(ErrorCode::Unavailable) == 503,
        code_status(ErrorCode::DataLoss) == 500,
        code_status(ErrorCode::Unauthenticated) == 401,
{
}

/// The code for every HTTP status of a response without an error of its own.
/// It is no inverse of the status that a code is answered with: a proxy that
/// knows nothing of calls may have answered.
pub proof fn law_codes_of_statuses(status: u16)
    ensures
        status_code_for(400) == ErrorCode::Internal,
        status_code_for(401) == ErrorCode::Unauthenticated,
        status_code_for(403) == ErrorCode::PermissionDenied,
        status_code_for(404) == ErrorCode::Unimplemented,
        status_code_for(408) == ErrorCode::DeadlineExceeded,
        status_code_for(429) == ErrorCode::Unavailable,
        status_code_for(502) == ErrorCode::Unavailable,
        status_code_for(503) == ErrorCode::Unavailable,
        status_code_for(504) == ErrorCode::Unavailable,
        !(seq![400u16, 401, 403, 404, 408, 429, 502, 503, 504].contains(status)) ==> status_code_for(status)
            == ErrorCode::Unknown,
{
    let listed = seq![400u16, 401, 403, 404, 408, 429, 502, 503, 504];
    assert(listed[0] == 400 && listed[1] == 401 && listed[2] == 403 && listed[3] == 404 && listed[4] == 408);
    assert(listed[5] == 429 && listed[6] == 502 && listed[7] == 503 && listed[8] == 504);
}

/// The status that an error is answered with is the one that was set, and else
/// that of its code.
pub proof fn law_set_status_wins(err: ErrorView, status: u16)
    ensures
        error_status(ErrorView { status: Some(status), ..err }) == status,
        error_status(ErrorView { status: None, ..err }) == code_status(err.code),
{
}

/// An error is shown by the name of its code and its message, and one without a
/// message by the name alone.
pub proof fn law_error_text_names_the_code(code: ErrorCode, message: Seq<char>, err: ErrorView)
    ensures
        error_text(plain_error(code, message)) == code_name(code) + seq![':', ' '] + message,
        err.message is None ==> error_text(err) == code_name(err.code),
        err.message matches Some(m) ==> error_text(err) == code_name(err.code) + seq![':', ' '] + m,
{
    reveal_strlit(": ");
    assert(": "@ =~= seq![':', ' ']);
}

/// An error made of a code and a message has that code and that message, and
/// nothing else.
pub proof fn law_plain_error_is_plain(code: ErrorCode, message: Seq<char>)
    ensures
        plain_error(code, message).code == code,
        plain_error(code, message).message == Some(message),
        plain_error(code, message).details.len() == 0,
        plain_error(code, message).status is None,
        plain_error(code, message).headers == Map::<Seq<char>, Seq<(Seq<u8>, bool)>>::empty(),
        plain_error(code, message).trailers == Map::<Seq<char>, Seq<(Seq<u8>, bool)>>::empty(),
{
}

/// For a response that cannot be decompressed, the codes that would blame the
/// caller change, and nothing but the code ever changes.
pub proof fn law_decompression_blames_the_server(e: ErrorView)
    ensures
        e.code == ErrorCode::Unimplemented ==> blamed_on_server(e).code == ErrorCode::Internal,
        e.code == ErrorCode::InvalidArgument ==> blamed_on_server(e).code == ErrorCode::DataLoss,
        e.code != ErrorCode::Unimplemented && e.code != ErrorCode::InvalidArgument ==> blamed_on_server(e) == e,
        blamed_on_server(e).message == e.message,
        blamed_on_server(e).details == e.details,
        blamed_on_server(e).status == e.status,
        blamed_on_server(e).headers == e.headers,
        blamed_on_server(e).trailers == e.trailers,
{
}

/// An error in JSON stands for an error with the code that it names, whatever
/// the fallback is, and with its message and its details.
pub proof fn law_json_error_is_kept(err: WireError, code: ErrorCode, fallback: ErrorCode)
    requires
        err.code matches Some(name) && name@ == code_name(code),
    ensures
        wire_error(err, fallback).code == code,
        err.message matches Some(m) ==> wire_error(err, fallback).message == Some(m@),
        wire_error(err, fallback).details.len() == err.details@.len(),
        forall|i: int|
            0 <= i < err.details@.len() ==> #[trigger] wire_error(err, fallback).details[i] == err.details@[i]@,
{
    law_code_is_named(code);
}

/// An error in JSON without a code, or with one that is none, has the fallback
/// for its code. One without a message has an empty message.
pub proof fn law_json_error_falls_back(err: WireError, fallback: ErrorCode)
    ensures
        err.code is None ==> wire_error(err, fallback).code == fallback,
        (err.code matches Some(name) && forall|code: ErrorCode| #[trigger] code_name(code) != name@)
            ==> wire_error(err, fallback).code == fallback,
        err.message is None ==> wire_error(err, fallback).message == Some(Seq::<char>::empty()),
        wire_error(err, fallback).status is None,
        wire_error(err, fallback).headers.dom() == Set::<Seq<char>>::empty(),
        wire_error(err, fallback).trailers.dom() == Set::<Seq<char>>::empty(),
{
    if let Some(name) = err.code {
        if forall|code: ErrorCode| #[trigger] code_name(code) != name@ {
            law_other_names_stand_for_none(name@);
        }
    }
}

} // verus!
