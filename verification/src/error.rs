//! Error codes, error details and the error that every call reports.
use http::HeaderMap;
use http::StatusCode;
use vstd::prelude::*;

use crate::headers::header_map_clone;
use crate::headers::header_map_new;
use crate::headers::headers_content;
use crate::headers::no_headers;
use crate::headers::status_from_u16;
use crate::headers::status_number;
use crate::headers::HeaderContents;
use crate::text::str_eq;
use crate::text::IntoMessage;

pub mod detail_b64;

verus! {

/// Why a call failed.
#[derive(Debug, Clone, Copy, PartialEq, Eq, Structural, Hash)]
#[non_exhaustive]
pub enum ErrorCode {
    /// The operation was canceled, usually by the caller.
    Canceled,
    /// An error that fits no other code.
    Unknown,
    /// The caller sent an argument that is wrong whatever the state of the system.
    InvalidArgument,
    /// The deadline passed before the operation was done.
    DeadlineExceeded,
    /// What was asked for does not exist.
    NotFound,
    /// What was to be made exists already.
    AlreadyExists,
    /// The caller may not do this.
    PermissionDenied,
    /// A quota or a size limit was reached.
    ResourceExhausted,
    /// The system is not in the state that the operation needs.
    FailedPrecondition,
    /// The operation was aborted, for instance by a conflict.
    Aborted,
    /// The operation went beyond the valid range.
    OutOfRange,
    /// The operation is not implemented or not supported.
    Unimplemented,
    /// An invariant of the system was broken.
    Internal,
    /// The service is unavailable for now; a retry may work.
    Unavailable,
    /// Data was lost or corrupted for good.
    DataLoss,
    /// The caller gave no valid credentials.
    Unauthenticated,
}

/// The name of a code on the wire.
pub open spec fn code_name(code: ErrorCode) -> Seq<char> {
    match code {
        ErrorCode::Canceled => "canceled"@,
        ErrorCode::Unknown => "unknown"@,
        ErrorCode::InvalidArgument => "invalid_argument"@,
        ErrorCode::DeadlineExceeded => "deadline_exceeded"@,
        ErrorCode::NotFound => "not_found"@,
        ErrorCode::AlreadyExists => "already_exists"@,
        ErrorCode::PermissionDenied => "permission_denied"@,
        ErrorCode::ResourceExhausted => "resource_exhausted"@,
        ErrorCode::FailedPrecondition => "failed_precondition"@,
        ErrorCode::Aborted => "aborted"@,
        ErrorCode::OutOfRange => "out_of_range"@,
        ErrorCode::Unimplemented => "unimplemented"@,
        ErrorCode::Internal => "internal"@,
        ErrorCode::Unavailable => "unavailable"@,
        ErrorCode::DataLoss => "data_loss"@,
        ErrorCode::Unauthenticated => "unauthenticated"@,
    }
}

/// The number of a code in gRPC.
pub open spec fn code_number(code: ErrorCode) -> u32 {
    match code {
        ErrorCode::Canceled => 1,
        ErrorCode::Unknown => 2,
        ErrorCode::InvalidArgument => 3,
        ErrorCode::DeadlineExceeded => 4,
        ErrorCode::NotFound => 5,
        ErrorCode::AlreadyExists => 6,
        ErrorCode::PermissionDenied => 7,
        ErrorCode::ResourceExhausted => 8,
        ErrorCode::FailedPrecondition => 9,
        ErrorCode::Aborted => 10,
        ErrorCode::OutOfRange => 11,
        ErrorCode::Unimplemented => 12,
        ErrorCode::Internal => 13,
        ErrorCode::Unavailable => 14,
        ErrorCode::DataLoss => 15,
        ErrorCode::Unauthenticated => 16,
    }
}

/// The HTTP status that a code is reported with.
pub open spec fn code_status(code: ErrorCode) -> u16 {
    match code {
        ErrorCode::Canceled => 499,
        ErrorCode::Unknown => 500,
        ErrorCode::InvalidArgument => 400,
        ErrorCode::DeadlineExceeded => 504,
        ErrorCode::NotFound => 404,
        ErrorCode::AlreadyExists => 409,
        ErrorCode::PermissionDenied => 403,
        ErrorCode::ResourceExhausted => 429,
        ErrorCode::FailedPrecondition => 400,
        ErrorCode::Aborted => 409,
        ErrorCode::OutOfRange => 400,
        ErrorCode::Unimplemented => 501,
        ErrorCode::Internal => 500,
        ErrorCode::Unavailable => 503,
        ErrorCode::DataLoss => 500,
        ErrorCode::Unauthenticated => 401,
    }
}

impl ErrorCode {
    /// The name of this code on the wire.
    pub fn as_str(&self) -> (name: &'static str)
        ensures
            name@ == code_name(*self),
    {
        match self {
            ErrorCode::Canceled => "canceled",
            ErrorCode::Unknown => "unknown",
            ErrorCode::InvalidArgument => "invalid_argument",
            ErrorCode::DeadlineExceeded => "deadline_exceeded",
            ErrorCode::NotFound => "not_found",
            ErrorCode::AlreadyExists => "already_exists",
            ErrorCode::PermissionDenied => "permission_denied",
            ErrorCode::ResourceExhausted => "resource_exhausted",
            ErrorCode::FailedPrecondition => "failed_precondition",
            ErrorCode::Aborted => "aborted",
            ErrorCode::OutOfRange => "out_of_range",
            ErrorCode::Unimplemented => "unimplemented",
            ErrorCode::Internal => "internal",
            ErrorCode::Unavailable => "unavailable",
            ErrorCode::DataLoss => "data_loss",
            ErrorCode::Unauthenticated => "unauthenticated",
        }
    }

    /// The HTTP status that this code is reported with.
    pub fn http_status(&self) -> (status: StatusCode)
        ensures
            status_number(status) == code_status(*self),
    {
        let number: u16 = match self {
            ErrorCode::Canceled => 499,
            ErrorCode::Unknown => 500,
            ErrorCode::InvalidArgument => 400,
            ErrorCode::DeadlineExceeded => 504,
            ErrorCode::NotFound => 404,
            ErrorCode::AlreadyExists => 409,
            ErrorCode::PermissionDenied => 403,
            ErrorCode::ResourceExhausted => 429,
            ErrorCode::FailedPrecondition => 400,
            ErrorCode::Aborted => 409,
            ErrorCode::OutOfRange => 400,
            ErrorCode::Unimplemented => 501,
            ErrorCode::Internal => 500,
            ErrorCode::Unavailable => 503,
            ErrorCode::DataLoss => 500,
            ErrorCode::Unauthenticated => 401,
        };
        status_from_u16(number)
    }

    /// The number of this code in gRPC.
    pub fn grpc_code(&self) -> (number: u32)
        ensures
            number == code_number(*self),
    {
        match self {
            ErrorCode::Canceled => 1,
            ErrorCode::Unknown => 2,
            ErrorCode::InvalidArgument => 3,
            ErrorCode::DeadlineExceeded => 4,
            ErrorCode::NotFound => 5,
            ErrorCode::AlreadyExists => 6,
            ErrorCode::PermissionDenied => 7,
            ErrorCode::ResourceExhausted => 8,
            ErrorCode::FailedPrecondition => 9,
            ErrorCode::Aborted => 10,
            ErrorCode::OutOfRange => 11,
            ErrorCode::Unimplemented => 12,
            ErrorCode::Internal => 13,
            ErrorCode::Unavailable => 14,
            ErrorCode::DataLoss => 15,
            ErrorCode::Unauthenticated => 16,
        }
    }

    /// The code with the given number in gRPC. Zero stands for success and has
    /// no code.
    pub fn from_grpc_code(code: u32) -> (found: Option<Self>)
        ensures
            found matches Some(c) ==> code_number(c) == code,
            found is None <==> !(1 <= code <= 16),
    {
        match code {
            1 => Some(ErrorCode::Canceled),
            2 => Some(ErrorCode::Unknown),
            3 => Some(ErrorCode::InvalidArgument),
            4 => Some(ErrorCode::DeadlineExceeded),
            5 => Some(ErrorCode::NotFound),
            6 => Some(ErrorCode::AlreadyExists),
            7 => Some(ErrorCode::PermissionDenied),
            8 => Some(ErrorCode::ResourceExhausted),
            9 => Some(ErrorCode::FailedPrecondition),
            10 => Some(ErrorCode::Aborted),
            11 => Some(ErrorCode::OutOfRange),
            12 => Some(ErrorCode::Unimplemented),
            13 => Some(ErrorCode::Internal),
            14 => Some(ErrorCode::Unavailable),
            15 => Some(ErrorCode::DataLoss),
            16 => Some(ErrorCode::Unauthenticated),
            _ => None,
        }
    }

    /// The code with the given name on the wire.
    pub fn from_name(s: &str) -> (found: Option<Self>)
        ensures
            found == named_code(s@),
    {
        let found = if str_eq(s, "canceled") {
            Some(ErrorCode::Canceled)
        } else if str_eq(s, "unknown") {
            Some(ErrorCode::Unknown)
        } else if str_eq(s, "invalid_argument") {
            Some(ErrorCode::InvalidArgument)
        } else if str_eq(s, "deadline_exceeded") {
            Some(ErrorCode::DeadlineExceeded)
        } else if str_eq(s, "not_found") {
            Some(ErrorCode::NotFound)
        } else if str_eq(s, "already_exists") {
            Some(ErrorCode::AlreadyExists)
        } else if str_eq(s, "permission_denied") {
            Some(ErrorCode::PermissionDenied)
        } else if str_eq(s, "resource_exhausted") {
            Some(ErrorCode::ResourceExhausted)
        } else if str_eq(s, "failed_precondition") {
            Some(ErrorCode::FailedPrecondition)
        } else if str_eq(s, "aborted") {
            Some(ErrorCode::Aborted)
        } else if str_eq(s, "out_of_range") {
            Some(ErrorCode::OutOfRange)
        } else if str_eq(s, "unimplemented") {
            Some(ErrorCode::Unimplemented)
        } else if str_eq(s, "internal") {
            Some(ErrorCode::Internal)
        } else if str_eq(s, "unavailable") {
            Some(ErrorCode::Unavailable)
        } else if str_eq(s, "data_loss") {
            Some(ErrorCode::DataLoss)
        } else if str_eq(s, "unauthenticated") {
            Some(ErrorCode::Unauthenticated)
        } else {
            None
        };
        proof {
            lemma_code_names_differ();
            match found {
                Some(code) => assert(code_name(code) == s@),
                None => assert forall|c: ErrorCode| code_name(c) != s@ by {},
            }
        }
        found
    }
}

impl std::str::FromStr for ErrorCode {
    type Err = ();

    /// The code with the given name on the wire, or `Err(())` where no code
    /// has it.
    fn from_str(s: &str) -> (r: Result<Self, Self::Err>)
        ensures
            r == match named_code(s@) {
                Some(code) => Ok::<ErrorCode, ()>(code),
                None => Err(()),
            },
    {
        match ErrorCode::from_name(s) {
            Some(code) => Ok(code),
            None => Err(()),
        }
    }
}

/// The code that has the given name, if one has.
pub open spec fn named_code(name: Seq<char>) -> Option<ErrorCode> {
    if exists|c: ErrorCode| code_name(c) == name {
        Some(choose|c: ErrorCode| code_name(c) == name)
    } else {
        None
    }
}

/// No two codes share a name: the name of a code, read back, is that code.
pub proof fn lemma_code_names_differ()
    ensures
        forall|a: ErrorCode, b: ErrorCode| #![trigger code_name(a), code_name(b)]
            code_name(a) == code_name(b) ==> a == b,
        forall|c: ErrorCode| named_code(#[trigger] code_name(c)) == Some(c),
{
    reveal_strlit("canceled");
    reveal_strlit("unknown");
    reveal_strlit("invalid_argument");
    reveal_strlit("deadline_exceeded");
    reveal_strlit("not_found");
    reveal_strlit("already_exists");
    reveal_strlit("permission_denied");
    reveal_strlit("resource_exhausted");
    reveal_strlit("failed_precondition");
    reveal_strlit("aborted");
    reveal_strlit("out_of_range");
    reveal_strlit("unimplemented");
    reveal_strlit("internal");
    reveal_strlit("unavailable");
    reveal_strlit("data_loss");
    reveal_strlit("unauthenticated");
    assert forall|a: ErrorCode, b: ErrorCode| #![trigger code_name(a), code_name(b)]
        code_name(a) == code_name(b) implies a == b by {
        assert(code_name(a).len() == code_name(b).len());
        assert(code_name(a)[0] == code_name(b)[0]);
    }
}

/// The gRPC number of a code, read back, is that code.
pub proof fn lemma_code_numbers_differ(a: ErrorCode, b: ErrorCode)
    requires
        code_number(a) == code_number(b),
    ensures
        a == b,
{
}

#[verifier::external_type_specification]
#[verifier::external_body]
pub struct ExJsonValue(serde_json::Value);

/// `serde_json::Value::clone` copies the value.
pub assume_specification[ <serde_json::Value as Clone>::clone ](v: &serde_json::Value) -> (copy: serde_json::Value)
    ensures
        copy == *v,
;

/// A machine-readable detail of an error.
#[derive(Debug)]
pub struct ErrorDetail {
    /// The name of the type that the value encodes.
    pub type_url: String,
    /// The encoded value, in base64.
    pub value: Option<String>,
    /// A readable form of the value.
    pub debug: Option<serde_json::Value>,
}

/// The contents of an error detail.
#[verifier::ext_equal]
pub struct DetailView {
    /// The name of the type that the value encodes.
    pub type_url: Seq<char>,
    /// The encoded value, in base64.
    pub value: Option<Seq<char>>,
    /// A readable form of the value.
    pub debug: Option<serde_json::Value>,
}

/// The characters of an optional string.
pub open spec fn opt_text(s: Option<String>) -> Option<Seq<char>> {
    match s {
        Some(s) => Some(s@),
        None => None,
    }
}

impl View for ErrorDetail {
    type V = DetailView;

    open spec fn view(&self) -> DetailView {
        DetailView { type_url: self.type_url@, value: opt_text(self.value), debug: self.debug }
    }
}

impl Clone for ErrorDetail {
    fn clone(&self) -> (copy: Self)
        ensures
            copy@ == self@,
    {
        ErrorDetail {
            type_url: self.type_url.clone(),
            value: match &self.value {
                Some(v) => Some(v.clone()),
                None => None,
            },
            debug: match &self.debug {
                Some(v) => Some(v.clone()),
                None => None,
            },
        }
    }
}

impl ErrorDetail {
    /// The detail that carries an encoded message of the named type.
    pub fn from_message<M: IntoMessage>(type_url: M, encoded: &[u8]) -> (detail: Self)
        ensures
            detail@ == (DetailView {
                type_url: type_url.text(),
                value: Some(detail_b64::unpadded_base64(encoded@)),
                debug: None,
            }),
    {
        ErrorDetail {
            type_url: type_url.into_message(),
            value: Some(detail_b64::encode(encoded)),
            debug: None,
        }
    }
}

/// The contents of a list of error details.
pub open spec fn details_view(details: Seq<ErrorDetail>) -> Seq<DetailView> {
    details.map_values(|d: ErrorDetail| d@)
}

/// Copy a list of error details.
pub fn clone_details(details: &Vec<ErrorDetail>) -> (copy: Vec<ErrorDetail>)
    ensures
        details_view(copy@) == details_view(details@),
{
    let mut copy: Vec<ErrorDetail> = Vec::new();
    let mut i: usize = 0;
    while i < details.len()
        invariant
            i <= details@.len(),
            copy@.len() == i,
            forall|j: int| 0 <= j < i ==> (#[trigger] copy@[j])@ == details@[j]@,
        decreases details@.len() - i,
    {
        copy.push(details[i].clone());
        i = i + 1;
    }
    assert(details_view(copy@) =~= details_view(details@));
    copy
}

/// The error of a call: a code, a message, details, and the metadata that came
/// with it.
#[derive(Debug)]
pub struct ConnectError {
    /// Why the call failed.
    pub code: ErrorCode,
    /// What to tell a person about it.
    pub message: Option<String>,
    /// What to tell a program about it.
    pub details: Vec<ErrorDetail>,
    /// The HTTP status to report in place of the code's own.
    pub http_status_override: Option<StatusCode>,
    /// The headers that came with the error.
    pub response_headers: Box<HeaderMap>,
    /// The trailers that came with the error.
    pub trailers: Box<HeaderMap>,
}

/// The contents of an error.
#[verifier::ext_equal]
pub struct ErrorView {
    /// Why the call failed.
    pub code: ErrorCode,
    /// What to tell a person about it.
    pub message: Option<Seq<char>>,
    /// What to tell a program about it.
    pub details: Seq<DetailView>,
    /// The HTTP status that takes the place of the code's own.
    pub status: Option<u16>,
    /// The headers that came with the error.
    pub headers: HeaderContents,
    /// The trailers that came with the error.
    pub trailers: HeaderContents,
}

/// An error that has only a code and a message.
pub open spec fn plain_error(code: ErrorCode, message: Seq<char>) -> ErrorView {
    ErrorView {
        code,
        message: Some(message),
        details: Seq::empty(),
        status: None,
        headers: no_headers(),
        trailers: no_headers(),
    }
}

impl View for ConnectError {
    type V = ErrorView;

    open spec fn view(&self) -> ErrorView {
        ErrorView {
            code: self.code,
            message: opt_text(self.message),
            details: details_view(self.details@),
            status: match self.http_status_override {
                Some(s) => Some(status_number(s)),
                None => None,
            },
            headers: headers_content(*self.response_headers),
            trailers: headers_content(*self.trailers),
        }
    }
}

impl Clone for ConnectError {
    fn clone(&self) -> (copy: Self)
        ensures
            copy@ == self@,
    {
        ConnectError {
            code: self.code,
            message: match &self.message {
                Some(m) => Some(m.clone()),
                None => None,
            },
            details: clone_details(&self.details),
            http_status_override: self.http_status_override,
            response_headers: Box::new(header_map_clone(&self.response_headers)),
            trailers: Box::new(header_map_clone(&self.trailers)),
        }
    }
}

impl ConnectError {
    /// An error with a code and a message.
    pub fn new<M: IntoMessage>(code: ErrorCode, message: M) -> (err: Self)
        ensures
            err@ == plain_error(code, message.text()),
    {
        let err = ConnectError {
            code,
            message: Some(message.into_message()),
            details: Vec::new(),
            http_status_override: None,
            response_headers: Box::new(header_map_new()),
            trailers: Box::new(header_map_new()),
        };
        assert(err@.details =~= Seq::empty());
        err
    }

    /// Replace the headers that come with this error.
    pub fn with_headers(self, headers: HeaderMap) -> (err: Self)
        ensures
            err@ == (ErrorView { headers: headers_content(headers), ..self@ }),
    {
        ConnectError { response_headers: Box::new(headers), ..self }
    }

    /// Replace the trailers that come with this error.
    pub fn with_trailers(self, trailers: HeaderMap) -> (err: Self)
        ensures
            err@ == (ErrorView { trailers: headers_content(trailers), ..self@ }),
    {
        ConnectError { trailers: Box::new(trailers), ..self }
    }

    /// Replace the code, and keep everything else.
    pub fn with_code(self, code: ErrorCode) -> (err: Self)
        ensures
            err@ == (ErrorView { code, ..self@ }),
    {
        ConnectError { code, ..self }
    }

    /// Replace the details, and keep everything else.
    pub fn with_details(self, details: Vec<ErrorDetail>) -> (err: Self)
        ensures
            err@ == (ErrorView { details: details_view(details@), ..self@ }),
    {
        ConnectError { details, ..self }
    }

    /// The headers that came with this error.
    pub fn response_headers(&self) -> (headers: &HeaderMap)
        ensures
            headers_content(*headers) == self@.headers,
    {
        &self.response_headers
    }

    /// The trailers that came with this error.
    pub fn trailers(&self) -> (trailers: &HeaderMap)
        ensures
            headers_content(*trailers) == self@.trailers,
    {
        &self.trailers
    }

    /// The headers that came with this error, to be changed in place.
    pub fn response_headers_mut(&mut self) -> (headers: &mut HeaderMap)
        ensures
            headers_content(*headers) == old(self)@.headers,
            final(self)@ == (ErrorView { headers: headers_content(*final(headers)), ..old(self)@ }),
    {
        &mut *self.response_headers
    }

    /// The trailers that came with this error, to be changed in place.
    pub fn trailers_mut(&mut self) -> (trailers: &mut HeaderMap)
        ensures
            headers_content(*trailers) == old(self)@.trailers,
            final(self)@ == (ErrorView { trailers: headers_content(*final(trailers)), ..old(self)@ }),
    {
        &mut *self.trailers
    }

    /// Replace the headers that come with this error.
    pub fn set_response_headers(&mut self, headers: HeaderMap)
        ensures
            final(self)@ == (ErrorView { headers: headers_content(headers), ..old(self)@ }),
    {
        self.response_headers = Box::new(headers);
    }

    /// Replace the trailers that come with this error.
    pub fn set_trailers(&mut self, trailers: HeaderMap)
        ensures
            final(self)@ == (ErrorView { trailers: headers_content(trailers), ..old(self)@ }),
    {
        self.trailers = Box::new(trailers);
    }

    /// Report this error with the given HTTP status instead of its code's own.
    pub fn with_http_status(self, status: StatusCode) -> (err: Self)
        ensures
            err@ == (ErrorView { status: Some(status_number(status)), ..self@ }),
    {
        ConnectError { http_status_override: Some(status), ..self }
    }

    /// The error for a content type that is not served.
    pub fn unsupported_media_type<M: IntoMessage>(message: M) -> (err: Self)
        ensures
            err@ == (ErrorView { status: Some(415), ..plain_error(ErrorCode::Unknown, message.text()) }),
    {
        ConnectError::new(ErrorCode::Unknown, message).with_http_status(status_from_u16(415))
    }

    /// The error for an HTTP method that is not served.
    pub fn method_not_allowed<M: IntoMessage>(message: M) -> (err: Self)
        ensures
            err@ == (ErrorView { status: Some(405), ..plain_error(ErrorCode::Unknown, message.text()) }),
    {
        ConnectError::new(ErrorCode::Unknown, message).with_http_status(status_from_u16(405))
    }

    /// An error with the code [`ErrorCode::Canceled`].
    pub fn canceled<M: IntoMessage>(message: M) -> (err: Self)
        ensures
            err@ == plain_error(ErrorCode::Canceled, message.text()),
    {
        ConnectError::new(ErrorCode::Canceled, message)
    }

    /// An error with the code [`ErrorCode::Unknown`].
    pub fn unknown<M: IntoMessage>(message: M) -> (err: Self)
        ensures
            err@ == plain_error(ErrorCode::Unknown, message.text()),
    {
        ConnectError::new(ErrorCode::Unknown, message)
    }

    /// An error with the code [`ErrorCode::InvalidArgument`].
    pub fn invalid_argument<M: IntoMessage>(message: M) -> (err: Self)
        ensures
            err@ == plain_error(ErrorCode::InvalidArgument, message.text()),
    {
        ConnectError::new(ErrorCode::InvalidArgument, message)
    }

    /// An error with the code [`ErrorCode::DeadlineExceeded`].
    pub fn deadline_exceeded<M: IntoMessage>(message: M) -> (err: Self)
        ensures
            err@ == plain_error(ErrorCode::DeadlineExceeded, message.text()),
    {
        ConnectError::new(ErrorCode::DeadlineExceeded, message)
    }

    /// An error with the code [`ErrorCode::NotFound`].
    pub fn not_found<M: IntoMessage>(message: M) -> (err: Self)
        ensures
            err@ == plain_error(ErrorCode::NotFound, message.text()),
    {
        ConnectError::new(ErrorCode::NotFound, message)
    }

    /// An error with the code [`ErrorCode::AlreadyExists`].
    pub fn already_exists<M: IntoMessage>(message: M) -> (err: Self)
        ensures
            err@ == plain_error(ErrorCode::AlreadyExists, message.text()),
    {
        ConnectError::new(ErrorCode::AlreadyExists, message)
    }

    /// An error with the code [`ErrorCode::PermissionDenied`].
    pub fn permission_denied<M: IntoMessage>(message: M) -> (err: Self)
        ensures
            err@ == plain_error(ErrorCode::PermissionDenied, message.text()),
    {
        ConnectError::new(ErrorCode::PermissionDenied, message)
    }

    /// An error with the code [`ErrorCode::ResourceExhausted`].
    pub fn resource_exhausted<M: IntoMessage>(message: M) -> (err: Self)
        ensures
            err@ == plain_error(ErrorCode::ResourceExhausted, message.text()),
    {
        ConnectError::new(ErrorCode::ResourceExhausted, message)
    }

    /// An error with the code [`ErrorCode::FailedPrecondition`].
    pub fn failed_precondition<M: IntoMessage>(message: M) -> (err: Self)
        ensures
            err@ == plain_error(ErrorCode::FailedPrecondition, message.text()),
    {
        ConnectError::new(ErrorCode::FailedPrecondition, message)
    }

    /// An error with the code [`ErrorCode::Aborted`].
    pub fn aborted<M: IntoMessage>(message: M) -> (err: Self)
        ensures
            err@ == plain_error(ErrorCode::Aborted, message.text()),
    {
        ConnectError::new(ErrorCode::Aborted, message)
    }

    /// An error with the code [`ErrorCode::OutOfRange`].
    pub fn out_of_range<M: IntoMessage>(message: M) -> (err: Self)
        ensures
            err@ == plain_error(ErrorCode::OutOfRange, message.text()),
    {
        ConnectError::new(ErrorCode::OutOfRange, message)
    }

    /// An error with the code [`ErrorCode::Unimplemented`].
    pub fn unimplemented<M: IntoMessage>(message: M) -> (err: Self)
        ensures
            err@ == plain_error(ErrorCode::Unimplemented, message.text()),
    {
        ConnectError::new(ErrorCode::Unimplemented, message)
    }

    /// An error with the code [`ErrorCode::Internal`].
    pub fn internal<M: IntoMessage>(message: M) -> (err: Self)
        ensures
            err@ == plain_error(ErrorCode::Internal, message.text()),
    {
        ConnectError::new(ErrorCode::Internal, message)
    }

    /// An error with the code [`ErrorCode::Unavailable`].
    pub fn unavailable<M: IntoMessage>(message: M) -> (err: Self)
        ensures
            err@ == plain_error(ErrorCode::Unavailable, message.text()),
    {
        ConnectError::new(ErrorCode::Unavailable, message)
    }

    /// An error with the code [`ErrorCode::DataLoss`].
    pub fn data_loss<M: IntoMessage>(message: M) -> (err: Self)
        ensures
            err@ == plain_error(ErrorCode::DataLoss, message.text()),
    {
        ConnectError::new(ErrorCode::DataLoss, message)
    }

    /// An error with the code [`ErrorCode::Unauthenticated`].
    pub fn unauthenticated<M: IntoMessage>(message: M) -> (err: Self)
        ensures
            err@ == plain_error(ErrorCode::Unauthenticated, message.text()),
    {
        ConnectError::new(ErrorCode::Unauthenticated, message)
    }

    /// Add a detail behind those that are there.
    pub fn with_detail(self, detail: ErrorDetail) -> (err: Self)
        ensures
            err@ == (ErrorView { details: self@.details.push(detail@), ..self@ }),
    {
        let ghost before = self.details@;
        let mut err = self;
        err.details.push(detail);
        assert(details_view(err.details@) =~= details_view(before).push(detail@));
        err
    }

    /// The HTTP status that this error is reported with.
    pub fn http_status(&self) -> (status: StatusCode)
        ensures
            status_number(status) == error_status(self@),
    {
        match self.http_status_override {
            Some(status) => status,
            None => self.code.http_status(),
        }
    }

    /// The error as text: its code, and its message where it has one.
    pub fn to_string(&self) -> (text: String)
        ensures
            text@ == error_text(self@),
    {
        let mut text = self.code.as_str().to_owned();
        if let Some(message) = &self.message {
            text.push_str(": ");
            text.push_str(message.as_str());
        }
        text
    }
}

/// The HTTP status that an error is reported with: its own where it has one,
/// else that of its code.
pub open spec fn error_status(err: ErrorView) -> u16 {
    match err.status {
        Some(status) => status,
        None => code_status(err.code),
    }
}

/// An error as text.
pub open spec fn error_text(err: ErrorView) -> Seq<char> {
    match err.message {
        Some(message) => code_name(err.code) + ": "@ + message,
        None => code_name(err.code),
    }
}

} // verus!
