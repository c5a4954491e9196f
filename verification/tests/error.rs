//! Errors and their codes.
use connectrpc::error::ConnectError;
use connectrpc::error::ErrorCode;

#[test]
fn test_grpc_code_round_trip() {
    let codes = [
        ErrorCode::Canceled,
        ErrorCode::Unknown,
        ErrorCode::InvalidArgument,
        ErrorCode::DeadlineExceeded,
        ErrorCode::NotFound,
        ErrorCode::AlreadyExists,
        ErrorCode::PermissionDenied,
        ErrorCode::ResourceExhausted,
        ErrorCode::FailedPrecondition,
        ErrorCode::Aborted,
        ErrorCode::OutOfRange,
        ErrorCode::Unimplemented,
        ErrorCode::Internal,
        ErrorCode::Unavailable,
        ErrorCode::DataLoss,
        ErrorCode::Unauthenticated,
    ];

    for code in codes {
        let grpc = code.grpc_code();
        let back = ErrorCode::from_grpc_code(grpc);
        assert_eq!(
            back,
            Some(code),
            "round-trip failed for {code:?} (grpc code {grpc})"
        );
    }
}

#[test]
fn test_grpc_code_values() {
    assert_eq!(ErrorCode::Canceled.grpc_code(), 1);
    assert_eq!(ErrorCode::Unknown.grpc_code(), 2);
    assert_eq!(ErrorCode::Internal.grpc_code(), 13);
    assert_eq!(ErrorCode::Unauthenticated.grpc_code(), 16);
}

#[test]
fn test_from_grpc_code_ok_returns_none() {
    assert_eq!(ErrorCode::from_grpc_code(0), None);
}

#[test]
fn test_from_grpc_code_unknown_returns_none() {
    assert_eq!(ErrorCode::from_grpc_code(17), None);
    assert_eq!(ErrorCode::from_grpc_code(999), None);
}

#[test]
fn connect_error_stays_under_result_large_err_threshold() {
    // clippy::result_large_err fires at 128 bytes. Keep some headroom so
    // adding a small field doesn't immediately re-trip the lint.
    const THRESHOLD: usize = 96;
    let size = std::mem::size_of::<ConnectError>();
    assert!(
        size <= THRESHOLD,
        "ConnectError is {size} bytes (threshold {THRESHOLD}); \
         box large fields to keep Result<_, ConnectError> cheap to move"
    );
}

#[test]
fn header_accessors() {
    let mut e = ConnectError::internal("x");
    assert!(e.response_headers().is_empty());
    assert!(e.trailers().is_empty());

    // Setting an empty map leaves it empty.
    e.set_response_headers(http::HeaderMap::new());
    assert!(e.response_headers.is_empty());
    assert!(
        ConnectError::new(ErrorCode::Internal, "x")
            .with_headers(http::HeaderMap::new())
            .response_headers
            .is_empty()
    );

    e.trailers_mut()
        .insert("x-t", http::HeaderValue::from_static("v"));
    assert_eq!(e.trailers().get("x-t").unwrap(), "v");

    let mut h = http::HeaderMap::new();
    h.insert("x-h", http::HeaderValue::from_static("w"));
    let e = e.with_headers(h);
    assert_eq!(e.response_headers().get("x-h").unwrap(), "w");
}
