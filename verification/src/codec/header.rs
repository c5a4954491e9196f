//! Names of the headers of the Connect protocol.
use vstd::prelude::*;

verus! {

/// The version of the protocol.
pub const PROTOCOL_VERSION: &'static str = "connect-protocol-version";

/// The timeout of a call in milliseconds.
pub const TIMEOUT_MS: &'static str = "connect-timeout-ms";

/// The encoding of streamed messages.
pub const CONTENT_ENCODING: &'static str = "connect-content-encoding";

/// The encodings that streamed messages may come in.
pub const ACCEPT_ENCODING: &'static str = "connect-accept-encoding";

} // verus!
