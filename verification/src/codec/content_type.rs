//! Content types of messages.
use vstd::prelude::*;

verus! {

/// Protobuf encoding.
pub const PROTO: &'static str = "application/proto";

/// JSON encoding.
pub const JSON: &'static str = "application/json";

/// Streamed protobuf encoding.
pub const CONNECT_PROTO: &'static str = "application/connect+proto";

/// Streamed JSON encoding.
pub const CONNECT_JSON: &'static str = "application/connect+json";

} // verus!
