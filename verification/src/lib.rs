//! Verified core of a ConnectRPC runtime.

pub mod buffer;
pub mod client;
pub mod codec;
pub mod compression;
pub mod deadline;
pub mod envelope;
pub mod error;
pub mod grpc_status;
pub mod headers;
pub mod laws;
pub mod protocol;
pub mod radix64;
pub mod response;
pub mod text;
pub mod time;
