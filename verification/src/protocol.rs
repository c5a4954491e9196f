//! The wire protocols, and what each of them calls things.
use vstd::prelude::*;

use crate::codec::header;
use crate::codec::stream_type;
use crate::codec::unary_type;
use crate::codec::CodecFormat;

verus! {

/// A wire protocol.
#[derive(Debug, Clone, Copy, PartialEq, Eq, Structural)]
pub enum Protocol {
    /// The Connect protocol.
    Connect,
    /// gRPC over HTTP/2.
    Grpc,
    /// gRPC-Web.
    GrpcWeb,
}

/// The content type of a message in a protocol and a format.
pub open spec fn message_type(protocol: Protocol, format: CodecFormat, streaming: bool) -> Seq<char> {
    match (protocol, format) {
        (Protocol::Connect, _) => if streaming {
            stream_type(format)
        } else {
            unary_type(format)
        },
        (Protocol::Grpc, CodecFormat::Proto) => "application/grpc+proto"@,
        (Protocol::Grpc, CodecFormat::Json) => "application/grpc+json"@,
        (Protocol::GrpcWeb, CodecFormat::Proto) => "application/grpc-web+proto"@,
        (Protocol::GrpcWeb, CodecFormat::Json) => "application/grpc-web+json"@,
    }
}

/// The header for the encoding of streamed messages.
pub open spec fn encoding_name(protocol: Protocol) -> Seq<char> {
    match protocol {
        Protocol::Connect => "connect-content-encoding"@,
        _ => "grpc-encoding"@,
    }
}

/// The header for the encodings that streamed messages may come in.
pub open spec fn accept_name(protocol: Protocol) -> Seq<char> {
    match protocol {
        Protocol::Connect => "connect-accept-encoding"@,
        _ => "grpc-accept-encoding"@,
    }
}

/// The header for the timeout of a call.
pub open spec fn timeout_name(protocol: Protocol) -> Seq<char> {
    match protocol {
        Protocol::Connect => "connect-timeout-ms"@,
        _ => "grpc-timeout"@,
    }
}

impl Protocol {
    /// The content type of a message in this protocol and the given format.
    pub fn response_content_type(&self, format: CodecFormat, streaming: bool) -> (name: &'static str)
        ensures
            name@ == message_type(*self, format, streaming),
    {
        match (*self, format) {
            (Protocol::Connect, _) => if streaming {
                format.streaming_content_type()
            } else {
                format.content_type()
            },
            (Protocol::Grpc, CodecFormat::Proto) => "application/grpc+proto",
            (Protocol::Grpc, CodecFormat::Json) => "application/grpc+json",
            (Protocol::GrpcWeb, CodecFormat::Proto) => "application/grpc-web+proto",
            (Protocol::GrpcWeb, CodecFormat::Json) => "application/grpc-web+json",
        }
    }

    /// The header for the encoding of streamed messages.
    pub fn content_encoding_header(&self) -> (name: &'static str)
        ensures
            name@ == encoding_name(*self),
    {
        match self {
            Protocol::Connect => header::CONTENT_ENCODING,
            Protocol::Grpc => "grpc-encoding",
            Protocol::GrpcWeb => "grpc-encoding",
        }
    }

    /// The header for the encodings that streamed messages may come in.
    pub fn accept_encoding_header(&self) -> (name: &'static str)
        ensures
            name@ == accept_name(*self),
    {
        match self {
            Protocol::Connect => header::ACCEPT_ENCODING,
            Protocol::Grpc => "grpc-accept-encoding",
            Protocol::GrpcWeb => "grpc-accept-encoding",
        }
    }

    /// The header for the timeout of a call.
    pub fn timeout_header(&self) -> (name: &'static str)
        ensures
            name@ == timeout_name(*self),
    {
        match self {
            Protocol::Connect => header::TIMEOUT_MS,
            Protocol::Grpc => "grpc-timeout",
            Protocol::GrpcWeb => "grpc-timeout",
        }
    }
}

} // verus!
