//! The formats that messages are encoded in.
use vstd::prelude::*;

use crate::error::plain_error;
use crate::error::ConnectError;
use crate::error::ErrorCode;
use crate::text::begins_with;
use crate::text::starts_with;
use crate::text::str_eq;

pub mod content_type;
pub mod header;

verus! {

/// What a codec's own result comes to: the value, or an error with a code and
/// a text before the codec's.
pub open spec fn codec_outcome<M>(
    made: Result<M, String>,
    code: ErrorCode,
    what: Seq<char>,
    r: Result<M, ConnectError>,
) -> bool {
    match made {
        Ok(value) => r == Ok::<M, ConnectError>(value),
        Err(cause) => r matches Err(e) && e@ == plain_error(code, what + cause@),
    }
}

/// The outcome of decoding a protobuf message.
pub fn decode_proto<M>(decoded: Result<M, String>) -> (r: Result<M, ConnectError>)
    ensures
        codec_outcome(decoded, ErrorCode::InvalidArgument, "failed to decode proto: "@, r),
{
    match decoded {
        Ok(value) => Ok(value),
        Err(cause) => {
            let mut message = "failed to decode proto: ".to_owned();
            message.push_str(cause.as_str());
            Err(ConnectError::invalid_argument(message))
        },
    }
}

/// The outcome of encoding a message as JSON.
pub fn encode_json<M>(encoded: Result<M, String>) -> (r: Result<M, ConnectError>)
    ensures
        codec_outcome(encoded, ErrorCode::Internal, "failed to encode JSON: "@, r),
{
    match encoded {
        Ok(value) => Ok(value),
        Err(cause) => {
            let mut message = "failed to encode JSON: ".to_owned();
            message.push_str(cause.as_str());
            Err(ConnectError::internal(message))
        },
    }
}

/// The outcome of decoding a message from JSON.
pub fn decode_json<M>(decoded: Result<M, String>) -> (r: Result<M, ConnectError>)
    ensures
        codec_outcome(decoded, ErrorCode::InvalidArgument, "failed to decode JSON: "@, r),
{
    match decoded {
        Ok(value) => Ok(value),
        Err(cause) => {
            let mut message = "failed to decode JSON: ".to_owned();
            message.push_str(cause.as_str());
            Err(ConnectError::invalid_argument(message))
        },
    }
}

/// Codec for binary protobuf encoding.
#[derive(Debug, Clone, Copy, Default)]
pub struct ProtoCodec;

impl ProtoCodec {
    /// The content type of the codec.
    pub fn content_type() -> (name: &'static str)
        ensures
            name@ == "application/proto"@,
    {
        content_type::PROTO
    }
}

/// Codec for JSON encoding.
#[derive(Debug, Clone, Copy, Default)]
pub struct JsonCodec;

impl JsonCodec {
    /// The content type of the codec.
    pub fn content_type() -> (name: &'static str)
        ensures
            name@ == "application/json"@,
    {
        content_type::JSON
    }
}

/// The format that messages are encoded in.
#[derive(Debug, Clone, Copy, PartialEq, Eq, Structural)]
#[non_exhaustive]
pub enum CodecFormat {
    /// Binary protobuf.
    Proto,
    /// JSON.
    Json,
}

/// The name of a format.
pub open spec fn format_name(format: CodecFormat) -> Seq<char> {
    match format {
        CodecFormat::Proto => "proto"@,
        CodecFormat::Json => "json"@,
    }
}

/// The content type of a unary message in a format.
pub open spec fn unary_type(format: CodecFormat) -> Seq<char> {
    match format {
        CodecFormat::Proto => "application/proto"@,
        CodecFormat::Json => "application/json"@,
    }
}

/// The content type of streamed messages in a format.
pub open spec fn stream_type(format: CodecFormat) -> Seq<char> {
    match format {
        CodecFormat::Proto => "application/connect+proto"@,
        CodecFormat::Json => "application/connect+json"@,
    }
}

/// Whether a content type, with or without parameters, names a format.
pub open spec fn names_format(content_type: Seq<char>, format: CodecFormat) -> bool {
    begins_with(content_type, unary_type(format)) || begins_with(content_type, stream_type(format))
}

impl CodecFormat {
    /// The format that a content type names.
    pub fn from_content_type(content_type: &str) -> (format: Option<Self>)
        ensures
            match format {
                Some(f) => names_format(content_type@, f),
                None => forall|f: CodecFormat| !names_format(content_type@, f),
            },
            forall|f: CodecFormat| names_format(content_type@, f) ==> format == Some(f),
    {
        proof {
            lemma_formats_differ(content_type@);
        }
        if starts_with(content_type, content_type::PROTO) || starts_with(
            content_type,
            content_type::CONNECT_PROTO,
        ) {
            assert(names_format(content_type@, CodecFormat::Proto));
            Some(CodecFormat::Proto)
        } else if starts_with(content_type, content_type::JSON) || starts_with(
            content_type,
            content_type::CONNECT_JSON,
        ) {
            assert(names_format(content_type@, CodecFormat::Json));
            Some(CodecFormat::Json)
        } else {
            None
        }
    }

    /// The format of the given name.
    pub fn from_codec(codec: &str) -> (format: Option<Self>)
        ensures
            forall|f: CodecFormat| #[trigger] format_name(f) == codec@ ==> format == Some(f),
            format matches Some(f) ==> format_name(f) == codec@,
    {
        proof {
            reveal_strlit("proto");
            reveal_strlit("json");
            assert("proto"@.len() != "json"@.len());
        }
        if str_eq(codec, "proto") {
            Some(CodecFormat::Proto)
        } else if str_eq(codec, "json") {
            Some(CodecFormat::Json)
        } else {
            None
        }
    }

    /// The content type of a unary message in this format.
    pub fn content_type(&self) -> (name: &'static str)
        ensures
            name@ == unary_type(*self),
    {
        match self {
            CodecFormat::Proto => content_type::PROTO,
            CodecFormat::Json => content_type::JSON,
        }
    }

    /// The content type of streamed messages in this format.
    pub fn streaming_content_type(&self) -> (name: &'static str)
        ensures
            name@ == stream_type(*self),
    {
        match self {
            CodecFormat::Proto => content_type::CONNECT_PROTO,
            CodecFormat::Json => content_type::CONNECT_JSON,
        }
    }

    /// Whether a content type is one of streamed messages.
    pub fn is_streaming_content_type(content_type: &str) -> (streaming: bool)
        ensures
            streaming == (begins_with(content_type@, stream_type(CodecFormat::Proto)) || begins_with(
                content_type@,
                stream_type(CodecFormat::Json),
            )),
    {
        starts_with(content_type, content_type::CONNECT_PROTO) || starts_with(
            content_type,
            content_type::CONNECT_JSON,
        )
    }

    /// The name of this format.
    pub fn name(&self) -> (name: &'static str)
        ensures
            name@ == format_name(*self),
    {
        match self {
            CodecFormat::Proto => "proto",
            CodecFormat::Json => "json",
        }
    }

    /// The name of this format, as an owned string.
    pub fn to_string(&self) -> (name: String)
        ensures
            name@ == format_name(*self),
    {
        self.name().to_owned()
    }
}

/// No content type names two formats.
pub proof fn lemma_formats_differ(content_type: Seq<char>)
    ensures
        !(names_format(content_type, CodecFormat::Proto) && names_format(content_type, CodecFormat::Json)),
{
    reveal_strlit("application/proto");
    reveal_strlit("application/json");
    reveal_strlit("application/connect+proto");
    reveal_strlit("application/connect+json");
    let types = (
        "application/proto"@,
        "application/json"@,
        "application/connect+proto"@,
        "application/connect+json"@,
    );
    if begins_with(content_type, types.0) {
        assert(content_type.take(types.0.len() as int)[12] == content_type[12]);
    }
    if begins_with(content_type, types.1) {
        assert(content_type.take(types.1.len() as int)[12] == content_type[12]);
    }
    if begins_with(content_type, types.2) {
        assert(content_type.take(types.2.len() as int)[12] == content_type[12]);
        assert(content_type.take(types.2.len() as int)[20] == content_type[20]);
    }
    if begins_with(content_type, types.3) {
        assert(content_type.take(types.3.len() as int)[12] == content_type[12]);
        assert(content_type.take(types.3.len() as int)[20] == content_type[20]);
    }
}

} // verus!
