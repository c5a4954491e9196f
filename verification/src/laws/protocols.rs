//! Laws on content types and on the names of the protocols' headers.
use vstd::prelude::*;

use crate::client::status::bare_type;
use crate::client::status::content_type_outcome;
use crate::client::status::content_type_text;
use crate::client::status::family_prefix;
use crate::client::status::media_type;
use crate::client::ClientConfig;
use crate::codec::format_name;
use crate::codec::lemma_formats_differ;
use crate::codec::names_format;
use crate::codec::stream_type;
use crate::codec::unary_type;
use crate::codec::CodecFormat;
use crate::error::ErrorCode;
use crate::headers::ascii_text;
use crate::headers::first_value;
use crate::headers::is_visible_text;
use crate::headers::HeaderContents;
use crate::laws::texts::is_blank;
use crate::laws::texts::is_tight;
use crate::laws::texts::law_beginnings;
use crate::laws::texts::law_first_index_behind;
use crate::laws::texts::law_nothing_to_cut;
use crate::laws::texts::law_trimming_takes_white_space_only;
use crate::protocol::accept_name;
use crate::protocol::encoding_name;
use crate::protocol::message_type;
use crate::protocol::timeout_name;
use crate::protocol::Protocol;
use crate::text::begins_with;
use crate::text::first_index;

verus! {

/// A content type names the protocol, whether messages are streamed where that
/// makes a difference, and the format.
pub proof fn law_content_types_are_made_up(format: CodecFormat, streaming: bool)
    ensures
        message_type(Protocol::Connect, format, false) == "application/"@ + format_name(format),
        message_type(Protocol::Connect, format, true) == "application/connect+"@ + format_name(format),
        message_type(Protocol::Grpc, format, streaming) == "application/grpc+"@ + format_name(format),
        message_type(Protocol::GrpcWeb, format, streaming) == "application/grpc-web+"@ + format_name(format),
        unary_type(format) == "application/"@ + format_name(format),
        stream_type(format) == "application/connect+"@ + format_name(format),
        format_name(CodecFormat::Proto) == "proto"@,
        format_name(CodecFormat::Json) == "json"@,
{
    reveal_strlit("proto");
    reveal_strlit("json");
    reveal_strlit("application/");
    reveal_strlit("application/connect+");
    reveal_strlit("application/grpc+");
    reveal_strlit("application/grpc-web+");
    reveal_strlit("application/proto");
    reveal_strlit("application/json");
    reveal_strlit("application/connect+proto");
    reveal_strlit("application/connect+json");
    reveal_strlit("application/grpc+proto");
    reveal_strlit("application/grpc+json");
    reveal_strlit("application/grpc-web+proto");
    reveal_strlit("application/grpc-web+json");
    assert("application/"@ + "proto"@ =~= "application/proto"@);
    assert("application/"@ + "json"@ =~= "application/json"@);
    assert("application/connect+"@ + "proto"@ =~= "application/connect+proto"@);
    assert("application/connect+"@ + "json"@ =~= "application/connect+json"@);
    assert("application/grpc+"@ + "proto"@ =~= "application/grpc+proto"@);
    assert("application/grpc+"@ + "json"@ =~= "application/grpc+json"@);
    assert("application/grpc-web+"@ + "proto"@ =~= "application/grpc-web+proto"@);
    assert("application/grpc-web+"@ + "json"@ =~= "application/grpc-web+json"@);
}

/// The names of the headers by which the protocols differ.
pub proof fn law_protocol_header_names()
    ensures
        encoding_name(Protocol::Connect) == "connect-content-encoding"@,
        encoding_name(Protocol::Grpc) == "grpc-encoding"@,
        encoding_name(Protocol::GrpcWeb) == "grpc-encoding"@,
        accept_name(Protocol::Connect) == "connect-accept-encoding"@,
        accept_name(Protocol::Grpc) == "grpc-accept-encoding"@,
        accept_name(Protocol::GrpcWeb) == "grpc-accept-encoding"@,
        timeout_name(Protocol::Connect) == "connect-timeout-ms"@,
        timeout_name(Protocol::Grpc) == "grpc-timeout"@,
        timeout_name(Protocol::GrpcWeb) == "grpc-timeout"@,
{
}

/// The content types of Connect name their format, whatever stands behind them,
/// and no other format.
pub proof fn law_content_type_names_its_format(format: CodecFormat, parameters: Seq<char>, other: CodecFormat)
    ensures
        names_format("application/"@ + format_name(format) + parameters, format),
        names_format("application/connect+"@ + format_name(format) + parameters, format),
        other != format ==> !names_format("application/"@ + format_name(format) + parameters, other),
        other != format ==> !names_format("application/connect+"@ + format_name(format) + parameters, other),
{
    law_content_types_are_made_up(format, false);
    law_beginnings(unary_type(format), parameters, Seq::empty(), 0);
    law_beginnings(stream_type(format), parameters, Seq::empty(), 0);
    lemma_formats_differ(unary_type(format) + parameters);
    lemma_formats_differ(stream_type(format) + parameters);
}

/// A content type that begins otherwise names no format.
pub proof fn law_other_content_types_name_nothing(content_type: Seq<char>, format: CodecFormat)
    requires
        !begins_with(content_type, "application/"@ + format_name(format)),
        !begins_with(content_type, "application/connect+"@ + format_name(format)),
    ensures
        !names_format(content_type, format),
{
    law_content_types_are_made_up(format, false);
}

// ---------------------------------------------------------------------------
// The content type of a gRPC response
// ---------------------------------------------------------------------------

/// A content type as it may be written: a media type with blanks around it, and
/// parameters behind a semicolon or none.
pub open spec fn writes_type(
    value: Seq<u8>,
    media: Seq<char>,
    before: Seq<char>,
    behind: Seq<char>,
    parameters: Seq<char>,
) -> bool {
    &&& is_visible_text(value)
    &&& is_tight(media)
    &&& !media.contains(';')
    &&& is_blank(before)
    &&& is_blank(behind)
    &&& !before.contains(';')
    &&& !behind.contains(';')
    &&& parameters.len() > 0 ==> parameters[0] == ';'
    &&& ascii_text(value) == before + media + behind + parameters
}

/// The media type is what stands before the parameters, without blanks.
pub proof fn law_media_type_is_found(
    value: Seq<u8>,
    media: Seq<char>,
    before: Seq<char>,
    behind: Seq<char>,
    parameters: Seq<char>,
)
    requires
        writes_type(value, media, before, behind, parameters),
    ensures
        content_type_text(value) == before + media + behind + parameters,
        media_type(content_type_text(value)) == media,
{
    let front = before + media + behind;
    let text = front + parameters;
    assert(!front.contains(';')) by {
        if front.contains(';') {
            let i = choose|i: int| 0 <= i < front.len() && front[i] == ';';
            if i < before.len() {
                assert(before[i] == ';');
            } else if i < before.len() + media.len() {
                assert(media[i - before.len()] == ';');
            } else {
                assert(behind[i - before.len() - media.len()] == ';');
            }
        }
    }
    if parameters.len() > 0 {
        assert(text =~= front + seq![';'] + parameters.skip(1));
        law_first_index_behind(front, ';', parameters.skip(1));
    } else {
        assert(text =~= front);
        law_nothing_to_cut(front, ';');
    }
    assert(first_index(text, ';') == front.len());
    assert(text.take(front.len() as int) =~= front);
    law_trimming_takes_white_space_only(before, media, behind);
}

/// The types that a gRPC protocol uses.
pub proof fn law_grpc_types()
    ensures
        bare_type(Protocol::Grpc) == "application/grpc"@,
        bare_type(Protocol::GrpcWeb) == "application/grpc-web"@,
        family_prefix(Protocol::Grpc) == "application/grpc+"@,
        family_prefix(Protocol::GrpcWeb) == "application/grpc-web+"@,
{
}

/// A response is accepted that has the content type that was asked for, with or
/// without parameters, that has the bare type of its protocol, or that has no
/// content type at all.
pub proof fn law_expected_content_type_is_accepted(
    h: HeaderContents,
    config: ClientConfig,
    value: Seq<u8>,
    media: Seq<char>,
    before: Seq<char>,
    behind: Seq<char>,
    parameters: Seq<char>,
)
    requires
        writes_type(value, media, before, behind, parameters),
    ensures
        first_value(h, "content-type"@) is None ==> content_type_outcome(h, config) is Ok,
        config.protocol is Connect ==> content_type_outcome(h, config) is Ok,
        first_value(h, "content-type"@) == Some(value) && config.protocol is Grpc && (media == "application/grpc+"@
            + format_name(config.codec_format) || media == "application/grpc"@) ==> content_type_outcome(h, config) is Ok,
        first_value(h, "content-type"@) == Some(value) && config.protocol is GrpcWeb && (media
            == "application/grpc-web+"@ + format_name(config.codec_format) || media == "application/grpc-web"@)
            ==> content_type_outcome(h, config) is Ok,
{
    law_media_type_is_found(value, media, before, behind, parameters);
    law_content_types_are_made_up(config.codec_format, false);
    law_grpc_types();
}

/// Any other content type is refused: as the server's fault where it is of the
/// protocol's own family, and else as a response that is none of the protocol.
/// The error says what came and what was expected, and carries the headers.
pub proof fn law_other_content_type_is_refused(
    h: HeaderContents,
    config: ClientConfig,
    value: Seq<u8>,
    media: Seq<char>,
    before: Seq<char>,
    behind: Seq<char>,
    parameters: Seq<char>,
)
    requires
        writes_type(value, media, before, behind, parameters),
        first_value(h, "content-type"@) == Some(value),
        config.protocol is Grpc ==> media != "application/grpc"@ && media != "application/grpc+"@ + format_name(
            config.codec_format,
        ),
        config.protocol is GrpcWeb ==> media != "application/grpc-web"@ && media != "application/grpc-web+"@
            + format_name(config.codec_format),
        !(config.protocol is Connect),
    ensures
        content_type_outcome(h, config) matches Err(e) && e.headers == h && e.trailers
            == Map::<Seq<char>, Seq<(Seq<u8>, bool)>>::empty() && e.code == (if begins_with(
            media,
            if config.protocol is Grpc {
                "application/grpc+"@
            } else {
                "application/grpc-web+"@
            },
        ) {
            ErrorCode::Internal
        } else {
            ErrorCode::Unknown
        }) && e.message == Some(
            "unexpected content-type: "@ + (before + media + behind + parameters) + " (expected "@ + message_type(
                config.protocol,
                config.codec_format,
                false,
            ) + ")"@,
        ),
{
    law_media_type_is_found(value, media, before, behind, parameters);
    law_content_types_are_made_up(config.codec_format, false);
    law_grpc_types();
}

/// A content type that is no visible text is refused.
pub proof fn law_unreadable_content_type_is_refused(h: HeaderContents, config: ClientConfig, value: Seq<u8>)
    requires
        first_value(h, "content-type"@) == Some(value),
        !is_visible_text(value),
        !(config.protocol is Connect),
    ensures
        content_type_outcome(h, config) matches Err(e) && e.code == ErrorCode::Unknown,
{
    let none = Seq::<char>::empty();
    law_nothing_to_cut(none, ';');
    law_trimming_takes_white_space_only(none, none, none);
    assert(none + none + none =~= none);
    assert(none.take(0) =~= none);
    assert(media_type(none) =~= none);
    law_content_types_are_made_up(config.codec_format, false);
    reveal_strlit("application/grpc+");
    reveal_strlit("application/grpc-web+");
    reveal_strlit("application/grpc");
    reveal_strlit("application/grpc-web");
}

} // verus!
