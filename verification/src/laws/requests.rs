//! Laws on requests as they are sent: their headers, their URIs and their
//! bodies.
use std::time::Duration;
use http::Uri;
use vstd::prelude::*;
use vstd::utf8::encode_utf8;

use crate::buffer::BufferView;
use crate::client::request::accepting;
use crate::client::request::applied_encoding;
use crate::client::request::chosen_encoding;
use crate::client::request::encoder_for;
use crate::client::request::framed;
use crate::client::request::get_headers;
use crate::client::request::get_prepared;
use crate::client::request::get_query;
use crate::client::request::message_query;
use crate::client::request::method_uri;
use crate::client::request::no_get_error;
use crate::client::request::one;
use crate::client::request::optional;
use crate::client::request::parsed_uri;
use crate::client::request::percent_encoded;
use crate::client::request::sent_headers;
use crate::client::request::streaming_headers;
use crate::client::request::timing;
use crate::client::request::unary_body;
use crate::client::request::unary_headers;
use crate::client::request::uri_outcome;
use crate::client::request::uri_text;
use crate::client::request::url_base64;
use crate::client::request::HeaderList;
use crate::client::request::RequestParts;
use crate::client::timeout::timeout_text;
use crate::client::CallOptions;
use crate::client::ClientConfig;
use crate::codec::format_name;
use crate::codec::CodecFormat;
use crate::compression::registry::comma_joined;
use crate::compression::registry::registry_compresses;
use crate::compression::Outcome;
use crate::envelope::envelope_bytes;
use crate::error::plain_error;
use crate::error::ConnectError;
use crate::error::ErrorCode;
use crate::headers::collected;
use crate::headers::no_headers;
use crate::headers::values_of;
use crate::headers::HeadersView;
use crate::headers::ValueView;
use crate::laws::protocols::law_content_types_are_made_up;
use crate::laws::sending::law_plain_message_is_framed;
use crate::laws::sending::law_plain_message_is_written;
use crate::laws::texts::law_trailing_repetitions_go;
use crate::laws::trailers::law_appending_adds_one_value;
use crate::protocol::Protocol;
use crate::text::decimal;
use crate::time::duration_nanos;

verus! {

// ---------------------------------------------------------------------------
// Headers
// ---------------------------------------------------------------------------

/// What a request has under a name: a single value, or nothing.
pub open spec fn single(text: Option<Seq<char>>) -> Seq<ValueView> {
    match text {
        Some(t) => seq![(encode_utf8(t), false)],
        None => Seq::empty(),
    }
}

/// What a request has under a name, given its list of headers.
pub open spec fn sent_under(list: HeaderList, name: Seq<char>) -> Seq<ValueView> {
    values_of(collected(list), name)
}

/// The encodings that are supported, as one text; nothing where there are none.
pub open spec fn accepted(config: ClientConfig) -> Option<Seq<char>> {
    if comma_joined(config.compression.names()).len() == 0 {
        None
    } else {
        Some(comma_joined(config.compression.names()))
    }
}

/// The text of a timeout, where there is one.
pub open spec fn timeout_sent(timeout: Option<Duration>, protocol: Protocol) -> Option<Seq<char>> {
    match timeout {
        Some(t) => Some(timeout_text(duration_nanos(t), protocol)),
        None => None,
    }
}

/// The encoding that a configuration sets for requests.
pub open spec fn configured(config: ClientConfig) -> Option<Seq<char>> {
    match config.request_compression {
        Some(e) => Some(e@),
        None => None,
    }
}

/// Lists of headers one after the other give their values one after the other.
proof fn lemma_sent_in_order(a: HeaderList, b: HeaderList, name: Seq<char>)
    ensures
        sent_under(a + b, name) == sent_under(a, name) + sent_under(b, name),
    decreases b.len(),
{
    if b.len() == 0 {
        assert(a + b =~= a);
        assert(sent_under(b, name) =~= Seq::empty());
        assert(sent_under(a, name) + sent_under(b, name) =~= sent_under(a, name));
    } else {
        let front = b.drop_last();
        lemma_sent_in_order(a, front, name);
        assert((a + b).drop_last() =~= a + front);
        assert((a + b).last() == b.last());
        let (n, v) = b.last();
        law_appending_adds_one_value(collected(a + front), n, v, name);
        law_appending_adds_one_value(collected(front), n, v, name);
        assert(sent_under(a + b, name) =~= sent_under(a, name) + sent_under(b, name));
    }
}

/// What a single header gives.
proof fn lemma_one_header(name: Seq<char>, text: Seq<char>, asked: Seq<char>)
    ensures
        sent_under(one(name, text), asked) == (if asked == name {
            single(Some(text))
        } else {
            single(None)
        }),
{
    let list = one(name, text);
    assert(list.drop_last() =~= Seq::empty());
    assert(collected(list.drop_last()) == no_headers());
    law_appending_adds_one_value(no_headers(), name, (encode_utf8(text), false), asked);
    assert(values_of(no_headers(), asked) =~= Seq::empty());
    assert(sent_under(list, asked) =~= if asked == name {
        single(Some(text))
    } else {
        single(None)
    });
}

/// What no headers give.
proof fn lemma_no_header(asked: Seq<char>)
    ensures
        sent_under(Seq::empty(), asked) == single(None),
{
    assert(sent_under(Seq::empty(), asked) =~= single(None));
}

/// What an optional header gives.
proof fn lemma_optional_header(name: Seq<char>, text: Option<Seq<char>>, asked: Seq<char>)
    ensures
        sent_under(optional(name, text), asked) == (if asked == name {
            single(text)
        } else {
            single(None)
        }),
{
    lemma_no_header(asked);
    if let Some(t) = text {
        lemma_one_header(name, t, asked);
    }
}

/// What the header for encodings gives.
proof fn lemma_accepting_header(name: Seq<char>, config: ClientConfig, asked: Seq<char>)
    ensures
        sent_under(accepting(name, config), asked) == (if asked == name {
            single(accepted(config))
        } else {
            single(None)
        }),
{
    lemma_no_header(asked);
    lemma_one_header(name, comma_joined(config.compression.names()), asked);
}

/// What the header for a timeout gives.
proof fn lemma_timing_header(protocol: Protocol, timeout: Option<Duration>, asked: Seq<char>)
    ensures
        sent_under(timing(protocol, timeout), asked) == (if asked == (if protocol is Connect {
            "connect-timeout-ms"@
        } else {
            "grpc-timeout"@
        }) {
            single(timeout_sent(timeout, protocol))
        } else {
            single(None)
        }),
{
    lemma_no_header(asked);
    if let Some(t) = timeout {
        lemma_one_header(
            crate::protocol::timeout_name(protocol),
            timeout_text(duration_nanos(t), protocol),
            asked,
        );
    }
}

/// The names that the protocols use differ from one another.
proof fn lemma_names_differ()
    ensures
        "te"@.len() == 2,
        "content-type"@.len() == 12,
        "grpc-timeout"@.len() == 12,
        "grpc-encoding"@.len() == 13,
        "accept-encoding"@.len() == 15,
        "content-encoding"@.len() == 16,
        "connect-timeout-ms"@.len() == 18,
        "grpc-accept-encoding"@.len() == 20,
        "connect-accept-encoding"@.len() == 23,
        "connect-protocol-version"@.len() == 24,
        "connect-content-encoding"@.len() == 24,
        "content-type"@ != "grpc-timeout"@,
        "connect-protocol-version"@ != "connect-content-encoding"@,
{
    reveal_strlit("te");
    reveal_strlit("content-type");
    reveal_strlit("grpc-timeout");
    reveal_strlit("grpc-encoding");
    reveal_strlit("accept-encoding");
    reveal_strlit("content-encoding");
    reveal_strlit("connect-timeout-ms");
    reveal_strlit("grpc-accept-encoding");
    reveal_strlit("connect-accept-encoding");
    reveal_strlit("connect-protocol-version");
    reveal_strlit("connect-content-encoding");
    assert("content-type"@[0] == 'c' && "grpc-timeout"@[0] == 'g');
    assert("connect-protocol-version"@[8] == 'p' && "connect-content-encoding"@[8] == 'c');
}

/// Five parts of a list of headers.
proof fn lemma_five_parts(a: HeaderList, b: HeaderList, c: HeaderList, d: HeaderList, e: HeaderList, name: Seq<char>)
    ensures
        sent_under(a + (b + c + d) + e, name) == sent_under(a, name) + sent_under(b, name) + sent_under(c, name)
            + sent_under(d, name) + sent_under(e, name),
        sent_under(a + b + c + d + e, name) == sent_under(a, name) + sent_under(b, name) + sent_under(c, name)
            + sent_under(d, name) + sent_under(e, name),
        sent_under(a + (c + d) + e, name) == sent_under(a, name) + sent_under(c, name) + sent_under(d, name)
            + sent_under(e, name),
{
    lemma_sent_in_order(a + (b + c + d), e, name);
    lemma_sent_in_order(a, b + c + d, name);
    lemma_sent_in_order(b + c, d, name);
    lemma_sent_in_order(b, c, name);
    lemma_sent_in_order(a + b + c + d, e, name);
    lemma_sent_in_order(a + b + c, d, name);
    lemma_sent_in_order(a + b, c, name);
    lemma_sent_in_order(a, b, name);
    lemma_sent_in_order(a + (c + d), e, name);
    lemma_sent_in_order(a, c + d, name);
    lemma_sent_in_order(c, d, name);
    let (p, q, r, s, t) = (
        sent_under(a, name),
        sent_under(b, name),
        sent_under(c, name),
        sent_under(d, name),
        sent_under(e, name),
    );
    assert(p + (q + r + s) + t =~= p + q + r + s + t);
    assert(p + (r + s) + t =~= p + r + s + t);
}

/// What stands under one name where it is given once at most.
proof fn lemma_given_once(a: Seq<ValueView>)
    ensures
        a + single(None) == a,
        single(None) + a == a,
{
    assert(a + single(None) =~= a);
    assert(single(None) + a =~= a);
}

/// What stands under a name of a Connect request with one message.
proof fn lemma_connect_unary(
    config: ClientConfig,
    timeout: Option<Duration>,
    applied: Option<Seq<char>>,
    name: Seq<char>,
)
    requires
        config.protocol is Connect,
    ensures
        sent_under(unary_headers(config, timeout, applied), name) == (if name == "content-type"@ {
            single(Some("application/"@ + format_name(config.codec_format)))
        } else if name == "connect-protocol-version"@ {
            single(Some("1"@))
        } else if name == "content-encoding"@ {
            single(applied)
        } else if name == "accept-encoding"@ {
            single(accepted(config))
        } else if name == "connect-timeout-ms"@ {
            single(timeout_sent(timeout, Protocol::Connect))
        } else {
            single(None)
        }),
{
    law_content_types_are_made_up(config.codec_format, false);
    lemma_names_differ();
    let a = one("content-type"@, "application/"@ + format_name(config.codec_format));
    let b = one("connect-protocol-version"@, "1"@);
    let c = optional("content-encoding"@, applied);
    let d = accepting("accept-encoding"@, config);
    let e = timing(Protocol::Connect, timeout);
    assert(unary_headers(config, timeout, applied) == a + (b + c + d) + e);
    lemma_five_parts(a, b, c, d, e, name);
    lemma_one_header("content-type"@, "application/"@ + format_name(config.codec_format), name);
    lemma_one_header("connect-protocol-version"@, "1"@, name);
    lemma_optional_header("content-encoding"@, applied, name);
    lemma_accepting_header("accept-encoding"@, config, name);
    lemma_timing_header(Protocol::Connect, timeout, name);
    lemma_given_once(sent_under(a, name));
    lemma_given_once(sent_under(b, name));
    lemma_given_once(sent_under(c, name));
    lemma_given_once(sent_under(d, name));
    lemma_given_once(sent_under(e, name));
}

/// A Connect request with one message has these headers, once each, and no
/// others: the content type of its format, version 1 of the protocol, the
/// encoding that was applied to its body, the encodings that are supported, and
/// its timeout.
pub proof fn law_connect_unary_headers(
    config: ClientConfig,
    timeout: Option<Duration>,
    applied: Option<Seq<char>>,
    other: Seq<char>,
)
    requires
        config.protocol is Connect,
    ensures
        sent_under(unary_headers(config, timeout, applied), "content-type"@) == single(
            Some("application/"@ + format_name(config.codec_format)),
        ),
        sent_under(unary_headers(config, timeout, applied), "connect-protocol-version"@) == single(Some("1"@)),
        sent_under(unary_headers(config, timeout, applied), "content-encoding"@) == single(applied),
        sent_under(unary_headers(config, timeout, applied), "accept-encoding"@) == single(accepted(config)),
        sent_under(unary_headers(config, timeout, applied), "connect-timeout-ms"@) == single(
            timeout_sent(timeout, Protocol::Connect),
        ),
        other != "content-type"@ && other != "connect-protocol-version"@ && other != "content-encoding"@ && other
            != "accept-encoding"@ && other != "connect-timeout-ms"@ ==> sent_under(
            unary_headers(config, timeout, applied),
            other,
        ).len() == 0,
{
    lemma_names_differ();
    lemma_connect_unary(config, timeout, applied, "content-type"@);
    lemma_connect_unary(config, timeout, applied, "connect-protocol-version"@);
    lemma_connect_unary(config, timeout, applied, "content-encoding"@);
    lemma_connect_unary(config, timeout, applied, "accept-encoding"@);
    lemma_connect_unary(config, timeout, applied, "connect-timeout-ms"@);
    lemma_connect_unary(config, timeout, applied, other);
}

/// What stands under a name of a gRPC request.
proof fn lemma_grpc_headers(
    config: ClientConfig,
    timeout: Option<Duration>,
    applied: Option<Seq<char>>,
    streaming: bool,
    name: Seq<char>,
)
    requires
        !(config.protocol is Connect),
    ensures
        sent_under(
            if streaming {
                streaming_headers(config, timeout)
            } else {
                unary_headers(config, timeout, applied)
            },
            name,
        ) == (if name == "content-type"@ {
            single(
                Some(
                    (if config.protocol is Grpc {
                        "application/grpc+"@
                    } else {
                        "application/grpc-web+"@
                    }) + format_name(config.codec_format),
                ),
            )
        } else if name == "te"@ && config.protocol is Grpc {
            single(Some("trailers"@))
        } else if name == "grpc-encoding"@ {
            single(configured(config))
        } else if name == "grpc-accept-encoding"@ {
            single(accepted(config))
        } else if name == "grpc-timeout"@ {
            single(timeout_sent(timeout, config.protocol))
        } else {
            single(None)
        }),
{
    law_content_types_are_made_up(config.codec_format, streaming);
    lemma_names_differ();
    let kind = (if config.protocol is Grpc {
        "application/grpc+"@
    } else {
        "application/grpc-web+"@
    }) + format_name(config.codec_format);
    let a = one("content-type"@, kind);
    let b = if config.protocol is Grpc {
        one("te"@, "trailers"@)
    } else {
        Seq::empty()
    };
    let c = optional("grpc-encoding"@, configured(config));
    let d = accepting("grpc-accept-encoding"@, config);
    let e = timing(config.protocol, timeout);
    assert(crate::client::request::request_encoding(config) == configured(config));
    if streaming {
        assert(streaming_headers(config, timeout) == a + b + c + d + e);
    } else if config.protocol is Grpc {
        assert(unary_headers(config, timeout, applied) == a + (b + c + d) + e);
    } else {
        assert(unary_headers(config, timeout, applied) == a + (c + d) + e);
    }
    lemma_five_parts(a, b, c, d, e, name);
    lemma_one_header("content-type"@, kind, name);
    lemma_one_header("te"@, "trailers"@, name);
    lemma_no_header(name);
    lemma_optional_header("grpc-encoding"@, configured(config), name);
    lemma_accepting_header("grpc-accept-encoding"@, config, name);
    lemma_timing_header(config.protocol, timeout, name);
    lemma_given_once(sent_under(a, name));
    lemma_given_once(sent_under(b, name));
    lemma_given_once(sent_under(c, name));
    lemma_given_once(sent_under(d, name));
    lemma_given_once(sent_under(e, name));
}

/// A gRPC or gRPC-Web request has these headers, once each, and no others, with
/// one message as with a stream of them: its content type, the announcement of
/// trailers where they come by HTTP, the encoding of its messages, the encodings
/// that are supported, and its timeout.
pub proof fn law_grpc_headers(
    config: ClientConfig,
    timeout: Option<Duration>,
    applied: Option<Seq<char>>,
    list: HeaderList,
    other: Seq<char>,
)
    requires
        !(config.protocol is Connect),
        list == unary_headers(config, timeout, applied) || list == streaming_headers(config, timeout),
    ensures
        config.protocol is Grpc ==> sent_under(list, "content-type"@) == single(
            Some("application/grpc+"@ + format_name(config.codec_format)),
        ),
        config.protocol is GrpcWeb ==> sent_under(list, "content-type"@) == single(
            Some("application/grpc-web+"@ + format_name(config.codec_format)),
        ),
        config.protocol is Grpc ==> sent_under(list, "te"@) == single(Some("trailers"@)),
        config.protocol is GrpcWeb ==> sent_under(list, "te"@) == single(None),
        sent_under(list, "grpc-encoding"@) == single(configured(config)),
        sent_under(list, "grpc-accept-encoding"@) == single(accepted(config)),
        sent_under(list, "grpc-timeout"@) == single(timeout_sent(timeout, config.protocol)),
        other != "content-type"@ && other != "te"@ && other != "grpc-encoding"@ && other != "grpc-accept-encoding"@
            && other != "grpc-timeout"@ ==> sent_under(list, other).len() == 0,
{
    lemma_names_differ();
    let streaming = list == streaming_headers(config, timeout);
    lemma_grpc_headers(config, timeout, applied, streaming, "content-type"@);
    lemma_grpc_headers(config, timeout, applied, streaming, "te"@);
    lemma_grpc_headers(config, timeout, applied, streaming, "grpc-encoding"@);
    lemma_grpc_headers(config, timeout, applied, streaming, "grpc-accept-encoding"@);
    lemma_grpc_headers(config, timeout, applied, streaming, "grpc-timeout"@);
    lemma_grpc_headers(config, timeout, applied, streaming, other);
}

/// What stands under a name of a Connect request with a stream of messages.
proof fn lemma_connect_streaming(config: ClientConfig, timeout: Option<Duration>, name: Seq<char>)
    requires
        config.protocol is Connect,
    ensures
        sent_under(streaming_headers(config, timeout), name) == (if name == "content-type"@ {
            single(Some("application/connect+"@ + format_name(config.codec_format)))
        } else if name == "connect-protocol-version"@ {
            single(Some("1"@))
        } else if name == "connect-content-encoding"@ {
            single(configured(config))
        } else if name == "connect-accept-encoding"@ {
            single(accepted(config))
        } else if name == "connect-timeout-ms"@ {
            single(timeout_sent(timeout, Protocol::Connect))
        } else {
            single(None)
        }),
{
    law_content_types_are_made_up(config.codec_format, true);
    lemma_names_differ();
    let kind = "application/connect+"@ + format_name(config.codec_format);
    let a = one("content-type"@, kind);
    let b = one("connect-protocol-version"@, "1"@);
    let c = optional("connect-content-encoding"@, configured(config));
    let d = accepting("connect-accept-encoding"@, config);
    let e = timing(Protocol::Connect, timeout);
    assert(crate::client::request::request_encoding(config) == configured(config));
    assert(streaming_headers(config, timeout) == a + b + c + d + e);
    lemma_five_parts(a, b, c, d, e, name);
    lemma_one_header("content-type"@, kind, name);
    lemma_one_header("connect-protocol-version"@, "1"@, name);
    lemma_optional_header("connect-content-encoding"@, configured(config), name);
    lemma_accepting_header("connect-accept-encoding"@, config, name);
    lemma_timing_header(Protocol::Connect, timeout, name);
    lemma_given_once(sent_under(a, name));
    lemma_given_once(sent_under(b, name));
    lemma_given_once(sent_under(c, name));
    lemma_given_once(sent_under(d, name));
    lemma_given_once(sent_under(e, name));
}

/// A Connect request with a stream of messages has these headers, once each,
/// and no others: encodings are those of its messages, not of its body.
pub proof fn law_connect_streaming_headers(config: ClientConfig, timeout: Option<Duration>, other: Seq<char>)
    requires
        config.protocol is Connect,
    ensures
        sent_under(streaming_headers(config, timeout), "content-type"@) == single(
            Some("application/connect+"@ + format_name(config.codec_format)),
        ),
        sent_under(streaming_headers(config, timeout), "connect-protocol-version"@) == single(Some("1"@)),
        sent_under(streaming_headers(config, timeout), "connect-content-encoding"@) == single(configured(config)),
        sent_under(streaming_headers(config, timeout), "connect-accept-encoding"@) == single(accepted(config)),
        sent_under(streaming_headers(config, timeout), "connect-timeout-ms"@) == single(
            timeout_sent(timeout, Protocol::Connect),
        ),
        other != "content-type"@ && other != "connect-protocol-version"@ && other != "connect-content-encoding"@
            && other != "connect-accept-encoding"@ && other != "connect-timeout-ms"@ ==> sent_under(
            streaming_headers(config, timeout),
            other,
        ).len() == 0,
{
    lemma_names_differ();
    lemma_connect_streaming(config, timeout, "content-type"@);
    lemma_connect_streaming(config, timeout, "connect-protocol-version"@);
    lemma_connect_streaming(config, timeout, "connect-content-encoding"@);
    lemma_connect_streaming(config, timeout, "connect-accept-encoding"@);
    lemma_connect_streaming(config, timeout, "connect-timeout-ms"@);
    lemma_connect_streaming(config, timeout, other);
}

/// A request whose message is in its URI announces its timeout and the
/// encodings that are supported, and nothing about a body that it has not.
pub proof fn law_get_headers(config: ClientConfig, timeout: Option<Duration>, other: Seq<char>)
    ensures
        sent_under(get_headers(config, timeout), "connect-timeout-ms"@) == single(
            timeout_sent(timeout, Protocol::Connect),
        ),
        sent_under(get_headers(config, timeout), "accept-encoding"@) == single(accepted(config)),
        other != "connect-timeout-ms"@ && other != "accept-encoding"@ ==> sent_under(
            get_headers(config, timeout),
            other,
        ).len() == 0,
{
    lemma_names_differ();
    lemma_get_header(config, timeout, "connect-timeout-ms"@);
    lemma_get_header(config, timeout, "accept-encoding"@);
    lemma_get_header(config, timeout, other);
}

/// What stands under a name of a request whose message is in its URI.
proof fn lemma_get_header(config: ClientConfig, timeout: Option<Duration>, name: Seq<char>)
    ensures
        sent_under(get_headers(config, timeout), name) == (if name == "connect-timeout-ms"@ {
            single(timeout_sent(timeout, Protocol::Connect))
        } else if name == "accept-encoding"@ {
            single(accepted(config))
        } else {
            single(None)
        }),
{
    lemma_names_differ();
    let a = timing(Protocol::Connect, timeout);
    let b = accepting("accept-encoding"@, config);
    lemma_sent_in_order(a, b, name);
    lemma_timing_header(Protocol::Connect, timeout, name);
    lemma_accepting_header("accept-encoding"@, config, name);
    lemma_given_once(sent_under(a, name));
    lemma_given_once(sent_under(b, name));
}

// ---------------------------------------------------------------------------
// URIs
// ---------------------------------------------------------------------------

/// A method is called at the base, then its service, then its name, with single
/// slashes between them however many slashes end the base.
pub proof fn law_method_uri(base: Seq<char>, slashes: Seq<char>, service: Seq<char>, method: Seq<char>)
    requires
        base.len() > 0 ==> base.last() != '/',
        forall|i: int| 0 <= i < slashes.len() ==> #[trigger] slashes[i] == '/',
    ensures
        method_uri(base + slashes, service, method) == base + seq!['/'] + service + seq!['/'] + method,
{
    law_trailing_repetitions_go(base, '/', slashes);
    reveal_strlit("/");
    assert("/"@ =~= seq!['/']);
}

/// A URI that cannot be parsed is an internal error that says why.
pub proof fn law_bad_uri_is_an_error(
    text: Seq<char>,
    complaint: Seq<char>,
    cause: Seq<char>,
    r: Result<Uri, ConnectError>,
)
    requires
        uri_outcome(text, complaint, r),
    ensures
        parsed_uri(text) == Err::<Seq<char>, Seq<char>>(cause) ==> r is Err && r->Err_0@ == plain_error(
            ErrorCode::Internal,
            complaint + cause,
        ),
        parsed_uri(text) is Ok ==> r is Ok && uri_text(r->Ok_0) == parsed_uri(text)->Ok_0,
{
}

/// The query of a request says the version first and the message last, and
/// between them whether the message is in base64, how it is compressed, and its
/// format.
pub proof fn law_query_layout(encoding: Seq<char>, message: Seq<char>, compression: Seq<char>)
    ensures
        get_query(false, None, encoding, message) == "connect=v1&encoding="@ + encoding + "&message="@ + message,
        get_query(true, None, encoding, message) == "connect=v1&base64=1&encoding="@ + encoding + "&message="@
            + message,
        get_query(true, Some(compression), encoding, message) == "connect=v1&base64=1&compression="@ + compression
            + "&encoding="@ + encoding + "&message="@ + message,
        get_query(false, Some(compression), encoding, message) == "connect=v1&compression="@ + compression
            + "&encoding="@ + encoding + "&message="@ + message,
{
    reveal_strlit("connect=v1");
    reveal_strlit("&base64=1");
    reveal_strlit("&encoding=");
    reveal_strlit("&compression=");
    reveal_strlit("connect=v1&encoding=");
    reveal_strlit("connect=v1&base64=1&encoding=");
    reveal_strlit("connect=v1&base64=1&compression=");
    reveal_strlit("connect=v1&compression=");
    assert("connect=v1"@ + Seq::<char>::empty() + Seq::<char>::empty() + "&encoding="@ =~= "connect=v1&encoding="@);
    assert("connect=v1"@ + "&base64=1"@ + Seq::<char>::empty() + "&encoding="@ =~= "connect=v1&base64=1&encoding="@);
    assert("connect=v1"@ + "&base64=1"@ + ("&compression="@ + compression)
        =~= "connect=v1&base64=1&compression="@ + compression);
    assert("connect=v1"@ + Seq::<char>::empty() + ("&compression="@ + compression)
        =~= "connect=v1&compression="@ + compression);
}

/// A message is put into a URI in percent encoding where it is JSON as it is,
/// and in base64 for URLs where it is protobuf or compressed.
pub proof fn law_query_of_a_message(applied: Seq<char>, payload: Seq<u8>, format: CodecFormat)
    ensures
        message_query(CodecFormat::Json, None, payload) == "connect=v1&encoding=json&message="@ + percent_encoded(
            payload,
        ),
        message_query(CodecFormat::Proto, None, payload) == "connect=v1&base64=1&encoding=proto&message="@ + url_base64(
            payload,
        ),
        message_query(format, Some(applied), payload) == "connect=v1&base64=1&compression="@ + applied + "&encoding="@
            + format_name(format) + "&message="@ + url_base64(payload),
{
    law_query_layout(format_name(CodecFormat::Json), percent_encoded(payload), applied);
    law_query_layout(format_name(CodecFormat::Proto), url_base64(payload), applied);
    law_query_layout(format_name(format), url_base64(payload), applied);
    reveal_strlit("json");
    reveal_strlit("proto");
    reveal_strlit("&message=");
    reveal_strlit("connect=v1&encoding=");
    reveal_strlit("connect=v1&base64=1&encoding=");
    reveal_strlit("connect=v1&encoding=json&message=");
    reveal_strlit("connect=v1&base64=1&encoding=proto&message=");
    assert("connect=v1&encoding="@ + "json"@ + "&message="@ =~= "connect=v1&encoding=json&message="@);
    assert("connect=v1&base64=1&encoding="@ + "proto"@ + "&message="@
        =~= "connect=v1&base64=1&encoding=proto&message="@);
}

/// A request whose message is in its URI has no body. Its URI is that of the
/// method with the query behind a question mark.
pub proof fn law_get_request(
    config: ClientConfig,
    options: CallOptions,
    service: Seq<char>,
    method: Seq<char>,
    applied: Option<Seq<char>>,
    payload: Seq<u8>,
    text: Seq<char>,
    r: Result<RequestParts, ConnectError>,
)
    requires
        text == method_uri(uri_text(config.base_uri), service, method) + seq!['?'] + message_query(
            config.codec_format,
            applied,
            payload,
        ),
        get_prepared(config, options, service, method, applied, Ok(payload), r),
    ensures
        parsed_uri(text) matches Ok(t) ==> r is Ok && uri_text(r->Ok_0.uri) == t && r->Ok_0.body@.len() == 0
            && sent_headers(get_headers(config, options.timeout), options.headers@, r->Ok_0.headers),
        parsed_uri(text) matches Err(cause) ==> r is Err && r->Err_0@ == plain_error(
            ErrorCode::Internal,
            "invalid GET URI: "@ + cause,
        ),
{
    reveal_strlit("?");
    assert("?"@ =~= seq!['?']);
}

// ---------------------------------------------------------------------------
// Bodies
// ---------------------------------------------------------------------------

/// A request is compressed where an encoding is set and the policy applies, or
/// the call asks for it; and never where no encoding is set.
pub proof fn law_request_encoding_is_chosen(config: ClientConfig, compress: Option<bool>, size: nat)
    ensures
        config.request_compression is None ==> chosen_encoding(config, compress, size) is None,
        compress == Some(true) ==> chosen_encoding(config, compress, size) == configured(config),
        compress == Some(false) ==> chosen_encoding(config, compress, size) is None,
        compress is None && config.compression_policy.enabled && size >= config.compression_policy.min_size
            ==> chosen_encoding(config, compress, size) == configured(config),
        compress is None && (!config.compression_policy.enabled || size < config.compression_policy.min_size)
            ==> chosen_encoding(config, compress, size) is None,
{
}

/// A Connect request that is not compressed has its message for a body and says
/// nothing of an encoding.
pub proof fn law_plain_connect_body(config: ClientConfig, compress: Option<bool>, message: Seq<u8>, r: Outcome)
    requires
        config.protocol is Connect,
        chosen_encoding(config, compress, message.len()) is None,
        unary_body(config, compress, message, r),
    ensures
        r == Outcome::Ok(message),
        applied_encoding(config, compress, message.len()) is None,
{
}

/// A Connect request that is compressed has what the encoding makes of its
/// message for a body, and announces that encoding.
pub proof fn law_compressed_connect_body(
    config: ClientConfig,
    compress: Option<bool>,
    message: Seq<u8>,
    encoding: Seq<char>,
    r: Outcome,
)
    requires
        config.protocol is Connect,
        chosen_encoding(config, compress, message.len()) == Some(encoding),
        unary_body(config, compress, message, r),
    ensures
        registry_compresses(config.compression@, encoding, message, r),
        applied_encoding(config, compress, message.len()) == Some(encoding),
{
}

/// A gRPC request that is not compressed has its message in an envelope for a
/// body, with no flag set; and never says of its body as a whole that it is
/// compressed.
pub proof fn law_plain_grpc_body(config: ClientConfig, compress: Option<bool>, message: Seq<u8>, r: Outcome)
    requires
        !(config.protocol is Connect),
        chosen_encoding(config, compress, message.len()) is None,
        message.len() <= u32::MAX,
        unary_body(config, compress, message, r),
    ensures
        r == Outcome::Ok(envelope_bytes(0, message)),
        applied_encoding(config, compress, message.len()) is None,
{
    let encoder = encoder_for(config, compress);
    match r {
        Ok(body) => {
            law_plain_message_is_framed(encoder, message, r);
        },
        Err(e) => {
            let inner = choose|inner: crate::error::ErrorView| #[trigger]
                framed(encoder, message, Outcome::Err(inner)) && e == plain_error(
                    ErrorCode::Internal,
                    "envelope encode failed: "@ + crate::error::error_text(inner),
                );
            law_plain_message_is_framed(encoder, message, Outcome::Err(inner));
        },
    }
}

/// The error for a protocol whose requests always have a body blames the caller.
pub proof fn law_get_needs_connect()
    ensures
        no_get_error() == plain_error(
            ErrorCode::InvalidArgument,
            "call_unary_get requires Protocol::Connect (gRPC/gRPC-Web are POST-only)"@,
        ),
{
}

/// A gRPC request whose message is too long to be declared cannot be made, and
/// the error says why.
pub proof fn law_oversized_grpc_body(config: ClientConfig, compress: Option<bool>, message: Seq<u8>, r: Outcome)
    requires
        !(config.protocol is Connect),
        chosen_encoding(config, compress, message.len()) is None,
        message.len() > u32::MAX,
        unary_body(config, compress, message, r),
    ensures
        r == Outcome::Err(
            plain_error(
                ErrorCode::Internal,
                "envelope encode failed: resource_exhausted: envelope payload "@ + decimal(message.len())
                    + " bytes exceeds u32::MAX"@,
            ),
        ),
{
    let encoder = encoder_for(config, compress);
    match r {
        Ok(body) => {
            law_plain_message_is_written(encoder, message, Seq::empty(), body, Ok(()));
        },
        Err(e) => {
            let inner = choose|inner: crate::error::ErrorView| #[trigger]
                framed(encoder, message, Outcome::Err(inner)) && e == plain_error(
                    ErrorCode::Internal,
                    "envelope encode failed: "@ + crate::error::error_text(inner),
                );
            law_plain_message_is_written(encoder, message, Seq::empty(), Seq::empty(), Err(inner));
            reveal_strlit("envelope encode failed: ");
            reveal_strlit("resource_exhausted");
            reveal_strlit(": ");
            reveal_strlit("envelope payload ");
            reveal_strlit("envelope encode failed: resource_exhausted: envelope payload ");
            assert("envelope encode failed: "@ + ("resource_exhausted"@ + ": "@ + ("envelope payload "@ + decimal(
                message.len(),
            ) + " bytes exceeds u32::MAX"@))
                =~= "envelope encode failed: resource_exhausted: envelope payload "@ + decimal(message.len())
                + " bytes exceeds u32::MAX"@);
        },
    }
}

/// The messages of a call are framed with the encoding that the configuration
/// sets, out of its registry, under the policy that the call may override.
pub proof fn law_request_encoder(config: ClientConfig, compress: Option<bool>)
    ensures
        encoder_for(config, compress).policy == config.compression_policy.overridden(compress),
        config.request_compression is None ==> encoder_for(config, compress).compression is None,
        config.request_compression matches Some(e) ==> (encoder_for(config, compress).compression matches Some(c)
            && c.encoding == e@ && c.registry == config.compression@),
{
}

} // verus!
