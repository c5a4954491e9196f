//! What a client is configured with, and what a single call overrides.
use http::HeaderMap;
use http::HeaderName;
use http::HeaderValue;
use http::Uri;
use std::time::Duration;
use vstd::prelude::*;
use vstd::utf8::encode_utf8;

use crate::client::request::uri_text;
use crate::codec::CodecFormat;
use crate::compression::registry::Provider;
use crate::compression::CompressionPolicy;
use crate::compression::CompressionRegistry;
use crate::compression::GzipProvider;
use crate::compression::ZstdProvider;
use crate::compression::DEFAULT_COMPRESSION_MIN_SIZE;
use crate::error::opt_text;
use crate::error::plain_error;
use crate::error::ConnectError;
use crate::error::ErrorCode;
use crate::headers::append_all;
use crate::headers::appended;
use crate::headers::canonical_name;
use crate::headers::collected;
use crate::headers::fits;
use crate::headers::header_map_clone;
use crate::headers::header_map_is_empty;
use crate::headers::header_map_new;
use crate::headers::header_map_try_append;
use crate::headers::header_name_from_bytes;
use crate::headers::header_value_from_str;
use crate::headers::is_canonical_name;
use crate::headers::is_crowded;
use crate::headers::is_header_value;
use crate::headers::joined_headers;
use crate::headers::no_headers;
use crate::headers::pairs_view;
use crate::headers::part_of;
use crate::headers::plain_value;
use crate::headers::remove_all;
use crate::headers::takes;
use crate::headers::HeaderContents;
use crate::headers::HeadersView;
use crate::protocol::Protocol;
use crate::text::IntoMessage;

verus! {

#[verifier::external_type_specification]
#[verifier::external_body]
pub struct ExUri(http::Uri);

/// Configuration for a client.
///
/// Construct with [`ClientConfig::new`] and the `with_*` builder methods, and
/// read settings back through the accessor methods of the same name.
#[non_exhaustive]
pub struct ClientConfig {
    /// The base URI of the service.
    pub base_uri: Uri,
    /// The wire protocol.
    pub protocol: Protocol,
    /// The format of messages.
    pub codec_format: CodecFormat,
    /// The encodings.
    pub compression: CompressionRegistry,
    /// The encoding of requests.
    pub request_compression: Option<String>,
    /// Which messages are compressed.
    pub compression_policy: CompressionPolicy,
    /// The timeout of calls that have none of their own.
    pub default_timeout: Option<Duration>,
    /// The message limit of calls that have none of their own.
    pub default_max_message_size: Option<usize>,
    /// The headers of every request.
    pub default_headers: HeaderMap,
}

/// `Uri::clone` copies the URI.
#[verifier::external_body]
fn uri_clone(uri: &Uri) -> (copy: Uri)
    ensures
        uri_text(copy) == uri_text(*uri),
{
    uri.clone()
}

/// Copy an optional string.
fn clone_text(s: &Option<String>) -> (copy: Option<String>)
    ensures
        opt_text(copy) == opt_text(*s),
{
    match s {
        Some(t) => Some(t.clone()),
        None => None,
    }
}

/// Whether two configurations say the same.
pub open spec fn same_config(a: ClientConfig, b: ClientConfig) -> bool {
    &&& uri_text(a.base_uri) == uri_text(b.base_uri)
    &&& a.protocol == b.protocol
    &&& a.codec_format == b.codec_format
    &&& a.compression@ == b.compression@
    &&& a.compression.names() == b.compression.names()
    &&& opt_text(a.request_compression) == opt_text(b.request_compression)
    &&& a.compression_policy == b.compression_policy
    &&& a.default_timeout == b.default_timeout
    &&& a.default_max_message_size == b.default_max_message_size
    &&& a.default_headers@ == b.default_headers@
}

impl Clone for ClientConfig {
    fn clone(&self) -> (copy: Self)
        ensures
            same_config(copy, *self),
    {
        ClientConfig {
            base_uri: uri_clone(&self.base_uri),
            protocol: self.protocol,
            codec_format: self.codec_format,
            compression: self.compression.clone(),
            request_compression: clone_text(&self.request_compression),
            compression_policy: self.compression_policy,
            default_timeout: self.default_timeout,
            default_max_message_size: self.default_max_message_size,
            default_headers: header_map_clone(&self.default_headers),
        }
    }
}

/// What a name and a value for a header come to: appended, unless the collection
/// cannot take it, or ignored where either is not valid.
pub open spec fn header_added(
    before: HeaderContents,
    name: Seq<char>,
    value: Seq<char>,
    after: HeaderContents,
) -> bool {
    if is_header_name(name) && is_header_value(encode_utf8(value)) {
        &&& after == with_added(before, name, value) || (after == before && is_crowded(before))
        &&& fits(with_added(before, name, value)) ==> after == with_added(before, name, value)
    } else {
        after == before
    }
}

/// Text that names a header, in any case.
pub open spec fn is_header_name(name: Seq<char>) -> bool {
    is_canonical_name(canonical_name(encode_utf8(name)))
}

/// The contents with a header appended.
pub open spec fn with_added(before: HeaderContents, name: Seq<char>, value: Seq<char>) -> HeaderContents {
    appended(before, canonical_name(encode_utf8(name)), plain_value(encode_utf8(value)))
}

impl ClientConfig {
    /// Create a new client configuration with the given base URI.
    ///
    /// Uses the Connect protocol with protobuf encoding by default.
    pub fn new(base_uri: Uri) -> (config: Self)
        ensures
            config.base_uri == base_uri,
            config.protocol == Protocol::Connect,
            config.codec_format == CodecFormat::Proto,
            config.compression@.providers.dom() == set!["gzip"@, "zstd"@],
            config.compression@.streaming == config.compression@.providers,
            config.compression@.providers["gzip"@] matches Provider::Gzip(p) && p.compression_level()
                == GzipProvider::DEFAULT_LEVEL,
            config.compression@.providers["zstd"@] matches Provider::Zstd(p) && p.compression_level()
                == ZstdProvider::DEFAULT_LEVEL,
            config.request_compression is None,
            config.compression_policy == (CompressionPolicy { min_size: DEFAULT_COMPRESSION_MIN_SIZE, enabled: true }),
            config.default_timeout is None,
            config.default_max_message_size is None,
            config.default_headers@ == no_headers(),
    {
        ClientConfig {
            base_uri,
            protocol: Protocol::Connect,
            codec_format: CodecFormat::Proto,
            compression: CompressionRegistry::default(),
            request_compression: None,
            compression_policy: CompressionPolicy::default(),
            default_timeout: None,
            default_max_message_size: None,
            default_headers: header_map_new(),
        }
    }

    /// Set the wire protocol.
    #[must_use]
    pub fn with_protocol(self, protocol: Protocol) -> (config: Self)
        ensures
            config == (ClientConfig { protocol, ..self }),
    {
        ClientConfig { protocol, ..self }
    }

    /// Set the format of messages.
    #[must_use]
    pub fn with_codec_format(self, format: CodecFormat) -> (config: Self)
        ensures
            config == (ClientConfig { codec_format: format, ..self }),
    {
        ClientConfig { codec_format: format, ..self }
    }

    /// Use JSON messages.
    #[must_use]
    pub fn json(self) -> (config: Self)
        ensures
            config == (ClientConfig { codec_format: CodecFormat::Json, ..self }),
    {
        ClientConfig { codec_format: CodecFormat::Json, ..self }
    }

    /// Use protobuf messages.
    #[must_use]
    pub fn proto(self) -> (config: Self)
        ensures
            config == (ClientConfig { codec_format: CodecFormat::Proto, ..self }),
    {
        ClientConfig { codec_format: CodecFormat::Proto, ..self }
    }

    /// Set the compression registry.
    #[must_use]
    pub fn with_compression(self, registry: CompressionRegistry) -> (config: Self)
        ensures
            config == (ClientConfig { compression: registry, ..self }),
    {
        ClientConfig { compression: registry, ..self }
    }

    /// Compress requests with the given encoding.
    #[must_use]
    pub fn compress_requests<M: IntoMessage>(self, encoding: M) -> (config: Self)
        ensures
            config == (ClientConfig { request_compression: config.request_compression, ..self }),
            config.request_compression matches Some(e) && e@ == encoding.text(),
    {
        ClientConfig { request_compression: Some(encoding.into_message()), ..self }
    }

    /// Set the compression policy.
    #[must_use]
    pub fn with_compression_policy(self, policy: CompressionPolicy) -> (config: Self)
        ensures
            config == (ClientConfig { compression_policy: policy, ..self }),
    {
        ClientConfig { compression_policy: policy, ..self }
    }

    /// Set the timeout of calls that have none of their own.
    #[must_use]
    pub fn with_default_timeout(self, timeout: Duration) -> (config: Self)
        ensures
            config == (ClientConfig { default_timeout: Some(timeout), ..self }),
    {
        ClientConfig { default_timeout: Some(timeout), ..self }
    }

    /// Set the limit on decompressed messages of calls that have none of their
    /// own.
    #[must_use]
    pub fn with_default_max_message_size(self, size: usize) -> (config: Self)
        ensures
            config == (ClientConfig { default_max_message_size: Some(size), ..self }),
    {
        ClientConfig { default_max_message_size: Some(size), ..self }
    }

    /// Add a header for every request. It is ignored where the name or the
    /// value is not valid.
    #[must_use]
    pub fn with_default_header(self, name: &str, value: &str) -> (config: Self)
        ensures
            config == (ClientConfig { default_headers: config.default_headers, ..self }),
            header_added(self.default_headers@, name@, value@, config.default_headers@),
    {
        let mut config = self;
        add_header(&mut config.default_headers, name, value);
        config
    }

    /// Set the headers of every request, in place of any set before.
    #[must_use]
    pub fn with_default_headers(self, headers: HeaderMap) -> (config: Self)
        ensures
            config == (ClientConfig { default_headers: headers, ..self }),
    {
        ClientConfig { default_headers: headers, ..self }
    }

    /// The base URI of the service.
    pub fn base_uri(&self) -> (uri: &Uri)
        ensures
            *uri == self.base_uri,
    {
        &self.base_uri
    }

    /// The wire protocol.
    pub fn protocol(&self) -> (protocol: Protocol)
        ensures
            protocol == self.protocol,
    {
        self.protocol
    }

    /// The format of messages.
    pub fn codec_format(&self) -> (format: CodecFormat)
        ensures
            format == self.codec_format,
    {
        self.codec_format
    }

    /// The encodings.
    pub fn compression(&self) -> (registry: &CompressionRegistry)
        ensures
            *registry == self.compression,
    {
        &self.compression
    }

    /// The encoding of requests, if they are compressed.
    pub fn request_compression(&self) -> (encoding: Option<&str>)
        ensures
            match self.request_compression {
                Some(e) => encoding matches Some(s) && s@ == e@,
                None => encoding is None,
            },
    {
        match &self.request_compression {
            Some(encoding) => Some(encoding.as_str()),
            None => None,
        }
    }

    /// Which messages are compressed.
    pub fn compression_policy(&self) -> (policy: CompressionPolicy)
        ensures
            policy == self.compression_policy,
    {
        self.compression_policy
    }

    /// The timeout of calls that have none of their own.
    pub fn default_timeout(&self) -> (timeout: Option<Duration>)
        ensures
            timeout == self.default_timeout,
    {
        self.default_timeout
    }

    /// The limit on decompressed messages of calls that have none of their
    /// own.
    pub fn default_max_message_size(&self) -> (size: Option<usize>)
        ensures
            size == self.default_max_message_size,
    {
        self.default_max_message_size
    }

    /// The headers of every request.
    pub fn default_headers(&self) -> (headers: &HeaderMap)
        ensures
            *headers == self.default_headers,
    {
        &self.default_headers
    }
}

/// Append a header where its name and its value are valid.
fn add_header(headers: &mut HeaderMap, name: &str, value: &str)
    ensures
        header_added(old(headers)@, name@, value@, final(headers)@),
{
    if let (Some(name), Some(value)) = (
        header_name_from_bytes(name.as_bytes()),
        header_value_from_str(value),
    ) {
        let _ = header_map_try_append(headers, name, value);
    }
}

/// Options of a single call.
///
/// Construct with [`CallOptions::default()`] and the `with_*` builder methods,
/// and read settings back through the accessor methods.
#[derive(Debug)]
#[non_exhaustive]
pub struct CallOptions {
    /// Headers of the request.
    pub headers: HeaderMap,
    /// The timeout of the call.
    pub timeout: Option<Duration>,
    /// The limit on decompressed messages.
    pub max_message_size: Option<usize>,
    /// Whether to compress, whatever the policy says.
    pub compress: Option<bool>,
}

impl Clone for CallOptions {
    fn clone(&self) -> (copy: Self)
        ensures
            copy == (CallOptions { headers: copy.headers, ..*self }),
            copy.headers@ == self.headers@,
    {
        CallOptions {
            headers: header_map_clone(&self.headers),
            timeout: self.timeout,
            max_message_size: self.max_message_size,
            compress: self.compress,
        }
    }
}

impl Default for CallOptions {
    /// Options that set nothing.
    fn default() -> (options: Self)
        ensures
            options.headers@ == no_headers(),
            options.timeout is None,
            options.max_message_size is None,
            options.compress is None,
    {
        CallOptions { headers: header_map_new(), timeout: None, max_message_size: None, compress: None }
    }
}

impl CallOptions {
    /// Set the timeout.
    #[must_use]
    pub fn with_timeout(self, timeout: Duration) -> (options: Self)
        ensures
            options == (CallOptions { timeout: Some(timeout), ..self }),
    {
        CallOptions { timeout: Some(timeout), ..self }
    }

    /// Add a request header. It is ignored where the name or the value is not
    /// valid.
    #[must_use]
    pub fn with_header(self, name: &str, value: &str) -> (options: Self)
        ensures
            options == (CallOptions { headers: options.headers, ..self }),
            header_added(self.headers@, name@, value@, options.headers@),
    {
        let mut options = self;
        add_header(&mut options.headers, name, value);
        options
    }

    /// Add a request header, or report that the name or the value is not valid.
    pub fn try_with_header(self, name: &str, value: &str) -> (r: Result<Self, ConnectError>)
        ensures
            match r {
                Ok(options) => is_header_name(name@) && is_header_value(encode_utf8(value@)) && options == (
                CallOptions { headers: options.headers, ..self }) && header_added(
                    self.headers@,
                    name@,
                    value@,
                    options.headers@,
                ),
                Err(e) => if !is_header_name(name@) {
                    e@ == plain_error(ErrorCode::Internal, "invalid header name"@)
                } else {
                    !is_header_value(encode_utf8(value@)) && e@ == plain_error(
                        ErrorCode::Internal,
                        "invalid header value"@,
                    )
                },
            },
    {
        let header_name = match header_name_from_bytes(name.as_bytes()) {
            Some(n) => n,
            None => return Err(ConnectError::internal("invalid header name")),
        };
        let header_value = match header_value_from_str(value) {
            Some(v) => v,
            None => return Err(ConnectError::internal("invalid header value")),
        };
        let mut options = self;
        let _ = header_map_try_append(&mut options.headers, header_name, header_value);
        Ok(options)
    }

    /// Add the request headers of a list.
    #[must_use]
    pub fn with_headers(self, headers: Vec<(HeaderName, HeaderValue)>) -> (options: Self)
        ensures
            options == (CallOptions { headers: options.headers, ..self }),
            takes(options.headers@, joined_headers(self.headers@, collected(pairs_view(headers@)))),
            part_of(self.headers@, options.headers@),
    {
        let mut options = self;
        crate::headers::append_pairs(&mut options.headers, headers);
        options
    }

    /// Set the limit on decompressed messages, in bytes.
    #[must_use]
    pub fn with_max_message_size(self, size: usize) -> (options: Self)
        ensures
            options == (CallOptions { max_message_size: Some(size), ..self }),
    {
        CallOptions { max_message_size: Some(size), ..self }
    }

    /// Force compression, or disable it, whatever the policy says.
    #[must_use]
    pub fn with_compress(self, enabled: bool) -> (options: Self)
        ensures
            options == (CallOptions { compress: Some(enabled), ..self }),
    {
        CallOptions { compress: Some(enabled), ..self }
    }

    /// Headers of the request. They are merged over those of the protocol, and
    /// can override any of them.
    pub fn headers(&self) -> (headers: &HeaderMap)
        ensures
            *headers == self.headers,
    {
        &self.headers
    }

    /// The timeout of the call.
    pub fn timeout(&self) -> (timeout: Option<Duration>)
        ensures
            timeout == self.timeout,
    {
        self.timeout
    }

    /// The limit on decompressed messages, in bytes.
    pub fn max_message_size(&self) -> (size: Option<usize>)
        ensures
            size == self.max_message_size,
    {
        self.max_message_size
    }

    /// Whether to compress, whatever the policy says.
    pub fn compress(&self) -> (compress: Option<bool>)
        ensures
            compress == self.compress,
    {
        self.compress
    }
}

// ---------------------------------------------------------------------------
// Options over defaults
// ---------------------------------------------------------------------------

/// The first of two choices that is there.
pub open spec fn either<T>(first: Option<T>, second: Option<T>) -> Option<T> {
    match first {
        Some(_) => first,
        None => second,
    }
}

/// Headers of a call over those of every request: a name that the call has
/// keeps only the values of the call.
pub open spec fn merged_headers(defaults: HeaderContents, options: HeaderContents) -> HeaderContents {
    defaults.union_prefer_right(options)
}

/// What a call sets replaces what the configuration sets, header by header and
/// as a whole; what it does not set comes from the configuration.
pub proof fn lemma_merged_headers(defaults: HeaderContents, options: HeaderContents, name: Seq<char>)
    ensures
        options.contains_key(name) ==> merged_headers(defaults, options).contains_key(name) && merged_headers(
            defaults,
            options,
        )[name] == options[name],
        !options.contains_key(name) ==> (merged_headers(defaults, options).contains_key(name)
            <==> defaults.contains_key(name)),
        !options.contains_key(name) && defaults.contains_key(name) ==> merged_headers(defaults, options)[name]
            == defaults[name],
        merged_headers(no_headers(), options) == options,
        merged_headers(defaults, no_headers()) == defaults,
        merged_headers(merged_headers(defaults, options), options) == merged_headers(defaults, options),
{
    assert(merged_headers(no_headers(), options) =~= options);
    assert(merged_headers(defaults, no_headers()) =~= defaults);
    assert(merged_headers(merged_headers(defaults, options), options) =~= merged_headers(defaults, options));
}

/// The options of a call where they are set, and the defaults of the
/// configuration where they are not.
pub fn effective_options(config: &ClientConfig, options: CallOptions) -> (effective: CallOptions)
    ensures
        effective.timeout == either(options.timeout, config.default_timeout),
        effective.max_message_size == either(options.max_message_size, config.default_max_message_size),
        effective.compress == options.compress,
        takes(effective.headers@, merged_headers(config.default_headers@, options.headers@)),
{
    CallOptions {
        timeout: match options.timeout {
            Some(t) => Some(t),
            None => config.default_timeout,
        },
        max_message_size: match options.max_message_size {
            Some(s) => Some(s),
            None => config.default_max_message_size,
        },
        compress: options.compress,
        headers: merge_headers(&config.default_headers, options.headers),
    }
}

/// The headers of a call over those of every request. Nothing is said of more
/// names than a collection is sure to take.
pub fn merge_headers(config_defaults: &HeaderMap, options: HeaderMap) -> (merged: HeaderMap)
    ensures
        takes(merged@, merged_headers(config_defaults@, options@)),
{
    proof {
        lemma_merged_headers(config_defaults@, options@, Seq::empty());
    }
    if header_map_is_empty(config_defaults) {
        return options;
    }
    if header_map_is_empty(&options) {
        return header_map_clone(config_defaults);
    }
    let mut merged = header_map_clone(config_defaults);
    remove_all(&mut merged, &options);
    proof {
        let kept = merged@;
        let whole = joined_headers(kept, options@);
        assert forall|name: Seq<char>| whole.contains_key(name) implies whole[name] == merged_headers(
            config_defaults@,
            options@,
        )[name] by {
            assert(whole[name] =~= merged_headers(config_defaults@, options@)[name]);
        }
        assert(whole =~= merged_headers(config_defaults@, options@));
    }
    append_all(&mut merged, &options);
    merged
}

} // verus!
