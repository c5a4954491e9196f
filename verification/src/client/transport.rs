//! What a transport is set up with, and what its failures mean.
use std::time::Duration;
use vstd::prelude::*;

use crate::error::plain_error;
use crate::error::ConnectError;
use crate::error::ErrorCode;
use crate::error::ErrorView;
use crate::text::str_eq;
use crate::time::duration_nanos;
use crate::time::finite;
use crate::time::finite_duration;

verus! {

/// A transport made of a service that answers HTTP requests.
#[derive(Clone)]
pub struct ServiceTransport<S> {
    /// The service.
    pub service: S,
}

impl<S> ServiceTransport<S> {
    /// Create a transport of a service.
    pub fn new(service: S) -> (transport: Self)
        ensures
            transport.service == service,
    {
        ServiceTransport { service }
    }

    /// The service.
    pub fn inner(&self) -> (service: &S)
        ensures
            *service == self.service,
    {
        &self.service
    }

    /// The service, to be changed.
    pub fn inner_mut(&mut self) -> (service: &mut S)
        ensures
            *service == old(self).service,
            final(self).service == *final(service),
    {
        &mut self.service
    }

    /// Only the service.
    pub fn into_inner(self) -> (service: S)
        ensures
            service == self.service,
    {
        self.service
    }
}

/// The connection options of an HTTP client.
#[derive(Debug, Clone, Copy)]
#[must_use]
pub struct HttpClientBuilder {
    /// The bound on connecting to each address.
    pub tcp_connect_timeout: Option<Duration>,
    /// The bound on name resolution, connecting and the TLS handshake together.
    pub establishment_timeout: Option<Duration>,
}

/// The bound on connecting to each address unless another is set, in seconds.
pub const DEFAULT_TCP_CONNECT_SECONDS: u64 = 10;

/// The bound on establishing a connection unless another is set, in seconds.
pub const DEFAULT_ESTABLISHMENT_SECONDS: u64 = 20;

impl Default for HttpClientBuilder {
    /// Options with both bounds preset, so that a server that hangs cannot hold
    /// up a connection for ever.
    fn default() -> (builder: Self)
        ensures
            builder.tcp_connect_timeout matches Some(d) && duration_nanos(d) == DEFAULT_TCP_CONNECT_SECONDS
                * 1_000_000_000,
            builder.establishment_timeout matches Some(d) && duration_nanos(d) == DEFAULT_ESTABLISHMENT_SECONDS
                * 1_000_000_000,
    {
        HttpClientBuilder {
            tcp_connect_timeout: Some(Duration::from_secs(DEFAULT_TCP_CONNECT_SECONDS)),
            establishment_timeout: Some(Duration::from_secs(DEFAULT_ESTABLISHMENT_SECONDS)),
        }
    }
}

impl HttpClientBuilder {
    /// Options with the given bounds.
    pub fn new(tcp_connect_timeout: Option<Duration>, establishment_timeout: Option<Duration>) -> (builder: Self)
        ensures
            builder == (HttpClientBuilder { tcp_connect_timeout, establishment_timeout }),
    {
        HttpClientBuilder { tcp_connect_timeout, establishment_timeout }
    }

    /// Bound connecting to each address. The longest duration there is is no
    /// bound.
    pub fn tcp_connect_timeout(self, dur: Duration) -> (builder: Self)
        ensures
            builder == (HttpClientBuilder { tcp_connect_timeout: finite_duration(dur), ..self }),
    {
        HttpClientBuilder { tcp_connect_timeout: finite(dur), ..self }
    }

    /// Another name for [`tcp_connect_timeout`](Self::tcp_connect_timeout).
    pub fn connect_timeout(self, dur: Duration) -> (builder: Self)
        ensures
            builder == (HttpClientBuilder { tcp_connect_timeout: finite_duration(dur), ..self }),
    {
        self.tcp_connect_timeout(dur)
    }

    /// Do not bound connecting to each address.
    pub fn no_tcp_connect_timeout(self) -> (builder: Self)
        ensures
            builder == (HttpClientBuilder { tcp_connect_timeout: None, ..self }),
    {
        HttpClientBuilder { tcp_connect_timeout: None, ..self }
    }

    /// Bound name resolution, connecting and the TLS handshake together. The
    /// longest duration there is is no bound.
    pub fn establishment_timeout(self, dur: Duration) -> (builder: Self)
        ensures
            builder == (HttpClientBuilder { establishment_timeout: finite_duration(dur), ..self }),
    {
        HttpClientBuilder { establishment_timeout: finite(dur), ..self }
    }

    /// Do not bound name resolution, connecting and the TLS handshake.
    pub fn no_establishment_timeout(self) -> (builder: Self)
        ensures
            builder == (HttpClientBuilder { establishment_timeout: None, ..self }),
    {
        HttpClientBuilder { establishment_timeout: None, ..self }
    }
}

/// The text for a URI whose scheme asks for encryption, where there is none.
pub open spec fn needs_tls_text() -> Seq<char> {
    "HttpClient::plaintext() received https:// URI; use HttpClient::with_tls for TLS"@
}

/// The text for a URI whose scheme asks for no encryption, where there is some.
pub open spec fn needs_plaintext_text() -> Seq<char> {
    "HttpClient::with_tls() received http:// URI; use HttpClient::plaintext for cleartext"@
}

/// Whether a client may send to a URI with the given scheme: neither without
/// encryption where the URI asks for it, nor with encryption where it does not.
pub open spec fn scheme_outcome(tls: bool, scheme: Option<Seq<char>>) -> Result<(), ErrorView> {
    if !tls && scheme == Some("https"@) {
        Err(plain_error(ErrorCode::InvalidArgument, needs_tls_text()))
    } else if tls && scheme == Some("http"@) {
        Err(plain_error(ErrorCode::InvalidArgument, needs_plaintext_text()))
    } else {
        Ok(())
    }
}

/// Refuse a URI whose scheme does not go with the client.
pub fn check_scheme(tls: bool, scheme: Option<&str>) -> (r: Result<(), ConnectError>)
    ensures
        crate::envelope::encoder::unit_view(r) == scheme_outcome(tls, crate::client::request::opt_str(scheme)),
{
    let found = match scheme {
        Some(s) => s,
        None => return Ok(()),
    };
    if !tls && str_eq(found, "https") {
        return Err(
            ConnectError::invalid_argument(
                "HttpClient::plaintext() received https:// URI; use HttpClient::with_tls for TLS",
            ),
        );
    }
    if tls && str_eq(found, "http") {
        return Err(
            ConnectError::invalid_argument(
                "HttpClient::with_tls() received http:// URI; use HttpClient::plaintext for cleartext",
            ),
        );
    }
    Ok(())
}

/// The error for a request that could not be sent: the error of a call that the
/// failure carries, as it is, or else one that says what happened.
pub open spec fn send_error(found: Option<ErrorView>, context: Seq<char>, shown: Seq<char>) -> ErrorView {
    match found {
        Some(e) => e,
        None => plain_error(ErrorCode::Unavailable, context + ": "@ + shown),
    }
}

/// Report a request that could not be sent. `found` is the error of a call that
/// the failure carries, if it carries one, and `shown` is the failure as text.
pub fn map_transport_send_error(found: Option<ConnectError>, context: &str, shown: &str) -> (e: ConnectError)
    ensures
        e@ == send_error(crate::client::status::opt_error(found), context@, shown@),
{
    match found {
        Some(e) => e,
        None => {
            let mut text = context.to_owned();
            text.push_str(": ");
            text.push_str(shown);
            ConnectError::unavailable(text)
        },
    }
}

} // verus!
