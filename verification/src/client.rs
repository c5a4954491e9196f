//! The client side of the protocols: how requests are made up and how
//! responses are read.

pub mod bidi;
pub mod body;
pub mod client_stream;
pub mod config;
pub mod grpc_unary;
pub mod request;
pub mod status;
pub mod stream;
pub mod timeout;
pub mod trailers;
pub mod transport;
pub mod unary;

pub use self::bidi::BidiRecvHalf;
pub use self::bidi::BidiSendHalf;
pub use self::bidi::BidiStream;
pub use self::config::CallOptions;
pub use self::config::ClientConfig;
pub use self::stream::ServerStream;
pub use self::transport::HttpClientBuilder;
pub use self::transport::ServiceTransport;
pub use self::unary::UnaryResponse;
