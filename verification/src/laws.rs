//! What holds of the library as a whole: laws over all inputs, each of them
//! proved from what the functions themselves promise.

pub mod calls;
pub mod codes;
pub mod coding;
pub mod connect;
pub mod deadlines;
pub mod details;
pub mod framing;
pub mod options;
pub mod protocols;
pub mod requests;
pub mod sending;
pub mod statuses;
pub mod streams;
pub mod texts;
pub mod timeouts;
pub mod trailers;
pub mod views;
