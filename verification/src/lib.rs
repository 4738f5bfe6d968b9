//! A verified core for a streaming HTTP client in the style of the Twitter
//! Streaming API: it builds OAuth1-signed requests, validates the response
//! status, supervises idleness with a resettable timeout, optionally inflates
//! a gzip-compressed body, and frames the byte stream into newline-delimited
//! JSON messages, skipping blank keep-alive lines.
//!
//! All I/O (sockets, clocks, sleeping) lives outside this crate; the crate
//! exposes the decision logic as pure, contracted functions and state
//! machines that a driver feeds with events.

pub mod token;
pub mod error;
pub mod types;
pub mod lines;
pub mod filter;
pub mod timeout;
pub mod encode;
pub mod sign;
pub mod builder;
pub mod gzip;
pub mod stream;
pub mod head;
pub mod auth;

pub use auth::OAuthHeaderWrapper;
pub use builder::{BoundingBox, SignedRequest, TwitterStreamBuilder};
pub use error::Error;
pub use gzip::GzipDecoder;
pub use lines::LineFramer;
pub use stream::{StreamState, TwitterStream};
pub use timeout::Timeout;
pub use token::Token;
pub use types::{FilterLevel, Never, RequestMethod};
