//! The state that travels with a request through a proxy, and the directives that a client
//! can put into the username that it authenticates with.
//!
//! - [`context`]: the data that goes with one request, at most one value per type.
//! - [`username`]: usernames such as `john-residential-country-us`, cut into an identity and
//!   labels, and the parsers that read the labels.
//! - [`parsers`]: the parser that drops every label, and the one that keeps them all.
//! - [`compose`]: several parsers as one, where all of them see a label or the first that
//!   uses it takes it.
//! - [`text`]: cutting a text at a separator.
//! - [`forwarded`]: the `X-Forwarded-Proto` header.
//! - [`entry`]: the rules of the attribute that makes an `async fn` an entry point.

pub mod compose;
pub mod context;
pub mod entry;
pub mod forwarded;
pub mod parsers;
pub mod text;
pub mod username;
