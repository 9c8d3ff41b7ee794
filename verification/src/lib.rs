//! Verified core of a client for a daily "tempo" tariff-color REST API.
//!
//! The library holds the logic of the authenticated-request pipeline: decoding
//! a credential blob, deciding when a bearer token must be refreshed,
//! classifying an HTTP response, normalizing the ambiguous response shape
//! (one object or an array of objects), and the calendar domain model with its
//! derived views. The HTTP, OAuth2 and file plumbing around it lives in the
//! accompanying application crate, which hands plain values in and out.

use vstd::prelude::*;

pub mod creds;
pub mod http;
pub mod json;
pub mod model;
pub mod strutil;
pub mod time;
pub mod token;

pub use model::{CalendarValue, TempoCalendars, TempoColor};

verus! {

/// Something went wrong while using the API.
#[derive(Debug, Clone, PartialEq, Eq)]
pub enum ApiError {
    /// The OAuth2 token exchange failed; the payload carries the reported
    /// message.
    OAuth2(String),
    /// The HTTP transport failed; the payload carries the reported message.
    Reqwest(String),
    /// A response body was not the JSON shape the call expects.
    SerdeJson,
    /// The server reported a structured application error.
    BadRequest {
        /// Error's description.
        description: String,
        /// Error code.
        code: String,
    },
    /// The credential blob could not be decoded.
    BadCredendials(creds::BadCreds),
}

} // verus!
