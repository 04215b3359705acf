//! Request profiles, override tokens, response normalisation and text diffs
//! for comparing HTTP APIs.

pub mod cli;
pub mod config;
pub mod diff;
pub mod headers;
pub mod json;
pub mod profile;
pub mod response;
pub mod text;


use vstd::prelude::*;

pub use cli::{parse_key_val, Action, Args, KeyVal, KeyValType, RunArgs};
pub use config::{is_default, DiffConfig, DiffProfile, RequestConfig, ResponseProfile, Validateable};
pub use diff::diff_text;
pub use headers::Headers;
pub use json::{JsonDoc, JsonField, JsonObject};
pub use profile::{Method, RequestProfile};
pub use response::{get_body_text, get_headers_text, get_status_text, ResponseExt};

verus! {

/// Overrides supplied at invocation time, split by their target.
#[derive(Debug, Default, Clone)]
pub struct ExtraArgs {
    pub query: Vec<(String, String)>,
    pub header: Vec<(String, String)>,
    pub body: Vec<(String, String)>,
}

/// The ways in which the library's operations fail.
#[derive(Debug)]
pub enum ErrorKind {
    /// An override token is not of the form `[@|%]key=value`.
    InvalidOverride,
    /// A URL could not be parsed.
    UrlParse,
    /// `params` or `body` of a request profile is not an object.
    InvalidShape(ShapeField),
    /// One request of a diff profile failed its validation.
    InvalidRequest(Side, ShapeField),
    /// The named profile of a configuration failed its validation.
    ConfigValidation(String, Box<ErrorKind>),
    /// A header override has an invalid name or value.
    InvalidHeader,
    /// The request's content type has no body encoding.
    UnsupportedContentType,
    /// A body or query could not be encoded.
    Encode,
    /// A body declared as JSON could not be decoded.
    BodyDecode,
}

/// Which object-valued field of a request profile is meant.
#[derive(Debug, Clone, Copy, PartialEq, Eq, Structural)]
pub enum ShapeField {
    Params,
    Body,
}

/// Which request of a diff profile is meant.
#[derive(Debug, Clone, Copy, PartialEq, Eq, Structural)]
pub enum Side {
    Req1,
    Req2,
}

} // verus!
