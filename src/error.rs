use vstd::prelude::*;

verus! {

/// hyper's transport error, carried through unopened.
#[verifier::external_type_specification]
#[verifier::external_body]
pub struct ExHyperError(hyper::Error);

/// http's error for a request or header that could not be built, carried
/// through unopened.
#[verifier::external_type_specification]
#[verifier::external_body]
pub struct ExHttpError(http::Error);

/// std's I/O error, for a body that could not be read, carried through
/// unopened.
#[verifier::external_type_specification]
#[verifier::external_body]
pub struct ExIoError(std::io::Error);

/// serde_json's decoding error, carried through unopened.
#[verifier::external_type_specification]
#[verifier::external_body]
pub struct ExJsonError(serde_json::Error);

/// What ends a stream early.
#[derive(Debug)]
#[non_exhaustive]
pub enum JsonStreamError {
    /// The transport failed.
    HyperError(hyper::Error),
    /// The request or a header could not be built.
    HttpError(http::Error),
    /// The body could not be read.
    IOError(std::io::Error),
    /// An element was not valid JSON.
    JsonError(serde_json::Error),
    /// The server answered with this status and this body text.
    ApiError(u16, String),
    /// The body of an error response was not valid text.
    MalformedJson(String),
    /// The compressed body could not be inflated.
    EncodingError(String),
}

} // verus!
