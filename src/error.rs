use vstd::prelude::*;

verus! {

/// The conditions under which decoding, reconstruction or extraction fails.
#[derive(Debug, Clone, PartialEq, Eq, Structural)]
pub enum YahooError {
    /// The expected structure is absent: unknown ticker, or a changed shape.
    SchemaMismatch,
    /// A required array is absent while its siblings are present.
    MissingField,
    /// Every candidate point is null.
    NoValidQuote,
    /// The page does not hold the marker that precedes the embedded document.
    MarkerNotFound,
    /// The marker was found but the statement that it opens is never closed.
    MalformedDocument,
    /// The embedded payload was located but could not be parsed.
    InvalidJson,
    /// A `raw` value had an unexpected JSON type.
    TypeMismatch,
    /// The transport could not reach the service.
    ConnectionFailed,
    /// The service answered with a status other than success.
    FetchFailed,
}

} // verus!
