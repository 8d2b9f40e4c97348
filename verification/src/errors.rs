//! Application-level error values carried through the signal-result
//! aggregator.

use vstd::prelude::*;

verus! {

/// A domain error surfaced by a reactive source. These flow through the
/// aggregator as ordinary data, accumulated in order, never raised.
#[derive(Clone, Copy, Debug, PartialEq, Eq, Structural)]
pub enum AppError {
    /// The requested page or record does not exist.
    PageNotFound,
    /// A submitted value failed validation.
    ValidationFailed,
}

/// An unrecoverable encoding failure at the routing boundary, distinct
/// from the recoverable domain errors above: there is no safe fallback
/// rendering for a path that cannot be read back as a URI.
#[derive(Clone, Copy, Debug, PartialEq, Eq, Structural)]
pub enum EncodingFailure {
    /// The rendered path string was not accepted by the URI parser.
    InvalidUri,
}

} // verus!
