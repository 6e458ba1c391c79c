use vstd::prelude::*;

verus! {

/// The errors a caller can receive: a failed HTTP exchange, a malformed or
/// unrecognized wire value, or the failure of one branch of a fanned-out
/// enumeration, wrapped so the caller can tell the three apart.
#[derive(Debug, PartialEq, Eq)]
pub enum ApiError {
    /// The transport reported a network or HTTP-status failure.
    Transport(String),
    /// A wire value could not be decoded, e.g. an unmapped permission string.
    Decode(String),
    /// At least one branch of a parallel enumeration failed; wraps the
    /// error of the first failing branch in branch order.
    Aggregate(Box<ApiError>),
}

} // verus!
