use vstd::prelude::*;

verus! {

/// Why a token or a response could not be parsed.
#[derive(Debug, Clone, Copy, PartialEq, Eq, Structural)]
pub enum HDDTempError {
    /// A unit or result token is not one of the protocol's codes.
    InvalidFormat,
    /// The response does not start with the separator.
    MissingStartDelimiter,
    /// The response (after its leading separator) does not end with the separator.
    MissingEndDelimiter,
}

} // verus!
