//! Errors of the codec layers.

use vstd::prelude::*;

verus! {

/// Failure to decode a ticket token or a wire envelope.
///
/// `Base32` covers a token outside the base-32 alphabet or otherwise not a
/// canonical encoding; `Structure` covers well-formed bytes that do not parse
/// as the expected shape; `Utf8` covers a text payload that is not valid
/// UTF-8. No variant carries a partial result.
#[derive(Debug, Clone, Copy, PartialEq, Eq)]
pub enum DecodeError {
    Base32,
    Structure,
    Utf8,
}

} // verus!
