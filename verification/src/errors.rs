//! The failure conditions this library reports.

use vstd::prelude::*;

verus! {

/// Every way constructing or decoding a signal generator can fail.
/// Decode failures name the field concerned.
#[derive(Debug, Clone, PartialEq, Eq)]
pub enum SignalError {
    /// The minimum bound lies above the maximum bound.
    InvalidRange,
    /// A signal-type string matches none of the five canonical names.
    InvalidSignalType,
    /// A required record field never appeared.
    MissingField(String),
    /// A record field appeared more than once.
    DuplicateField(String),
    /// A record field name matches no field of the canonical record.
    UnknownField(String),
    /// A record field carried a value of the wrong kind.
    InvalidFieldValue(String),
    /// A positional record did not carry exactly ten values.
    InvalidLength,
}

} // verus!
