//! Failures that abort an invocation.
use vstd::prelude::*;

verus! {

/// Bytes that are not the encoding of any value of the expected type.
#[derive(Debug, Clone, Copy, PartialEq, Eq, Structural)]
pub enum DecodeError {
    Malformed,
}

/// A value that has no encoding.
#[derive(Debug, Clone, Copy, PartialEq, Eq, Structural)]
pub enum EncodeError {
    /// The string is longer than a 32-bit length prefix can express.
    TooLong,
}

/// A request made outside the prepare phase, a phase change that the state
/// machine does not have, or a lookup of a slot that was never requested.
#[derive(Debug, Clone, Copy, PartialEq, Eq, Structural)]
pub enum RegistryMisuseError {
    Misuse,
}

/// Failure of the report aggregation step.
#[derive(Debug, Clone, Copy, PartialEq, Eq, Structural)]
pub enum AggregationError {
    /// No decoded report value occurs strictly more often than every other value.
    NoMajority,
}

/// Everything that can end an invocation without a result.
#[derive(Debug, Clone, Copy, PartialEq, Eq, Structural)]
pub enum ScriptError {
    Decode(DecodeError),
    Encode(EncodeError),
    RegistryMisuse(RegistryMisuseError),
    Aggregation(AggregationError),
}

} // verus!
