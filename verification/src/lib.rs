//! Two-phase oracle script for the hash of a Bitcoin block.
//!
//! A script runs as two separate invocations over the same encoded input.
//! The prepare phase decodes the input and registers the external data
//! requests it needs. The execute phase reads the reports that were
//! collected for those requests, reduces them to one value by majority
//! vote, and returns the encoded output.
pub mod error;
pub mod codec;
pub mod registry;
pub mod reports;
pub mod script;
