//! Differentially-private training bookkeeping for a neural-network module.
//!
//! The crate tracks a per-module privacy context (privacy-loss parameter,
//! batch sampling rate, empty guard token) that a forward pass publishes and
//! that the private parameter-update path consumes, and it provides a
//! checkpoint codec that round-trips the trainable state of a module through
//! a length-prefixed byte stream.

pub mod codec;
pub mod encoding;
pub mod forward;
pub mod module;
pub mod params;
pub mod privacy;
pub mod rational;
pub mod stream;
pub mod tensor;

use vstd::prelude::*;

verus! {

/// The failure taxonomy of this crate.
///
/// Every fallible operation reports one of these; none is silently swallowed.
#[derive(Clone, Copy, Debug, PartialEq, Eq, Structural)]
pub enum Error {
    /// A serialized artifact or stream is malformed or empty.
    FileFormat,
    /// The computation graph cannot run on the given tensors.
    GraphError,
    /// A caller supplied a non-positive privacy parameter or an invalid value.
    InvalidArgument,
    /// An update step was attempted against an unset privacy context.
    LogicError,
    /// A checkpoint could not be laid out as bytes or reloaded into a store.
    SerializationError,
}

} // verus!
