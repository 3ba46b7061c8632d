//! Reduction stage of a chain-indexing pipeline: turns decoded blocks and
//! their resolved spending context into idempotent set-update commands for an
//! external key-value index.

use vstd::prelude::*;

pub mod codec;
pub mod crosscut;
pub mod fingerprint;
pub mod model;
pub mod policy_json;
pub mod reducer_state;
pub mod reducers;
pub mod store;
pub mod text;

verus! {

/// Errors raised while loading or reloading a policy allow-list.
#[derive(Clone, Copy, Debug, PartialEq, Eq, Structural)]
pub enum ConfigError {
    /// The config file could not be read at all.
    Missing,
    /// The config file was present but zero-length.
    Empty,
    /// The config file did not hold the expected JSON document.
    Invalid,
    /// An entry of the list was not a hex-encoded 28-byte hash.
    BadPolicyId,
}

/// Errors raised while computing an asset fingerprint.
#[derive(Clone, Copy, Debug, PartialEq, Eq, Structural)]
pub enum EncodingError {
    /// An input to the fingerprint was not a valid hex string.
    BadHex,
    /// The final textual encoding of the digest failed.
    BadEncoding,
}

} // verus!
