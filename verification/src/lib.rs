//! Types and request shapes for the `reth_` Ethereum JSON-RPC namespace.
pub mod codec;
pub mod hex;
pub mod json;
pub mod provider;
pub mod status;
pub mod types;

pub use json::{JsonNumber, JsonValue};
pub use provider::Sealed;
pub use types::{
    BigBlockData, CanonStateNotification, GetBlockExecutionOutcomeParams, RethBigBlockData,
    RethNewPayloadInput, RethNewPayloadParams, RethPayloadStatus,
};
