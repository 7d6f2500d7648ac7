//! Types for the `reth_` RPC namespace.
//!
//! Byte strings are held as `Vec<u8>` and block hashes as `[u8; 32]`; on the
//! wire both are `0x`-prefixed hex (see `codec`).
use vstd::prelude::*;

use crate::json::JsonValue;

verus! {

/// The payload status of `alloy-rpc-types-engine`, carried as is.
#[verifier::external_type_specification]
#[verifier::external_body]
pub struct ExPayloadStatus(alloy_rpc_types_engine::PayloadStatus);

/// `Clone` of `alloy-rpc-types-engine`'s payload status, which is derived there.
/// Nothing is stated of the copy it returns.
pub assume_specification[ <alloy_rpc_types_engine::PayloadStatus as std::clone::Clone>::clone ](
    status: &alloy_rpc_types_engine::PayloadStatus,
) -> alloy_rpc_types_engine::PayloadStatus;

/// A block identifier of `alloy-eips`, carried as is.
#[verifier::external_type_specification]
#[verifier::external_body]
pub struct ExBlockId(alloy_eips::BlockId);

/// A 32-byte block hash.
pub type B256 = [u8; 32];

/// Big-block execution data accepted by `reth_newPayload`.
#[derive(Clone, Debug, PartialEq, Eq)]
pub struct BigBlockData<ExecutionData> {
    /// Execution data for each constituent environment in the big block.
    pub env_switches: Vec<ExecutionData>,
    /// Block numbers and hashes preceding the big block.
    pub prior_block_hashes: Vec<(u64, B256)>,
    /// Number of the big block.
    pub block_number: u64,
    /// Optional merged block access list.
    pub merged_block_access_list: Option<Vec<u8>>,
}

/// Compatibility alias for [`BigBlockData`].
pub type RethBigBlockData<ExecutionData> = BigBlockData<ExecutionData>;

/// The content of big-block data.
pub struct BigBlockModel<D> {
    pub env_switches: Seq<D>,
    pub prior_block_hashes: Seq<(u64, Seq<u8>)>,
    pub block_number: u64,
    pub merged_block_access_list: Option<Seq<u8>>,
}

/// The content of an optional byte string.
pub open spec fn opt_bytes_view(b: Option<Vec<u8>>) -> Option<Seq<u8>> {
    match b {
        Some(v) => Some(v@),
        None => None,
    }
}

impl<E: View> View for BigBlockData<E> {
    type V = BigBlockModel<E::V>;

    open spec fn view(&self) -> BigBlockModel<E::V> {
        BigBlockModel {
            env_switches: Seq::new(self.env_switches.len() as nat, |i: int| self.env_switches[i]@),
            prior_block_hashes: Seq::new(
                self.prior_block_hashes.len() as nat,
                |i: int| (self.prior_block_hashes[i].0, self.prior_block_hashes[i].1@),
            ),
            block_number: self.block_number,
            merged_block_access_list: opt_bytes_view(self.merged_block_access_list),
        }
    }
}

impl<ExecutionData> BigBlockData<ExecutionData> {
    /// Creates big-block data without a merged block access list.
    pub fn new(
        env_switches: Vec<ExecutionData>,
        prior_block_hashes: Vec<(u64, B256)>,
        block_number: u64,
    ) -> (r: Self)
        ensures
            r == (BigBlockData {
                env_switches,
                prior_block_hashes,
                block_number,
                merged_block_access_list: None,
            }),
    {
        BigBlockData { env_switches, prior_block_hashes, block_number, merged_block_access_list: None }
    }

    /// Sets the merged block access list.
    pub fn with_merged_block_access_list(self, bal: Vec<u8>) -> (r: Self)
        ensures
            r == (BigBlockData { merged_block_access_list: Some(bal), ..self }),
    {
        let mut this = self;
        this.merged_block_access_list = Some(bal);
        this
    }
}

/// The input to `reth_newPayload`.
///
/// Reth accepts standard execution data, big-block execution data, and raw
/// RLP-encoded blocks. Raw blocks are sent as a legacy bare byte string when no
/// block access list is present, and as an object containing `block` and `bal`
/// when one is present.
#[derive(Clone, Debug)]
pub enum RethNewPayloadInput<ExecutionData> {
    /// Standard execution data (payload + sidecar).
    ExecutionData(ExecutionData),
    /// Big-block execution data.
    BigBlockData(Box<BigBlockData<ExecutionData>>),
    /// Raw RLP-encoded block bytes and an optional merged block access list.
    BlockRlp {
        /// RLP-encoded block bytes.
        block: Vec<u8>,
        /// Optional merged block access list bytes.
        bal: Option<Vec<u8>>,
    },
}

/// The content of a `reth_newPayload` input.
pub enum PayloadInputModel<D> {
    ExecutionData(D),
    BigBlockData(BigBlockModel<D>),
    BlockRlp { block: Seq<u8>, bal: Option<Seq<u8>> },
}

impl<E: View> View for RethNewPayloadInput<E> {
    type V = PayloadInputModel<E::V>;

    open spec fn view(&self) -> PayloadInputModel<E::V> {
        match self {
            RethNewPayloadInput::ExecutionData(d) => PayloadInputModel::ExecutionData(d@),
            RethNewPayloadInput::BigBlockData(b) => PayloadInputModel::BigBlockData(b@),
            RethNewPayloadInput::BlockRlp { block, bal } => PayloadInputModel::BlockRlp {
                block: block@,
                bal: opt_bytes_view(*bal),
            },
        }
    }
}

impl<E> RethNewPayloadInput<E> {
    /// Creates a new [`RethNewPayloadInput`] from execution data.
    pub fn execution_data(data: E) -> (r: Self)
        ensures
            r == RethNewPayloadInput::ExecutionData(data),
    {
        RethNewPayloadInput::ExecutionData(data)
    }

    /// Creates a new [`RethNewPayloadInput`] from big-block execution data.
    pub fn big_block_data(data: BigBlockData<E>) -> (r: Self)
        ensures
            r == RethNewPayloadInput::BigBlockData(Box::new(data)),
    {
        RethNewPayloadInput::BigBlockData(Box::new(data))
    }

    /// Creates a new [`RethNewPayloadInput`] from raw RLP-encoded block bytes.
    pub fn block_rlp(bytes: Vec<u8>) -> (r: Self)
        ensures
            r == (RethNewPayloadInput::<E>::BlockRlp { block: bytes, bal: None }),
    {
        RethNewPayloadInput::BlockRlp { block: bytes, bal: None }
    }

    /// Creates a new [`RethNewPayloadInput`] from raw RLP bytes and a block access list.
    pub fn block_rlp_with_bal(block: Vec<u8>, bal: Vec<u8>) -> (r: Self)
        ensures
            r == (RethNewPayloadInput::<E>::BlockRlp { block, bal: Some(bal) }),
    {
        RethNewPayloadInput::BlockRlp { block, bal: Some(bal) }
    }
}

/// Parameters for `reth_newPayload`.
#[derive(Clone, Debug)]
#[non_exhaustive]
pub struct RethNewPayloadParams<E = JsonValue> {
    /// The payload input.
    pub payload: RethNewPayloadInput<E>,
    /// Whether to wait for persistence before returning.
    pub wait_for_persistence: Option<bool>,
    /// Whether to wait for caches before returning.
    pub wait_for_caches: Option<bool>,
}

impl<E> RethNewPayloadParams<E> {
    /// Creates new [`RethNewPayloadParams`] with the given payload input.
    pub fn new(payload: RethNewPayloadInput<E>) -> (r: Self)
        ensures
            r == (RethNewPayloadParams {
                payload,
                wait_for_persistence: None,
                wait_for_caches: None,
            }),
    {
        RethNewPayloadParams { payload, wait_for_persistence: None, wait_for_caches: None }
    }

    /// Sets whether to wait for persistence.
    pub fn with_wait_for_persistence(self, wait: bool) -> (r: Self)
        ensures
            r == (RethNewPayloadParams { wait_for_persistence: Some(wait), ..self }),
    {
        let mut this = self;
        this.wait_for_persistence = Some(wait);
        this
    }

    /// Sets whether to wait for caches.
    pub fn with_wait_for_caches(self, wait: bool) -> (r: Self)
        ensures
            r == (RethNewPayloadParams { wait_for_caches: Some(wait), ..self }),
    {
        let mut this = self;
        this.wait_for_caches = Some(wait);
        this
    }
}

impl<E> From<RethNewPayloadInput<E>> for RethNewPayloadParams<E> {
    fn from(payload: RethNewPayloadInput<E>) -> (r: Self)
        ensures
            r.payload == payload,
            r.wait_for_persistence is None,
            r.wait_for_caches is None,
    {
        Self::new(payload)
    }
}

impl<E> vstd::std_specs::convert::FromSpecImpl<RethNewPayloadInput<E>> for RethNewPayloadParams<E> {
    open spec fn obeys_from_spec() -> bool {
        true
    }

    open spec fn from_spec(payload: RethNewPayloadInput<E>) -> Self {
        RethNewPayloadParams { payload, wait_for_persistence: None, wait_for_caches: None }
    }
}

/// Extended payload status returned by `reth_newPayload`: the standard payload
/// status with server-side timing information.
#[derive(Clone, Debug)]
#[non_exhaustive]
pub struct RethPayloadStatus {
    /// The standard payload status.
    pub status: alloy_rpc_types_engine::PayloadStatus,
    /// Total execution latency in microseconds.
    pub latency_us: u64,
    /// Time spent waiting for persistence in microseconds, if applicable.
    pub persistence_wait_us: Option<u64>,
    /// Time spent waiting for the execution cache lock in microseconds, if applicable.
    pub execution_cache_wait_us: Option<u64>,
    /// Time spent waiting for the sparse trie lock in microseconds, if applicable.
    pub sparse_trie_wait_us: Option<u64>,
}

impl RethPayloadStatus {
    /// Creates a new [`RethPayloadStatus`] with the given status and latency.
    pub fn new(status: alloy_rpc_types_engine::PayloadStatus, latency_us: u64) -> (r: Self)
        ensures
            r == (RethPayloadStatus {
                status,
                latency_us,
                persistence_wait_us: None,
                execution_cache_wait_us: None,
                sparse_trie_wait_us: None,
            }),
    {
        RethPayloadStatus {
            status,
            latency_us,
            persistence_wait_us: None,
            execution_cache_wait_us: None,
            sparse_trie_wait_us: None,
        }
    }

    /// Sets the persistence wait time.
    pub fn with_persistence_wait_us(self, us: u64) -> (r: Self)
        ensures
            r == (RethPayloadStatus { persistence_wait_us: Some(us), ..self }),
    {
        let mut this = self;
        this.persistence_wait_us = Some(us);
        this
    }

    /// Sets the execution cache wait time.
    pub fn with_execution_cache_wait_us(self, us: u64) -> (r: Self)
        ensures
            r == (RethPayloadStatus { execution_cache_wait_us: Some(us), ..self }),
    {
        let mut this = self;
        this.execution_cache_wait_us = Some(us);
        this
    }

    /// Sets the sparse trie wait time.
    pub fn with_sparse_trie_wait_us(self, us: u64) -> (r: Self)
        ensures
            r == (RethPayloadStatus { sparse_trie_wait_us: Some(us), ..self }),
    {
        let mut this = self;
        this.sparse_trie_wait_us = Some(us);
        this
    }
}

impl AsRef<alloy_rpc_types_engine::PayloadStatus> for RethPayloadStatus {
    fn as_ref(&self) -> (r: &alloy_rpc_types_engine::PayloadStatus)
        ensures
            r == &self.status,
    {
        &self.status
    }
}

/// Parameters for `reth_getBlockExecutionOutcome`.
#[derive(Clone, Copy, Debug)]
#[non_exhaustive]
pub struct GetBlockExecutionOutcomeParams {
    /// The block identifier.
    pub block_id: alloy_eips::BlockId,
    /// Optional number of blocks to include.
    pub count: Option<u64>,
}

impl GetBlockExecutionOutcomeParams {
    /// Creates new [`GetBlockExecutionOutcomeParams`] for the given block.
    pub fn new(block_id: alloy_eips::BlockId) -> (r: Self)
        ensures
            r == (GetBlockExecutionOutcomeParams { block_id, count: None }),
    {
        GetBlockExecutionOutcomeParams { block_id, count: None }
    }

    /// Sets the number of blocks to include.
    pub fn with_count(self, count: u64) -> (r: Self)
        ensures
            r == (GetBlockExecutionOutcomeParams { count: Some(count), ..self }),
    {
        let mut this = self;
        this.count = Some(count);
        this
    }
}

impl From<alloy_eips::BlockId> for GetBlockExecutionOutcomeParams {
    fn from(block_id: alloy_eips::BlockId) -> (r: Self)
        ensures
            r.block_id == block_id,
            r.count is None,
    {
        Self::new(block_id)
    }
}

impl vstd::std_specs::convert::FromSpecImpl<alloy_eips::BlockId> for GetBlockExecutionOutcomeParams {
    open spec fn obeys_from_spec() -> bool {
        true
    }

    open spec fn from_spec(block_id: alloy_eips::BlockId) -> Self {
        GetBlockExecutionOutcomeParams { block_id, count: None }
    }
}

/// Converting a block identifier into execution-outcome parameters gives
/// that identifier with no block count, as `new` does.
pub proof fn lemma_block_id_conversion_has_no_count(block_id: alloy_eips::BlockId)
    ensures
        <GetBlockExecutionOutcomeParams as vstd::std_specs::convert::FromSpec<
            alloy_eips::BlockId,
        >>::obeys_from_spec(),
        <GetBlockExecutionOutcomeParams as vstd::std_specs::convert::FromSpec<
            alloy_eips::BlockId,
        >>::from_spec(block_id).block_id == block_id,
        <GetBlockExecutionOutcomeParams as vstd::std_specs::convert::FromSpec<
            alloy_eips::BlockId,
        >>::from_spec(block_id).count is None,
{
}

/// Converting a payload input into `reth_newPayload` parameters keeps the
/// input and sets neither wait flag, as `new` does.
pub proof fn lemma_input_conversion_sets_no_flags<E>(payload: RethNewPayloadInput<E>)
    ensures
        <RethNewPayloadParams<E> as vstd::std_specs::convert::FromSpec<
            RethNewPayloadInput<E>,
        >>::obeys_from_spec(),
        <RethNewPayloadParams<E> as vstd::std_specs::convert::FromSpec<
            RethNewPayloadInput<E>,
        >>::from_spec(payload).payload == payload,
        <RethNewPayloadParams<E> as vstd::std_specs::convert::FromSpec<
            RethNewPayloadInput<E>,
        >>::from_spec(payload).wait_for_persistence is None,
        <RethNewPayloadParams<E> as vstd::std_specs::convert::FromSpec<
            RethNewPayloadInput<E>,
        >>::from_spec(payload).wait_for_caches is None,
{
}

/// Notification emitted by `reth_subscribeChainNotifications`.
#[derive(Clone, Debug, PartialEq, Eq)]
#[non_exhaustive]
pub enum CanonStateNotification {
    /// New chain segment was committed.
    Commit {
        /// The newly committed chain segment, as a JSON value.
        new: JsonValue,
    },
    /// Chain reorganization occurred.
    Reorg {
        /// The reverted chain segment, as a JSON value.
        old: JsonValue,
        /// The replacement chain segment, as a JSON value.
        new: JsonValue,
    },
}

impl CanonStateNotification {
    /// Creates a [`Commit`](Self::Commit) notification.
    pub fn commit(new: JsonValue) -> (r: Self)
        ensures
            r == (CanonStateNotification::Commit { new }),
    {
        CanonStateNotification::Commit { new }
    }

    /// Creates a [`Reorg`](Self::Reorg) notification.
    pub fn reorg(old: JsonValue, new: JsonValue) -> (r: Self)
        ensures
            r == (CanonStateNotification::Reorg { old, new }),
    {
        CanonStateNotification::Reorg { old, new }
    }

    /// Returns `true` if this is a [`Commit`](Self::Commit) notification.
    pub fn is_commit(&self) -> (r: bool)
        ensures
            r == (self is Commit),
    {
        match self {
            CanonStateNotification::Commit { .. } => true,
            _ => false,
        }
    }

    /// Returns `true` if this is a [`Reorg`](Self::Reorg) notification.
    pub fn is_reorg(&self) -> (r: bool)
        ensures
            r == (self is Reorg),
    {
        match self {
            CanonStateNotification::Reorg { .. } => true,
            _ => false,
        }
    }
}

} // verus!
