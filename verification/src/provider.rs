//! The requests of the `reth_` RPC namespace: which method each call names
//! and which positional parameters it sends.
use vstd::prelude::*;

use crate::codec::input_json;
use crate::json::{json_view, Json, JsonValue};
use crate::types::{GetBlockExecutionOutcomeParams, RethNewPayloadParams};

verus! {

/// Implemented for every type, so that only this crate decides which types
/// are providers of the `reth_` namespace.
pub trait Sealed {

}

impl<T> Sealed for T {

}

/// A JSON-RPC call: a method name and its positional parameters.
#[derive(Clone, Debug)]
pub struct RpcCall<P> {
    /// The JSON-RPC method.
    pub method: &'static str,
    /// The positional parameters.
    pub params: P,
}

/// An optional flag as a positional parameter: `null` when unset.
pub open spec fn opt_bool_json(flag: Option<bool>) -> Json {
    match flag {
        Some(b) => Json::Bool(b),
        None => Json::Null,
    }
}

/// The call of `reth_getBalanceChangesInBlock`: the block identifier alone.
pub fn balance_changes_in_block_call(params: GetBlockExecutionOutcomeParams) -> (r: RpcCall<
    (alloy_eips::BlockId,),
>)
    ensures
        r.method@ == "reth_getBalanceChangesInBlock"@,
        r.params == (params.block_id,),
{
    RpcCall { method: "reth_getBalanceChangesInBlock", params: (params.block_id,) }
}

/// The call of `reth_getBlockExecutionOutcome`: the block identifier and the
/// optional block count.
pub fn block_execution_outcome_call(params: GetBlockExecutionOutcomeParams) -> (r: RpcCall<
    (alloy_eips::BlockId, Option<u64>),
>)
    ensures
        r.method@ == "reth_getBlockExecutionOutcome"@,
        r.params == (params.block_id, params.count),
{
    RpcCall { method: "reth_getBlockExecutionOutcome", params: (params.block_id, params.count) }
}

/// The call of `reth_newPayload`: always three positional parameters, the
/// payload in its wire form, then the persistence and cache wait flags, each
/// `null` when unset.
pub fn new_payload_call(params: RethNewPayloadParams<JsonValue>) -> (r: RpcCall<JsonValue>)
    ensures
        r.method@ == "reth_newPayload"@,
        r.params@ == Json::Array(
            seq![
                input_json(params.payload@),
                opt_bool_json(params.wait_for_persistence),
                opt_bool_json(params.wait_for_caches),
            ],
        ),
{
    let ghost payload_model = params.payload@;
    let RethNewPayloadParams { payload, wait_for_persistence, wait_for_caches } = params;
    let persistence = match wait_for_persistence {
        Some(b) => JsonValue::Bool(b),
        None => JsonValue::Null,
    };
    let caches = match wait_for_caches {
        Some(b) => JsonValue::Bool(b),
        None => JsonValue::Null,
    };
    let mut items: Vec<JsonValue> = Vec::new();
    items.push(payload.to_json());
    items.push(persistence);
    items.push(caches);
    let r = RpcCall { method: "reth_newPayload", params: JsonValue::Array(items) };
    proof {
        assert(r.params@->Array_0[0] == json_view(&items[0]));
        assert(r.params@->Array_0[1] == json_view(&items[1]));
        assert(r.params@->Array_0[2] == json_view(&items[2]));
        assert(r.params@->Array_0 =~= seq![
            input_json(payload_model),
            opt_bool_json(wait_for_persistence),
            opt_bool_json(wait_for_caches),
        ]);
    }
    r
}

/// The call of `reth_forkchoiceUpdated`: the forkchoice state alone, without
/// payload attributes.
pub fn forkchoice_updated_call<S>(forkchoice_state: S) -> (r: RpcCall<(S,)>)
    ensures
        r.method@ == "reth_forkchoiceUpdated"@,
        r.params == (forkchoice_state,),
{
    RpcCall { method: "reth_forkchoiceUpdated", params: (forkchoice_state,) }
}

} // verus!
