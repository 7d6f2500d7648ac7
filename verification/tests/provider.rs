use alloy_eips::BlockId;
use alloy_primitives::{B256, U64};
use alloy_reth::provider::{
    balance_changes_in_block_call, block_execution_outcome_call, forkchoice_updated_call,
    new_payload_call,
};
use alloy_reth::{
    BigBlockData, GetBlockExecutionOutcomeParams, JsonNumber, JsonValue, RethNewPayloadInput,
    RethNewPayloadParams,
};
use alloy_rpc_types_engine::ForkchoiceState;

fn from_serde(v: &serde_json::Value) -> JsonValue {
    match v {
        serde_json::Value::Null => JsonValue::Null,
        serde_json::Value::Bool(b) => JsonValue::Bool(*b),
        serde_json::Value::Number(n) => {
            if let Some(u) = n.as_u64() {
                JsonValue::Number(JsonNumber::Unsigned(u))
            } else if let Some(i) = n.as_i64() {
                JsonValue::Number(JsonNumber::Negative(i))
            } else {
                JsonValue::Number(JsonNumber::Float(n.as_f64().unwrap().to_bits()))
            }
        }
        serde_json::Value::String(s) => JsonValue::String(s.clone()),
        serde_json::Value::Array(items) => JsonValue::Array(items.iter().map(from_serde).collect()),
        serde_json::Value::Object(map) => JsonValue::Object(
            map.iter()
                .map(|(k, v)| (k.clone(), from_serde(v)))
                .collect(),
        ),
    }
}

fn to_serde(v: &JsonValue) -> serde_json::Value {
    match v {
        JsonValue::Null => serde_json::Value::Null,
        JsonValue::Bool(b) => serde_json::Value::Bool(*b),
        JsonValue::Number(JsonNumber::Unsigned(u)) => serde_json::Value::from(*u),
        JsonValue::Number(JsonNumber::Negative(i)) => serde_json::Value::from(*i),
        JsonValue::Number(JsonNumber::Float(bits)) => serde_json::Value::from(f64::from_bits(*bits)),
        JsonValue::String(s) => serde_json::Value::String(s.clone()),
        JsonValue::Array(items) => serde_json::Value::Array(items.iter().map(to_serde).collect()),
        JsonValue::Object(fields) => serde_json::Value::Object(
            fields
                .iter()
                .map(|(k, v)| (k.clone(), to_serde(v)))
                .collect(),
        ),
    }
}

fn parse(text: &str) -> serde_json::Value {
    serde_json::from_str(text).unwrap()
}

fn execution_data() -> JsonValue {
    from_serde(&parse(r#"{"payload": "0x01", "sidecar": "0x02"}"#))
}

#[test]
fn balance_changes_uses_exact_reth_method_and_params() {
    let call = balance_changes_in_block_call(BlockId::latest().into());
    assert_eq!(call.method, "reth_getBalanceChangesInBlock");
    assert_eq!(serde_json::to_value(call.params).unwrap(), parse(r#"["latest"]"#));
}

#[test]
fn execution_outcome_uses_exact_reth_method_and_params() {
    let call = block_execution_outcome_call(
        GetBlockExecutionOutcomeParams::new(BlockId::latest()).with_count(2),
    );
    assert_eq!(call.method, "reth_getBlockExecutionOutcome");
    let (block_id, count) = call.params;
    assert_eq!(
        serde_json::to_value((block_id, count.map(U64::from))).unwrap(),
        parse(r#"["latest", "0x2"]"#)
    );

    let call = block_execution_outcome_call(GetBlockExecutionOutcomeParams::new(BlockId::latest()));
    assert_eq!(call.params.1, None);
}

#[test]
fn new_payload_sends_all_variants_and_both_wait_flags() {
    let standard = RethNewPayloadInput::execution_data(execution_data());
    let call = new_payload_call(
        RethNewPayloadParams::new(standard)
            .with_wait_for_persistence(true)
            .with_wait_for_caches(false),
    );
    assert_eq!(call.method, "reth_newPayload");
    assert_eq!(
        to_serde(&call.params),
        parse(r#"[{"payload": "0x01", "sidecar": "0x02"}, true, false]"#)
    );

    let hash = B256::from([0x11; 32]);
    let big_block = RethNewPayloadInput::big_block_data(BigBlockData {
        env_switches: vec![execution_data()],
        prior_block_hashes: vec![(7, hash.0)],
        block_number: 8,
        merged_block_access_list: None,
    });
    let call = new_payload_call(big_block.into());
    let hash = serde_json::to_value(hash).unwrap();
    assert_eq!(
        to_serde(&call.params),
        parse(&format!(
            r#"[{{
                "env_switches": [{{"payload": "0x01", "sidecar": "0x02"}}],
                "prior_block_hashes": [[7, {hash}]],
                "block_number": 8
            }}, null, null]"#
        ))
    );

    let raw = RethNewPayloadInput::<JsonValue>::block_rlp_with_bal(vec![0x04], vec![0x05]);
    let call = new_payload_call(RethNewPayloadParams::new(raw).with_wait_for_caches(true));
    assert_eq!(
        to_serde(&call.params),
        parse(r#"[{"block": "0x04", "bal": "0x05"}, null, true]"#)
    );
}

#[test]
fn forkchoice_updated_sends_only_state_without_payload_attributes() {
    let state = ForkchoiceState::same_hash(B256::from([0x11; 32]));
    let call = forkchoice_updated_call(state);
    assert_eq!(call.method, "reth_forkchoiceUpdated");
    assert_eq!(
        serde_json::to_value(call.params).unwrap(),
        serde_json::Value::Array(vec![serde_json::to_value(state).unwrap()])
    );
}

#[test]
fn new_payload_sends_bare_bytes_for_raw_blocks_without_bal() {
    let raw = RethNewPayloadInput::<JsonValue>::block_rlp(vec![0xab, 0x01]);
    let call = new_payload_call(raw.into());
    assert_eq!(to_serde(&call.params), parse(r#"["0xab01", null, null]"#));
}
