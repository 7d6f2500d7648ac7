use alloy_reth::status::DecodeError;
use alloy_reth::hex::{from_hex, to_hex, HexError};
use alloy_reth::{
    BigBlockData, CanonStateNotification, JsonNumber, JsonValue, RethNewPayloadInput,
    RethNewPayloadParams, RethPayloadStatus,
};
use alloy_rpc_types_engine::{PayloadStatus, PayloadStatusEnum};

fn from_serde(v: &serde_json::Value) -> JsonValue {
    match v {
        serde_json::Value::Null => JsonValue::Null,
        serde_json::Value::Bool(b) => JsonValue::Bool(*b),
        serde_json::Value::Number(n) => {
            if let Some(u) = n.as_u64() {
                JsonValue::Number(JsonNumber::Unsigned(u))
            } else if let Some(i) = n.as_i64() {
                JsonValue::Number(JsonNumber::Negative(i))
            } else {
                JsonValue::Number(JsonNumber::Float(n.as_f64().unwrap().to_bits()))
            }
        }
        serde_json::Value::String(s) => JsonValue::String(s.clone()),
        serde_json::Value::Array(items) => JsonValue::Array(items.iter().map(from_serde).collect()),
        serde_json::Value::Object(map) => JsonValue::Object(
            map.iter()
                .map(|(k, v)| (k.clone(), from_serde(v)))
                .collect(),
        ),
    }
}

fn to_serde(v: &JsonValue) -> serde_json::Value {
    match v {
        JsonValue::Null => serde_json::Value::Null,
        JsonValue::Bool(b) => serde_json::Value::Bool(*b),
        JsonValue::Number(JsonNumber::Unsigned(u)) => serde_json::Value::from(*u),
        JsonValue::Number(JsonNumber::Negative(i)) => serde_json::Value::from(*i),
        JsonValue::Number(JsonNumber::Float(bits)) => serde_json::Value::from(f64::from_bits(*bits)),
        JsonValue::String(s) => serde_json::Value::String(s.clone()),
        JsonValue::Array(items) => serde_json::Value::Array(items.iter().map(to_serde).collect()),
        JsonValue::Object(fields) => serde_json::Value::Object(
            fields
                .iter()
                .map(|(k, v)| (k.clone(), to_serde(v)))
                .collect(),
        ),
    }
}

fn parse(text: &str) -> serde_json::Value {
    serde_json::from_str(text).unwrap()
}

fn json(text: &str) -> JsonValue {
    from_serde(&parse(text))
}

fn execution_data() -> JsonValue {
    json(r#"{"payload": "0x01", "sidecar": "0x02"}"#)
}

#[test]
fn execution_data_round_trips() {
    let input = RethNewPayloadInput::execution_data(execution_data());
    let value = input.to_json();
    assert_eq!(to_serde(&value), parse(r#"{"payload": "0x01", "sidecar": "0x02"}"#));

    let decoded = RethNewPayloadInput::from_json(&value);
    assert!(
        matches!(decoded, RethNewPayloadInput::ExecutionData(data) if data == execution_data())
    );
}

#[test]
fn big_block_data_round_trips_with_and_without_bal() {
    let hash = [0x11u8; 32];
    let data = BigBlockData {
        env_switches: vec![execution_data()],
        prior_block_hashes: vec![(7, hash)],
        block_number: 8,
        merged_block_access_list: None,
    };
    let input = RethNewPayloadInput::big_block_data(data.clone());
    let value = input.to_json();
    let hash_text = format!("0x{}", "11".repeat(32));
    assert_eq!(
        to_serde(&value),
        parse(&format!(
            r#"{{
                "env_switches": [{{"payload": "0x01", "sidecar": "0x02"}}],
                "prior_block_hashes": [[7, "{hash_text}"]],
                "block_number": 8
            }}"#
        ))
    );

    let decoded = RethNewPayloadInput::from_json(&value);
    assert!(matches!(decoded, RethNewPayloadInput::BigBlockData(decoded) if *decoded == data));

    let with_bal = data.with_merged_block_access_list(vec![0x03]);
    let input = RethNewPayloadInput::big_block_data(with_bal.clone());
    let value = input.to_json();
    assert_eq!(to_serde(&value)["merged_block_access_list"], "0x03");
    let decoded = RethNewPayloadInput::from_json(&value);
    assert!(
        matches!(decoded, RethNewPayloadInput::BigBlockData(decoded) if *decoded == with_bal)
    );
}

#[test]
fn raw_rlp_serializes_as_legacy_bytes_without_bal() {
    let input = RethNewPayloadInput::<JsonValue>::block_rlp(vec![0x01, 0x02]);
    assert_eq!(to_serde(&input.to_json()), parse(r#""0x0102""#));

    let decoded = RethNewPayloadInput::from_json(&json(r#""0x0102""#));
    assert!(
        matches!(decoded, RethNewPayloadInput::BlockRlp { block, bal: None } if block == vec![0x01, 0x02])
    );
}

#[test]
fn raw_rlp_serializes_as_object_with_bal_and_decodes_legacy_object() {
    let input = RethNewPayloadInput::<JsonValue>::block_rlp_with_bal(vec![0x01], vec![0x02]);
    assert_eq!(to_serde(&input.to_json()), parse(r#"{"block": "0x01", "bal": "0x02"}"#));

    for value in [r#"{"block": "0x01", "bal": "0x02"}"#, r#"{"block": "0x01"}"#] {
        let decoded = RethNewPayloadInput::from_json(&json(value));
        assert!(
            matches!(decoded, RethNewPayloadInput::BlockRlp { block, .. } if block == vec![0x01])
        );
    }
}

#[test]
fn new_payload_params_omit_unset_wait_flags() {
    let params = RethNewPayloadParams::new(RethNewPayloadInput::execution_data(execution_data()));
    assert_eq!(
        to_serde(&params.to_json()),
        parse(r#"{"payload": {"payload": "0x01", "sidecar": "0x02"}}"#)
    );

    let params = RethNewPayloadParams::new(RethNewPayloadInput::execution_data(execution_data()))
        .with_wait_for_persistence(true)
        .with_wait_for_caches(false);
    assert_eq!(
        to_serde(&params.to_json()),
        parse(
            r#"{
                "payload": {"payload": "0x01", "sidecar": "0x02"},
                "wait_for_persistence": true,
                "wait_for_caches": false
            }"#
        )
    );
}

fn valid_status() -> PayloadStatus {
    PayloadStatus::new(PayloadStatusEnum::Valid, None)
}

#[test]
fn payload_status_preserves_all_timing_fields() {
    let status = RethPayloadStatus::from_json(
        valid_status(),
        &json(
            r#"{
                "status": "VALID",
                "latestValidHash": null,
                "latency_us": 12,
                "persistence_wait_us": 3,
                "execution_cache_wait_us": 4,
                "sparse_trie_wait_us": 5
            }"#,
        ),
    )
    .unwrap();

    assert_eq!(status.status.status, PayloadStatusEnum::Valid);
    assert_eq!(status.latency_us, 12);
    assert_eq!(status.persistence_wait_us, Some(3));
    assert_eq!(status.execution_cache_wait_us, Some(4));
    assert_eq!(status.sparse_trie_wait_us, Some(5));
}

#[test]
fn payload_status_accepts_missing_timing_fields() {
    let status = RethPayloadStatus::from_json(
        valid_status(),
        &json(r#"{"status": "VALID", "latestValidHash": null}"#),
    )
    .unwrap();

    assert_eq!(status.status.status, PayloadStatusEnum::Valid);
    assert_eq!(status.latency_us, 0);
    assert_eq!(status.persistence_wait_us, None);
    assert_eq!(status.execution_cache_wait_us, None);
    assert_eq!(status.sparse_trie_wait_us, None);
}

#[test]
fn payload_status_rejects_bad_timings_and_non_objects() {
    let null_latency = json(r#"{"status": "VALID", "latency_us": null}"#);
    assert_eq!(
        RethPayloadStatus::from_json(valid_status(), &null_latency).unwrap_err(),
        DecodeError::InvalidTiming
    );
    let text_wait = json(r#"{"status": "VALID", "sparse_trie_wait_us": "5"}"#);
    assert_eq!(
        RethPayloadStatus::from_json(valid_status(), &text_wait).unwrap_err(),
        DecodeError::InvalidTiming
    );
    let negative = json(r#"{"status": "VALID", "persistence_wait_us": -1}"#);
    assert_eq!(
        RethPayloadStatus::from_json(valid_status(), &negative).unwrap_err(),
        DecodeError::InvalidTiming
    );
    assert_eq!(
        RethPayloadStatus::from_json(valid_status(), &json("[1, 2]")).unwrap_err(),
        DecodeError::ExpectedObject
    );
    let null_waits = json(r#"{"latency_us": 7, "persistence_wait_us": null}"#);
    let status = RethPayloadStatus::from_json(valid_status(), &null_waits).unwrap();
    assert_eq!(status.latency_us, 7);
    assert_eq!(status.persistence_wait_us, None);
}

#[test]
fn payload_status_builders_set_one_timing_each() {
    let status = RethPayloadStatus::new(valid_status(), 9)
        .with_persistence_wait_us(1)
        .with_execution_cache_wait_us(2)
        .with_sparse_trie_wait_us(3);
    assert_eq!(status.latency_us, 9);
    assert_eq!(status.persistence_wait_us, Some(1));
    assert_eq!(status.execution_cache_wait_us, Some(2));
    assert_eq!(status.sparse_trie_wait_us, Some(3));
    let plain = RethPayloadStatus::new(valid_status(), 4);
    assert_eq!(plain.persistence_wait_us, None);
    assert_eq!(plain.execution_cache_wait_us, None);
    assert_eq!(plain.sparse_trie_wait_us, None);
    assert_eq!(plain.as_ref().status, PayloadStatusEnum::Valid);
}

#[test]
fn hex_text_is_prefixed_lowercase_and_reads_back() {
    assert_eq!(to_hex(&[0x01, 0xab, 0xff]), "0x01abff");
    assert_eq!(to_hex(&[]), "0x");
    assert_eq!(from_hex("0x01abff"), Ok(vec![0x01, 0xab, 0xff]));
    assert_eq!(from_hex("01ABff"), Ok(vec![0x01, 0xab, 0xff]));
    assert_eq!(from_hex("0X0a"), Ok(vec![0x0a]));
    assert_eq!(from_hex("0x"), Ok(vec![]));
    assert_eq!(from_hex("0x123"), Err(HexError::InvalidHex));
    assert_eq!(from_hex("0xzz"), Err(HexError::InvalidHex));
    let bytes: Vec<u8> = (0..=255u8).collect();
    assert_eq!(from_hex(&to_hex(&bytes)), Ok(bytes));
}

#[test]
fn bare_bytes_decode_from_hex_text_and_byte_arrays() {
    let decoded = RethNewPayloadInput::from_json(&json("[1, 2, 255]"));
    assert!(
        matches!(decoded, RethNewPayloadInput::BlockRlp { block, bal: None } if block == vec![1, 2, 255])
    );
    let decoded = RethNewPayloadInput::from_json(&json(r#""0XABcd""#));
    assert!(
        matches!(decoded, RethNewPayloadInput::BlockRlp { block, bal: None } if block == vec![0xab, 0xcd])
    );
    let decoded = RethNewPayloadInput::from_json(&json(r#"{"block": [4], "bal": null}"#));
    assert!(
        matches!(decoded, RethNewPayloadInput::BlockRlp { block, bal: None } if block == vec![4])
    );
}

#[test]
fn values_that_fit_no_other_shape_are_execution_data() {
    for text in [
        r#""not hex""#,
        "[1, 256]",
        "[-1]",
        r#"{"block": "0x0"}"#,
        r#"{"block": "0x01", "bal": 5}"#,
        "null",
        "true",
        "1.5",
        r#"{"env_switches": [], "prior_block_hashes": [], "block_number": -1}"#,
    ] {
        let value = json(text);
        let decoded = RethNewPayloadInput::from_json(&value);
        assert!(
            matches!(&decoded, RethNewPayloadInput::ExecutionData(data) if *data == value),
            "{text}"
        );
    }
}

#[test]
fn big_block_data_decodes_from_arrays_and_hash_byte_arrays() {
    let hash: Vec<String> = (0..32).map(|i| i.to_string()).collect();
    let hash_array = format!("[{}]", hash.join(", "));
    let text = format!(r#"[[1], [[3, {hash_array}]], 9, "0x0a0b"]"#);
    let decoded = BigBlockData::from_json(&json(&text)).unwrap();
    let expected_hash: [u8; 32] = std::array::from_fn(|i| i as u8);
    assert_eq!(decoded.env_switches, vec![json("1")]);
    assert_eq!(decoded.prior_block_hashes, vec![(3, expected_hash)]);
    assert_eq!(decoded.block_number, 9);
    assert_eq!(decoded.merged_block_access_list, Some(vec![0x0a, 0x0b]));

    let three = format!(r#"[[], [[3, {hash_array}]], 9]"#);
    let decoded = BigBlockData::from_json(&json(&three)).unwrap();
    assert_eq!(decoded.merged_block_access_list, None);

    let with_extra = format!(r#"[[], [[3, [{}, "x"]]], 9]"#, hash.join(", "));
    assert!(BigBlockData::from_json(&json(&with_extra)).is_some());
    let with_byte_extra = format!(r#"[[], [[3, [{}, 7]]], 9]"#, hash.join(", "));
    assert!(BigBlockData::from_json(&json(&with_byte_extra)).is_none());
    let short_hash = r#"{"env_switches": [], "prior_block_hashes": [[3, "0x11"]], "block_number": 9}"#;
    assert!(BigBlockData::from_json(&json(short_hash)).is_none());
    let two_items = r#"[[], []]"#;
    assert!(BigBlockData::from_json(&json(two_items)).is_none());
    let object = r#"{"env_switches": [], "prior_block_hashes": [], "block_number": 9, "merged_block_access_list": null, "other": 1}"#;
    let decoded = BigBlockData::from_json(&json(object)).unwrap();
    assert_eq!(decoded, BigBlockData::new(vec![], vec![], 9));
}

#[test]
fn typed_execution_data_falls_back_like_untagged_shapes() {
    let raw = RethNewPayloadInput::<JsonValue>::block_rlp(vec![1]);
    let typed = raw.into_typed::<u32>(None, Some(5)).unwrap();
    assert!(matches!(typed, RethNewPayloadInput::BlockRlp { block, bal: None } if block == vec![1]));

    let big = RethNewPayloadInput::big_block_data(BigBlockData::new(vec![json("1")], vec![], 2));
    let typed = big.clone().into_typed::<u32>(Some(vec![1]), Some(5)).unwrap();
    assert!(
        matches!(typed, RethNewPayloadInput::BigBlockData(b) if b.env_switches == vec![1] && b.block_number == 2)
    );
    let typed = big.clone().into_typed::<u32>(None, Some(5)).unwrap();
    assert!(matches!(typed, RethNewPayloadInput::ExecutionData(5)));
    assert!(big.into_typed::<u32>(None, None).is_none());

    let data = RethNewPayloadInput::execution_data(json("{}"));
    assert!(data.clone().into_typed::<u32>(None, None).is_none());
    assert!(matches!(data.into_typed::<u32>(None, Some(3)), Some(RethNewPayloadInput::ExecutionData(3))));
}

#[test]
fn json_values_clone_and_read_members() {
    let value = json(r#"{"a": [1, {"b": null}], "c": "x", "a": 2}"#);
    assert_eq!(value.clone(), value);
    assert_eq!(value.get("c"), Some(&JsonValue::String("x".to_string())));
    assert_eq!(value.get("missing"), None);
    assert_eq!(json("[1]").get("a"), None);
    assert_eq!(json("7").as_u64(), Some(7));
    assert_eq!(json("-7").as_u64(), None);
    assert_eq!(json("256").as_u8(), None);
    assert_eq!(json("255").as_u8(), Some(255));
    assert_eq!(json(r#""0x0102""#).as_bytes(), Some(vec![1, 2]));
    assert_eq!(json(r#""0x01""#).as_b256(), None);
}

#[test]
fn builders_set_their_field_and_keep_the_rest() {
    let data = BigBlockData::<JsonValue>::new(vec![], vec![(1, [2u8; 32])], 3);
    assert_eq!(data.merged_block_access_list, None);
    let with_bal = data.clone().with_merged_block_access_list(vec![9]);
    assert_eq!(with_bal.merged_block_access_list, Some(vec![9]));
    assert_eq!(with_bal.prior_block_hashes, data.prior_block_hashes);
    assert_eq!(with_bal.block_number, 3);

    let params: RethNewPayloadParams = RethNewPayloadInput::block_rlp(vec![1]).into();
    assert_eq!(params.wait_for_persistence, None);
    assert_eq!(params.wait_for_caches, None);
    let params = params.with_wait_for_caches(true);
    assert_eq!(params.wait_for_caches, Some(true));
    assert_eq!(params.wait_for_persistence, None);
}

#[test]
fn canon_state_notifications_are_commit_or_reorg() {
    let commit = CanonStateNotification::commit(json(r#"{"n": 1}"#));
    assert!(commit.is_commit());
    assert!(!commit.is_reorg());
    let reorg = CanonStateNotification::reorg(json("1"), json("2"));
    assert!(reorg.is_reorg());
    assert!(!reorg.is_commit());
    assert_eq!(reorg, CanonStateNotification::Reorg { old: json("1"), new: json("2") });
}
