//! Reading the extended payload status that `reth_newPayload` returns.
//!
//! The standard status members are read by `alloy-rpc-types-engine`; this
//! module reads the timing members that reth adds beside them.
use vstd::prelude::*;

use crate::codec::opt_json_view;
use crate::json::{
    distinct_names, json_get, json_u64, lemma_field_by_membership, lemma_field_order_free, Json,
    JsonNumber, JsonValue,
};
use crate::types::RethPayloadStatus;

verus! {

/// Why a payload status could not be read.
#[derive(Clone, Copy, Debug, PartialEq, Eq)]
pub enum DecodeError {
    /// The value is not a JSON object.
    ExpectedObject,
    /// A timing member is present but is not a `u64` (or, for the optional
    /// timings, `null`).
    InvalidTiming,
}

/// A `u64` member that defaults to zero when missing.
pub open spec fn u64_member_or_zero(m: Option<Json>) -> Option<u64> {
    match m {
        None => Some(0),
        Some(j) => json_u64(j),
    }
}

/// An optional `u64` member: missing or `null` reads as absent.
pub open spec fn opt_u64_member(m: Option<Json>) -> Option<Option<u64>> {
    match m {
        None => Some(None),
        Some(Json::Null) => Some(None),
        Some(j) => match json_u64(j) {
            Some(n) => Some(Some(n)),
            None => None,
        },
    }
}

/// The timing members of a payload status: `latency_us` (zero when missing),
/// and the optional `persistence_wait_us`, `execution_cache_wait_us` and
/// `sparse_trie_wait_us`. `None` when the value is not an object or a present
/// member does not read.
pub open spec fn payload_timings(j: Json) -> Option<(u64, Option<u64>, Option<u64>, Option<u64>)> {
    match j {
        Json::Object(_) => match (
            u64_member_or_zero(json_get(j, "latency_us"@)),
            opt_u64_member(json_get(j, "persistence_wait_us"@)),
            opt_u64_member(json_get(j, "execution_cache_wait_us"@)),
            opt_u64_member(json_get(j, "sparse_trie_wait_us"@)),
        ) {
            (Some(a), Some(b), Some(c), Some(d)) => Some((a, b, c, d)),
            _ => None,
        },
        _ => None,
    }
}

fn read_u64_or_zero(m: Option<&JsonValue>) -> (r: Option<u64>)
    ensures
        r == u64_member_or_zero(opt_json_view(m)),
{
    match m {
        None => Some(0),
        Some(v) => v.as_u64(),
    }
}

fn read_opt_u64(m: Option<&JsonValue>) -> (r: Option<Option<u64>>)
    ensures
        r == opt_u64_member(opt_json_view(m)),
{
    match m {
        None => Some(None),
        Some(JsonValue::Null) => Some(None),
        Some(v) => match v.as_u64() {
            Some(n) => Some(Some(n)),
            None => None,
        },
    }
}

impl RethPayloadStatus {
    /// Reads a payload status from a JSON object whose standard status members
    /// were read into `status`: the timing members are read from `v`, with
    /// `latency_us` zero and the other timings absent when missing.
    pub fn from_json(status: alloy_rpc_types_engine::PayloadStatus, v: &JsonValue) -> (r: Result<
        Self,
        DecodeError,
    >)
        ensures
            match payload_timings(v@) {
                Some((latency, persistence, cache, trie)) => r == Ok::<Self, DecodeError>(
                    RethPayloadStatus {
                        status,
                        latency_us: latency,
                        persistence_wait_us: persistence,
                        execution_cache_wait_us: cache,
                        sparse_trie_wait_us: trie,
                    },
                ),
                None => r == Err::<Self, DecodeError>(
                    if v@ is Object {
                        DecodeError::InvalidTiming
                    } else {
                        DecodeError::ExpectedObject
                    },
                ),
            },
    {
        match v {
            JsonValue::Object(_) => {
                let latency = read_u64_or_zero(v.get("latency_us"));
                let persistence = read_opt_u64(v.get("persistence_wait_us"));
                let cache = read_opt_u64(v.get("execution_cache_wait_us"));
                let trie = read_opt_u64(v.get("sparse_trie_wait_us"));
                match (latency, persistence, cache, trie) {
                    (Some(a), Some(b), Some(c), Some(d)) => Ok(
                        RethPayloadStatus {
                            status,
                            latency_us: a,
                            persistence_wait_us: b,
                            execution_cache_wait_us: c,
                            sparse_trie_wait_us: d,
                        },
                    ),
                    _ => Err(DecodeError::InvalidTiming),
                }
            },
            _ => Err(DecodeError::ExpectedObject),
        }
    }
}

/// An object holds the timing `t` under `key`: the integer `n` when `t` is
/// `Some(n)`, and no member of that name when `t` is `None`.
pub open spec fn holds_timing(fields: Seq<(Seq<char>, Json)>, key: Seq<char>, t: Option<u64>) -> bool {
    match t {
        Some(n) => fields.contains((key, Json::Number(JsonNumber::Unsigned(n)))),
        None => forall|i: int| 0 <= i < fields.len() ==> fields[i].0 != key,
    }
}

/// Each timing is read from its own member alone: for an object with distinct
/// names holding each timing as an integer or not at all, the latency is its
/// member (zero when missing) and every wait time is its member (absent when
/// missing), whatever the other members are and wherever they stand.
pub proof fn lemma_timings_read_by_name(
    fields: Seq<(Seq<char>, Json)>,
    latency: Option<u64>,
    persistence: Option<u64>,
    cache: Option<u64>,
    trie: Option<u64>,
)
    requires
        distinct_names(fields),
        holds_timing(fields, "latency_us"@, latency),
        holds_timing(fields, "persistence_wait_us"@, persistence),
        holds_timing(fields, "execution_cache_wait_us"@, cache),
        holds_timing(fields, "sparse_trie_wait_us"@, trie),
    ensures
        payload_timings(Json::Object(fields)) == Some(
            (
                match latency {
                    Some(n) => n,
                    None => 0u64,
                },
                persistence,
                cache,
                trie,
            ),
        ),
{
    let keys = seq![
        "latency_us"@,
        "persistence_wait_us"@,
        "execution_cache_wait_us"@,
        "sparse_trie_wait_us"@,
    ];
    let ts = seq![latency, persistence, cache, trie];
    assert forall|k: int| 0 <= k < 4 implies json_get(Json::Object(fields), #[trigger] keys[k])
        == match ts[k] {
        Some(n) => Some(Json::Number(JsonNumber::Unsigned(n))),
        None => None::<Json>,
    } by {
        match ts[k] {
            Some(n) => lemma_field_by_membership(
                fields,
                keys[k],
                Json::Number(JsonNumber::Unsigned(n)),
            ),
            None => lemma_field_by_membership(fields, keys[k], Json::Null),
        }
    }
    assert(keys[0] == "latency_us"@);
    assert(keys[1] == "persistence_wait_us"@);
    assert(keys[2] == "execution_cache_wait_us"@);
    assert(keys[3] == "sparse_trie_wait_us"@);
}

/// A timing member that does not read fails the whole reading: an object with
/// distinct names holding under a timing name a value that is not an integer
/// in `u64` range (nor `null`, for the optional wait times) has no timings.
pub proof fn lemma_timings_reject_bad_member(
    fields: Seq<(Seq<char>, Json)>,
    key: Seq<char>,
    value: Json,
)
    requires
        distinct_names(fields),
        fields.contains((key, value)),
        json_u64(value) is None,
        key == "latency_us"@ || ((key == "persistence_wait_us"@ || key
            == "execution_cache_wait_us"@ || key == "sparse_trie_wait_us"@) && value != Json::Null),
    ensures
        payload_timings(Json::Object(fields)) is None,
{
    lemma_field_by_membership(fields, key, value);
}

/// A `null` wait time reads as absent: an object with distinct names holding
/// `null` under an optional wait name reads, when it reads at all, with that
/// wait time absent.
pub proof fn lemma_timings_null_wait_is_absent(fields: Seq<(Seq<char>, Json)>, key: Seq<char>)
    requires
        distinct_names(fields),
        fields.contains((key, Json::Null)),
    ensures
        key == "persistence_wait_us"@ ==> (payload_timings(Json::Object(fields)) matches Some(t)
            ==> t.1 is None),
        key == "execution_cache_wait_us"@ ==> (payload_timings(Json::Object(fields)) matches Some(
            t,
        ) ==> t.2 is None),
        key == "sparse_trie_wait_us"@ ==> (payload_timings(Json::Object(fields)) matches Some(t)
            ==> t.3 is None),
{
    lemma_field_by_membership(fields, key, Json::Null);
}

/// Reading the timings of an object does not depend on the order of its
/// members: two objects with distinct names and the same members read the same.
pub proof fn lemma_timings_order_free(a: Seq<(Seq<char>, Json)>, b: Seq<(Seq<char>, Json)>)
    requires
        distinct_names(a),
        distinct_names(b),
        forall|m: (Seq<char>, Json)| a.contains(m) <==> b.contains(m),
    ensures
        payload_timings(Json::Object(a)) == payload_timings(Json::Object(b)),
{
    lemma_field_order_free(a, b, "latency_us"@);
    lemma_field_order_free(a, b, "persistence_wait_us"@);
    lemma_field_order_free(a, b, "execution_cache_wait_us"@);
    lemma_field_order_free(a, b, "sparse_trie_wait_us"@);
}

} // verus!
