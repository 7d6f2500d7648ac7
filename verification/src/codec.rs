//! The JSON wire format of the `reth_` payload types.
//!
//! `reth_newPayload` takes one of three payload shapes, and the wire format is
//! untagged: a raw block without an access list is a bare hex string, a raw
//! block with one is `{ "block": .., "bal": .. }`, big-block data is an object
//! with `env_switches`, `prior_block_hashes`, `block_number` and optionally
//! `merged_block_access_list`, and standard execution data is written as it is.
//! Reading tries the shapes in the order raw block object, bare bytes,
//! big-block data, execution data, and takes the first that fits.
use vstd::prelude::*;

use crate::hex::{hex_text, lemma_hex_text_roundtrip};
use crate::json::{
    bytes_json, clone_json, distinct_names, json_b256, json_bytes, json_get, json_u64, json_view,
    lemma_field_absent, lemma_field_at, lemma_field_by_membership, lemma_field_order_free, Json,
    JsonNumber, JsonValue,
};
use crate::types::{
    opt_bytes_view, BigBlockData, BigBlockModel, PayloadInputModel, RethNewPayloadInput,
    RethNewPayloadParams,
};

verus! {

/// A block number and hash as the wire writes it: `[number, "0x.."]`.
pub open spec fn hash_pair_json(p: (u64, Seq<u8>)) -> Json {
    Json::Array(seq![Json::Number(JsonNumber::Unsigned(p.0)), bytes_json(p.1)])
}

/// The members of big-block data on the wire, in declaration order; the access
/// list is left out when absent.
pub open spec fn big_block_members(b: BigBlockModel<Json>) -> Seq<(Seq<char>, Json)> {
    let fields = seq![
        ("env_switches"@, Json::Array(b.env_switches)),
        ("prior_block_hashes"@, Json::Array(b.prior_block_hashes.map_values(|p| hash_pair_json(p)))),
        ("block_number"@, Json::Number(JsonNumber::Unsigned(b.block_number))),
    ];
    match b.merged_block_access_list {
        Some(m) => fields.push(("merged_block_access_list"@, bytes_json(m))),
        None => fields,
    }
}

/// Big-block data on the wire.
pub open spec fn big_block_json(b: BigBlockModel<Json>) -> Json {
    Json::Object(big_block_members(b))
}

/// A `reth_newPayload` input on the wire.
pub open spec fn input_json(i: PayloadInputModel<Json>) -> Json {
    match i {
        PayloadInputModel::ExecutionData(d) => d,
        PayloadInputModel::BigBlockData(b) => big_block_json(b),
        PayloadInputModel::BlockRlp { block, bal } => match bal {
            None => bytes_json(block),
            Some(bal) => Json::Object(seq![("block"@, bytes_json(block)), ("bal"@, bytes_json(bal))]),
        },
    }
}

impl BigBlockData<JsonValue> {
    /// The wire form of this big-block data.
    pub fn to_json(self) -> (r: JsonValue)
        ensures
            r@ == big_block_json(self@),
    {
        let ghost model = self@;
        let BigBlockData { env_switches, prior_block_hashes, block_number, merged_block_access_list } =
            self;
        let mut pairs: Vec<JsonValue> = Vec::new();
        let mut i: usize = 0;
        while i < prior_block_hashes.len()
            invariant
                model.prior_block_hashes =~= Seq::new(
                    prior_block_hashes.len() as nat,
                    |k: int| (prior_block_hashes[k].0, prior_block_hashes[k].1@),
                ),
                i <= prior_block_hashes.len(),
                pairs.len() == i,
                forall|k: int|
                    0 <= k < i ==> #[trigger] json_view(&pairs[k]) == hash_pair_json(
                        model.prior_block_hashes[k],
                    ),
            decreases prior_block_hashes.len() - i,
        {
            let (n, h) = prior_block_hashes[i];
            let pair = JsonValue::Array(vec![JsonValue::unsigned(n), JsonValue::bytes(h.as_slice())]);
            proof {
                assert(pair@->Array_0 =~= seq![
                    Json::Number(JsonNumber::Unsigned(n)),
                    bytes_json(h@),
                ]);
            }
            pairs.push(pair);
            i = i + 1;
        }
        let ghost env_view = Seq::new(env_switches.len() as nat, |k: int| json_view(&env_switches[k]));
        let env = JsonValue::Array(env_switches);
        let hashes = JsonValue::Array(pairs);
        proof {
            assert(env@->Array_0 =~= model.env_switches);
            let hs = hashes@->Array_0;
            let expected = model.prior_block_hashes.map_values(|p| hash_pair_json(p));
            assert(hs.len() == expected.len());
            assert forall|k: int| 0 <= k < hs.len() implies hs[k] == expected[k] by {
                assert(hs[k] == json_view(&pairs[k]));
            }
            assert(hs =~= expected);
        }
        let mut fields: Vec<(String, JsonValue)> = Vec::new();
        fields.push((String::from_str("env_switches"), env));
        fields.push((String::from_str("prior_block_hashes"), hashes));
        fields.push((String::from_str("block_number"), JsonValue::unsigned(block_number)));
        match merged_block_access_list {
            Some(m) => {
                fields.push((String::from_str("merged_block_access_list"), JsonValue::bytes(m.as_slice())));
            },
            None => {},
        }
        let r = JsonValue::Object(fields);
        proof {
            assert(r@->Object_0 =~= big_block_members(model));
        }
        r
    }
}

impl RethNewPayloadInput<JsonValue> {
    /// The wire form of this input: execution data as it is, big-block data as
    /// an object, a raw block as a bare hex string when it has no access list
    /// and as `{ "block": .., "bal": .. }` when it has one.
    pub fn to_json(self) -> (r: JsonValue)
        ensures
            r@ == input_json(self@),
    {
        match self {
            RethNewPayloadInput::ExecutionData(d) => d,
            RethNewPayloadInput::BigBlockData(b) => (*b).to_json(),
            RethNewPayloadInput::BlockRlp { block, bal } => match bal {
                None => JsonValue::bytes(block.as_slice()),
                Some(bal) => {
                    let mut fields: Vec<(String, JsonValue)> = Vec::new();
                    fields.push((String::from_str("block"), JsonValue::bytes(block.as_slice())));
                    fields.push((String::from_str("bal"), JsonValue::bytes(bal.as_slice())));
                    let r = JsonValue::Object(fields);
                    proof {
                        assert(r@->Object_0 =~= seq![
                            ("block"@, bytes_json(block@)),
                            ("bal"@, bytes_json(bal@)),
                        ]);
                    }
                    r
                },
            },
        }
    }
}

/// The content of object members.
pub open spec fn members_view(fields: Seq<(String, JsonValue)>) -> Seq<(Seq<char>, Json)> {
    fields.map_values(|f: (String, JsonValue)| (f.0@, json_view(&f.1)))
}

/// An optional flag as an object member: present when set, left out otherwise.
pub open spec fn opt_bool_member(key: Seq<char>, flag: Option<bool>) -> Seq<(Seq<char>, Json)> {
    match flag {
        Some(b) => seq![(key, Json::Bool(b))],
        None => Seq::empty(),
    }
}

/// `reth_newPayload` parameters as a JSON object; unset wait flags are left out.
pub open spec fn params_json(
    payload: PayloadInputModel<Json>,
    wait_for_persistence: Option<bool>,
    wait_for_caches: Option<bool>,
) -> Json {
    Json::Object(
        seq![("payload"@, input_json(payload))] + opt_bool_member(
            "wait_for_persistence"@,
            wait_for_persistence,
        ) + opt_bool_member("wait_for_caches"@, wait_for_caches),
    )
}

impl RethNewPayloadParams<JsonValue> {
    /// These parameters as a JSON object, leaving out unset wait flags.
    pub fn to_json(self) -> (r: JsonValue)
        ensures
            r@ == params_json(self.payload@, self.wait_for_persistence, self.wait_for_caches),
    {
        let ghost payload_model = self.payload@;
        let RethNewPayloadParams { payload, wait_for_persistence, wait_for_caches } = self;
        let mut fields: Vec<(String, JsonValue)> = Vec::new();
        fields.push((String::from_str("payload"), payload.to_json()));
        let ghost exp1 = seq![("payload"@, input_json(payload_model))];
        let ghost exp2 = exp1 + opt_bool_member("wait_for_persistence"@, wait_for_persistence);
        let ghost exp3 = exp2 + opt_bool_member("wait_for_caches"@, wait_for_caches);
        assert(members_view(fields@) =~= exp1);
        match wait_for_persistence {
            Some(b) => fields.push((String::from_str("wait_for_persistence"), JsonValue::Bool(b))),
            None => {},
        }
        assert(members_view(fields@) =~= exp2);
        match wait_for_caches {
            Some(b) => fields.push((String::from_str("wait_for_caches"), JsonValue::Bool(b))),
            None => {},
        }
        assert(members_view(fields@) =~= exp3);
        let r = JsonValue::Object(fields);
        proof {
            assert(r@->Object_0 =~= members_view(fields@));
        }
        r
    }
}

/// An optional byte-string member: a missing member or `null` reads as absent,
/// anything else must read as bytes. `None` when it does not.
pub open spec fn opt_bytes_member(m: Option<Json>) -> Option<Option<Seq<u8>>> {
    match m {
        None => Some(None),
        Some(Json::Null) => Some(None),
        Some(j) => match json_bytes(j) {
            Some(b) => Some(Some(b)),
            None => None,
        },
    }
}

/// A raw block object `{ "block": .., "bal": .. }`: an object whose `block`
/// reads as bytes and whose optional `bal` reads as optional bytes.
pub open spec fn block_rlp_from_json(j: Json) -> Option<(Seq<u8>, Option<Seq<u8>>)> {
    match j {
        Json::Object(_) => match (json_get(j, "block"@), opt_bytes_member(json_get(j, "bal"@))) {
            (Some(b), Some(bal)) => match json_bytes(b) {
                Some(block) => Some((block, bal)),
                None => None,
            },
            _ => None,
        },
        _ => None,
    }
}

/// A block number and hash: an array of exactly two items, an integer and a
/// 32-byte hash.
pub open spec fn hash_pair_from_json(j: Json) -> Option<(u64, Seq<u8>)> {
    match j {
        Json::Array(items) => if items.len() == 2 {
            match (json_u64(items[0]), json_b256(items[1])) {
                (Some(n), Some(h)) => Some((n, h)),
                _ => None,
            }
        } else {
            None
        },
        _ => None,
    }
}

/// An array of block numbers and hashes.
pub open spec fn hash_pairs_from_json(j: Json) -> Option<Seq<(u64, Seq<u8>)>> {
    match j {
        Json::Array(items) => if forall|i: int|
            0 <= i < items.len() ==> (#[trigger] hash_pair_from_json(items[i])) is Some {
            Some(Seq::new(items.len(), |i: int| hash_pair_from_json(items[i])->0))
        } else {
            None
        },
        _ => None,
    }
}

/// Big-block data from its four parts, each read as its field type:
/// `env_switches` an array of values, `prior_block_hashes` an array of block
/// numbers and hashes, `block_number` an integer; the access list already read.
pub open spec fn big_block_parts(
    env: Option<Json>,
    prior: Option<Json>,
    number: Option<Json>,
    merged: Option<Option<Seq<u8>>>,
) -> Option<BigBlockModel<Json>> {
    match (env, prior, number, merged) {
        (Some(Json::Array(e)), Some(p), Some(n), Some(m)) => match (
            hash_pairs_from_json(p),
            json_u64(n),
        ) {
            (Some(ps), Some(num)) => Some(
                BigBlockModel {
                    env_switches: e,
                    prior_block_hashes: ps,
                    block_number: num,
                    merged_block_access_list: m,
                },
            ),
            _ => None,
        },
        _ => None,
    }
}

/// Big-block data read from JSON: an object with the four members (the access
/// list may be missing), or an array of three or four items in field order.
pub open spec fn big_block_from_json(j: Json) -> Option<BigBlockModel<Json>> {
    match j {
        Json::Object(_) => big_block_parts(
            json_get(j, "env_switches"@),
            json_get(j, "prior_block_hashes"@),
            json_get(j, "block_number"@),
            opt_bytes_member(json_get(j, "merged_block_access_list"@)),
        ),
        Json::Array(items) => if items.len() == 3 {
            big_block_parts(Some(items[0]), Some(items[1]), Some(items[2]), Some(None))
        } else if items.len() == 4 {
            big_block_parts(
                Some(items[0]),
                Some(items[1]),
                Some(items[2]),
                opt_bytes_member(Some(items[3])),
            )
        } else {
            None
        },
        _ => None,
    }
}

/// A `reth_newPayload` input read from JSON: the first shape that fits among a
/// raw block object, bare bytes (a raw block without access list), big-block
/// data, and execution data, which fits any value.
pub open spec fn input_from_json(j: Json) -> PayloadInputModel<Json> {
    match block_rlp_from_json(j) {
        Some((block, bal)) => PayloadInputModel::BlockRlp { block, bal },
        None => match json_bytes(j) {
            Some(block) => PayloadInputModel::BlockRlp { block, bal: None },
            None => match big_block_from_json(j) {
                Some(b) => PayloadInputModel::BigBlockData(b),
                None => PayloadInputModel::ExecutionData(j),
            },
        },
    }
}

/// The content of an optional JSON reference.
pub open spec fn opt_json_view(m: Option<&JsonValue>) -> Option<Json> {
    match m {
        Some(v) => Some(v@),
        None => None,
    }
}

/// The content of an optional optional byte string.
pub open spec fn opt_opt_bytes_view(m: Option<Option<Vec<u8>>>) -> Option<Option<Seq<u8>>> {
    match m {
        Some(b) => Some(opt_bytes_view(b)),
        None => None,
    }
}

fn read_opt_bytes_member(m: Option<&JsonValue>) -> (r: Option<Option<Vec<u8>>>)
    ensures
        opt_opt_bytes_view(r) == opt_bytes_member(opt_json_view(m)),
{
    match m {
        None => Some(None),
        Some(JsonValue::Null) => Some(None),
        Some(v) => match v.as_bytes() {
            Some(b) => Some(Some(b)),
            None => None,
        },
    }
}

fn read_block_rlp(v: &JsonValue) -> (r: Option<(Vec<u8>, Option<Vec<u8>>)>)
    ensures
        match r {
            Some((block, bal)) => block_rlp_from_json(v@) == Some((block@, opt_bytes_view(bal))),
            None => block_rlp_from_json(v@) is None,
        },
{
    match v {
        JsonValue::Object(_) => {
            let bal = read_opt_bytes_member(v.get("bal"));
            match (v.get("block"), bal) {
                (Some(b), Some(bal)) => match b.as_bytes() {
                    Some(block) => Some((block, bal)),
                    None => None,
                },
                _ => None,
            }
        },
        _ => None,
    }
}

fn read_hash_pair(v: &JsonValue) -> (r: Option<(u64, [u8; 32])>)
    ensures
        match r {
            Some((n, h)) => hash_pair_from_json(v@) == Some((n, h@)),
            None => hash_pair_from_json(v@) is None,
        },
{
    match v {
        JsonValue::Array(items) => {
            if items.len() == 2 {
                proof {
                    assert(v@->Array_0[0] == json_view(&items[0]));
                    assert(v@->Array_0[1] == json_view(&items[1]));
                }
                match (items[0].as_u64(), items[1].as_b256()) {
                    (Some(n), Some(h)) => Some((n, h)),
                    _ => None,
                }
            } else {
                None
            }
        },
        _ => None,
    }
}

fn read_hash_pairs(v: &JsonValue) -> (r: Option<Vec<(u64, [u8; 32])>>)
    ensures
        match r {
            Some(ps) => hash_pairs_from_json(v@) == Some(
                Seq::new(ps.len() as nat, |k: int| (ps[k].0, ps[k].1@)),
            ),
            None => hash_pairs_from_json(v@) is None,
        },
{
    match v {
        JsonValue::Array(items) => {
            let ghost all = v@->Array_0;
            let mut out: Vec<(u64, [u8; 32])> = Vec::new();
            let mut i: usize = 0;
            while i < items.len()
                invariant
                    *v == JsonValue::Array(*items),
                    all == v@->Array_0,
                    i <= items.len(),
                    out.len() == i,
                    forall|k: int|
                        0 <= k < i ==> hash_pair_from_json(#[trigger] all[k]) == Some(
                            (out[k].0, out[k].1@),
                        ),
                decreases items.len() - i,
            {
                assert(all[i as int] == json_view(&items[i as int]));
                match read_hash_pair(&items[i]) {
                    Some(p) => out.push(p),
                    None => {
                        assert(hash_pair_from_json(all[i as int]) is None);
                        return None;
                    },
                }
                i = i + 1;
            }
            assert(forall|k: int| 0 <= k < all.len() ==> (#[trigger] hash_pair_from_json(all[k])) is Some);
            assert(Seq::new(out.len() as nat, |k: int| (out[k].0, out[k].1@)) =~= Seq::new(
                all.len(),
                |k: int| hash_pair_from_json(all[k])->0,
            ));
            Some(out)
        },
        _ => None,
    }
}

fn read_big_block_parts(
    env: Option<&JsonValue>,
    prior: Option<&JsonValue>,
    number: Option<&JsonValue>,
    merged: Option<Option<Vec<u8>>>,
) -> (r: Option<BigBlockData<JsonValue>>)
    ensures
        match r {
            Some(b) => big_block_parts(
                opt_json_view(env),
                opt_json_view(prior),
                opt_json_view(number),
                opt_opt_bytes_view(merged),
            ) == Some(b@),
            None => big_block_parts(
                opt_json_view(env),
                opt_json_view(prior),
                opt_json_view(number),
                opt_opt_bytes_view(merged),
            ) is None,
        },
{
    match (env, prior, number, merged) {
        (Some(JsonValue::Array(e)), Some(p), Some(n), Some(m)) => match (
            read_hash_pairs(p),
            n.as_u64(),
        ) {
            (Some(ps), Some(num)) => {
                let ghost ev = env.unwrap()@->Array_0;
                let mut switches: Vec<JsonValue> = Vec::new();
                let mut i: usize = 0;
                while i < e.len()
                    invariant
                        ev == json_view(&JsonValue::Array(*e))->Array_0,
                        i <= e.len(),
                        switches.len() == i,
                        forall|k: int| 0 <= k < i ==> #[trigger] json_view(&switches[k]) == ev[k],
                    decreases e.len() - i,
                {
                    let c = clone_json(&e[i]);
                    switches.push(c);
                    i = i + 1;
                }
                let b = BigBlockData {
                    env_switches: switches,
                    prior_block_hashes: ps,
                    block_number: num,
                    merged_block_access_list: m,
                };
                proof {
                    assert(b@.env_switches =~= ev);
                }
                Some(b)
            },
            _ => None,
        },
        _ => None,
    }
}

impl BigBlockData<JsonValue> {
    /// Reads big-block data from JSON: an object with the four members (the
    /// access list may be missing or `null`), or an array of three or four
    /// items in field order. `None` when the value does not fit.
    pub fn from_json(v: &JsonValue) -> (r: Option<Self>)
        ensures
            match r {
                Some(b) => big_block_from_json(v@) == Some(b@),
                None => big_block_from_json(v@) is None,
            },
    {
        match v {
            JsonValue::Object(_) => {
                let merged = read_opt_bytes_member(v.get("merged_block_access_list"));
                read_big_block_parts(
                    v.get("env_switches"),
                    v.get("prior_block_hashes"),
                    v.get("block_number"),
                    merged,
                )
            },
            JsonValue::Array(items) => {
                proof {
                    let all = v@->Array_0;
                    assert(forall|k: int| 0 <= k < items.len() ==> all[k] == json_view(&items[k]));
                }
                if items.len() == 3 {
                    read_big_block_parts(Some(&items[0]), Some(&items[1]), Some(&items[2]), Some(None))
                } else if items.len() == 4 {
                    let merged = read_opt_bytes_member(Some(&items[3]));
                    read_big_block_parts(Some(&items[0]), Some(&items[1]), Some(&items[2]), merged)
                } else {
                    None
                }
            },
            _ => None,
        }
    }
}

impl RethNewPayloadInput<JsonValue> {
    /// Reads a `reth_newPayload` input from JSON, trying in order a raw block
    /// object `{ "block": .., "bal": .. }`, bare bytes (a raw block without
    /// access list), big-block data, and execution data, which takes any value.
    pub fn from_json(v: &JsonValue) -> (r: Self)
        ensures
            r@ == input_from_json(v@),
    {
        match read_block_rlp(v) {
            Some((block, bal)) => RethNewPayloadInput::BlockRlp { block, bal },
            None => match v.as_bytes() {
                Some(block) => RethNewPayloadInput::BlockRlp { block, bal: None },
                None => match BigBlockData::from_json(v) {
                    Some(b) => RethNewPayloadInput::BigBlockData(Box::new(b)),
                    None => RethNewPayloadInput::ExecutionData(clone_json(v)),
                },
            },
        }
    }
}

impl RethNewPayloadInput<JsonValue> {
    /// Turns an input read with JSON execution data into one with typed
    /// execution data, given how the typed reader fared: `env_switches` is the
    /// typed reading of every environment of big-block data (`None` when one of
    /// them does not read), and `whole` the typed reading of the whole value
    /// (`None` when it does not read). As with the untagged shapes, big-block
    /// data whose environments do not read falls back to execution data, and
    /// `None` means that no shape fits.
    pub fn into_typed<E>(self, env_switches: Option<Vec<E>>, whole: Option<E>) -> (r: Option<
        RethNewPayloadInput<E>,
    >)
        ensures
            match self {
                RethNewPayloadInput::BlockRlp { block, bal } => r == Some(
                    RethNewPayloadInput::<E>::BlockRlp { block, bal },
                ),
                RethNewPayloadInput::BigBlockData(b) => match env_switches {
                    Some(es) => r == Some(
                        RethNewPayloadInput::BigBlockData(
                            Box::new(
                                BigBlockData {
                                    env_switches: es,
                                    prior_block_hashes: b.prior_block_hashes,
                                    block_number: b.block_number,
                                    merged_block_access_list: b.merged_block_access_list,
                                },
                            ),
                        ),
                    ),
                    None => match whole {
                        Some(d) => r == Some(RethNewPayloadInput::ExecutionData(d)),
                        None => r is None,
                    },
                },
                RethNewPayloadInput::ExecutionData(_) => match whole {
                    Some(d) => r == Some(RethNewPayloadInput::ExecutionData(d)),
                    None => r is None,
                },
            },
    {
        match self {
            RethNewPayloadInput::BlockRlp { block, bal } => Some(
                RethNewPayloadInput::BlockRlp { block, bal },
            ),
            RethNewPayloadInput::BigBlockData(b) => match env_switches {
                Some(es) => {
                    let BigBlockData {
                        env_switches: _,
                        prior_block_hashes,
                        block_number,
                        merged_block_access_list,
                    } = *b;
                    Some(
                        RethNewPayloadInput::BigBlockData(
                            Box::new(
                                BigBlockData {
                                    env_switches: es,
                                    prior_block_hashes,
                                    block_number,
                                    merged_block_access_list,
                                },
                            ),
                        ),
                    )
                },
                None => match whole {
                    Some(d) => Some(RethNewPayloadInput::ExecutionData(d)),
                    None => None,
                },
            },
            RethNewPayloadInput::ExecutionData(_) => match whole {
                Some(d) => Some(RethNewPayloadInput::ExecutionData(d)),
                None => None,
            },
        }
    }
}

/// Execution data that no other input shape claims when read back: it is not
/// a raw block object, not bytes, and not big-block data.
pub open spec fn is_distinct_execution_data(j: Json) -> bool {
    &&& block_rlp_from_json(j) is None
    &&& json_bytes(j) is None
    &&& big_block_from_json(j) is None
}

proof fn lemma_hash_pair_roundtrip(p: (u64, Seq<u8>))
    requires
        p.1.len() == 32,
    ensures
        hash_pair_from_json(hash_pair_json(p)) == Some(p),
{
    lemma_hex_text_roundtrip(p.1);
}

proof fn lemma_big_block_roundtrip(b: BigBlockModel<Json>)
    requires
        forall|i: int| 0 <= i < b.prior_block_hashes.len() ==> (#[trigger] b.prior_block_hashes[i]).1.len() == 32,
    ensures
        big_block_from_json(big_block_json(b)) == Some(b),
        block_rlp_from_json(big_block_json(b)) is None,
        json_bytes(big_block_json(b)) is None,
{
    reveal_strlit("env_switches");
    reveal_strlit("prior_block_hashes");
    reveal_strlit("block_number");
    reveal_strlit("merged_block_access_list");
    reveal_strlit("block");
    let fields = big_block_members(b);
    let j = big_block_json(b);
    let pairs = b.prior_block_hashes.map_values(|p| hash_pair_json(p));
    assert(fields[0].0 =~= "env_switches"@);
    assert(fields[1].0 =~= "prior_block_hashes"@);
    assert(fields[2].0 =~= "block_number"@);
    lemma_field_at(fields, "env_switches"@, 0);
    assert(fields[0].0 != "prior_block_hashes"@);
    lemma_field_at(fields, "prior_block_hashes"@, 1);
    assert(fields[0].0[0] == 'e' && "block_number"@[0] == 'b');
    assert(fields[0].0 != "block_number"@);
    assert(fields[1].0 != "block_number"@);
    lemma_field_at(fields, "block_number"@, 2);
    assert("block"@.len() == 5);
    assert(forall|k: int| 0 <= k < fields.len() ==> fields[k].0.len() != 5);
    assert(forall|k: int| 0 <= k < fields.len() ==> fields[k].0 != "block"@);
    lemma_field_absent(fields, "block"@);
    match b.merged_block_access_list {
        Some(m) => {
            assert(fields[3].0 =~= "merged_block_access_list"@);
            assert(fields[0].0 != "merged_block_access_list"@);
            assert(fields[1].0 != "merged_block_access_list"@);
            assert(fields[2].0 != "merged_block_access_list"@);
            lemma_field_at(fields, "merged_block_access_list"@, 3);
            lemma_hex_text_roundtrip(m);
        },
        None => {
            lemma_field_absent(fields, "merged_block_access_list"@);
        },
    }
    assert forall|i: int| 0 <= i < pairs.len() implies (#[trigger] hash_pair_from_json(pairs[i]))
        == Some(b.prior_block_hashes[i]) by {
        lemma_hash_pair_roundtrip(b.prior_block_hashes[i]);
    }
    assert(Seq::new(pairs.len(), |i: int| hash_pair_from_json(pairs[i])->0)
        =~= b.prior_block_hashes);
}

/// Reading back the wire form of big-block data gives the data; the wire form
/// is no raw block object and no byte string, so an input holding it reads
/// back as big-block data.
pub proof fn lemma_big_block_wire_roundtrip(b: BigBlockData<JsonValue>)
    ensures
        big_block_from_json(big_block_json(b@)) == Some(b@),
        block_rlp_from_json(big_block_json(b@)) is None,
        json_bytes(big_block_json(b@)) is None,
{
    let m = b@;
    assert forall|i: int| 0 <= i < m.prior_block_hashes.len() implies (
    #[trigger] m.prior_block_hashes[i]).1.len() == 32 by {
        assert(m.prior_block_hashes[i].1 == b.prior_block_hashes[i].1@);
    }
    lemma_big_block_roundtrip(m);
}

/// A raw block is written as its bare hex text when it has no access list,
/// and as the object `{ "block": .., "bal": .. }` when it has one.
pub proof fn lemma_raw_block_wire_forms(block: Vec<u8>, bal: Option<Vec<u8>>)
    ensures
        bal is None ==> input_json(RethNewPayloadInput::<JsonValue>::BlockRlp { block, bal }@)
            == Json::Str(hex_text(block@)),
        bal matches Some(b) ==> input_json(
            RethNewPayloadInput::<JsonValue>::BlockRlp { block, bal }@,
        ) == Json::Object(
            seq![("block"@, Json::Str(hex_text(block@))), ("bal"@, Json::Str(hex_text(b@)))],
        ),
{
}

/// The parameters object of `reth_newPayload` holds the payload under
/// `payload`, and each wait flag under its own name exactly when that flag is
/// set, whatever the other flag is.
pub proof fn lemma_params_members(
    payload: PayloadInputModel<Json>,
    wait_for_persistence: Option<bool>,
    wait_for_caches: Option<bool>,
)
    ensures
        json_get(params_json(payload, wait_for_persistence, wait_for_caches), "payload"@) == Some(
            input_json(payload),
        ),
        json_get(
            params_json(payload, wait_for_persistence, wait_for_caches),
            "wait_for_persistence"@,
        ) == match wait_for_persistence {
            Some(b) => Some(Json::Bool(b)),
            None => None::<Json>,
        },
        json_get(params_json(payload, wait_for_persistence, wait_for_caches), "wait_for_caches"@)
            == match wait_for_caches {
            Some(b) => Some(Json::Bool(b)),
            None => None::<Json>,
        },
{
    reveal_strlit("payload");
    reveal_strlit("wait_for_persistence");
    reveal_strlit("wait_for_caches");
    let p = "payload"@;
    let wp = "wait_for_persistence"@;
    let wc = "wait_for_caches"@;
    assert(p.len() == 7 && wp.len() == 20 && wc.len() == 15);
    let fields = params_json(payload, wait_for_persistence, wait_for_caches)->Object_0;
    assert(forall|i: int|
        0 <= i < fields.len() ==> fields[i].0 == p || fields[i].0 == wp || fields[i].0 == wc);
    assert(fields[0] == (p, input_json(payload)));
    lemma_field_at(fields, p, 0);
    match wait_for_persistence {
        Some(b) => {
            assert(fields[1] == (wp, Json::Bool(b)));
            lemma_field_at(fields, wp, 1);
        },
        None => {
            assert(forall|i: int| 0 <= i < fields.len() ==> fields[i].0 != wp);
            lemma_field_absent(fields, wp);
        },
    }
    match wait_for_caches {
        Some(b) => {
            let k = fields.len() - 1;
            assert(fields[k] == (wc, Json::Bool(b)));
            assert(forall|i: int| 0 <= i < k ==> fields[i].0 != wc);
            lemma_field_at(fields, wc, k);
        },
        None => {
            assert(forall|i: int| 0 <= i < fields.len() ==> fields[i].0 != wc);
            lemma_field_absent(fields, wc);
        },
    }
}

/// A raw block object is read by member name: an object with distinct names
/// holding `block` as the hex text of `block`, and `bal` as the hex text of
/// `bal` when there is one (no member `bal` otherwise), reads as that raw block
/// wherever its members stand and whatever other members it has.
pub proof fn lemma_raw_block_object_read_by_name(
    fields: Seq<(Seq<char>, Json)>,
    block: Seq<u8>,
    bal: Option<Seq<u8>>,
)
    requires
        distinct_names(fields),
        fields.contains(("block"@, Json::Str(hex_text(block)))),
        match bal {
            Some(a) => fields.contains(("bal"@, Json::Str(hex_text(a)))),
            None => forall|i: int| 0 <= i < fields.len() ==> fields[i].0 != "bal"@,
        },
    ensures
        input_from_json(Json::Object(fields)) == (PayloadInputModel::<Json>::BlockRlp { block, bal }),
{
    lemma_field_by_membership(fields, "block"@, Json::Str(hex_text(block)));
    lemma_hex_text_roundtrip(block);
    match bal {
        Some(a) => {
            lemma_field_by_membership(fields, "bal"@, Json::Str(hex_text(a)));
            lemma_hex_text_roundtrip(a);
        },
        None => {
            lemma_field_by_membership(fields, "bal"@, Json::Null);
        },
    }
}

/// Big-block data is read by member name: an object with distinct names
/// holding the environments, the block hashes, the block number and, when
/// given, the access list as hex text (no such member otherwise) reads as that
/// data wherever its members stand and whatever other members it has.
pub proof fn lemma_big_block_object_read_by_name(
    fields: Seq<(Seq<char>, Json)>,
    env_switches: Seq<Json>,
    prior: Json,
    block_number: u64,
    merged: Option<Seq<u8>>,
)
    requires
        distinct_names(fields),
        fields.contains(("env_switches"@, Json::Array(env_switches))),
        fields.contains(("prior_block_hashes"@, prior)),
        hash_pairs_from_json(prior) is Some,
        fields.contains(("block_number"@, Json::Number(JsonNumber::Unsigned(block_number)))),
        match merged {
            Some(m) => fields.contains(("merged_block_access_list"@, Json::Str(hex_text(m)))),
            None => forall|i: int|
                0 <= i < fields.len() ==> fields[i].0 != "merged_block_access_list"@,
        },
    ensures
        big_block_from_json(Json::Object(fields)) == Some(
            BigBlockModel {
                env_switches,
                prior_block_hashes: hash_pairs_from_json(prior)->0,
                block_number,
                merged_block_access_list: merged,
            },
        ),
{
    lemma_field_by_membership(fields, "env_switches"@, Json::Array(env_switches));
    lemma_field_by_membership(fields, "prior_block_hashes"@, prior);
    lemma_field_by_membership(
        fields,
        "block_number"@,
        Json::Number(JsonNumber::Unsigned(block_number)),
    );
    match merged {
        Some(m) => {
            lemma_field_by_membership(
                fields,
                "merged_block_access_list"@,
                Json::Str(hex_text(m)),
            );
            lemma_hex_text_roundtrip(m);
        },
        None => {
            lemma_field_by_membership(fields, "merged_block_access_list"@, Json::Null);
        },
    }
}

/// An access list that does not read fails the object: a raw block object or
/// big-block object with distinct names whose `bal` (or
/// `merged_block_access_list`) member is neither `null` nor bytes does not
/// read as that shape.
pub proof fn lemma_bad_access_list_rejected(fields: Seq<(Seq<char>, Json)>, value: Json)
    requires
        distinct_names(fields),
        value != Json::Null,
        json_bytes(value) is None,
    ensures
        fields.contains(("bal"@, value)) ==> block_rlp_from_json(Json::Object(fields)) is None,
        fields.contains(("merged_block_access_list"@, value)) ==> big_block_from_json(
            Json::Object(fields),
        ) is None,
{
    lemma_field_by_membership(fields, "bal"@, value);
    lemma_field_by_membership(fields, "merged_block_access_list"@, value);
}

/// Reading an object as a raw block or as big-block data does not depend on
/// the order of its members: two objects with distinct names and the same
/// members read the same.
pub proof fn lemma_object_reading_order_free(a: Seq<(Seq<char>, Json)>, b: Seq<(Seq<char>, Json)>)
    requires
        distinct_names(a),
        distinct_names(b),
        forall|m: (Seq<char>, Json)| a.contains(m) <==> b.contains(m),
    ensures
        block_rlp_from_json(Json::Object(a)) == block_rlp_from_json(Json::Object(b)),
        big_block_from_json(Json::Object(a)) == big_block_from_json(Json::Object(b)),
{
    lemma_field_order_free(a, b, "block"@);
    lemma_field_order_free(a, b, "bal"@);
    lemma_field_order_free(a, b, "env_switches"@);
    lemma_field_order_free(a, b, "prior_block_hashes"@);
    lemma_field_order_free(a, b, "block_number"@);
    lemma_field_order_free(a, b, "merged_block_access_list"@);
}

/// Reading back the wire form of an input gives the input, whenever the input
/// is not execution data that another shape claims first (such as execution
/// data that is itself a hex string).
pub proof fn lemma_input_wire_roundtrip(x: RethNewPayloadInput<JsonValue>)
    requires
        x matches RethNewPayloadInput::ExecutionData(d) ==> is_distinct_execution_data(d@),
    ensures
        input_from_json(input_json(x@)) == x@,
{
    match x {
        RethNewPayloadInput::ExecutionData(d) => {},
        RethNewPayloadInput::BigBlockData(b) => {
            lemma_big_block_wire_roundtrip(*b);
        },
        RethNewPayloadInput::BlockRlp { block, bal } => {
            lemma_hex_text_roundtrip(block@);
            match bal {
                None => {},
                Some(bal) => {
                    reveal_strlit("block");
                    reveal_strlit("bal");
                    let fields = seq![("block"@, bytes_json(block@)), ("bal"@, bytes_json(bal@))];
                    lemma_field_at(fields, "block"@, 0);
                    assert("block"@.len() == 5 && "bal"@.len() == 3);
                    assert(fields[0].0 != "bal"@);
                    lemma_field_at(fields, "bal"@, 1);
                    lemma_hex_text_roundtrip(bal@);
                },
            }
        },
    }
}

} // verus!
