//! A JSON document model, and the readings of JSON values that the wire
//! format of this library uses.
//!
//! `JsonValue` holds what a JSON text holds. Numbers keep the three shapes that
//! a JSON reader distinguishes: a non-negative integer, a negative integer, and
//! a number with a fraction or exponent, which is carried by the bit pattern of
//! its IEEE-754 double.
use vstd::prelude::*;

use crate::hex::{from_hex, hex_text, hex_value, to_hex};

verus! {

/// A JSON number.
#[derive(Clone, Copy, Debug, PartialEq, Eq)]
pub enum JsonNumber {
    /// An integer in `0..=u64::MAX`.
    Unsigned(u64),
    /// An integer below zero.
    Negative(i64),
    /// Any other number, by the bits of its `f64` value.
    Float(u64),
}

/// A JSON value. Object members keep their order. A JSON reader gives the
/// members of an object distinct names; readings of a member take the first
/// member of that name.
#[derive(Debug, PartialEq, Eq)]
pub enum JsonValue {
    Null,
    Bool(bool),
    Number(JsonNumber),
    String(String),
    Array(Vec<JsonValue>),
    Object(Vec<(String, JsonValue)>),
}

/// The mathematical content of a `JsonValue`.
#[verifier::ext_equal]
pub enum Json {
    Null,
    Bool(bool),
    Number(JsonNumber),
    Str(Seq<char>),
    Array(Seq<Json>),
    Object(Seq<(Seq<char>, Json)>),
}

/// The content of a JSON value.
pub open spec fn json_view(v: &JsonValue) -> Json
    decreases v,
{
    match v {
        JsonValue::Null => Json::Null,
        JsonValue::Bool(b) => Json::Bool(*b),
        JsonValue::Number(n) => Json::Number(*n),
        JsonValue::String(s) => Json::Str(s@),
        JsonValue::Array(items) => Json::Array(
            Seq::new(
                items.len() as nat,
                |i: int|
                    if 0 <= i < items.len() {
                        json_view(&items[i])
                    } else {
                        Json::Null
                    },
            ),
        ),
        JsonValue::Object(fields) => Json::Object(
            Seq::new(
                fields.len() as nat,
                |i: int|
                    if 0 <= i < fields.len() {
                        (fields[i].0@, json_view(&fields[i].1))
                    } else {
                        (Seq::empty(), Json::Null)
                    },
            ),
        ),
    }
}

impl View for JsonValue {
    type V = Json;

    open spec fn view(&self) -> Json {
        json_view(self)
    }
}

/// A copy of a JSON value with the same content.
pub fn clone_json(v: &JsonValue) -> (r: JsonValue)
    ensures
        r@ == v@,
    decreases v,
{
    match v {
        JsonValue::Null => JsonValue::Null,
        JsonValue::Bool(b) => JsonValue::Bool(*b),
        JsonValue::Number(n) => JsonValue::Number(*n),
        JsonValue::String(s) => JsonValue::String(s.clone()),
        JsonValue::Array(items) => {
            let mut out: Vec<JsonValue> = Vec::new();
            let mut i: usize = 0;
            while i < items.len()
                invariant
                    *v == JsonValue::Array(*items),
                    i <= items.len(),
                    out.len() == i,
                    forall|j: int| 0 <= j < i ==> #[trigger] json_view(&out[j]) == json_view(&items[j]),
                decreases items.len() - i,
            {
                proof {
                    assert(decreases_to!(*items => items[i as int]));
                    assert(decreases_to!(*v => (*v)->Array_0));
                    assert(decreases_to!(*v => items[i as int]));
                }
                let c = clone_json(&items[i]);
                out.push(c);
                i = i + 1;
            }
            let r = JsonValue::Array(out);
            proof {
                let ra = r@->Array_0;
                let va = v@->Array_0;
                assert(ra.len() == va.len());
                assert forall|j: int| 0 <= j < ra.len() implies ra[j] == va[j] by {
                    assert(ra[j] == json_view(&out[j]));
                    assert(va[j] == json_view(&items[j]));
                }
                assert(ra =~= va);
            }
            r
        },
        JsonValue::Object(fields) => {
            let mut out: Vec<(String, JsonValue)> = Vec::new();
            let mut i: usize = 0;
            while i < fields.len()
                invariant
                    *v == JsonValue::Object(*fields),
                    i <= fields.len(),
                    out.len() == i,
                    forall|j: int|
                        0 <= j < i ==> #[trigger] out[j].0@ == fields[j].0@ && json_view(&out[j].1)
                            == json_view(&fields[j].1),
                decreases fields.len() - i,
            {
                proof {
                    assert(decreases_to!(*v => (*v)->Object_0));
                    assert(decreases_to!(*fields => fields[i as int]));
                    assert(decreases_to!(fields[i as int] => fields[i as int].1));
                }
                let key = fields[i].0.clone();
                let value = clone_json(&fields[i].1);
                out.push((key, value));
                i = i + 1;
            }
            let r = JsonValue::Object(out);
            proof {
                let ra = r@->Object_0;
                let va = v@->Object_0;
                assert(ra.len() == va.len());
                assert forall|j: int| 0 <= j < ra.len() implies ra[j] == va[j] by {
                    assert(ra[j] == (out[j].0@, json_view(&out[j].1)));
                    assert(va[j] == (fields[j].0@, json_view(&fields[j].1)));
                }
                assert(ra =~= va);
            }
            r
        },
    }
}

/// A JSON number read as a `u64`: any integer in range.
pub open spec fn json_u64(j: Json) -> Option<u64> {
    match j {
        Json::Number(JsonNumber::Unsigned(n)) => Some(n),
        Json::Number(JsonNumber::Negative(n)) => if n >= 0 {
            Some(n as u64)
        } else {
            None
        },
        _ => None,
    }
}

/// A JSON number read as a `u8`: any integer in `0..=255`.
pub open spec fn json_u8(j: Json) -> Option<u8> {
    match json_u64(j) {
        Some(n) => if n <= 255 {
            Some(n as u8)
        } else {
            None
        },
        None => None,
    }
}

/// The value of the first member named `key`.
pub open spec fn json_field(fields: Seq<(Seq<char>, Json)>, key: Seq<char>) -> Option<Json>
    decreases fields.len(),
{
    if fields.len() == 0 {
        None
    } else if fields[0].0 == key {
        Some(fields[0].1)
    } else {
        json_field(fields.skip(1), key)
    }
}

/// The first member named `key` is found at its place.
pub proof fn lemma_field_at(fields: Seq<(Seq<char>, Json)>, key: Seq<char>, i: int)
    requires
        0 <= i < fields.len(),
        fields[i].0 == key,
        forall|j: int| 0 <= j < i ==> fields[j].0 != key,
    ensures
        json_field(fields, key) == Some(fields[i].1),
    decreases i,
{
    if i > 0 {
        let rest = fields.skip(1);
        assert forall|j: int| 0 <= j < i - 1 implies rest[j].0 != key by {
            assert(rest[j] == fields[j + 1]);
        }
        lemma_field_at(rest, key, i - 1);
    }
}

/// A name that no member has is not found.
pub proof fn lemma_field_absent(fields: Seq<(Seq<char>, Json)>, key: Seq<char>)
    requires
        forall|j: int| 0 <= j < fields.len() ==> fields[j].0 != key,
    ensures
        json_field(fields, key) is None,
    decreases fields.len(),
{
    if fields.len() > 0 {
        let rest = fields.skip(1);
        assert forall|j: int| 0 <= j < rest.len() implies rest[j].0 != key by {
            assert(rest[j] == fields[j + 1]);
        }
        lemma_field_absent(rest, key);
    }
}

/// No two members of an object share a name, as in any object a JSON reader
/// gives.
pub open spec fn distinct_names(fields: Seq<(Seq<char>, Json)>) -> bool {
    forall|i: int, j: int|
        0 <= i < fields.len() && 0 <= j < fields.len() && i != j ==> fields[i].0 != fields[j].0
}

/// In an object with distinct names, a member is found by its name wherever
/// it stands.
pub proof fn lemma_field_named(fields: Seq<(Seq<char>, Json)>, key: Seq<char>, i: int)
    requires
        distinct_names(fields),
        0 <= i < fields.len(),
        fields[i].0 == key,
    ensures
        json_field(fields, key) == Some(fields[i].1),
{
    assert forall|j: int| 0 <= j < i implies fields[j].0 != key by {
        assert(fields[j].0 != fields[i].0);
    }
    lemma_field_at(fields, key, i);
}

/// In an object with distinct names, the member of a name is the value that
/// the object holds under that name, and there is none when no member has it.
pub proof fn lemma_field_by_membership(fields: Seq<(Seq<char>, Json)>, key: Seq<char>, value: Json)
    requires
        distinct_names(fields),
    ensures
        fields.contains((key, value)) ==> json_field(fields, key) == Some(value),
        (forall|i: int| 0 <= i < fields.len() ==> fields[i].0 != key) ==> json_field(
            fields,
            key,
        ) is None,
{
    if fields.contains((key, value)) {
        let i = choose|i: int| 0 <= i < fields.len() && fields[i] == (key, value);
        lemma_field_named(fields, key, i);
    }
    if forall|i: int| 0 <= i < fields.len() ==> fields[i].0 != key {
        lemma_field_absent(fields, key);
    }
}

/// Two objects with distinct names and the same members, in whatever order,
/// have the same member under every name.
pub proof fn lemma_field_order_free(
    a: Seq<(Seq<char>, Json)>,
    b: Seq<(Seq<char>, Json)>,
    key: Seq<char>,
)
    requires
        distinct_names(a),
        distinct_names(b),
        forall|m: (Seq<char>, Json)| a.contains(m) <==> b.contains(m),
    ensures
        json_field(a, key) == json_field(b, key),
{
    if exists|i: int| 0 <= i < a.len() && a[i].0 == key {
        let i = choose|i: int| 0 <= i < a.len() && a[i].0 == key;
        lemma_field_named(a, key, i);
        assert(a.contains(a[i]));
        assert(b.contains(a[i]));
        let j = choose|j: int| 0 <= j < b.len() && b[j] == a[i];
        lemma_field_named(b, key, j);
    } else {
        lemma_field_absent(a, key);
        assert forall|j: int| 0 <= j < b.len() implies b[j].0 != key by {
            if b[j].0 == key {
                assert(b.contains(b[j]));
                assert(a.contains(b[j]));
                let i = choose|i: int| 0 <= i < a.len() && a[i] == b[j];
                assert(a[i].0 == key);
            }
        }
        lemma_field_absent(b, key);
    }
}

/// The member `key` of a JSON object; `None` for a missing member or a value
/// that is not an object.
pub open spec fn json_get(j: Json, key: Seq<char>) -> Option<Json> {
    match j {
        Json::Object(fields) => json_field(fields, key),
        _ => None,
    }
}

/// An array of JSON numbers read as bytes.
pub open spec fn json_byte_array(items: Seq<Json>) -> Option<Seq<u8>> {
    if forall|i: int| 0 <= i < items.len() ==> (#[trigger] json_u8(items[i])) is Some {
        Some(Seq::new(items.len(), |i: int| json_u8(items[i])->0))
    } else {
        None
    }
}

/// A JSON value read as a byte string: a hex text, or an array of byte values.
pub open spec fn json_bytes(j: Json) -> Option<Seq<u8>> {
    match j {
        Json::Str(s) => hex_value(s),
        Json::Array(items) => json_byte_array(items),
        _ => None,
    }
}

/// A JSON value read as a 32-byte hash: a hex text of exactly 32 bytes, or an
/// array of 32 byte values. An array of 33 items also reads when its last
/// item is not a byte value, since the reader of fixed-size byte strings
/// consumes one item past the 32nd and only rejects it when it is a byte.
pub open spec fn json_b256(j: Json) -> Option<Seq<u8>> {
    match j {
        Json::Str(s) => match hex_value(s) {
            Some(b) => if b.len() == 32 {
                Some(b)
            } else {
                None
            },
            None => None,
        },
        Json::Array(items) => if items.len() == 32 || (items.len() == 33 && json_u8(items[32]) is None) {
            json_byte_array(items.take(32))
        } else {
            None
        },
        _ => None,
    }
}

/// The JSON text of a byte string.
pub open spec fn bytes_json(bytes: Seq<u8>) -> Json {
    Json::Str(hex_text(bytes))
}

impl JsonValue {
    /// A JSON string.
    pub fn string(text: &str) -> (r: JsonValue)
        ensures
            r@ == Json::Str(text@),
    {
        JsonValue::String(String::from_str(text))
    }

    /// A non-negative JSON integer.
    pub fn unsigned(n: u64) -> (r: JsonValue)
        ensures
            r@ == Json::Number(JsonNumber::Unsigned(n)),
    {
        JsonValue::Number(JsonNumber::Unsigned(n))
    }

    /// The JSON text of a byte string: its `0x`-prefixed lowercase hex.
    pub fn bytes(bytes: &[u8]) -> (r: JsonValue)
        ensures
            r@ == bytes_json(bytes@),
    {
        JsonValue::String(to_hex(bytes))
    }

    /// This value read as a `u64`.
    pub fn as_u64(&self) -> (r: Option<u64>)
        ensures
            r == json_u64(self@),
    {
        match self {
            JsonValue::Number(JsonNumber::Unsigned(n)) => Some(*n),
            JsonValue::Number(JsonNumber::Negative(n)) => if *n >= 0 {
                Some(*n as u64)
            } else {
                None
            },
            _ => None,
        }
    }

    /// This value read as a `u8`.
    pub fn as_u8(&self) -> (r: Option<u8>)
        ensures
            r == json_u8(self@),
    {
        match self.as_u64() {
            Some(n) => if n <= 255 {
                Some(n as u8)
            } else {
                None
            },
            None => None,
        }
    }

    /// The member `key` of this value, when it is an object that has one.
    pub fn get(&self, key: &str) -> (r: Option<&JsonValue>)
        ensures
            match r {
                Some(v) => json_get(self@, key@) == Some(v@),
                None => json_get(self@, key@) is None,
            },
    {
        match self {
            JsonValue::Object(fields) => {
                let ghost fs = self@->Object_0;
                let k = String::from_str(key);
                let mut i: usize = 0;
                assert(fs.skip(0) =~= fs);
                while i < fields.len()
                    invariant
                        *self == JsonValue::Object(*fields),
                        fs == self@->Object_0,
                        k@ == key@,
                        i <= fields.len(),
                        json_field(fs, key@) == json_field(fs.skip(i as int), key@),
                    decreases fields.len() - i,
                {
                    let ghost rest = fs.skip(i as int);
                    assert(rest[0] == fs[i as int]);
                    assert(fs[i as int] == (fields[i as int].0@, json_view(&fields[i as int].1)));
                    if fields[i].0 == k {
                        return Some(&fields[i].1);
                    }
                    assert(rest.skip(1) =~= fs.skip(i + 1));
                    i = i + 1;
                }
                None
            },
            _ => None,
        }
    }

    /// This value read as a byte string.
    pub fn as_bytes(&self) -> (r: Option<Vec<u8>>)
        ensures
            match r {
                Some(b) => json_bytes(self@) == Some(b@),
                None => json_bytes(self@) is None,
            },
    {
        match self {
            JsonValue::String(s) => match from_hex(s.as_str()) {
                Ok(b) => Some(b),
                Err(_) => None,
            },
            JsonValue::Array(items) => {
                proof {
                    assert(self@->Array_0 =~= Seq::new(
                        items.len() as nat,
                        |i: int| json_view(&items[i]),
                    ));
                }
                byte_array(items, items.len())
            },
            _ => None,
        }
    }

    /// This value read as a 32-byte hash.
    pub fn as_b256(&self) -> (r: Option<[u8; 32]>)
        ensures
            match r {
                Some(h) => json_b256(self@) == Some(h@),
                None => json_b256(self@) is None,
            },
    {
        let bytes = match self {
            JsonValue::String(s) => match from_hex(s.as_str()) {
                Ok(b) => if b.len() == 32 {
                    Some(b)
                } else {
                    None
                },
                Err(_) => None,
            },
            JsonValue::Array(items) => {
                if items.len() == 32 || (items.len() == 33 && items[32].as_u8().is_none()) {
                    let r = byte_array(items, 32);
                    proof {
                        let all = self@->Array_0;
                        assert(all.take(32) =~= Seq::new(
                            32,
                            |i: int| json_view(&items[i]),
                        ));
                    }
                    r
                } else {
                    None
                }
            },
            _ => None,
        };
        match bytes {
            Some(b) => {
                let mut h = [0u8; 32];
                let mut i: usize = 0;
                while i < 32
                    invariant
                        b.len() == 32,
                        i <= 32,
                        forall|j: int| 0 <= j < i ==> h@[j] == b@[j],
                    decreases 32 - i,
                {
                    h[i] = b[i];
                    i = i + 1;
                }
                assert(h@ =~= b@);
                Some(h)
            },
            None => None,
        }
    }
}

/// The first `n` items of an array read as bytes.
fn byte_array(items: &Vec<JsonValue>, n: usize) -> (r: Option<Vec<u8>>)
    requires
        n <= items.len(),
    ensures
        ({
            let prefix = Seq::new(n as nat, |i: int| json_view(&items[i]));
            match r {
                Some(b) => json_byte_array(prefix) == Some(b@),
                None => json_byte_array(prefix) is None,
            }
        }),
{
    let ghost prefix = Seq::new(n as nat, |i: int| json_view(&items[i]));
    let mut out: Vec<u8> = Vec::new();
    let mut i: usize = 0;
    while i < n
        invariant
            n <= items.len(),
            prefix == Seq::new(n as nat, |i: int| json_view(&items[i])),
            i <= n,
            out.len() == i,
            forall|j: int| 0 <= j < i ==> json_u8(#[trigger] prefix[j]) == Some(out[j]),
        decreases n - i,
    {
        match items[i].as_u8() {
            Some(b) => out.push(b),
            None => {
                assert(json_u8(prefix[i as int]) is None);
                return None;
            },
        }
        i = i + 1;
    }
    assert(forall|j: int| 0 <= j < n ==> (#[trigger] json_u8(prefix[j])) is Some);
    assert(out@ =~= Seq::new(n as nat, |j: int| json_u8(prefix[j])->0));
    Some(out)
}

impl Clone for JsonValue {
    fn clone(&self) -> (r: Self)
        ensures
            r@ == self@,
    {
        clone_json(self)
    }
}

} // verus!
