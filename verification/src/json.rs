//! A JSON value model: what a tool call receives as arguments and what a
//! result set is returned as. Numbers keep serde_json's three shapes
//! (non-negative integer, negative integer, float); a float is carried by
//! its IEEE-754 bit pattern together with its shortest decimal rendering,
//! since the library does no floating-point arithmetic itself.
use vstd::prelude::*;

use crate::text::str_eq;
use crate::text::{chars_of, dec_digits, i64_text, int_text, u128_digits};

verus! {

/// A finite float carried as data: `bits` is its IEEE-754 binary64 bit
/// pattern and `text` its shortest round-trip decimal rendering.
pub struct FloatRepr {
    pub bits: u64,
    pub text: String,
}

pub enum JsonNumber {
    /// A non-negative integer.
    PosInt(u64),
    /// A negative integer.
    NegInt(i64),
    /// A finite floating-point number.
    Float(FloatRepr),
}

pub enum JsonValue {
    Null,
    Bool(bool),
    Number(JsonNumber),
    String(String),
    Array(Vec<JsonValue>),
    Object(JsonObject),
}

/// A JSON object: its members in iteration order. Lookups find the first
/// member with a given key; `insert` keeps keys distinct.
pub struct JsonObject {
    pub entries: Vec<(String, JsonValue)>,
}

/// The value of the first member named `key`.
pub open spec fn lookup(entries: Seq<(String, JsonValue)>, key: Seq<char>) -> Option<JsonValue>
    decreases entries.len(),
{
    if entries.len() == 0 {
        None
    } else if entries[0].0@ == key {
        Some(entries[0].1)
    } else {
        lookup(entries.drop_first(), key)
    }
}

/// Index of the first member named `key`.
pub open spec fn key_index(entries: Seq<(String, JsonValue)>, key: Seq<char>) -> Option<int>
    decreases entries.len(),
{
    if entries.len() == 0 {
        None
    } else if entries[0].0@ == key {
        Some(0)
    } else {
        match key_index(entries.drop_first(), key) {
            Some(i) => Some(i + 1),
            None => None,
        }
    }
}

/// `Value::get(key)`: the member `key` of an object; `None` for a missing
/// key or a value that is not an object.
pub open spec fn json_get(v: JsonValue, key: Seq<char>) -> Option<JsonValue> {
    match v {
        JsonValue::Object(o) => lookup(o.entries@, key),
        _ => None,
    }
}

pub open spec fn opt_json_get(v: Option<JsonValue>, key: Seq<char>) -> Option<JsonValue> {
    match v {
        Some(v) => json_get(v, key),
        None => None,
    }
}

/// `Value::as_str`.
pub open spec fn json_as_str(v: JsonValue) -> Option<Seq<char>> {
    match v {
        JsonValue::String(s) => Some(s@),
        _ => None,
    }
}

/// `Value::as_u64`.
pub open spec fn json_as_u64(v: JsonValue) -> Option<u64> {
    match v {
        JsonValue::Number(JsonNumber::PosInt(n)) => Some(n),
        _ => None,
    }
}

/// `Value::as_i64`.
pub open spec fn json_as_i64(v: JsonValue) -> Option<i64> {
    match v {
        JsonValue::Number(JsonNumber::PosInt(n)) => if n <= i64::MAX {
            Some(n as i64)
        } else {
            None
        },
        JsonValue::Number(JsonNumber::NegInt(n)) => Some(n),
        _ => None,
    }
}

/// `Value::as_bool`.
pub open spec fn json_as_bool(v: JsonValue) -> Option<bool> {
    match v {
        JsonValue::Bool(b) => Some(b),
        _ => None,
    }
}

/// `Number`'s `Display`: integers in decimal, floats as their shortest
/// round-trip rendering.
pub open spec fn number_text(n: JsonNumber) -> Seq<char> {
    match n {
        JsonNumber::PosInt(u) => dec_digits(u as nat),
        JsonNumber::NegInt(i) => int_text(i as int),
        JsonNumber::Float(f) => f.text@,
    }
}

proof fn lemma_lookup_index(entries: Seq<(String, JsonValue)>, key: Seq<char>)
    ensures
        match key_index(entries, key) {
            Some(i) => 0 <= i < entries.len() && entries[i].0@ == key && lookup(entries, key)
                == Some(entries[i].1) && forall|j: int| 0 <= j < i ==> entries[j].0@ != key,
            None => lookup(entries, key) is None && forall|j: int|
                0 <= j < entries.len() ==> entries[j].0@ != key,
        },
    decreases entries.len(),
{
    if entries.len() > 0 {
        lemma_lookup_index(entries.drop_first(), key);
        if entries[0].0@ != key {
            match key_index(entries.drop_first(), key) {
                Some(i) => {
                    assert forall|j: int| 0 <= j < i + 1 implies entries[j].0@ != key by {
                        if j > 0 {
                            assert(entries[j] == entries.drop_first()[j - 1]);
                        }
                    }
                },
                None => {
                    assert forall|j: int| 0 <= j < entries.len() implies entries[j].0@ != key by {
                        if j > 0 {
                            assert(entries[j] == entries.drop_first()[j - 1]);
                        }
                    }
                },
            }
        }
    }
}

/// After `insert(key, value)`, the member named `key` is `value` and every
/// other member is unchanged.
pub proof fn lemma_lookup_after_insert(
    before: Seq<(String, JsonValue)>,
    after: Seq<(String, JsonValue)>,
    key: String,
    value: JsonValue,
    k: Seq<char>,
)
    requires
        match key_index(before, key@) {
            Some(i) => after == before.update(i, (key, value)),
            None => after == before.push((key, value)),
        },
    ensures
        lookup(after, k) == if k == key@ {
            Some(value)
        } else {
            lookup(before, k)
        },
{
    lemma_lookup_index(before, k);
    lemma_lookup_index(after, k);
    lemma_lookup_index(before, key@);
    match key_index(before, key@) {
        Some(p) => {
            assert(after.len() == before.len());
            assert(after[p] == (key, value));
            assert forall|j: int| 0 <= j < before.len() && j != p implies after[j] == before[j] by {}
            if k == key@ {
                match key_index(after, k) {
                    Some(j) => {
                        if j < p {
                            assert(after[j] == before[j]);
                        } else if j > p {
                            assert(after[p].0@ == k);
                        }
                    },
                    None => {
                        assert(after[p].0@ == k);
                    },
                }
            } else {
                match key_index(before, k) {
                    Some(i) => {
                        assert(i != p);
                        assert(after[i] == before[i]);
                        match key_index(after, k) {
                            Some(j) => {
                                if j < i {
                                    if j != p {
                                        assert(after[j] == before[j]);
                                    }
                                } else if j > i {
                                    assert(after[i].0@ == k);
                                }
                            },
                            None => {
                                assert(after[i].0@ == k);
                            },
                        }
                    },
                    None => {
                        match key_index(after, k) {
                            Some(j) => {
                                if j != p {
                                    assert(after[j] == before[j]);
                                }
                            },
                            None => {},
                        }
                    },
                }
            }
        },
        None => {
            assert(after.len() == before.len() + 1);
            assert forall|j: int| 0 <= j < before.len() implies after[j] == before[j] by {}
            if k == key@ {
                match key_index(after, k) {
                    Some(j) => {
                        if j < before.len() {
                            assert(after[j] == before[j]);
                        }
                    },
                    None => {
                        assert(after[before.len() as int].0@ == k);
                    },
                }
            } else {
                match key_index(before, k) {
                    Some(i) => {
                        assert(after[i] == before[i]);
                        match key_index(after, k) {
                            Some(j) => {
                                if j < i {
                                    assert(after[j] == before[j]);
                                } else if j > i {
                                    assert(after[i].0@ == k);
                                }
                            },
                            None => {
                                assert(after[i].0@ == k);
                            },
                        }
                    },
                    None => {
                        match key_index(after, k) {
                            Some(j) => {
                                if j < before.len() {
                                    assert(after[j] == before[j]);
                                } else {
                                    assert(after[j] == (key, value));
                                }
                            },
                            None => {},
                        }
                    },
                }
            }
        },
    }
}

impl JsonObject {
    pub fn new() -> (o: Self)
        ensures
            o.entries@ == Seq::<(String, JsonValue)>::empty(),
    {
        JsonObject { entries: Vec::new() }
    }

    /// Position of the first member named `key`.
    pub fn find(&self, key: &str) -> (r: Option<usize>)
        ensures
            match r {
                Some(i) => key_index(self.entries@, key@) == Some(i as int),
                None => key_index(self.entries@, key@) is None,
            },
    {
        proof {
            lemma_lookup_index(self.entries@, key@);
        }
        let mut i: usize = 0;
        while i < self.entries.len()
            invariant
                i <= self.entries.len(),
                forall|j: int| 0 <= j < i ==> self.entries@[j].0@ != key@,
                match key_index(self.entries@, key@) {
                    Some(k) => 0 <= k < self.entries@.len() && self.entries@[k].0@ == key@
                        && forall|j: int| 0 <= j < k ==> self.entries@[j].0@ != key@,
                    None => forall|j: int|
                        0 <= j < self.entries@.len() ==> self.entries@[j].0@ != key@,
                },
            decreases self.entries.len() - i,
        {
            if str_eq(self.entries[i].0.as_str(), key) {
                return Some(i);
            }
            i = i + 1;
        }
        None
    }

    /// `Map::get`.
    pub fn get(&self, key: &str) -> (r: Option<&JsonValue>)
        ensures
            match r {
                Some(x) => lookup(self.entries@, key@) == Some(*x),
                None => lookup(self.entries@, key@) is None,
            },
    {
        proof {
            lemma_lookup_index(self.entries@, key@);
        }
        match self.find(key) {
            Some(i) => {
                assert(lookup(self.entries@, key@) == Some(self.entries@[i as int].1));
                Some(&self.entries[i].1)
            },
            None => None,
        }
    }

    /// `Map::insert`: replaces the value of an existing member in place, or
    /// appends a new member.
    pub fn insert(&mut self, key: String, value: JsonValue)
        ensures
            match key_index(old(self).entries@, key@) {
                Some(i) => final(self).entries@ == old(self).entries@.update(i, (key, value)),
                None => final(self).entries@ == old(self).entries@.push((key, value)),
            },
    {
        proof {
            lemma_lookup_index(self.entries@, key@);
        }
        match self.find(key.as_str()) {
            Some(i) => {
                self.entries.set(i, (key, value));
            },
            None => {
                self.entries.push((key, value));
            },
        }
    }
}

impl JsonValue {
    /// `Value::get`.
    pub fn get(&self, key: &str) -> (r: Option<&JsonValue>)
        ensures
            match r {
                Some(x) => json_get(*self, key@) == Some(*x),
                None => json_get(*self, key@) is None,
            },
    {
        match self {
            JsonValue::Object(o) => o.get(key),
            _ => None,
        }
    }

    /// `Value::as_str`.
    pub fn as_str(&self) -> (r: Option<&str>)
        ensures
            match json_as_str(*self) {
                Some(s) => r is Some && r->0@ == s,
                None => r is None,
            },
    {
        match self {
            JsonValue::String(s) => Some(s.as_str()),
            _ => None,
        }
    }

    /// `Value::as_u64`.
    pub fn as_u64(&self) -> (r: Option<u64>)
        ensures
            r == json_as_u64(*self),
    {
        match self {
            JsonValue::Number(JsonNumber::PosInt(n)) => Some(*n),
            _ => None,
        }
    }

    /// `Value::as_i64`.
    pub fn as_i64(&self) -> (r: Option<i64>)
        ensures
            r == json_as_i64(*self),
    {
        match self {
            JsonValue::Number(JsonNumber::PosInt(n)) => if *n <= i64::MAX as u64 {
                Some(*n as i64)
            } else {
                None
            },
            JsonValue::Number(JsonNumber::NegInt(n)) => Some(*n),
            _ => None,
        }
    }

    /// `Value::as_bool`.
    pub fn as_bool(&self) -> (r: Option<bool>)
        ensures
            r == json_as_bool(*self),
    {
        match self {
            JsonValue::Bool(b) => Some(*b),
            _ => None,
        }
    }

    /// `Value::as_object`.
    pub fn as_object(&self) -> (r: Option<&JsonObject>)
        ensures
            match *self {
                JsonValue::Object(o) => r == Some(&o),
                _ => r is None,
            },
    {
        match self {
            JsonValue::Object(o) => Some(o),
            _ => None,
        }
    }
}

impl JsonNumber {
    /// `Number::to_string`.
    pub fn text(&self) -> (r: Vec<char>)
        ensures
            r@ == number_text(*self),
    {
        match self {
            JsonNumber::PosInt(n) => u128_digits(*n as u128),
            JsonNumber::NegInt(n) => i64_text(*n),
            JsonNumber::Float(f) => chars_of(f.text.as_str()),
        }
    }
}

} // verus!
