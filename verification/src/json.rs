//! The JSON document kept in `users.settings`, held as plain values.
//!
//! A number keeps what the settings readers can ask of it: an integer that
//! fits `u64`, a negative integer that fits `i64`, or a float, whose value
//! nothing here reads. An object keeps its entries in order, each key once.

use vstd::prelude::*;

use crate::text::str_eq;

verus! {

#[derive(Clone, Copy, Debug)]
pub enum JsonNumber {
    /// A non-negative integer.
    PosInt(u64),
    /// A negative integer.
    NegInt(i64),
    /// A floating-point number.
    Float,
}

#[derive(Debug)]
pub enum JsonValue {
    Null,
    Bool(bool),
    Number(JsonNumber),
    String(String),
    Array(Vec<JsonValue>),
    Object(Vec<(String, JsonValue)>),
}

/// The value stored under `key` among `entries`, taking the first entry
/// with that key.
pub open spec fn lookup(entries: Seq<(String, JsonValue)>, key: Seq<char>) -> Option<JsonValue>
    decreases entries.len(),
{
    if entries.len() == 0 {
        None
    } else if entries[0].0@ == key {
        Some(entries[0].1)
    } else {
        lookup(entries.drop_first(), key)
    }
}

/// No key occurs twice among `entries`, as in an object `serde_json` built.
pub open spec fn keys_unique(entries: Seq<(String, JsonValue)>) -> bool {
    forall|i: int, j: int|
        0 <= i < j < entries.len() ==> #[trigger] entries[i].0@ != #[trigger] entries[j].0@
}

/// With each key once, the value found under a key is the one entry that
/// has it: first and last occurrence agree.
pub proof fn lemma_lookup_unique(entries: Seq<(String, JsonValue)>, k: int)
    requires
        keys_unique(entries),
        0 <= k < entries.len(),
    ensures
        lookup(entries, entries[k].0@) == Some(entries[k].1),
    decreases entries.len(),
{
    if k > 0 {
        let t = entries.drop_first();
        assert(entries[0].0@ != entries[k].0@);
        assert forall|i: int, j: int| 0 <= i < j < t.len() implies #[trigger] t[i].0@
            != #[trigger] t[j].0@ by {
            assert(t[i] == entries[i + 1] && t[j] == entries[j + 1]);
        }
        assert(t[k - 1] == entries[k]);
        lemma_lookup_unique(t, k - 1);
    }
}

/// `Value::get(key)`: the member `key` of an object, `None` for anything else.
pub open spec fn json_get(v: JsonValue, key: Seq<char>) -> Option<JsonValue> {
    match v {
        JsonValue::Object(entries) => lookup(entries@, key),
        _ => None,
    }
}

/// `Value::as_str`.
pub open spec fn as_str(v: JsonValue) -> Option<Seq<char>> {
    match v {
        JsonValue::String(s) => Some(s@),
        _ => None,
    }
}

/// `Value::as_bool`.
pub open spec fn as_bool(v: JsonValue) -> Option<bool> {
    match v {
        JsonValue::Bool(b) => Some(b),
        _ => None,
    }
}

/// `Value::as_u64`.
pub open spec fn as_u64(v: JsonValue) -> Option<u64> {
    match v {
        JsonValue::Number(JsonNumber::PosInt(n)) => Some(n),
        _ => None,
    }
}

/// `Value::as_i64`.
pub open spec fn as_i64(v: JsonValue) -> Option<i64> {
    match v {
        JsonValue::Number(JsonNumber::PosInt(n)) => if n <= i64::MAX {
            Some(n as i64)
        } else {
            None
        },
        JsonValue::Number(JsonNumber::NegInt(n)) => Some(n),
        _ => None,
    }
}

/// `Value::as_array`.
pub open spec fn as_array(v: JsonValue) -> Option<Seq<JsonValue>> {
    match v {
        JsonValue::Array(items) => Some(items@),
        _ => None,
    }
}

/// `settings.get(key).and_then(Value::as_str)`.
pub open spec fn field_str(settings: JsonValue, key: Seq<char>) -> Option<Seq<char>> {
    match json_get(settings, key) {
        Some(v) => as_str(v),
        None => None,
    }
}

/// `settings.get(key).and_then(Value::as_bool)`.
pub open spec fn field_bool(settings: JsonValue, key: Seq<char>) -> Option<bool> {
    match json_get(settings, key) {
        Some(v) => as_bool(v),
        None => None,
    }
}

/// `settings.get(key).and_then(Value::as_i64)`.
pub open spec fn field_i64(settings: JsonValue, key: Seq<char>) -> Option<i64> {
    match json_get(settings, key) {
        Some(v) => as_i64(v),
        None => None,
    }
}

/// `settings.get(key).and_then(Value::as_array)`.
pub open spec fn field_array(settings: JsonValue, key: Seq<char>) -> Option<Seq<JsonValue>> {
    match json_get(settings, key) {
        Some(v) => as_array(v),
        None => None,
    }
}

impl JsonValue {
    pub fn get(&self, key: &str) -> (r: Option<&JsonValue>)
        ensures
            match r {
                Some(x) => json_get(*self, key@) == Some(*x),
                None => json_get(*self, key@) is None,
            },
    {
        match self {
            JsonValue::Object(entries) => {
                let mut i: usize = 0;
                assert(entries@.skip(0) =~= entries@);
                while i < entries.len()
                    invariant
                        i <= entries.len(),
                        json_get(*self, key@) == lookup(entries@, key@),
                        lookup(entries@, key@) == lookup(entries@.skip(i as int), key@),
                    decreases entries.len() - i,
                {
                    let ghost rest = entries@.skip(i as int);
                    if str_eq(entries[i].0.as_str(), key) {
                        assert(rest[0] == entries@[i as int]);
                        assert(rest[0].0@ == key@);
                        assert(lookup(rest, key@) == Some(rest[0].1));
                        let found = &entries[i].1;
                        assert(*found == entries@[i as int].1);
                        return Some(found);
                    }
                    assert(rest.drop_first() =~= entries@.skip(i + 1));
                    i = i + 1;
                }
                None
            },
            _ => None,
        }
    }

    pub fn as_str(&self) -> (r: Option<&String>)
        ensures
            match r {
                Some(s) => as_str(*self) == Some(s@),
                None => as_str(*self) is None,
            },
    {
        match self {
            JsonValue::String(s) => Some(s),
            _ => None,
        }
    }

    pub fn as_bool(&self) -> (r: Option<bool>)
        ensures
            r == as_bool(*self),
    {
        match self {
            JsonValue::Bool(b) => Some(*b),
            _ => None,
        }
    }

    pub fn as_u64(&self) -> (r: Option<u64>)
        ensures
            r == as_u64(*self),
    {
        match self {
            JsonValue::Number(JsonNumber::PosInt(n)) => Some(*n),
            _ => None,
        }
    }

    pub fn as_i64(&self) -> (r: Option<i64>)
        ensures
            r == as_i64(*self),
    {
        match self {
            JsonValue::Number(JsonNumber::PosInt(n)) => {
                if *n <= i64::MAX as u64 {
                    Some(*n as i64)
                } else {
                    None
                }
            },
            JsonValue::Number(JsonNumber::NegInt(n)) => Some(*n),
            _ => None,
        }
    }

    pub fn as_array(&self) -> (r: Option<&Vec<JsonValue>>)
        ensures
            match r {
                Some(items) => as_array(*self) == Some(items@),
                None => as_array(*self) is None,
            },
    {
        match self {
            JsonValue::Array(items) => Some(items),
            _ => None,
        }
    }

    /// `settings.get(key).and_then(Value::as_str)`, copied out.
    pub fn field_str(&self, key: &str) -> (r: Option<Vec<char>>)
        ensures
            match r {
                Some(s) => field_str(*self, key@) == Some(s@),
                None => field_str(*self, key@) is None,
            },
    {
        match self.get(key) {
            Some(v) => match v.as_str() {
                Some(s) => Some(crate::text::chars_of(s.as_str())),
                None => None,
            },
            None => None,
        }
    }

    /// `settings.get(key).and_then(Value::as_bool)`.
    pub fn field_bool(&self, key: &str) -> (r: Option<bool>)
        ensures
            r == field_bool(*self, key@),
    {
        match self.get(key) {
            Some(v) => v.as_bool(),
            None => None,
        }
    }

    /// `settings.get(key).and_then(Value::as_i64)`.
    pub fn field_i64(&self, key: &str) -> (r: Option<i64>)
        ensures
            r == field_i64(*self, key@),
    {
        match self.get(key) {
            Some(v) => v.as_i64(),
            None => None,
        }
    }

    /// `settings.get(key).and_then(Value::as_array)`.
    pub fn field_array(&self, key: &str) -> (r: Option<&Vec<JsonValue>>)
        ensures
            match r {
                Some(items) => field_array(*self, key@) == Some(items@),
                None => field_array(*self, key@) is None,
            },
    {
        match self.get(key) {
            Some(v) => v.as_array(),
            None => None,
        }
    }
}

} // verus!
