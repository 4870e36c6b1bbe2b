//! A JSON document as plain data, the form in which remote services'
//! answers reach the extraction logic.  The shell that talks to the
//! network parses the raw text and hands a value of this type in.

use vstd::prelude::*;

verus! {

/// A JSON number, carried as what it reads as in each integer width.
/// A number outside both ranges (a fraction, or out of range) reads as
/// neither.
#[derive(Debug, Clone)]
pub struct JsonNumber {
    pub int64: Option<i64>,
    pub uint64: Option<u64>,
}

/// One field of a JSON object.
#[derive(Debug)]
pub struct JsonField {
    pub key: String,
    pub value: JsonValue,
}

/// A JSON value.
#[derive(Debug)]
pub enum JsonValue {
    Null,
    Bool(bool),
    Number(JsonNumber),
    Str(String),
    Array(Vec<JsonValue>),
    Object(Vec<JsonField>),
}

/// The first value under `key` among an object's fields, from index `i`.
pub open spec fn obj_get(fields: Seq<JsonField>, key: Seq<char>, i: int) -> Option<JsonValue>
    decreases fields.len() - i,
{
    if i < 0 || i >= fields.len() {
        None
    } else if fields[i].key@ == key {
        Some(fields[i].value)
    } else {
        obj_get(fields, key, i + 1)
    }
}

impl JsonValue {
    /// The value under `key`, when this value is an object that has it.
    pub open spec fn get_spec(self, key: Seq<char>) -> Option<JsonValue> {
        match self {
            JsonValue::Object(fields) => obj_get(fields@, key, 0),
            _ => None,
        }
    }

    pub fn get<'a>(&'a self, key: &str) -> (r: Option<&'a JsonValue>)
        ensures
            (match r {
                Some(v) => self.get_spec(key@) == Some(*v),
                None => self.get_spec(key@) is None,
            }),
    {
        match self {
            JsonValue::Object(fields) => {
                let n: usize = fields.len();
                let mut i: usize = 0;
                while i < n
                    invariant
                        i <= n,
                        n == fields@.len(),
                        self.get_spec(key@) == obj_get(fields@, key@, i as int),
                    decreases n - i,
                {
                    if crate::utils::eq_str(fields[i].key.as_str(), key) {
                        proof {
                            assert(fields@[i as int].key@ == key@);
                            assert(obj_get(fields@, key@, i as int) == Some(
                                fields@[i as int].value,
                            ));
                        }
                        return Some(&fields[i].value);
                    }
                    i = i + 1;
                }
                None
            },
            _ => None,
        }
    }

    /// The element at `i`, when this value is an array long enough.
    pub open spec fn get_idx_spec(self, i: int) -> Option<JsonValue> {
        match self {
            JsonValue::Array(items) => if 0 <= i < items@.len() {
                Some(items@[i])
            } else {
                None
            },
            _ => None,
        }
    }

    pub fn get_idx<'a>(&'a self, i: usize) -> (r: Option<&'a JsonValue>)
        ensures
            (match r {
                Some(v) => self.get_idx_spec(i as int) == Some(*v),
                None => self.get_idx_spec(i as int) is None,
            }),
    {
        match self {
            JsonValue::Array(items) => {
                if i < items.len() {
                    Some(&items[i])
                } else {
                    None
                }
            },
            _ => None,
        }
    }

    pub open spec fn as_str_spec(self) -> Option<Seq<char>> {
        match self {
            JsonValue::Str(s) => Some(s@),
            _ => None,
        }
    }

    pub fn as_str<'a>(&'a self) -> (r: Option<&'a str>)
        ensures
            (match r {
                Some(s) => self.as_str_spec() == Some(s@),
                None => self.as_str_spec() is None,
            }),
    {
        match self {
            JsonValue::Str(s) => Some(s.as_str()),
            _ => None,
        }
    }

    pub open spec fn as_u64_spec(self) -> Option<u64> {
        match self {
            JsonValue::Number(n) => n.uint64,
            _ => None,
        }
    }

    pub fn as_u64(&self) -> (r: Option<u64>)
        ensures
            r == self.as_u64_spec(),
    {
        match self {
            JsonValue::Number(n) => n.uint64,
            _ => None,
        }
    }

    pub open spec fn as_i64_spec(self) -> Option<i64> {
        match self {
            JsonValue::Number(n) => n.int64,
            _ => None,
        }
    }

    pub fn as_i64(&self) -> (r: Option<i64>)
        ensures
            r == self.as_i64_spec(),
    {
        match self {
            JsonValue::Number(n) => n.int64,
            _ => None,
        }
    }

    pub open spec fn as_array_spec(self) -> Option<Seq<JsonValue>> {
        match self {
            JsonValue::Array(items) => Some(items@),
            _ => None,
        }
    }

    pub fn as_array<'a>(&'a self) -> (r: Option<&'a Vec<JsonValue>>)
        ensures
            (match r {
                Some(items) => self.as_array_spec() == Some(items@),
                None => self.as_array_spec() is None,
            }),
    {
        match self {
            JsonValue::Array(items) => Some(items),
            _ => None,
        }
    }

    pub open spec fn as_object_spec(self) -> Option<Seq<JsonField>> {
        match self {
            JsonValue::Object(fields) => Some(fields@),
            _ => None,
        }
    }

    pub fn as_object<'a>(&'a self) -> (r: Option<&'a Vec<JsonField>>)
        ensures
            (match r {
                Some(fields) => self.as_object_spec() == Some(fields@),
                None => self.as_object_spec() is None,
            }),
    {
        match self {
            JsonValue::Object(fields) => Some(fields),
            _ => None,
        }
    }

    /// Whether this value is the number `n` (as JSON number equality
    /// reads it in the signed width).
    pub open spec fn eq_i64_spec(self, n: i64) -> bool {
        self.as_i64_spec() == Some(n)
    }

    pub fn eq_i64(&self, n: i64) -> (r: bool)
        ensures
            r == self.eq_i64_spec(n),
    {
        match self.as_i64() {
            Some(v) => v == n,
            None => false,
        }
    }

    /// Whether this value is the string `s`.
    pub open spec fn eq_str_spec(self, s: Seq<char>) -> bool {
        self.as_str_spec() == Some(s)
    }

    pub fn eq_str(&self, s: &str) -> (r: bool)
        ensures
            r == self.eq_str_spec(s@),
    {
        match self.as_str() {
            Some(v) => crate::utils::eq_str(v, s),
            None => false,
        }
    }

    /// Whether this value is the boolean `b`.
    pub open spec fn eq_bool_spec(self, b: bool) -> bool {
        self matches JsonValue::Bool(v) && v == b
    }

    pub fn eq_bool(&self, b: bool) -> (r: bool)
        ensures
            r == self.eq_bool_spec(b),
    {
        match self {
            JsonValue::Bool(v) => *v == b,
            _ => false,
        }
    }
}

} // verus!
