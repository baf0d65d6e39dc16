//! JSON values as plain data, with a structural view.
use vstd::prelude::*;

use crate::assoc::{assoc_get, assoc_insert, assoc_lookup, find_key, lemma_find_same_keys};

verus! {

/// A JSON value. Objects are association lists (see [`crate::assoc`]); numbers
/// are kept as `serde_json` holds them: non-negative and negative integers, and
/// other numbers by their text.
pub enum JsonValue {
    Null,
    Bool(bool),
    PosInt(u64),
    NegInt(i64),
    Float(String),
    Str(String),
    Array(Vec<JsonValue>),
    Object(Vec<(String, JsonValue)>),
}

/// The structural view of a [`JsonValue`], with text as character sequences.
pub enum Json {
    Null,
    Bool(bool),
    PosInt(u64),
    NegInt(i64),
    Float(Seq<char>),
    Str(Seq<char>),
    Array(Seq<Json>),
    Object(Seq<(Seq<char>, Json)>),
}

impl JsonValue {
    pub open spec fn json(self) -> Json
        decreases self,
    {
        match self {
            JsonValue::Null => Json::Null,
            JsonValue::Bool(b) => Json::Bool(b),
            JsonValue::PosInt(n) => Json::PosInt(n),
            JsonValue::NegInt(n) => Json::NegInt(n),
            JsonValue::Float(s) => Json::Float(s@),
            JsonValue::Str(s) => Json::Str(s@),
            JsonValue::Array(v) => Json::Array(
                Seq::new(v@.len(), |i: int| if 0 <= i < v@.len() { v@[i].json() } else { Json::Null }),
            ),
            JsonValue::Object(v) => Json::Object(
                Seq::new(v@.len(), |i: int| if 0 <= i < v@.len() { (v@[i].0@, v@[i].1.json()) } else { (Seq::empty(), Json::Null) }),
            ),
        }
    }
}

/// A copy of `v` with the same structure.
pub fn deep_clone(v: &JsonValue) -> (r: JsonValue)
    ensures r.json() == v.json(),
    decreases v,
{
    match v {
        JsonValue::Null => JsonValue::Null,
        JsonValue::Bool(b) => JsonValue::Bool(*b),
        JsonValue::PosInt(n) => JsonValue::PosInt(*n),
        JsonValue::NegInt(n) => JsonValue::NegInt(*n),
        JsonValue::Float(s) => JsonValue::Float(s.clone()),
        JsonValue::Str(s) => JsonValue::Str(s.clone()),
        JsonValue::Array(a) => {
            let mut out: Vec<JsonValue> = Vec::new();
            let mut i: usize = 0;
            while i < a.len()
                invariant
                    i <= a.len(),
                    out@.len() == i,
                    forall|j: int| 0 <= j < i ==> #[trigger] out@[j].json() == a@[j].json(),
                    *v == JsonValue::Array(*a),
                decreases a.len() - i,
            {
                proof {
                    broadcast use vstd::std_specs::vec::axiom_vec_decreases_to_view;
                    assert(decreases_to!(*v => (*v)->Array_0));
                    assert(decreases_to!(*a => a@));
                    assert(decreases_to!(a@ => a@[i as int]));
                }
                let c = deep_clone(&a[i]);
                out.push(c);
                i = i + 1;
            }
            let r = JsonValue::Array(out);
            assert forall|j: int| 0 <= j < out@.len() implies #[trigger] r.json()->Array_0[j] == v.json()->Array_0[j] by {
                assert(out@[j].json() == a@[j].json());
            }
            assert(r.json()->Array_0 =~= v.json()->Array_0);
            r
        }
        JsonValue::Object(a) => {
            let mut out: Vec<(String, JsonValue)> = Vec::new();
            let mut i: usize = 0;
            while i < a.len()
                invariant
                    i <= a.len(),
                    out@.len() == i,
                    forall|j: int| 0 <= j < i ==> #[trigger] out@[j].1.json() == a@[j].1.json() && out@[j].0@ == a@[j].0@,
                    *v == JsonValue::Object(*a),
                decreases a.len() - i,
            {
                proof {
                    broadcast use vstd::std_specs::vec::axiom_vec_decreases_to_view;
                    assert(decreases_to!(*v => (*v)->Object_0));
                    assert(decreases_to!(*a => a@));
                    assert(decreases_to!(a@ => a@[i as int]));
                    assert(decreases_to!(a@[i as int] => a@[i as int].1));
                }
                let c = deep_clone(&a[i].1);
                let k = a[i].0.clone();
                out.push((k, c));
                i = i + 1;
            }
            let r = JsonValue::Object(out);
            assert(r.json()->Object_0 =~= v.json()->Object_0);
            r
        }
    }
}

/// The value of `key` in an object; `None` for other values (as `serde_json::Value::get`).
pub open spec fn json_get(v: JsonValue, key: Seq<char>) -> Option<JsonValue> {
    match v {
        JsonValue::Object(e) => assoc_get(e@, key),
        _ => None,
    }
}

/// The text of a string value.
pub open spec fn json_text(v: Option<JsonValue>) -> Option<Seq<char>> {
    match v {
        Some(JsonValue::Str(s)) => Some(s@),
        _ => None,
    }
}

/// The view of an optional value.
pub open spec fn opt_json(v: Option<JsonValue>) -> Option<Json> {
    match v {
        Some(x) => Some(x.json()),
        None => None,
    }
}

/// A value that a key can be written into (`serde_json`'s `value[key] = ...`
/// turns `null` into an object and refuses every other non-object value).
pub open spec fn is_writable(v: JsonValue) -> bool {
    v is Null || v is Object
}

/// `after` is `before` with `key` set to `value`: an object whose other keys
/// keep their values (a `null` becomes an object holding only `key`).
pub open spec fn written(before: JsonValue, key: Seq<char>, value: JsonValue, after: JsonValue) -> bool {
    &&& after is Object
    &&& json_get(after, key) == Some(value)
    &&& forall|k: Seq<char>| k != key ==> #[trigger] json_get(after, k) == json_get(before, k)
}

impl JsonValue {
    /// The value of `key` in an object (`None` for other values).
    pub fn get(&self, key: &String) -> (r: Option<&JsonValue>)
        ensures
            match r {
                Some(x) => json_get(*self, key@) == Some(*x),
                None => json_get(*self, key@) is None,
            },
    {
        match self {
            JsonValue::Object(e) => assoc_lookup(e, key),
            _ => None,
        }
    }

    /// Sets `key` to `value` (as `serde_json`'s `value[key] = value`).
    pub fn set(&mut self, key: String, value: JsonValue)
        requires
            is_writable(*old(self)),
        ensures
            written(*old(self), key@, value, *final(self)),
    {
        let ghost k = key@;
        if let JsonValue::Object(e) = self {
            assoc_insert(e, key, value);
        } else {
            let mut e: Vec<(String, JsonValue)> = Vec::new();
            let ghost empty = e@;
            assoc_insert(&mut e, key, value);
            proof {
                assert forall|x: Seq<char>| x != k implies assoc_get(e@, x) is None by {
                    assert(find_key(empty, x) == 0);
                }
            }
            *self = JsonValue::Object(e);
        }
    }

    /// The number as a `u64` when it is a non-negative integer (as `serde_json::Value::as_u64`).
    pub fn as_u64(&self) -> (r: Option<u64>)
        ensures
            r == (match *self {
                JsonValue::PosInt(n) => Some(n),
                _ => None::<u64>,
            }),
    {
        match self {
            JsonValue::PosInt(n) => Some(*n),
            _ => None,
        }
    }

    /// A string value's text.
    pub fn as_str(&self) -> (r: Option<&String>)
        ensures
            match r {
                Some(s) => *self == JsonValue::Str(*s),
                None => !(*self is Str),
            },
    {
        match self {
            JsonValue::Str(s) => Some(s),
            _ => None,
        }
    }

    /// A boolean value's truth.
    pub fn as_bool(&self) -> (r: Option<bool>)
        ensures
            match r {
                Some(b) => *self == JsonValue::Bool(b),
                None => !(*self is Bool),
            },
    {
        match self {
            JsonValue::Bool(b) => Some(*b),
            _ => None,
        }
    }
}

/// Structurally equal values give structurally equal values for every key.
pub proof fn lemma_json_get_view(a: JsonValue, b: JsonValue, k: Seq<char>)
    requires
        a.json() == b.json(),
    ensures
        opt_json(json_get(a, k)) == opt_json(json_get(b, k)),
{
    if let JsonValue::Object(ea) = a {
        if let JsonValue::Object(eb) = b {
            let sa = a.json()->Object_0;
            let sb = b.json()->Object_0;
            assert(ea@.len() == sa.len());
            assert(eb@.len() == sb.len());
            assert forall|j: int| 0 <= j < ea@.len() implies #[trigger] ea@[j].0@ == eb@[j].0@ && ea@[j].1.json() == eb@[j].1.json() by {
                assert(sa[j] == sb[j]);
            }
            lemma_find_same_keys(ea@, eb@, k, 0);
            crate::assoc::lemma_find_from(ea@, k, 0);
        } else {
            assert(false);
        }
    } else {
        if let JsonValue::Object(eb) = b {
            assert(false);
        }
    }
}

/// A copy of an object's entries with the same keys and structurally equal values.
pub fn clone_entries(e: &Vec<(String, JsonValue)>) -> (r: Vec<(String, JsonValue)>)
    ensures
        r@.len() == e@.len(),
        forall|i: int| 0 <= i < e@.len() ==> (#[trigger] r@[i]).0@ == e@[i].0@ && r@[i].1.json() == e@[i].1.json(),
        forall|k: Seq<char>| #[trigger] opt_json(assoc_get(r@, k)) == opt_json(assoc_get(e@, k)),
{
    let mut out: Vec<(String, JsonValue)> = Vec::new();
    let mut i: usize = 0;
    while i < e.len()
        invariant
            i <= e@.len(),
            out@.len() == i,
            forall|j: int| 0 <= j < i ==> (#[trigger] out@[j]).0@ == e@[j].0@ && out@[j].1.json() == e@[j].1.json(),
        decreases e@.len() - i,
    {
        let v = deep_clone(&e[i].1);
        let k = e[i].0.clone();
        out.push((k, v));
        i = i + 1;
    }
    proof {
        assert forall|k: Seq<char>| #[trigger] opt_json(assoc_get(out@, k)) == opt_json(assoc_get(e@, k)) by {
            assert forall|j: int| 0 <= j < out@.len() implies #[trigger] out@[j].0@ == e@[j].0@ by {}
            lemma_find_same_keys(out@, e@, k, 0);
            crate::assoc::lemma_find_from(e@, k, 0);
            let idx = find_key(e@, k);
            if idx < e@.len() {
                assert(out@[idx].1.json() == e@[idx].1.json());
            }
        }
    }
    out
}

} // verus!
