//! TOML documents as plain data, and helpers for building tables with
//! distinct keys.
use vstd::prelude::*;

use crate::assoc::{assoc_get, find_key, lemma_find_from};

verus! {

/// A TOML value. Tables are association lists (see [`crate::assoc`]).
pub enum TomlValue {
    Str(String),
    Integer(i64),
    Boolean(bool),
    Array(Vec<TomlValue>),
    Table(Vec<(String, TomlValue)>),
}

/// The value of `key` in a table; `None` for other values.
pub open spec fn toml_get(v: TomlValue, key: Seq<char>) -> Option<TomlValue> {
    match v {
        TomlValue::Table(e) => assoc_get(e@, key),
        _ => None,
    }
}

/// `v` is a table whose keys are exactly `keys`, in this order.
pub open spec fn has_keys(v: TomlValue, keys: Seq<Seq<char>>) -> bool {
    v matches TomlValue::Table(e) && e@.len() == keys.len() && forall|i: int|
        0 <= i < keys.len() ==> (#[trigger] e@[i]).0@ == keys[i]
}

/// `v` is the string `s`.
pub open spec fn is_text(v: Option<TomlValue>, s: Seq<char>) -> bool {
    v matches Some(TomlValue::Str(x)) && x@ == s
}

/// `v` is an array holding only the string `s`.
pub open spec fn is_text_list(v: Option<TomlValue>, s: Seq<char>) -> bool {
    v matches Some(TomlValue::Array(a)) && a@.len() == 1 && (a@[0] matches TomlValue::Str(x) && x@ == s)
}

/// The keys of `s` are pairwise distinct.
pub open spec fn distinct_keys(s: Seq<(String, TomlValue)>) -> bool {
    forall|a: int, b: int| 0 <= a < b < s.len() ==> (#[trigger] s[a]).0@ != (#[trigger] s[b]).0@
}

/// In a list with distinct keys, each key's value is its entry's value.
pub proof fn lemma_distinct_get(s: Seq<(String, TomlValue)>, i: int)
    requires
        distinct_keys(s),
        0 <= i < s.len(),
    ensures
        assoc_get(s, s[i].0@) == Some(s[i].1),
{
    let k = s[i].0@;
    lemma_find_from(s, k, 0);
    let f = find_key(s, k);
    if f > i {
        assert(s[i].0@ != k);
    }
    if f < i {
        assert(s[f].0@ == k);
    }
}

/// A string value.
pub fn text(s: &str) -> (v: TomlValue)
    ensures
        is_text(Some(v), s@),
{
    TomlValue::Str(String::from_str(s))
}

/// An entry `key = value`.
pub fn entry(key: &str, value: TomlValue) -> (e: (String, TomlValue))
    ensures
        e.0@ == key@,
        e.1 == value,
{
    (String::from_str(key), value)
}

/// A table of entries with distinct keys.
pub fn table(e: Vec<(String, TomlValue)>) -> (v: TomlValue)
    requires
        distinct_keys(e@),
    ensures
        v == TomlValue::Table(e),
        forall|i: int| 0 <= i < e@.len() ==> toml_get(v, (#[trigger] e@[i]).0@) == Some(e@[i].1),
{
    proof {
        assert forall|i: int| 0 <= i < e@.len() implies toml_get(TomlValue::Table(e), (#[trigger] e@[i]).0@) == Some(e@[i].1) by {
            lemma_distinct_get(e@, i);
        }
    }
    TomlValue::Table(e)
}

} // verus!
