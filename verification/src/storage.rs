//! Parquet storage: which writer receives an OCSF event, and where each OCSF
//! class is stored.
use vstd::prelude::*;
use std::collections::HashMap;

use crate::json::{json_get, JsonValue};
use crate::text::{concat2, concat3, trim_start_all, trim_start_matching};

verus! {

broadcast use vstd::std_specs::hash::group_hash_axioms;

/// Why an event cannot be stored.
#[derive(Debug)]
pub enum StorageError {
    /// The event's `class_uid` is missing, not a non-negative integer, or names
    /// no class with a writer ("invalid OCSF").
    InvalidOcsf,
}

impl StorageError {
    /// The error's message.
    pub fn message(&self) -> (s: String)
        ensures
            self is InvalidOcsf ==> s@ == "invalid OCSF"@,
    {
        match self {
            StorageError::InvalidOcsf => String::from_str("invalid OCSF"),
        }
    }
}

/// A Parquet backend: one writer per OCSF class, keyed by the class's number.
pub struct ParquetBackend<W> {
    pub heap: HashMap<u32, W>,
}

/// The map of writers made from `(class, writer)` pairs; a later pair for the
/// same class replaces an earlier one.
pub open spec fn writers_map<W>(s: Seq<(u32, W)>) -> Map<u32, W>
    decreases s.len(),
{
    if s.len() == 0 {
        Map::empty()
    } else {
        writers_map(s.drop_last()).insert(s.last().0, s.last().1)
    }
}

/// The class an OCSF event is stored under: the low 32 bits of its
/// `class_uid`, when that is a non-negative integer.
pub open spec fn event_class(value: JsonValue) -> Option<u32> {
    match json_get(value, "class_uid"@) {
        Some(JsonValue::PosInt(n)) => Some(n as u32),
        _ => None,
    }
}

/// The OCSF category number of a class number: its thousands digit.
pub open spec fn category_of(class_uid: u32) -> u32 {
    ((class_uid % 10000) / 1000) as u32
}

/// A class's category is the thousands digit of its number (taken below
/// 10000): `category * 1000 <= class % 10000 < (category + 1) * 1000`.
pub proof fn lemma_category(class_uid: u32)
    ensures
        category_of(class_uid) < 10,
        category_of(class_uid) * 1000 <= class_uid % 10000 < (category_of(class_uid) + 1) * 1000,
{
    let r = class_uid % 10000;
    assert(0 <= r < 10000);
    assert((r / 1000) * 1000 <= r < (r / 1000 + 1) * 1000) by (nonlinear_arith)
        requires
            0 <= r,
    ;
}

/// The category number of an OCSF class number.
pub fn category_uid(class_uid: u32) -> (c: u32)
    ensures
        c == category_of(class_uid),
        c < 10,
{
    (class_uid % 10000) / 1000
}

/// The directory a class's data is written to: `<out>/<category>/<class>`.
pub fn class_output_path(out: &str, category: &str, class: &str) -> (p: String)
    ensures
        p@ == out@ + "/"@ + category@ + "/"@ + class@,
{
    let a = concat3(out, "/", category);
    concat3(a.as_str(), "/", class)
}

/// The schema file name recorded with a class's data: the schema file's path
/// with every leading `/<schema directory>` removed.
pub fn schema_file_name(path: &str, schema_dir: &str) -> (r: String)
    ensures
        r@ == trim_start_all(path@, "/"@ + schema_dir@),
{
    let prefix = concat2("/", schema_dir);
    trim_start_matching(path, prefix.as_str())
}

impl<W> ParquetBackend<W> {
    /// A backend with the given writers (see [`writers_map`]).
    pub fn new(writers: Vec<(u32, W)>) -> (b: Self)
        ensures
            b.heap@ == writers_map(writers@),
    {
        let ghost all = writers@;
        let mut heap: HashMap<u32, W> = HashMap::new();
        let mut rest = writers;
        let mut i: usize = 0;
        let n = rest.len();
        proof {
            assert(writers_map(all.subrange(0, 0)) =~= Map::<u32, W>::empty());
            assert(rest@ =~= all.subrange(0, n as int));
        }
        while rest.len() > 0
            invariant
                n == all.len(),
                i + rest@.len() == n,
                rest@ =~= all.subrange(i as int, n as int),
                heap@ == writers_map(all.subrange(0, i as int)),
            decreases rest@.len(),
        {
            let e = rest.remove(0);
            proof {
                assert(e == all[i as int]);
                assert(all.subrange(0, i + 1).drop_last() =~= all.subrange(0, i as int));
                assert(rest@ =~= all.subrange(i + 1, n as int));
            }
            heap.insert(e.0, e.1);
            i = i + 1;
        }
        proof {
            assert(all.subrange(0, n as int) =~= all);
        }
        ParquetBackend { heap }
    }

    /// The writer of the event's class (see [`event_class`]); `InvalidOcsf`
    /// when the class is missing or has no writer.
    pub fn writer_for(&self, value: &JsonValue) -> (r: Result<&W, StorageError>)
        ensures
            match r {
                Ok(w) => event_class(*value) matches Some(c) && self.heap@.contains_key(c) && *w == self.heap@[c],
                Err(_) => !(event_class(*value) matches Some(c) && self.heap@.contains_key(c)),
            },
    {
        proof {
            reveal_strlit("class_uid");
        }
        let key = String::from_str("class_uid");
        let class = match value.get(&key) {
            Some(v) => match v.as_u64() {
                Some(n) => n as u32,
                None => return Err(StorageError::InvalidOcsf),
            },
            None => return Err(StorageError::InvalidOcsf),
        };
        match self.heap.get(&class) {
            Some(w) => Ok(w),
            None => Err(StorageError::InvalidOcsf),
        }
    }
}

} // verus!
