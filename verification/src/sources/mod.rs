//! Data sources that feed Vector: their common interface and the transforms
//! they contribute to the Vector configuration.
use vstd::prelude::*;

pub mod aws_cloudtrail;
pub mod okta;

use crate::text::{concat2, concat3};
use crate::toml_doc::{has_keys, is_text, toml_get, TomlValue};

verus! {

/// A Vector transform: its inputs and its VRL program, given inline or as a file.
pub struct Transform {
    pub inputs: Vec<String>,
    pub source: Option<String>,
    pub file: Option<String>,
}

impl Default for Transform {
    /// No inputs and no program.
    fn default() -> (t: Self)
        ensures
            t.inputs@.len() == 0,
            t.source is None,
            t.file is None,
    {
        Transform { inputs: Vec::new(), source: None, file: None }
    }
}

/// How a source's payloads are decoded; `None` leaves Vector's default codec.
pub struct Decoding {
    pub codec: Option<String>,
}

impl Default for Decoding {
    /// Vector's default codec.
    fn default() -> (d: Self)
        ensures
            d.codec is None,
    {
        Decoding { codec: None }
    }
}

/// A configured data source.
pub trait Source {
    /// The source's identifier.
    fn id(&self) -> String;

    /// A name a person recognizes the source by.
    fn friendly_id(&self) -> String;

    /// The kind of source.
    fn sourcetype(&self) -> String;

    /// The Sigma log source vendor of its events, if any.
    fn logsource_vendor(&self) -> (r: Option<String>)
        default_ensures
            r is None,
    {
        None
    }

    /// The Sigma log source product of its events, if any.
    fn logsource_product(&self) -> (r: Option<String>)
        default_ensures
            r is None,
    {
        None
    }

    /// The Sigma log source service of its events, if any.
    fn logsource_service(&self) -> (r: Option<String>)
        default_ensures
            r is None,
    {
        None
    }

    /// Transforms to run on the source's raw events before normalization, and
    /// the name of the last one, if the source needs any.
    fn preprocess_transforms(&self) -> (r: Option<(Vec<(String, Transform)>, String)>)
        default_ensures
            r is None,
    {
        None
    }
}

/// `v` is an array of exactly the strings `s`, in order.
pub open spec fn is_text_array(v: Option<TomlValue>, s: Seq<Seq<char>>) -> bool {
    v matches Some(TomlValue::Array(a)) && a@.len() == s.len() && forall|i: int|
        0 <= i < s.len() ==> (#[trigger] a@[i] matches TomlValue::Str(x) && x@ == s[i])
}

/// The keys of a transform's table: `inputs`, then `source` and `file` where
/// given, then `type`.
pub open spec fn transform_keys(t: Transform) -> Seq<Seq<char>> {
    seq!["inputs"@] + (if t.source is Some {
        seq!["source"@]
    } else {
        Seq::empty()
    }) + (if t.file is Some {
        seq!["file"@]
    } else {
        Seq::empty()
    }) + seq!["type"@]
}

/// `v` is the Vector table of the transform `t`: its inputs, its VRL program
/// (inline `source` or `file`) where given, and `type = "remap"`.
pub open spec fn is_transform_table(t: Transform, v: TomlValue) -> bool {
    &&& has_keys(v, transform_keys(t))
    &&& is_text_array(toml_get(v, "inputs"@), t.inputs@.map_values(|s: String| s@))
    &&& (t.source matches Some(s) ==> is_text(toml_get(v, "source"@), s@))
    &&& (t.file matches Some(f) ==> is_text(toml_get(v, "file"@), f@))
    &&& is_text(toml_get(v, "type"@), "remap"@)
}

/// The Vector table of a transform (see [`is_transform_table`]).
pub fn transform_table(t: &Transform) -> (v: TomlValue)
    ensures
        is_transform_table(*t, v),
{
    proof {
        reveal_strlit("inputs");
        reveal_strlit("source");
        reveal_strlit("file");
        reveal_strlit("type");
        reveal_strlit("remap");
    }
    let mut inputs: Vec<TomlValue> = Vec::new();
    let mut i: usize = 0;
    while i < t.inputs.len()
        invariant
            i <= t.inputs@.len(),
            inputs@.len() == i,
            forall|j: int|
                0 <= j < i ==> (#[trigger] inputs@[j] matches TomlValue::Str(x) && x@
                    == t.inputs@[j]@),
        decreases t.inputs@.len() - i,
    {
        inputs.push(TomlValue::Str(t.inputs[i].clone()));
        i = i + 1;
    }
    let mut e: Vec<(String, TomlValue)> = Vec::new();
    e.push((String::from_str("inputs"), TomlValue::Array(inputs)));
    match &t.source {
        Some(s) => e.push((String::from_str("source"), TomlValue::Str(s.clone()))),
        None => {},
    }
    match &t.file {
        Some(f) => e.push((String::from_str("file"), TomlValue::Str(f.clone()))),
        None => {},
    }
    e.push((String::from_str("type"), TomlValue::Str(String::from_str("remap"))));
    let ghost keys = transform_keys(*t);
    proof {
        assert("inputs"@[0] != "source"@[0]);
        assert(!("inputs"@ =~= "source"@));
        assert(!("inputs"@ =~= "file"@));
        assert(!("inputs"@ =~= "type"@));
        assert(!("source"@ =~= "file"@));
        assert(!("source"@ =~= "type"@));
        assert("file"@[0] != "type"@[0]);
        assert(!("file"@ =~= "type"@));
        assert(e@.len() == keys.len());
        assert forall|k: int| 0 <= k < keys.len() implies (#[trigger] e@[k]).0@ == keys[k] by {}
        assert forall|a: int, b: int| 0 <= a < b < e@.len() implies (#[trigger] e@[a]).0@ != (
        #[trigger] e@[b]).0@ by {}
    }
    let v = crate::toml_doc::table(e);
    proof {
        assert(toml_get(v, "inputs"@) == Some(e@[0].1));
        if t.source is Some {
            assert(toml_get(v, e@[1].0@) == Some(e@[1].1));
        }
        if t.file is Some {
            let k: int = if t.source is Some { 2 } else { 1 };
            assert(toml_get(v, e@[k].0@) == Some(e@[k].1));
        }
        let last: int = e@.len() - 1;
        assert(toml_get(v, e@[last].0@) == Some(e@[last].1));
    }
    v
}

/// The name of a source's table in the Vector configuration: `source-<kind>_<id>`.
pub open spec fn source_table_name(kind: Seq<char>, id: Seq<char>) -> Seq<char> {
    "source-"@ + kind + "_"@ + id
}

/// `doc` is the TOML document of a source of kind `kind` with identifier `id`:
/// its settings under `sources`, in a table named `source-<kind>_<id>`, and
/// then, if it has any, its transforms under `transforms`, in order and by name.
pub open spec fn is_source_document(
    kind: Seq<char>,
    id: Seq<char>,
    settings: TomlValue,
    transforms: Option<Seq<(String, Transform)>>,
    doc: Seq<(String, TomlValue)>,
) -> bool {
    &&& doc.len() == (if transforms is Some {
        2int
    } else {
        1int
    })
    &&& doc[0].0@ == "sources"@
    &&& doc[0].1 matches TomlValue::Table(st) && st@.len() == 1 && st@[0].0@ == source_table_name(
        kind,
        id,
    ) && st@[0].1 == settings
    &&& (transforms matches Some(ts) ==> {
        &&& doc[1].0@ == "transforms"@
        &&& doc[1].1 matches TomlValue::Table(tt) && tt@.len() == ts.len() && forall|i: int|
            0 <= i < ts.len() ==> (#[trigger] tt@[i]).0@ == ts[i].0@ && is_transform_table(
                ts[i].1,
                tt@[i].1,
            )
    })
}

/// The TOML document a source contributes to the Vector configuration, from
/// its kind, its identifier, its serialized settings and its transforms (see
/// [`is_source_document`]).
pub fn source_document(
    kind: &str,
    id: &str,
    settings: TomlValue,
    transforms: Option<Vec<(String, Transform)>>,
) -> (doc: Vec<(String, TomlValue)>)
    ensures
        is_source_document(
            kind@,
            id@,
            settings,
            match transforms {
                Some(v) => Some(v@),
                None => None,
            },
            doc@,
        ),
{
    proof {
        reveal_strlit("source-");
        reveal_strlit("_");
    }
    let ghost s0 = settings;
    let prefix = concat2("source-", kind);
    let name = concat3(prefix.as_str(), "_", id);
    let mut doc: Vec<(String, TomlValue)> = Vec::new();
    doc.push((String::from_str("sources"), TomlValue::Table(vec![(name, settings)])));
    match transforms {
        Some(ts) => {
            let mut tt: Vec<(String, TomlValue)> = Vec::new();
            let mut i: usize = 0;
            while i < ts.len()
                invariant
                    i <= ts@.len(),
                    tt@.len() == i,
                    forall|j: int|
                        0 <= j < i ==> (#[trigger] tt@[j]).0@ == ts@[j].0@ && is_transform_table(
                            ts@[j].1,
                            tt@[j].1,
                        ),
                decreases ts@.len() - i,
            {
                let t = transform_table(&ts[i].1);
                tt.push((ts[i].0.clone(), t));
                i = i + 1;
            }
            doc.push((String::from_str("transforms"), TomlValue::Table(tt)));
        },
        None => {},
    }
    proof {
        assert(source_table_name(kind@, id@) =~= "source-"@ + kind@ + "_"@ + id@);
    }
    doc
}

} // verus!
