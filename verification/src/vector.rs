//! The Vector configuration StrIEM hands out: the built-in stdin source and
//! StrIEM sink, the sources Vector exposes for StrIEM's destination, and the
//! sections contributed by configured sources and sinks.
use vstd::prelude::*;

use crate::assoc::{assoc_extend, assoc_get, assoc_insert, assoc_take, find_key, lemma_find_from};
use crate::config::output::Destination;
use crate::config::StrIEMConfig;
use crate::net::socket_text;
use crate::toml_doc::{distinct_keys, entry, has_keys, is_text, is_text_list, table, text, toml_get, TomlValue};

verus! {

/// A TOML table as a list of entries.
pub type TomlTable = Vec<(String, TomlValue)>;

/// The VRL program that decodes HTTP request bodies: the body as a string,
/// parsed as JSON when it is JSON.
pub open spec fn http_decoding_vrl() -> Seq<char> {
    "body, _ = string(.)\nif !is_null(body) {\n  . = parse_json(body) ?? body\n}"@
}

/// `{type = "stdin", decoding = {codec = "json"}, framing = {method = "newline_delimited"}}`
pub open spec fn is_stdin_source(v: TomlValue) -> bool {
    &&& has_keys(v, seq!["type"@, "decoding"@, "framing"@])
    &&& is_text(toml_get(v, "type"@), "stdin"@)
    &&& toml_get(v, "decoding"@) matches Some(d) && has_keys(d, seq!["codec"@]) && is_text(
        toml_get(d, "codec"@),
        "json"@,
    )
    &&& toml_get(v, "framing"@) matches Some(f) && has_keys(f, seq!["method"@]) && is_text(
        toml_get(f, "method"@),
        "newline_delimited"@,
    )
}

/// `{type = "vector", inputs = ["ocsf-*"], address = <fqdn>}`
pub open spec fn is_striem_sink(v: TomlValue, fqdn: Seq<char>) -> bool {
    &&& has_keys(v, seq!["type"@, "inputs"@, "address"@])
    &&& is_text(toml_get(v, "type"@), "vector"@)
    &&& is_text_list(toml_get(v, "inputs"@), "ocsf-*"@)
    &&& is_text(toml_get(v, "address"@), fqdn)
}

/// `{type = "vector", address = <address>, version = "2"}`
pub open spec fn is_vector_source(v: TomlValue, address: Seq<char>) -> bool {
    &&& has_keys(v, seq!["type"@, "address"@, "version"@])
    &&& is_text(toml_get(v, "type"@), "vector"@)
    &&& is_text(toml_get(v, "address"@), address)
    &&& is_text(toml_get(v, "version"@), "2"@)
}

/// `{type = "splunk_hec", address = <address>, store_hec_token = true}`
pub open spec fn is_hec_source(v: TomlValue, address: Seq<char>) -> bool {
    &&& has_keys(v, seq!["type"@, "address"@, "store_hec_token"@])
    &&& is_text(toml_get(v, "type"@), "splunk_hec"@)
    &&& is_text(toml_get(v, "address"@), address)
    &&& toml_get(v, "store_hec_token"@) == Some(TomlValue::Boolean(true))
}

/// `{type = "http_server", address = <address>, headers = ["*"], strict_path = false,
/// decoding = {codec = "vrl", vrl = {source = <http_decoding_vrl>}}}`
pub open spec fn is_http_source(v: TomlValue, address: Seq<char>) -> bool {
    &&& has_keys(v, seq!["type"@, "address"@, "headers"@, "strict_path"@, "decoding"@])
    &&& is_text(toml_get(v, "type"@), "http_server"@)
    &&& is_text(toml_get(v, "address"@), address)
    &&& is_text_list(toml_get(v, "headers"@), "*"@)
    &&& toml_get(v, "strict_path"@) == Some(TomlValue::Boolean(false))
    &&& toml_get(v, "decoding"@) matches Some(d) && {
        &&& has_keys(d, seq!["codec"@, "vrl"@])
        &&& is_text(toml_get(d, "codec"@), "vrl"@)
        &&& toml_get(d, "vrl"@) matches Some(p) && has_keys(p, seq!["source"@]) && is_text(
            toml_get(p, "source"@),
            http_decoding_vrl(),
        )
    }
}

/// The address StrIEM's Vector sink sends to: the configured FQDN, or else the
/// input listener's URL.
pub open spec fn fqdn_of(config: StrIEMConfig) -> Seq<char> {
    match config.fqdn {
        Some(f) => f@,
        None => config.input.host().url@,
    }
}

/// The built-in value of source `k`: the stdin source, and, for a Vector
/// destination, its Vector source and its HEC and HTTP sources when configured.
pub open spec fn base_source(config: StrIEMConfig, k: Seq<char>, v: Option<TomlValue>) -> bool {
    if k == "ocsf-stdin"@ {
        v matches Some(x) && is_stdin_source(x)
    } else {
        match config.output {
            Some(Destination::Vector(d)) => {
                if k == "source-striem"@ {
                    v matches Some(x) && is_vector_source(x, socket_text(d.cfg.address))
                } else if k == "source-striem-hec"@ && d.hec is Some {
                    v matches Some(x) && is_hec_source(x, socket_text(d.hec->Some_0.address))
                } else if k == "source-striem-http"@ && d.http is Some {
                    v matches Some(x) && is_http_source(x, socket_text(d.http->Some_0.address))
                } else {
                    v is None
                }
            },
            _ => v is None,
        }
    }
}

/// The built-in value of sink `k`: only the StrIEM sink.
pub open spec fn base_sink(config: StrIEMConfig, k: Seq<char>, v: Option<TomlValue>) -> bool {
    if k == "sink-striem"@ {
        v matches Some(x) && is_striem_sink(x, fqdn_of(config))
    } else {
        v is None
    }
}

/// The table `name` of a document, when it is a table.
pub open spec fn section_of(doc: Seq<(String, TomlValue)>, name: Seq<char>) -> Option<Seq<(String, TomlValue)>> {
    match assoc_get(doc, name) {
        Some(TomlValue::Table(e)) => Some(e@),
        _ => None,
    }
}

/// The value of key `k` in the `name` tables of the first `n` documents: that of
/// the last document whose table has it.
pub open spec fn provided(docs: Seq<TomlTable>, name: Seq<char>, n: int, k: Seq<char>) -> Option<TomlValue>
    decreases n,
{
    if n <= 0 {
        None
    } else {
        match section_of(docs[n - 1]@, name) {
            Some(e) if assoc_get(e, k) is Some => assoc_get(e, k),
            _ => provided(docs, name, n - 1, k),
        }
    }
}

/// The value of key `k` in the first `n` documents: that of the last one that has it.
pub open spec fn provided_whole(docs: Seq<TomlTable>, n: int, k: Seq<char>) -> Option<TomlValue>
    decreases n,
{
    if n <= 0 {
        None
    } else if assoc_get(docs[n - 1]@, k) is Some {
        assoc_get(docs[n - 1]@, k)
    } else {
        provided_whole(docs, n - 1, k)
    }
}

/// Some of the first `n` documents has a `name` table.
pub open spec fn any_section(docs: Seq<TomlTable>, name: Seq<char>, n: int) -> bool {
    exists|j: int| 0 <= j < n && #[trigger] section_of(docs[j]@, name) is Some
}

/// The table `t` holds, for each key, the value the documents provide, and
/// otherwise the built-in value.
pub open spec fn merged_sources(config: StrIEMConfig, docs: Seq<TomlTable>, t: Seq<(String, TomlValue)>) -> bool {
    forall|k: Seq<char>|
        if provided(docs, "sources"@, docs.len() as int, k) is Some {
            #[trigger] assoc_get(t, k) == provided(docs, "sources"@, docs.len() as int, k)
        } else {
            base_source(config, k, assoc_get(t, k))
        }
}

/// The sinks table `t`: the sink documents' entries over the built-in sink.
pub open spec fn merged_sinks(config: StrIEMConfig, sinks: Seq<TomlTable>, t: Seq<(String, TomlValue)>) -> bool {
    forall|k: Seq<char>|
        if provided_whole(sinks, sinks.len() as int, k) is Some {
            #[trigger] assoc_get(t, k) == provided_whole(sinks, sinks.len() as int, k)
        } else {
            base_sink(config, k, assoc_get(t, k))
        }
}

/// `r` is the Vector configuration for `config`, the source documents `sources`
/// and the sink documents `sinks`:
/// - `schema` is `{log_namespace = true}`;
/// - `sources` holds the sources' `sources` tables over the built-in sources;
/// - `sinks` holds the sink documents over the built-in StrIEM sink;
/// - `transforms`, present when some source has a `transforms` table, holds those;
/// - nothing else.
pub open spec fn is_vector_config(
    config: StrIEMConfig,
    sources: Seq<TomlTable>,
    sinks: Seq<TomlTable>,
    r: Seq<(String, TomlValue)>,
) -> bool {
    &&& assoc_get(r, "schema"@) matches Some(s) && has_keys(s, seq!["log_namespace"@]) && toml_get(
        s,
        "log_namespace"@,
    ) == Some(TomlValue::Boolean(true))
    &&& assoc_get(r, "sources"@) matches Some(TomlValue::Table(st)) && merged_sources(config, sources, st@)
    &&& assoc_get(r, "sinks"@) matches Some(TomlValue::Table(sk)) && merged_sinks(config, sinks, sk@)
    &&& (any_section(sources, "transforms"@, sources.len() as int) <==> assoc_get(r, "transforms"@) is Some)
    &&& (assoc_get(r, "transforms"@) matches Some(t) ==> (t matches TomlValue::Table(tt) && forall|k: Seq<char>|
        #[trigger] assoc_get(tt@, k) == provided(sources, "transforms"@, sources.len() as int, k)))
    &&& forall|k: Seq<char>|
        k != "schema"@ && k != "sources"@ && k != "sinks"@ && k != "transforms"@ ==> #[trigger] assoc_get(
            r,
            k,
        ) is None
}

fn stdin_source() -> (v: TomlValue)
    ensures
        is_stdin_source(v),
{
    proof {
        reveal_strlit("type");
        reveal_strlit("decoding");
        reveal_strlit("framing");
    }
    let decoding = table(vec![entry("codec", text("json"))]);
    let framing = table(vec![entry("method", text("newline_delimited"))]);
    let e = vec![entry("type", text("stdin")), entry("decoding", decoding), entry("framing", framing)];
    proof {
        assert(e@[0].0@ == "type"@);
        assert(e@[1].0@ == "decoding"@);
        assert(e@[2].0@ == "framing"@);
        assert("type"@.len() == 4);
        assert("decoding"@.len() == 8);
        assert("framing"@.len() == 7);
        assert(distinct_keys(e@));
    }
    let v = table(e);
    v
}

fn striem_sink(fqdn: String) -> (v: TomlValue)
    ensures
        is_striem_sink(v, fqdn@),
{
    proof {
        reveal_strlit("type");
        reveal_strlit("inputs");
        reveal_strlit("address");
    }
    let inputs = TomlValue::Array(vec![text("ocsf-*")]);
    let e = vec![entry("type", text("vector")), entry("inputs", inputs), entry("address", TomlValue::Str(fqdn))];
    proof {
        assert(e@[0].0@ == "type"@);
        assert(e@[1].0@ == "inputs"@);
        assert(e@[2].0@ == "address"@);
        assert("type"@.len() == 4);
        assert("inputs"@.len() == 6);
        assert("address"@.len() == 7);
        assert(distinct_keys(e@));
    }
    let v = table(e);
    v
}

fn vector_source(address: String) -> (v: TomlValue)
    ensures
        is_vector_source(v, address@),
{
    proof {
        reveal_strlit("type");
        reveal_strlit("address");
        reveal_strlit("version");
    }
    let e = vec![entry("type", text("vector")), entry("address", TomlValue::Str(address)), entry("version", text("2"))];
    proof {
        assert(e@[0].0@ == "type"@);
        assert(e@[1].0@ == "address"@);
        assert(e@[2].0@ == "version"@);
        assert("type"@.len() == 4);
        assert("address"@.len() == 7);
        assert("version"@.len() == 7);
        assert("address"@[0] != "version"@[0]);
        assert(distinct_keys(e@));
    }
    let v = table(e);
    v
}

fn hec_source(address: String) -> (v: TomlValue)
    ensures
        is_hec_source(v, address@),
{
    proof {
        reveal_strlit("type");
        reveal_strlit("address");
        reveal_strlit("store_hec_token");
    }
    let e = vec![
        entry("type", text("splunk_hec")),
        entry("address", TomlValue::Str(address)),
        entry("store_hec_token", TomlValue::Boolean(true)),
    ];
    proof {
        assert(e@[0].0@ == "type"@);
        assert(e@[1].0@ == "address"@);
        assert(e@[2].0@ == "store_hec_token"@);
        assert("type"@.len() == 4);
        assert("address"@.len() == 7);
        assert("store_hec_token"@.len() == 15);
        assert(distinct_keys(e@));
    }
    let v = table(e);
    v
}

fn http_source(address: String) -> (v: TomlValue)
    ensures
        is_http_source(v, address@),
{
    proof {
        reveal_strlit("type");
        reveal_strlit("address");
        reveal_strlit("headers");
        reveal_strlit("strict_path");
        reveal_strlit("decoding");
        reveal_strlit("codec");
        reveal_strlit("vrl");
    }
    let program = table(
        vec![entry("source", crate::toml_doc::text("body, _ = string(.)\nif !is_null(body) {\n  . = parse_json(body) ?? body\n}"))],
    );
    let de = vec![entry("codec", text("vrl")), entry("vrl", program)];
    proof {
        assert(de@[0].0@ == "codec"@);
        assert(de@[1].0@ == "vrl"@);
        assert("codec"@.len() == 5);
        assert("vrl"@.len() == 3);
        assert(distinct_keys(de@));
    }
    let decoding = table(de);
    proof {
        assert(decoding->Table_0@[0].0@ == "codec"@);
        assert(decoding->Table_0@[1].0@ == "vrl"@);
    }
    let headers = TomlValue::Array(vec![text("*")]);
    let e = vec![
        entry("type", text("http_server")),
        entry("address", TomlValue::Str(address)),
        entry("headers", headers),
        entry("strict_path", TomlValue::Boolean(false)),
        entry("decoding", decoding),
    ];
    proof {
        assert(e@[0].0@ == "type"@);
        assert(e@[1].0@ == "address"@);
        assert(e@[2].0@ == "headers"@);
        assert(e@[3].0@ == "strict_path"@);
        assert(e@[4].0@ == "decoding"@);
        assert("type"@.len() == 4);
        assert("address"@.len() == 7);
        assert("headers"@.len() == 7);
        assert("strict_path"@.len() == 11);
        assert("decoding"@.len() == 8);
        assert("address"@[0] != "headers"@[0]);
        assert(distinct_keys(e@));
    }
    let v = table(e);
    v
}

proof fn lemma_provided_none(docs: Seq<TomlTable>, name: Seq<char>, n: int, k: Seq<char>)
    requires
        !any_section(docs, name, n),
    ensures
        provided(docs, name, n, k) is None,
    decreases n,
{
    if n > 0 {
        assert(section_of(docs[n - 1]@, name) is None);
        assert(!any_section(docs, name, n - 1));
        lemma_provided_none(docs, name, n - 1, k);
    }
}

fn built_in_sources(config: &StrIEMConfig) -> (t: TomlTable)
    ensures
        forall|k: Seq<char>| #[trigger] base_source(*config, k, assoc_get(t@, k)),
{
    proof {
        reveal_strlit("ocsf-stdin");
        reveal_strlit("source-striem");
        reveal_strlit("source-striem-hec");
        reveal_strlit("source-striem-http");
    }
    let mut t: TomlTable = vec![entry("ocsf-stdin", stdin_source())];
    proof {
        assert(t@[0].0@ == "ocsf-stdin"@);
        assert forall|k: Seq<char>| k != "ocsf-stdin"@ implies assoc_get(t@, k) is None by {
            assert(crate::assoc::find_from(t@, k, 1) == 1);
        }
        assert(find_key(t@, "ocsf-stdin"@) == 0);
    }
    let ghost t0 = t@;
    if let Some(Destination::Vector(d)) = &config.output {
        assoc_insert(&mut t, String::from_str("source-striem"), vector_source(d.cfg.address.to_text()));
        let ghost t1 = t@;
        if let Some(h) = &d.hec {
            assoc_insert(&mut t, String::from_str("source-striem-hec"), hec_source(h.address.to_text()));
        }
        let ghost t2 = t@;
        if let Some(h) = &d.http {
            assoc_insert(&mut t, String::from_str("source-striem-http"), http_source(h.address.to_text()));
        }
        proof {
            assert("ocsf-stdin"@.len() == 10);
            assert("source-striem"@.len() == 13);
            assert("source-striem-hec"@.len() == 17);
            assert("source-striem-http"@.len() == 18);
            assert forall|k: Seq<char>| #[trigger] base_source(*config, k, assoc_get(t@, k)) by {
                if k == "ocsf-stdin"@ {
                } else if k == "source-striem"@ {
                } else if k == "source-striem-hec"@ {
                    if d.hec is None {
                        assert(assoc_get(t2, k) == assoc_get(t1, k));
                    }
                } else if k == "source-striem-http"@ {
                } else {
                    assert(assoc_get(t0, k) is None);
                }
            }
        }
    }
    t
}

/// The Vector configuration (see [`is_vector_config`]) for `config`, with the
/// TOML documents of the configured sources (each may hold a `sources` and a
/// `transforms` table) and of the configured sinks.
pub fn vector_config(config: &StrIEMConfig, sources: Vec<TomlTable>, sinks: Vec<TomlTable>) -> (r: TomlTable)
    ensures
        is_vector_config(*config, sources@, sinks@, r@),
{
    proof {
        reveal_strlit("schema");
        reveal_strlit("log_namespace");
        reveal_strlit("sources");
        reveal_strlit("sinks");
        reveal_strlit("transforms");
        reveal_strlit("sink-striem");
    }
    let fqdn = match &config.fqdn {
        Some(f) => f.clone(),
        None => config.input.url(),
    };
    let n_sources = sources.len();
    let n_sinks = sinks.len();
    let ghost docs = sources@;
    let mut source_table = built_in_sources(config);
    let mut transforms: Option<TomlTable> = None;
    let sources_key = String::from_str("sources");
    let transforms_key = String::from_str("transforms");
    let mut rest = sources;
    let mut i: usize = 0;
    proof {
        assert(rest@ =~= docs.subrange(0, docs.len() as int));
    }
    while rest.len() > 0
        invariant
            i + rest@.len() == docs.len(),
            docs.len() == n_sources,
            rest@ == docs.subrange(i as int, docs.len() as int),
            sources_key@ == "sources"@,
            transforms_key@ == "transforms"@,
            forall|k: Seq<char>|
                if provided(docs, "sources"@, i as int, k) is Some {
                    #[trigger] assoc_get(source_table@, k) == provided(docs, "sources"@, i as int, k)
                } else {
                    base_source(*config, k, assoc_get(source_table@, k))
                },
            transforms is Some <==> any_section(docs, "transforms"@, i as int),
            transforms matches Some(tt) ==> forall|k: Seq<char>|
                #[trigger] assoc_get(tt@, k) == provided(docs, "transforms"@, i as int, k),
        decreases rest@.len(),
    {
        let mut doc = rest.remove(0);
        let ghost d = doc@;
        proof {
            assert(d == docs[i as int]@);
        }
        let section = assoc_take(&mut doc, &sources_key, TomlValue::Boolean(false));
        let ghost prev = source_table@;
        if let Some(TomlValue::Table(s)) = section {
            assoc_extend(&mut source_table, s);
        }
        proof {
            reveal_strlit("transforms");
            reveal_strlit("sources");
            assert("transforms"@.len() != "sources"@.len());
            assert forall|k: Seq<char>|
                if provided(docs, "sources"@, i + 1, k) is Some {
                    #[trigger] assoc_get(source_table@, k) == provided(docs, "sources"@, i + 1, k)
                } else {
                    base_source(*config, k, assoc_get(source_table@, k))
                } by {
                assert(section_of(docs[i as int]@, "sources"@) == (match section {
                    Some(TomlValue::Table(s)) => Some(s@),
                    _ => None::<Seq<(String, TomlValue)>>,
                }));
            }
        }
        let tsection = assoc_take(&mut doc, &transforms_key, TomlValue::Boolean(false));
        let ghost before_t = transforms;
        if let Some(TomlValue::Table(s)) = tsection {
            let mut tt = match transforms {
                Some(x) => x,
                None => Vec::new(),
            };
            let ghost base_t = tt@;
            assoc_extend(&mut tt, s);
            proof {
                assert(section_of(docs[i as int]@, "transforms"@) == Some(s@));
                assert forall|k: Seq<char>| #[trigger] assoc_get(tt@, k) == provided(docs, "transforms"@, i + 1, k) by {
                    if before_t is None {
                        assert(find_key(base_t, k) == 0);
                        lemma_provided_none(docs, "transforms"@, i as int, k);
                    }
                }
            }
            transforms = Some(tt);
        }
        proof {
            assert(section_of(docs[i as int]@, "transforms"@) == (match tsection {
                Some(TomlValue::Table(s)) => Some(s@),
                _ => None::<Seq<(String, TomlValue)>>,
            }));
            if section_of(docs[i as int]@, "transforms"@) is Some {
                assert(any_section(docs, "transforms"@, i + 1));
            } else {
                if transforms is Some {
                    let tt = transforms->Some_0;
                    assert forall|k: Seq<char>| #[trigger] assoc_get(tt@, k) == provided(docs, "transforms"@, i + 1, k) by {
                        assert(provided(docs, "transforms"@, i + 1, k) == provided(docs, "transforms"@, i as int, k));
                    }
                }
                if any_section(docs, "transforms"@, i + 1) {
                    let j = choose|j: int| 0 <= j < i + 1 && #[trigger] section_of(docs[j]@, "transforms"@) is Some;
                    assert(j < i);
                    assert(any_section(docs, "transforms"@, i as int));
                }
                if any_section(docs, "transforms"@, i as int) {
                    let j = choose|j: int| 0 <= j < i && #[trigger] section_of(docs[j]@, "transforms"@) is Some;
                    assert(any_section(docs, "transforms"@, i + 1));
                }
            }
            assert(rest@ =~= docs.subrange(i + 1, docs.len() as int));
        }
        i = i + 1;
    }
    let ghost sink_docs = sinks@;
    let mut sink_table: TomlTable = vec![entry("sink-striem", striem_sink(fqdn))];
    proof {
        assert forall|k: Seq<char>| #[trigger] base_sink(*config, k, assoc_get(sink_table@, k)) by {
            assert(sink_table@[0].0@ == "sink-striem"@);
            if k != "sink-striem"@ {
                assert(crate::assoc::find_from(sink_table@, k, 1) == 1);
            } else {
                assert(find_key(sink_table@, k) == 0);
            }
        }
    }
    let mut rest = sinks;
    let mut j: usize = 0;
    proof {
        assert(rest@ =~= sink_docs.subrange(0, sink_docs.len() as int));
    }
    while rest.len() > 0
        invariant
            j + rest@.len() == sink_docs.len(),
            sink_docs.len() == n_sinks,
            rest@ == sink_docs.subrange(j as int, sink_docs.len() as int),
            forall|k: Seq<char>|
                if provided_whole(sink_docs, j as int, k) is Some {
                    #[trigger] assoc_get(sink_table@, k) == provided_whole(sink_docs, j as int, k)
                } else {
                    base_sink(*config, k, assoc_get(sink_table@, k))
                },
        decreases rest@.len(),
    {
        let doc = rest.remove(0);
        proof {
            assert(doc@ == sink_docs[j as int]@);
        }
        assoc_extend(&mut sink_table, doc);
        proof {
            assert(rest@ =~= sink_docs.subrange(j + 1, sink_docs.len() as int));
        }
        j = j + 1;
    }
    let schema = table(vec![entry("log_namespace", TomlValue::Boolean(true))]);
    let mut r: TomlTable = vec![
        entry("schema", schema),
        entry("sources", TomlValue::Table(source_table)),
        entry("sinks", TomlValue::Table(sink_table)),
    ];
    proof {
        assert("schema"@.len() == 6);
        assert("sources"@.len() == 7);
        assert("sinks"@.len() == 5);
        assert("transforms"@.len() == 10);
        assert(r@[0].0@ == "schema"@);
        assert(r@[1].0@ == "sources"@);
        assert(r@[2].0@ == "sinks"@);
        assert(crate::assoc::find_from(r@, "sinks"@, 2) == 2);
        assert(crate::assoc::find_from(r@, "sinks"@, 1) == 2);
        assert(crate::assoc::find_from(r@, "sources"@, 1) == 1);
        assert(find_key(r@, "schema"@) == 0);
        assert(find_key(r@, "sources"@) == 1);
        assert(find_key(r@, "sinks"@) == 2);
        assert forall|k: Seq<char>| k != "schema"@ && k != "sources"@ && k != "sinks"@ implies #[trigger] assoc_get(r@, k) is None by {
            assert(crate::assoc::find_from(r@, k, 3) == 3);
            assert(crate::assoc::find_from(r@, k, 2) == 3);
            assert(crate::assoc::find_from(r@, k, 1) == 3);
        }
    }
    let ghost r0 = r@;
    if let Some(tt) = transforms {
        assoc_insert(&mut r, String::from_str("transforms"), TomlValue::Table(tt));
    }
    proof {
        assert(docs.len() == i);
    }
    r
}

proof fn lemma_not_provided(docs: Seq<TomlTable>, name: Seq<char>, n: int, k: Seq<char>)
    requires
        n <= docs.len(),
        forall|j: int|
            0 <= j < docs.len() ==> (#[trigger] section_of(docs[j]@, name) matches Some(e) ==> assoc_get(e, k) is None),
    ensures
        provided(docs, name, n, k) is None,
    decreases n,
{
    if n > 0 {
        lemma_not_provided(docs, name, n - 1, k);
        assert(section_of(docs[n - 1]@, name) matches Some(e) ==> assoc_get(e, k) is None);
    }
}

proof fn lemma_not_provided_whole(docs: Seq<TomlTable>, n: int, k: Seq<char>)
    requires
        n <= docs.len(),
        forall|j: int| 0 <= j < docs.len() ==> assoc_get(#[trigger] docs[j]@, k) is None,
    ensures
        provided_whole(docs, n, k) is None,
    decreases n,
{
    if n > 0 {
        lemma_not_provided_whole(docs, n - 1, k);
        assert(assoc_get(docs[n - 1]@, k) is None);
    }
}

/// Unless a sink document replaces it, the configuration's `sinks` table holds
/// `sink-striem`: a `vector` sink whose only input is `ocsf-*` (every
/// normalized component) and whose address is the configured FQDN, else the
/// input listener's URL.
pub proof fn lemma_striem_sink(config: StrIEMConfig, sources: Seq<TomlTable>, sinks: Seq<TomlTable>, r: Seq<(String, TomlValue)>)
    requires
        is_vector_config(config, sources, sinks, r),
        forall|j: int| 0 <= j < sinks.len() ==> assoc_get(#[trigger] sinks[j]@, "sink-striem"@) is None,
    ensures
        assoc_get(r, "sinks"@) matches Some(TomlValue::Table(sk)) && assoc_get(sk@, "sink-striem"@) matches Some(x) && {
            &&& (toml_get(x, "type"@) matches Some(TomlValue::Str(ty)) && ty@ == "vector"@)
            &&& (toml_get(x, "inputs"@) matches Some(TomlValue::Array(a)) && a@.len() == 1 && (a@[0] matches TomlValue::Str(i) && i@ == "ocsf-*"@))
            &&& (toml_get(x, "address"@) matches Some(TomlValue::Str(ad)) && ad@ == (match config.fqdn {
                Some(f) => f@,
                None => config.input.host().url@,
            }))
        },
{
    lemma_not_provided_whole(sinks, sinks.len() as int, "sink-striem"@);
    let sk = assoc_get(r, "sinks"@)->Some_0->Table_0;
    assert(base_sink(config, "sink-striem"@, assoc_get(sk@, "sink-striem"@)));
}

/// Unless a source document replaces it, the configuration's `sources` table
/// holds `ocsf-stdin`: a `stdin` source decoding newline-delimited JSON; and,
/// for a Vector destination, `source-striem`: a `vector` source (version 2)
/// listening on the destination's address.
pub proof fn lemma_built_in_sources(config: StrIEMConfig, sources: Seq<TomlTable>, sinks: Seq<TomlTable>, r: Seq<(String, TomlValue)>)
    requires
        is_vector_config(config, sources, sinks, r),
    ensures
        (forall|j: int| 0 <= j < sources.len() ==> (#[trigger] section_of(sources[j]@, "sources"@) matches Some(e) ==> assoc_get(e, "ocsf-stdin"@) is None))
            ==> (assoc_get(r, "sources"@) matches Some(TomlValue::Table(st)) && assoc_get(st@, "ocsf-stdin"@) matches Some(x) && {
            &&& (toml_get(x, "type"@) matches Some(TomlValue::Str(ty)) && ty@ == "stdin"@)
            &&& (toml_get(x, "decoding"@) matches Some(d) && toml_get(d, "codec"@) matches Some(TomlValue::Str(c)) && c@ == "json"@)
            &&& (toml_get(x, "framing"@) matches Some(f) && toml_get(f, "method"@) matches Some(TomlValue::Str(m)) && m@ == "newline_delimited"@)
        }),
        (forall|j: int| 0 <= j < sources.len() ==> (#[trigger] section_of(sources[j]@, "sources"@) matches Some(e) ==> assoc_get(e, "source-striem"@) is None))
            ==> (config.output matches Some(Destination::Vector(v)) ==> (assoc_get(r, "sources"@) matches Some(TomlValue::Table(st)) && assoc_get(st@, "source-striem"@) matches Some(x) && {
            &&& (toml_get(x, "type"@) matches Some(TomlValue::Str(ty)) && ty@ == "vector"@)
            &&& (toml_get(x, "address"@) matches Some(TomlValue::Str(a)) && a@ == socket_text(v.cfg.address))
            &&& (toml_get(x, "version"@) matches Some(TomlValue::Str(n)) && n@ == "2"@)
        })),
{
    reveal_strlit("ocsf-stdin");
    reveal_strlit("source-striem");
    let st = assoc_get(r, "sources"@)->Some_0->Table_0;
    if forall|j: int| 0 <= j < sources.len() ==> (#[trigger] section_of(sources[j]@, "sources"@) matches Some(e) ==> assoc_get(e, "ocsf-stdin"@) is None) {
        lemma_not_provided(sources, "sources"@, sources.len() as int, "ocsf-stdin"@);
        assert(base_source(config, "ocsf-stdin"@, assoc_get(st@, "ocsf-stdin"@)));
    }
    if forall|j: int| 0 <= j < sources.len() ==> (#[trigger] section_of(sources[j]@, "sources"@) matches Some(e) ==> assoc_get(e, "source-striem"@) is None) {
        lemma_not_provided(sources, "sources"@, sources.len() as int, "source-striem"@);
        assert(!("source-striem"@ =~= "ocsf-stdin"@));
        assert(base_source(config, "source-striem"@, assoc_get(st@, "source-striem"@)));
    }
}

} // verus!
