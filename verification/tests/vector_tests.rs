use striem::assoc::assoc_lookup;
use striem::config::api::ApiConfig;
use striem::config::input::Listener;
use striem::config::output::{Destination, VectorDestinationConfig};
use striem::config::{HostConfig, StrIEMConfig};
use striem::net::{IpAddress, SocketAddress};
use striem::toml_doc::TomlValue;
use striem::url::Url;
use striem::vector::{vector_config, TomlTable};

fn host(ip: [u8; 4], port: u16, url: &str) -> HostConfig {
    HostConfig { address: SocketAddress { ip: IpAddress::V4(ip), port, flowinfo: 0, scope_id: 0 }, url: Url::parse(url).unwrap() }
}

fn config(output: Option<Destination>, fqdn: Option<&str>) -> StrIEMConfig {
    StrIEMConfig {
        detections: None,
        input: Listener::Vector(host([0, 0, 0, 0], 3000, "http://localhost:3000")),
        output,
        storage: None,
        api: ApiConfig::default(),
        fqdn: fqdn.map(|f| f.to_string()),
    }
}

fn get<'a>(t: &'a TomlTable, k: &str) -> Option<&'a TomlValue> {
    assoc_lookup(t, &k.to_string())
}

fn table(v: Option<&TomlValue>) -> &TomlTable {
    match v {
        Some(TomlValue::Table(t)) => t,
        _ => panic!("not a table"),
    }
}

fn text(v: Option<&TomlValue>) -> &str {
    match v {
        Some(TomlValue::Str(s)) => s.as_str(),
        _ => panic!("not a string"),
    }
}

fn doc(entries: Vec<(&str, TomlValue)>) -> TomlTable {
    entries.into_iter().map(|(k, v)| (k.to_string(), v)).collect()
}

#[test]
fn minimal_configuration() {
    let r = vector_config(&config(None, None), vec![], vec![]);
    let schema = table(get(&r, "schema"));
    assert!(matches!(get(schema, "log_namespace"), Some(TomlValue::Boolean(true))));
    let sources = table(get(&r, "sources"));
    assert_eq!(sources.len(), 1);
    let stdin = table(get(sources, "ocsf-stdin"));
    assert_eq!(text(get(stdin, "type")), "stdin");
    assert_eq!(text(get(table(get(stdin, "decoding")), "codec")), "json");
    assert_eq!(text(get(table(get(stdin, "framing")), "method")), "newline_delimited");
    let sinks = table(get(&r, "sinks"));
    let sink = table(get(sinks, "sink-striem"));
    assert_eq!(text(get(sink, "type")), "vector");
    // without an fqdn the input URL is used
    assert_eq!(text(get(sink, "address")), "http://localhost:3000/");
    assert!(get(&r, "transforms").is_none());
}

#[test]
fn vector_destination_sources() {
    let out = Destination::Vector(VectorDestinationConfig {
        cfg: host([0, 0, 0, 0], 9000, "http://localhost"),
        hec: Some(host([0, 0, 0, 0], 8088, "http://localhost")),
        http: Some(host([127, 0, 0, 1], 8008, "http://localhost")),
    });
    let r = vector_config(&config(Some(out), Some("striem.example:3000")), vec![], vec![]);
    let sources = table(get(&r, "sources"));
    let v = table(get(sources, "source-striem"));
    assert_eq!(text(get(v, "address")), "0.0.0.0:9000");
    assert_eq!(text(get(v, "version")), "2");
    let hec = table(get(sources, "source-striem-hec"));
    assert_eq!(text(get(hec, "type")), "splunk_hec");
    assert_eq!(text(get(hec, "address")), "0.0.0.0:8088");
    assert!(matches!(get(hec, "store_hec_token"), Some(TomlValue::Boolean(true))));
    let http = table(get(sources, "source-striem-http"));
    assert_eq!(text(get(http, "type")), "http_server");
    assert_eq!(text(get(http, "address")), "127.0.0.1:8008");
    assert!(matches!(get(http, "strict_path"), Some(TomlValue::Boolean(false))));
    let decoding = table(get(http, "decoding"));
    assert_eq!(text(get(decoding, "codec")), "vrl");
    assert_eq!(
        text(get(table(get(decoding, "vrl")), "source")),
        "body, _ = string(.)\nif !is_null(body) {\n  . = parse_json(body) ?? body\n}"
    );
    let sink = table(get(table(get(&r, "sinks")), "sink-striem"));
    assert_eq!(text(get(sink, "address")), "striem.example:3000");
}

#[test]
fn http_destination_adds_no_sources() {
    let out = Destination::Http(host([0, 0, 0, 0], 80, "http://collector"));
    let r = vector_config(&config(Some(out), None), vec![], vec![]);
    assert_eq!(table(get(&r, "sources")).len(), 1);
}

#[test]
fn source_and_sink_documents_are_merged() {
    let s1 = doc(vec![
        ("sources", TomlValue::Table(doc(vec![("source-okta_1", TomlValue::Str("first".to_string()))]))),
        ("transforms", TomlValue::Table(doc(vec![("remap-okta_1", TomlValue::Integer(1))]))),
    ]);
    let s2 = doc(vec![
        ("sources", TomlValue::Table(doc(vec![
            ("source-okta_1", TomlValue::Str("second".to_string())),
            ("ocsf-stdin", TomlValue::Integer(7)),
        ]))),
        ("other", TomlValue::Boolean(true)),
    ]);
    let s3 = doc(vec![("sources", TomlValue::Str("not a table".to_string()))]);
    let sink = doc(vec![("sink-file", TomlValue::Integer(3))]);
    let r = vector_config(&config(None, None), vec![s1, s2, s3], vec![sink]);
    let sources = table(get(&r, "sources"));
    assert_eq!(text(get(sources, "source-okta_1")), "second");
    assert!(matches!(get(sources, "ocsf-stdin"), Some(TomlValue::Integer(7))));
    let transforms = table(get(&r, "transforms"));
    assert!(matches!(get(transforms, "remap-okta_1"), Some(TomlValue::Integer(1))));
    let sinks = table(get(&r, "sinks"));
    assert!(matches!(get(sinks, "sink-file"), Some(TomlValue::Integer(3))));
    assert!(get(sinks, "sink-striem").is_some());
    assert!(get(&r, "other").is_none());
}
