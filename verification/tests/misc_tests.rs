use std::collections::HashMap;
use striem::assoc::{assoc_extend, assoc_insert, assoc_lookup};
use striem::config::api::{ApiConfig, MCPConfig, UIConfig};
use striem::config::input::Listener;
use striem::config::output::{Destination, VectorDestinationConfig};
use striem::config::storage::StorageConfig;
use striem::config::{HostConfig, StrIEMConfig, StringOrList};
use striem::features::feature_header;
use striem::json::{deep_clone, JsonValue};
use striem::net::{IpAddress, SocketAddress};
use striem::pipeline::{next_step, Received, Step};
use striem::rules::list_rules;
use striem::server::{server_plan, DatabasePlan};
use striem::sources::aws_cloudtrail::{AwsAuthentication, AwsCloudtrail, AwsCloudtrailConfig, SqsConfig};
use striem::sources::okta::{Okta, OktaConfig};
use striem::sources::{source_document, transform_table, Source, Transform};
use striem::toml_doc::TomlValue;
use striem::storage::{category_uid, class_output_path, schema_file_name, ParquetBackend, StorageError};
use striem::text::trim_start_matching;
use striem::url::Url;

fn s(x: &str) -> JsonValue {
    JsonValue::Str(x.to_string())
}

fn obj(entries: Vec<(&str, JsonValue)>) -> JsonValue {
    JsonValue::Object(entries.into_iter().map(|(k, v)| (k.to_string(), v)).collect())
}

#[test]
fn assoc_read_after_write() {
    let mut t: Vec<(String, u32)> = Vec::new();
    assoc_insert(&mut t, "a".to_string(), 1);
    assoc_insert(&mut t, "b".to_string(), 2);
    assoc_insert(&mut t, "a".to_string(), 3);
    assert_eq!(t.len(), 2);
    assert_eq!(assoc_lookup(&t, &"a".to_string()), Some(&3));
    assert_eq!(assoc_lookup(&t, &"b".to_string()), Some(&2));
    assert_eq!(assoc_lookup(&t, &"c".to_string()), None);
    assoc_extend(&mut t, vec![("b".to_string(), 20), ("c".to_string(), 30)]);
    assert_eq!(assoc_lookup(&t, &"a".to_string()), Some(&3));
    assert_eq!(assoc_lookup(&t, &"b".to_string()), Some(&20));
    assert_eq!(assoc_lookup(&t, &"c".to_string()), Some(&30));
}

#[test]
fn json_set_and_clone() {
    let mut v = JsonValue::Null;
    v.set("k".to_string(), JsonValue::PosInt(1));
    assert!(matches!(v.get(&"k".to_string()), Some(JsonValue::PosInt(1))));
    let c = deep_clone(&obj(vec![("a", JsonValue::Array(vec![s("x"), JsonValue::NegInt(-2)]))]));
    match c.get(&"a".to_string()) {
        Some(JsonValue::Array(a)) => {
            assert_eq!(a.len(), 2);
            assert!(matches!(&a[1], JsonValue::NegInt(-2)));
        }
        _ => panic!("clone lost the array"),
    }
    assert_eq!(JsonValue::PosInt(9).as_u64(), Some(9));
    assert_eq!(JsonValue::NegInt(-9).as_u64(), None);
    assert_eq!(JsonValue::Float("2004.0".to_string()).as_u64(), None);
}

#[test]
fn storage_routes_by_class_uid() {
    let b = ParquetBackend::new(vec![(3002u32, "auth"), (2004u32, "finding"), (3002u32, "auth2")]);
    assert_eq!(b.heap.len(), 2);
    let e = obj(vec![("class_uid", JsonValue::PosInt(3002))]);
    assert_eq!(*b.writer_for(&e).unwrap(), "auth2");
    let e = obj(vec![("class_uid", JsonValue::PosInt(2004 + (1u64 << 32)))]);
    assert_eq!(*b.writer_for(&e).unwrap(), "finding");
    let e = obj(vec![("class_uid", JsonValue::PosInt(4001))]);
    assert!(matches!(b.writer_for(&e), Err(StorageError::InvalidOcsf)));
    let e = obj(vec![("class_uid", s("3002"))]);
    assert!(matches!(b.writer_for(&e), Err(StorageError::InvalidOcsf)));
    assert!(matches!(b.writer_for(&JsonValue::Null), Err(StorageError::InvalidOcsf)));
    assert_eq!(StorageError::InvalidOcsf.message(), "invalid OCSF");
    let _: HashMap<u32, &str> = b.heap;
}

#[test]
fn storage_paths() {
    assert_eq!(category_uid(3002), 3);
    assert_eq!(category_uid(2004), 2);
    assert_eq!(category_uid(1007), 1);
    assert_eq!(category_uid(16002), 6);
    assert_eq!(class_output_path("/data", "iam", "authentication"), "/data/iam/authentication");
}

#[test]
fn rule_listing() {
    let full = obj(vec![
        ("id", s("r1")),
        ("title", s("T")),
        ("description", s("D")),
        ("enabled", s("yes")),
        ("level", s("high")),
        ("logsource", obj(vec![("product", s("okta"))])),
        ("extra", s("dropped")),
    ]);
    let disabled = obj(vec![
        ("id", s("r2")),
        ("title", s("T2")),
        ("description", s("D2")),
        ("enabled", JsonValue::Bool(false)),
        ("level", s("low")),
        ("logsource", obj(vec![])),
    ]);
    let missing = obj(vec![("id", s("r3")), ("title", s("T3"))]);
    let list = list_rules(&JsonValue::Array(vec![full, missing, s("not a rule"), disabled]));
    assert_eq!(list.len(), 2);
    assert!(matches!(list[0].get(&"id".to_string()), Some(JsonValue::Str(x)) if x == "r1"));
    assert!(matches!(list[0].get(&"enabled".to_string()), Some(JsonValue::Bool(true))));
    assert!(list[0].get(&"extra".to_string()).is_none());
    assert!(matches!(list[1].get(&"enabled".to_string()), Some(JsonValue::Bool(false))));
    assert!(list_rules(&obj(vec![])).is_empty());
}

#[test]
fn feature_header_joins_flags() {
    assert_eq!(feature_header(&vec![]), "");
    assert_eq!(feature_header(&vec!["duckdb".to_string()]), "duckdb");
    assert_eq!(feature_header(&vec!["a".to_string(), "b".to_string(), "c".to_string()]), "a,b,c");
}

#[test]
fn workers_stop_on_shutdown_or_close() {
    assert!(matches!(next_step(Received::Events), Step::Process));
    assert!(matches!(next_step(Received::Shutdown), Step::Stop));
    assert!(matches!(next_step(Received::Closed), Step::Stop));
}

fn host(port: u16, url: &str) -> HostConfig {
    HostConfig { address: SocketAddress { ip: IpAddress::V4([0, 0, 0, 0]), port, flowinfo: 0, scope_id: 0 }, url: Url::parse(url).unwrap() }
}

fn base_config() -> StrIEMConfig {
    StrIEMConfig {
        detections: None,
        input: Listener::Vector(host(3000, "http://localhost:3000")),
        output: None,
        storage: None,
        api: ApiConfig { enabled: true, address: "0.0.0.0:8080".to_string(), data: None, mcp: None, ui: None },
        fqdn: None,
    }
}

#[test]
fn server_plan_without_storage() {
    let p = server_plan(&base_config());
    assert!(p.data.is_none());
    assert!(matches!(p.database, DatabasePlan::Absent));
    assert!(p.action_url.is_none());
    assert_eq!(p.fqdn, "http://localhost:3000/");
    assert_eq!(p.vector, "0.0.0.0:9000");
    assert!(p.ui_path.is_none());
    assert_eq!(p.listen, "0.0.0.0:8080");
}

#[test]
fn server_plan_with_storage_and_api_settings() {
    let mut c = base_config();
    c.storage = Some(StorageConfig { schema: "./schema".to_string(), path: "./data/storage".to_string() });
    c.output = Some(Destination::Vector(VectorDestinationConfig { cfg: host(9001, "http://localhost"), hec: None, http: None }));
    c.fqdn = Some("striem.example".to_string());
    c.api.mcp = Some(MCPConfig { url: StringOrList::List(vec!["http://mcp1".to_string(), "http://mcp2".to_string()]) });
    c.api.ui = Some(UIConfig { enabled: true, path: Some("./ui/out".to_string()) });
    let p = server_plan(&c);
    assert_eq!(p.data.as_deref(), Some("./data/storage"));
    assert!(matches!(p.database, DatabasePlan::Memory));
    assert_eq!(p.action_url.as_deref(), Some("http://mcp1"));
    assert_eq!(p.fqdn, "striem.example");
    assert_eq!(p.vector, "0.0.0.0:9001");
    assert_eq!(p.ui_path.as_deref(), Some("./ui/out"));
    c.api.data = Some("./db".to_string());
    c.api.ui = Some(UIConfig { enabled: false, path: Some("./ui/out".to_string()) });
    c.api.mcp = Some(MCPConfig { url: StringOrList::List(vec![]) });
    c.output = Some(Destination::Http(host(80, "http://collector")));
    let p = server_plan(&c);
    assert!(matches!(p.database, DatabasePlan::File(ref f) if f == "./db/striem.db"));
    assert!(p.action_url.is_none());
    assert!(p.ui_path.is_none());
    assert_eq!(p.vector, "");
}

#[test]
fn okta_source() {
    let cfg = OktaConfig::from_fields("acme.okta.com".to_string(), "SECRET-REDACTED".to_string(), Some(60), None, None);
    assert_eq!(cfg.source_type(), "okta");
    let o = Okta::new("0190-id".to_string(), cfg);
    assert_eq!(o.id(), "0190-id");
    assert_eq!(o.friendly_id(), "acme.okta.com");
    assert_eq!(o.sourcetype(), "okta");
    assert_eq!(o.logsource_vendor().as_deref(), Some("okta"));
    assert_eq!(o.logsource_product().as_deref(), Some("audit"));
    assert!(o.logsource_service().is_none());
    assert!(o.preprocess_transforms().is_none());
    assert_eq!(o.config().scrape_interval_secs, Some(60));
}

#[test]
fn cloudtrail_source() {
    let cfg = AwsCloudtrailConfig::from_fields(
        Some(AwsAuthentication::default()),
        SqsConfig { queue_url: "https://sqs.example/q".to_string() },
        Some("us-east-1".to_string()),
    );
    assert_eq!(cfg.source_type(), "aws_s3");
    assert!(cfg.decoding.codec.is_none());
    let a = AwsCloudtrail::new("abc".to_string(), cfg);
    assert_eq!(a.friendly_id(), "https://sqs.example/q");
    assert_eq!(a.sourcetype(), "aws_cloudtrail");
    assert!(a.logsource_vendor().is_none());
    assert_eq!(a.logsource_product().as_deref(), Some("aws"));
    assert_eq!(a.logsource_service().as_deref(), Some("cloudtrail"));
    let (t, last) = a.preprocess_transforms().unwrap();
    assert_eq!(last, "pre-aws_cloudtrail_abc");
    assert_eq!(t.len(), 1);
    assert_eq!(t[0].0, "pre-aws_cloudtrail_abc");
    let tr: &Transform = &t[0].1;
    assert_eq!(tr.inputs, vec!["source-aws_cloudtrail_abc".to_string()]);
    assert_eq!(tr.source.as_deref(), Some(". = .Records"));
    assert!(tr.file.is_none());
    assert!(matches!(a.config().auth, Some(AwsAuthentication::Default { imds: None, region: None })));
}

#[test]
fn schema_file_names() {
    assert_eq!(
        schema_file_name("/schema/1.4.0/events/iam/authentication.proto", "schema/1.4.0"),
        "/events/iam/authentication.proto"
    );
    assert_eq!(schema_file_name("/s/s/x", "s"), "/x");
    assert_eq!(schema_file_name("relative/x.proto", "schema"), "relative/x.proto");
    assert_eq!(trim_start_matching("abab-c", "ab"), "-c");
    assert_eq!(trim_start_matching("abc", ""), "abc");
}

#[test]
fn cloudtrail_config_defaults() {
    let c = AwsCloudtrailConfig::default();
    assert_eq!(c._type, "");
    assert!(c.auth.is_none());
    assert_eq!(c.sqs.queue_url, "");
    assert!(c.region.is_none());
    assert!(c.decoding.codec.is_none());
    assert_eq!(SqsConfig::default().queue_url, "");
}

fn toml_text(v: &TomlValue) -> Option<&str> {
    match v {
        TomlValue::Str(s) => Some(s.as_str()),
        _ => None,
    }
}

#[test]
fn source_documents_name_their_tables() {
    let t = Transform { inputs: vec!["source-aws_cloudtrail_abc".to_string()], source: Some(". = .Records".to_string()), file: None };
    let doc = source_document("aws_cloudtrail", "abc", TomlValue::Integer(1), Some(vec![("pre-aws_cloudtrail_abc".to_string(), t)]));
    assert_eq!(doc.len(), 2);
    assert_eq!(doc[0].0, "sources");
    match &doc[0].1 {
        TomlValue::Table(e) => {
            assert_eq!(e.len(), 1);
            assert_eq!(e[0].0, "source-aws_cloudtrail_abc");
            assert!(matches!(e[0].1, TomlValue::Integer(1)));
        }
        _ => panic!("sources is a table"),
    }
    assert_eq!(doc[1].0, "transforms");
    match &doc[1].1 {
        TomlValue::Table(e) => {
            assert_eq!(e.len(), 1);
            assert_eq!(e[0].0, "pre-aws_cloudtrail_abc");
            match &e[0].1 {
                TomlValue::Table(f) => {
                    let keys: Vec<&str> = f.iter().map(|(k, _)| k.as_str()).collect();
                    assert_eq!(keys, vec!["inputs", "source", "type"]);
                    assert_eq!(toml_text(&f[1].1), Some(". = .Records"));
                    assert_eq!(toml_text(&f[2].1), Some("remap"));
                }
                _ => panic!("a transform is a table"),
            }
        }
        _ => panic!("transforms is a table"),
    }
    let doc = source_document("okta", "x", TomlValue::Boolean(true), None);
    assert_eq!(doc.len(), 1);
}

#[test]
fn transform_tables_list_inputs_and_program_file() {
    let t = Transform { inputs: vec!["a".to_string(), "b".to_string()], source: None, file: Some("/r.vrl".to_string()) };
    match transform_table(&t) {
        TomlValue::Table(f) => {
            let keys: Vec<&str> = f.iter().map(|(k, _)| k.as_str()).collect();
            assert_eq!(keys, vec!["inputs", "file", "type"]);
            match &f[0].1 {
                TomlValue::Array(a) => {
                    assert_eq!(a.len(), 2);
                    assert_eq!(toml_text(&a[1]), Some("b"));
                }
                _ => panic!("inputs is an array"),
            }
            assert_eq!(toml_text(&f[1].1), Some("/r.vrl"));
        }
        _ => panic!("a transform is a table"),
    }
}
