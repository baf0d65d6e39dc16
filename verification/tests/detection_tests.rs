use striem::assoc::assoc_lookup;
use striem::detection::{can_annotate, correlation_uid, detection_finding, detection_findings, raw_data_to_match};
use striem::rules::RuleSwitches;
use striem::event::Event;
use striem::json::JsonValue;

fn s(x: &str) -> JsonValue {
    JsonValue::Str(x.to_string())
}

fn obj(entries: Vec<(&str, JsonValue)>) -> JsonValue {
    JsonValue::Object(entries.into_iter().map(|(k, v)| (k.to_string(), v)).collect())
}

fn get<'a>(v: &'a JsonValue, k: &str) -> Option<&'a JsonValue> {
    v.get(&k.to_string())
}

fn text(v: Option<&JsonValue>) -> Option<String> {
    match v {
        Some(JsonValue::Str(x)) => Some(x.clone()),
        _ => None,
    }
}

fn event(data: JsonValue, metadata: Vec<(&str, JsonValue)>) -> Event {
    Event {
        id: "evt-1".to_string(),
        data,
        metadata: metadata.into_iter().map(|(k, v)| (k.to_string(), v)).collect(),
    }
}

#[test]
fn correlation_uid_prefers_metadata_uid() {
    let e = event(obj(vec![("metadata", obj(vec![("uid", s("abc"))]))]), vec![]);
    assert_eq!(correlation_uid(&e), "abc");
    let e = event(obj(vec![("metadata", obj(vec![("uid", JsonValue::PosInt(5))]))]), vec![]);
    assert_eq!(correlation_uid(&e), "evt-1");
    let e = event(JsonValue::Null, vec![]);
    assert_eq!(correlation_uid(&e), "evt-1");
}

#[test]
fn raw_data_is_used_only_for_ocsf_events() {
    let data = obj(vec![("raw_data", s("{\"a\":1}"))]);
    let e = event(data, vec![("ocsf", JsonValue::Bool(true))]);
    assert_eq!(raw_data_to_match(&e).as_deref(), Some("{\"a\":1}"));
    let e = event(obj(vec![("raw_data", s("x"))]), vec![]);
    assert!(raw_data_to_match(&e).is_none());
    let e = event(obj(vec![("raw_data", JsonValue::PosInt(1))]), vec![("ocsf", JsonValue::Null)]);
    assert!(raw_data_to_match(&e).is_none());
}

#[test]
fn finding_carries_event_identifiers() {
    let e = event(
        obj(vec![("metadata", obj(vec![("uid", s("orig-uid"))])), ("class_uid", JsonValue::PosInt(3002))]),
        vec![("logsource", obj(vec![("product", s("okta"))])), ("ocsf", JsonValue::Bool(false))],
    );
    let finding = obj(vec![
        ("class_uid", JsonValue::PosInt(2004)),
        ("metadata", obj(vec![("version", s("1.3.0")), ("uid", s("will be replaced"))])),
    ]);
    assert!(can_annotate(&finding));
    let f = detection_finding(&e, finding, "finding-1".to_string());
    assert_eq!(f.id, "finding-1");
    assert!(matches!(get(&f.data, "class_uid"), Some(JsonValue::PosInt(2004))));
    let m = get(&f.data, "metadata").unwrap();
    assert_eq!(text(get(m, "uid")).as_deref(), Some("evt-1"));
    assert_eq!(text(get(m, "correlation_uid")).as_deref(), Some("orig-uid"));
    assert_eq!(text(get(m, "version")).as_deref(), Some("1.3.0"));
    let p = get(m, "product").unwrap();
    assert_eq!(text(get(p, "vendor_name")).as_deref(), Some("StrIEM"));
    assert_eq!(text(get(p, "product_name")).as_deref(), Some("StrIEM"));
    let ocsf = assoc_lookup(&f.metadata, &"ocsf".to_string());
    assert!(matches!(ocsf, Some(JsonValue::Bool(true))));
    assert!(matches!(assoc_lookup(&f.metadata, &"striem".to_string()), Some(JsonValue::Bool(true))));
    let ls = assoc_lookup(&f.metadata, &"logsource".to_string()).unwrap();
    assert_eq!(text(get(ls, "product")).as_deref(), Some("okta"));
}

#[test]
fn finding_without_metadata_gets_one() {
    let e = event(JsonValue::Null, vec![]);
    let f = detection_finding(&e, JsonValue::Null, "id2".to_string());
    let m = get(&f.data, "metadata").unwrap();
    assert_eq!(text(get(m, "uid")).as_deref(), Some("evt-1"));
    assert_eq!(text(get(m, "correlation_uid")).as_deref(), Some("evt-1"));
}

#[test]
fn non_object_findings_cannot_be_annotated() {
    assert!(!can_annotate(&s("x")));
    assert!(!can_annotate(&obj(vec![("metadata", JsonValue::PosInt(1))])));
    assert!(can_annotate(&obj(vec![("metadata", JsonValue::Null)])));
}

#[test]
fn findings_follow_enabled_present_matches_in_order() {
    let e = event(obj(vec![("metadata", obj(vec![("uid", s("corr"))]))]), vec![("source", s("okta"))]);
    let mut sw = RuleSwitches::new();
    sw.set_enabled("r2", false);
    let matched = vec![
        ("r1".to_string(), Some(obj(vec![("title", s("one"))]))),
        ("r2".to_string(), Some(obj(vec![("title", s("two"))]))),
        ("gone".to_string(), None),
        ("r3".to_string(), Some(JsonValue::Null)),
    ];
    let ids = vec!["a".to_string(), "b".to_string(), "c".to_string(), "d".to_string()];
    let r = detection_findings(&e, matched, &sw, ids);
    assert_eq!(r.len(), 2);
    assert_eq!(r[0].id, "a");
    assert_eq!(text(get(&r[0].data, "title")).as_deref(), Some("one"));
    let m = get(&r[0].data, "metadata").unwrap();
    assert_eq!(text(get(m, "uid")).as_deref(), Some("evt-1"));
    assert_eq!(text(get(m, "correlation_uid")).as_deref(), Some("corr"));
    assert_eq!(r[1].id, "d");
    assert!(matches!(assoc_lookup(&r[1].metadata, &"striem".to_string()), Some(JsonValue::Bool(true))));
    assert!(matches!(assoc_lookup(&r[1].metadata, &"source".to_string()), Some(JsonValue::Str(x)) if x == "okta"));
    let none = detection_findings(&e, vec![], &sw, vec![]);
    assert!(none.is_empty());
}

#[test]
fn rule_switches_read_back_what_was_set() {
    let mut sw = RuleSwitches::new();
    assert!(sw.is_enabled("x"));
    sw.set_enabled("x", false);
    sw.set_enabled("x", false);
    sw.set_enabled("y", false);
    assert!(!sw.is_enabled("x"));
    assert!(!sw.is_enabled("y"));
    sw.set_enabled("x", true);
    assert!(sw.is_enabled("x"));
    assert!(!sw.is_enabled("y"));
    sw.set_enabled("z", true);
    assert!(sw.is_enabled("z"));
}
