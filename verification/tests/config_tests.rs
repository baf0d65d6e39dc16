use striem::config::api::{default_address, default_enabled, ApiConfig, MCPConfig, UIConfig};
use striem::config::input::Listener;
use striem::config::output::{Destination, VectorDestinationConfig};
use striem::config::storage::StorageConfig;
use striem::config::{
    ConfigError, HostConfig, StrIEMConfig, StrIEMConfigOptions, StringOrList, DEFAULT_API_LISTEN_PORT,
    DEFAULT_VECTOR_LISTEN_PORT,
};
use striem::net::{IpAddress, SocketAddress};
use striem::url::Url;

fn host(ip: [u8; 4], port: u16, url: &str) -> HostConfig {
    HostConfig { address: SocketAddress { ip: IpAddress::V4(ip), port, flowinfo: 0, scope_id: 0 }, url: Url::parse(url).unwrap() }
}

fn copy_host(h: &HostConfig) -> HostConfig {
    HostConfig { address: h.address, url: Url::parse(&h.url.to_text()).unwrap() }
}

fn options() -> StrIEMConfigOptions {
    StrIEMConfigOptions {
        db: ".".to_string(),
        detections: None,
        input: None,
        output: None,
        storage: None,
        api: None,
        fqdn: None,
    }
}

fn api(enabled: bool) -> ApiConfig {
    ApiConfig { enabled, address: "127.0.0.1:8080".to_string(), data: None, mcp: None, ui: None }
}

#[test]
fn address_port_implies_localhost_url_port() {
    let mut h = host([0, 0, 0, 0], 8080, "http://localhost");
    h.reconcile();
    assert_eq!(h.url.to_text(), "http://localhost:8080/");
    assert_eq!(h.address.port, 8080);
}

#[test]
fn loopback_ip_url_takes_address_port() {
    let mut h = host([0, 0, 0, 0], 3000, "http://127.0.0.1:9999/path");
    h.reconcile();
    assert_eq!(h.url.to_text(), "http://127.0.0.1:3000/path");
}

#[test]
fn external_url_is_never_changed() {
    let mut h = host([0, 0, 0, 0], 3000, "http://vector.example.com:9000");
    h.reconcile();
    assert_eq!(h.url.to_text(), "http://vector.example.com:9000/");
    assert_eq!(h.address.port, 3000);
}

#[test]
fn unset_port_is_taken_from_url() {
    let mut h = host([0, 0, 0, 0], 0, "http://vector.example.com:9000");
    h.reconcile();
    assert_eq!(h.address.port, 9000);
    assert_eq!(h.url.to_text(), "http://vector.example.com:9000/");
    let mut d = host([127, 0, 0, 1], 0, "http://localhost");
    d.reconcile();
    assert_eq!(d.address.port, 0);
    assert_eq!(d.url.to_text(), "http://localhost/");
}

#[test]
fn default_port_is_not_written_into_url() {
    let mut h = host([0, 0, 0, 0], 80, "http://localhost:1234");
    h.reconcile();
    assert_eq!(h.url.to_text(), "http://localhost/");
}

#[test]
fn host_config_default_and_set_port() {
    let h = HostConfig::default();
    assert!(matches!(h.address.ip, IpAddress::V4([127, 0, 0, 1])));
    assert_eq!(h.address.port, 0);
    assert_eq!(h.url.to_text(), "http://localhost/");
    let h = h.set_port(4000);
    assert_eq!(h.address.port, 4000);
    assert_eq!(h.url.to_text(), "http://localhost:4000/");
}

#[test]
fn listener_default_uses_vector_port() {
    let l = Listener::default();
    assert!(matches!(l, Listener::Vector(_)));
    assert_eq!(l.address().port, DEFAULT_VECTOR_LISTEN_PORT);
    assert_eq!(l.url(), format!("http://localhost:{}/", DEFAULT_VECTOR_LISTEN_PORT));
}

#[test]
fn listener_reconcile_keeps_kind() {
    let mut l = Listener::Http(host([0, 0, 0, 0], 3000, "http://localhost"));
    l.reconcile();
    assert!(matches!(l, Listener::Http(_)));
    assert_eq!(l.url(), "http://localhost:3000/");
}

#[test]
fn destination_default_and_reconcile() {
    match Destination::default() {
        Destination::Vector(v) => {
            assert_eq!(v.cfg.address.port, DEFAULT_VECTOR_LISTEN_PORT);
            assert!(v.hec.is_none() && v.http.is_none());
        }
        _ => panic!("default destination is Vector"),
    }
    let mut d = Destination::Vector(VectorDestinationConfig {
        cfg: host([0, 0, 0, 0], 0, "http://localhost:9100"),
        hec: Some(host([0, 0, 0, 0], 8088, "http://localhost")),
        http: None,
    });
    d.reconcile();
    match d {
        Destination::Vector(v) => {
            assert_eq!(v.cfg.address.port, 9100);
            // the HEC listener is not reconciled
            assert_eq!(v.hec.unwrap().url.to_text(), "http://localhost/");
        }
        _ => panic!("kind changed"),
    }
}

#[test]
fn api_defaults() {
    assert!(default_enabled());
    assert_eq!(default_address(), format!("127.0.0.1:{}", DEFAULT_API_LISTEN_PORT));
    let a = ApiConfig::default();
    assert!(!a.enabled);
    assert_eq!(a.address, "");
    assert!(a.data.is_none() && a.mcp.is_none() && a.ui.is_none());
    let u = UIConfig::default();
    assert!(!u.enabled && u.path.is_none());
}

#[test]
fn nothing_configured_is_refused() {
    let r = StrIEMConfig::from_yaml(options());
    assert!(matches!(r, Err(ConfigError::NothingToRun)));
    assert_eq!(
        ConfigError::NothingToRun.message(),
        "No output, storage, or API configured; StrIEM cannot run"
    );
    let mut o = options();
    o.api = Some(api(false));
    assert!(StrIEMConfig::check(&o).is_err());
}

#[test]
fn enabled_api_alone_is_enough() {
    let mut o = options();
    o.api = Some(api(true));
    let c = StrIEMConfig::new(o).unwrap();
    assert!(c.api.enabled);
    assert_eq!(c.input.address().port, DEFAULT_VECTOR_LISTEN_PORT);
    assert!(c.output.is_none());
}

#[test]
fn storage_alone_is_enough_and_api_defaults() {
    let mut o = options();
    o.storage = Some(StorageConfig { schema: "./schema".to_string(), path: "./data".to_string() });
    o.fqdn = Some("striem.example.com".to_string());
    o.detections = Some(StringOrList::List(vec!["./a".to_string(), "./b".to_string()]));
    let c = StrIEMConfig::from_file(o).unwrap();
    assert!(!c.api.enabled);
    assert_eq!(c.api.address, "");
    assert_eq!(c.storage.unwrap().path, "./data");
    assert_eq!(c.fqdn.as_deref(), Some("striem.example.com"));
    assert!(matches!(c.detections, Some(StringOrList::List(ref l)) if l.len() == 2));
}

#[test]
fn input_and_output_are_reconciled() {
    let mut o = options();
    o.input = Some(Listener::Vector(host([0, 0, 0, 0], 3000, "http://localhost")));
    o.output = Some(Destination::Http(host([0, 0, 0, 0], 0, "http://collector:7000")));
    o.api = Some(ApiConfig {
        enabled: true,
        address: "0.0.0.0:8080".to_string(),
        data: None,
        mcp: Some(MCPConfig { url: StringOrList::String("http://mcp".to_string()) }),
        ui: None,
    });
    let c = StrIEMConfig::from_yaml(o).unwrap();
    assert_eq!(c.input.url(), "http://localhost:3000/");
    match c.output {
        Some(Destination::Http(h)) => assert_eq!(h.address.port, 7000),
        _ => panic!("output kind changed"),
    }
}

#[test]
fn reconciling_twice_is_reconciling_once() {
    let cases = [
        host([0, 0, 0, 0], 8080, "http://localhost"),
        host([0, 0, 0, 0], 80, "http://localhost:9999/x?q=1"),
        host([0, 0, 0, 0], 0, "http://localhost:7000"),
        host([0, 0, 0, 0], 3000, "http://127.0.0.1:9999/path"),
        host([0, 0, 0, 0], 3000, "http://[::1]:9999/"),
        host([0, 0, 0, 0], 3000, "http://vector.example.com:9000"),
        host([0, 0, 0, 0], 0, "http://localhost"),
    ];
    for h in cases {
        let mut once = copy_host(&h);
        once.reconcile();
        let mut twice = copy_host(&once);
        twice.reconcile();
        assert_eq!(twice.url.to_text(), once.url.to_text());
        assert_eq!(twice.address.port, once.address.port);
    }
}

#[test]
fn reconcile_keeps_host_path_and_query() {
    let mut h = host([0, 0, 0, 0], 80, "http://localhost:9999/x?q=1");
    h.reconcile();
    assert_eq!(h.url.to_text(), "http://localhost/x?q=1");
    assert_eq!(h.url.host_str().as_deref(), Some("localhost"));
    assert_eq!(h.url.scheme(), "http");
    assert_eq!(h.url.path(), "/x");
    assert_eq!(h.url.query().as_deref(), Some("q=1"));
    assert_eq!(h.url.port(), None);
    assert_eq!(h.address.port, 80);
    let mut h = host([10, 1, 2, 3], 3000, "http://[::1]:9999/");
    h.reconcile();
    assert_eq!(h.url.to_text(), "http://[::1]:3000/");
    assert!(matches!(h.address.ip, IpAddress::V4([10, 1, 2, 3])));
}

#[test]
fn built_configuration_is_already_reconciled() {
    let mut o = options();
    o.input = Some(Listener::Http(host([0, 0, 0, 0], 3000, "http://localhost")));
    o.output = Some(Destination::Http(host([0, 0, 0, 0], 0, "http://localhost:9100")));
    let c = StrIEMConfig::from_yaml(o).unwrap();
    let mut i = match &c.input {
        Listener::Vector(h) => Listener::Vector(copy_host(h)),
        Listener::Http(h) => Listener::Http(copy_host(h)),
    };
    i.reconcile();
    assert_eq!(i.url(), c.input.url());
    assert_eq!(c.input.url(), "http://localhost:3000/");
    match &c.output {
        Some(Destination::Http(h)) => {
            assert_eq!(h.address.port, 9100);
            assert_eq!(h.url.to_text(), "http://localhost:9100/");
        }
        _ => panic!("expected an HTTP destination"),
    }
}

#[test]
fn constructors_agree_on_equal_options() {
    let make = || {
        let mut o = options();
        o.input = Some(Listener::Vector(host([0, 0, 0, 0], 3000, "http://localhost")));
        o.storage = Some(StorageConfig { schema: "./schema".to_string(), path: "./data".to_string() });
        o
    };
    let a = StrIEMConfig::new(make()).unwrap();
    let b = StrIEMConfig::from_file(make()).unwrap();
    let c = StrIEMConfig::from_yaml(make()).unwrap();
    for x in [&b, &c] {
        assert_eq!(x.input.url(), a.input.url());
        assert_eq!(x.input.address().port, a.input.address().port);
        assert_eq!(x.storage.as_ref().map(|s| s.path.clone()), a.storage.as_ref().map(|s| s.path.clone()));
        assert_eq!(x.api.enabled, a.api.enabled);
    }
    assert!(StrIEMConfig::new(options()).is_err());
    assert!(StrIEMConfig::from_file(options()).is_err());
    assert!(StrIEMConfig::from_yaml(options()).is_err());
}
