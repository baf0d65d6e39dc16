use striem::net::{IpAddress, SocketAddress};
use striem::text::{contains_ascii_ci, decimal_text, trim_end_matching};
use striem::url::Url;

#[test]
fn decimal_text_renders_numbers() {
    assert_eq!(decimal_text(0), "0");
    assert_eq!(decimal_text(7), "7");
    assert_eq!(decimal_text(10), "10");
    assert_eq!(decimal_text(18446744073709551615), "18446744073709551615");
}

#[test]
fn contains_ascii_ci_ignores_case() {
    assert!(contains_ascii_ci("SELECT * FROM t LiMiT 5", "limit"));
    assert!(!contains_ascii_ci("SELECT * FROM t", "limit"));
    assert!(!contains_ascii_ci("lim", "limit"));
    assert!(contains_ascii_ci("limit", "limit"));
}

#[test]
fn trim_end_matching_drops_trailing_chars_only() {
    assert_eq!(trim_end_matching("a;b;;;", ';'), "a;b");
    assert_eq!(trim_end_matching(";;", ';'), "");
    assert_eq!(trim_end_matching("x; ", ';'), "x; ");
}

#[test]
fn socket_text_matches_std_display() {
    let cases = vec![
        (SocketAddress { ip: IpAddress::V4([127, 0, 0, 1]), port: 0, flowinfo: 0, scope_id: 0 }, "127.0.0.1:0"),
        (SocketAddress { ip: IpAddress::V4([0, 0, 0, 0]), port: 9000, flowinfo: 0, scope_id: 0 }, "0.0.0.0:9000"),
        (SocketAddress { ip: IpAddress::V4([255, 10, 1, 200]), port: 65535, flowinfo: 0, scope_id: 0 }, "255.10.1.200:65535"),
        (SocketAddress { ip: IpAddress::V6([0, 0, 0, 0, 0, 0, 0, 0]), port: 80, flowinfo: 0, scope_id: 0 }, "[::]:80"),
        (SocketAddress { ip: IpAddress::V6([0, 0, 0, 0, 0, 0, 0, 1]), port: 3000, flowinfo: 0, scope_id: 0 }, "[::1]:3000"),
        (SocketAddress { ip: IpAddress::V6([0x2001, 0xdb8, 0, 0, 1, 0, 0, 1]), port: 1, flowinfo: 0, scope_id: 0 }, "[2001:db8::1:0:0:1]:1"),
        (SocketAddress { ip: IpAddress::V6([0x2001, 0xdb8, 0, 1, 0, 0, 0, 1]), port: 1, flowinfo: 0, scope_id: 0 }, "[2001:db8:0:1::1]:1"),
        (SocketAddress { ip: IpAddress::V6([1, 0, 2, 0, 3, 0, 4, 0]), port: 8, flowinfo: 0, scope_id: 0 }, "[1:0:2:0:3:0:4:0]:8"),
        (SocketAddress { ip: IpAddress::V6([0, 0, 0, 0, 0, 0xffff, 0xc0a8, 0x0101]), port: 22, flowinfo: 0, scope_id: 0 }, "[::ffff:192.168.1.1]:22"),
        (SocketAddress { ip: IpAddress::V6([0xfe80, 0, 0, 0, 0xabcd, 0xef01, 0x2345, 0x6789]), port: 443, flowinfo: 0, scope_id: 0 }, "[fe80::abcd:ef01:2345:6789]:443"),
        (SocketAddress { ip: IpAddress::V6([0xffff, 0xffff, 0xffff, 0xffff, 0xffff, 0xffff, 0xffff, 0xffff]), port: 5, flowinfo: 0, scope_id: 0 }, "[ffff:ffff:ffff:ffff:ffff:ffff:ffff:ffff]:5"),
        (SocketAddress { ip: IpAddress::V6([0, 0, 1, 0, 0, 0, 0, 0]), port: 5, flowinfo: 0, scope_id: 0 }, "[0:0:1::]:5"),
        (SocketAddress { ip: IpAddress::V6([0xfe80, 0, 0, 0, 0, 0, 0, 1]), port: 3000, flowinfo: 7, scope_id: 2 }, "[fe80::1%2]:3000"),
        (SocketAddress { ip: IpAddress::V4([10, 0, 0, 1]), port: 80, flowinfo: 0, scope_id: 0 }, "10.0.0.1:80"),
    ];
    for (a, expected) in &cases {
        assert_eq!(a.to_text(), *expected);
    }
}

#[test]
fn loopback_addresses() {
    assert!(IpAddress::V4([127, 0, 0, 1]).is_loopback());
    assert!(IpAddress::V4([127, 9, 9, 9]).is_loopback());
    assert!(!IpAddress::V4([10, 0, 0, 1]).is_loopback());
    assert!(IpAddress::V6([0, 0, 0, 0, 0, 0, 0, 1]).is_loopback());
    assert!(!IpAddress::V6([0, 0, 0, 0, 0, 0, 0, 0]).is_loopback());
}

#[test]
fn url_questions_are_answered_by_the_url_crate() {
    let u = Url::parse("http://localhost").unwrap();
    assert_eq!(u.to_text(), "http://localhost/");
    assert_eq!(u.port(), None);
    assert_eq!(u.host_str().as_deref(), Some("localhost"));
    assert!(u.host_ip().is_none());
    assert_eq!(u.with_port(3000).unwrap().to_text(), "http://localhost:3000/");
    // the scheme's default port is not written
    assert_eq!(u.with_port(80).unwrap().to_text(), "http://localhost/");
    let v = Url::parse("http://127.0.0.1:8080/x").unwrap();
    assert_eq!(v.port(), Some(8080));
    assert!(matches!(v.host_ip(), Some(IpAddress::V4([127, 0, 0, 1]))));
    assert!(Url::parse("not a url").is_none());
    let m = Url::parse("mailto:someone@example.com").unwrap();
    assert!(m.with_port(1).is_none());
    assert_eq!(Url::localhost().to_text(), "http://localhost/");
    assert_eq!(u.to_text(), "http://localhost/");
}

#[test]
fn url_parts() {
    let u = Url::parse("https://Example.COM:8443/a/b?x=1&y=2#frag").unwrap();
    assert_eq!(u.scheme(), "https");
    assert_eq!(u.path(), "/a/b");
    assert_eq!(u.query().as_deref(), Some("x=1&y=2"));
    let v = u.with_port(9000).unwrap();
    assert_eq!(v.to_text(), "https://example.com:9000/a/b?x=1&y=2#frag");
    assert_eq!(v.scheme(), "https");
    assert_eq!(v.path(), "/a/b");
    assert_eq!(v.query().as_deref(), Some("x=1&y=2"));
    assert_eq!(v.port(), Some(9000));
    let w = u.with_port(443).unwrap();
    assert_eq!(w.port(), None);
    assert!(Url::parse("http://localhost").unwrap().query().is_none());
}
