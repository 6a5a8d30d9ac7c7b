use surevoucher_webcore::config::{
    bind_addr, health_bind_addr, health_host, health_port, resolve_config, AppConfig, ConfigLayer,
    TlsSettings,
};
use surevoucher_webcore::errors::{ConfigError, ServerError};
use surevoucher_webcore::parse::{parse_host, parse_ipv4, parse_u16, HostAddr};

fn v4(o1: u8, o2: u8, o3: u8, o4: u8) -> HostAddr {
    HostAddr::V4 { o1, o2, o3, o4 }
}

fn v6(g: [u16; 8]) -> HostAddr {
    v6s(g, 0)
}

fn v6s(g: [u16; 8], scope: u32) -> HostAddr {
    HostAddr::V6 {
        g1: g[0],
        g2: g[1],
        g3: g[2],
        g4: g[3],
        g5: g[4],
        g6: g[5],
        g7: g[6],
        g8: g[7],
        scope,
    }
}

fn layer(
    host: Option<&str>,
    port: Option<&str>,
    tls_cert: Option<&str>,
    tls_key: Option<&str>,
) -> ConfigLayer {
    ConfigLayer {
        host: host.map(|s| s.to_string()),
        port: port.map(|s| s.to_string()),
        tls_cert: tls_cert.map(|s| s.to_string()),
        tls_key: tls_key.map(|s| s.to_string()),
    }
}

fn empty_layer() -> ConfigLayer {
    layer(None, None, None, None)
}

#[test]
fn port_parses_plain_numbers() {
    assert_eq!(parse_u16("8080"), Some(8080));
    assert_eq!(parse_u16("0"), Some(0));
    assert_eq!(parse_u16("65535"), Some(65535));
    assert_eq!(parse_u16("007"), Some(7));
}

#[test]
fn port_rejects_out_of_range_and_garbage() {
    assert_eq!(parse_u16("65536"), None);
    assert_eq!(parse_u16("99999999999999999999"), None);
    assert_eq!(parse_u16(""), None);
    assert_eq!(parse_u16("12a"), None);
    assert_eq!(parse_u16("-1"), None);
    assert_eq!(parse_u16(" 80"), None);
}

#[test]
fn ipv4_parses_dotted_quads() {
    assert_eq!(parse_ipv4("127.0.0.1"), Some(v4(127, 0, 0, 1)));
    assert_eq!(parse_ipv4("0.0.0.0"), Some(v4(0, 0, 0, 0)));
    assert_eq!(parse_ipv4("255.255.255.255"), Some(v4(255, 255, 255, 255)));
}

#[test]
fn ipv6_hosts_parse_in_brackets() {
    assert_eq!(parse_host("[::1]"), Some(v6([0, 0, 0, 0, 0, 0, 0, 1])));
    assert_eq!(parse_host("[::]"), Some(v6([0; 8])));
    assert_eq!(parse_host("[1:2:3:4:5:6:7:8]"), Some(v6([1, 2, 3, 4, 5, 6, 7, 8])));
    assert_eq!(
        parse_host("[2001:db8::8:800:200c:417a]"),
        Some(v6([0x2001, 0xdb8, 0, 0, 0x8, 0x800, 0x200c, 0x417a]))
    );
    assert_eq!(parse_host("[fe80::]"), Some(v6([0xfe80, 0, 0, 0, 0, 0, 0, 0])));
    assert_eq!(parse_host("[1:2:3:4:5:6:7::]"), Some(v6([1, 2, 3, 4, 5, 6, 7, 0])));
    assert_eq!(parse_host("127.0.0.1"), Some(v4(127, 0, 0, 1)));
}

#[test]
fn ipv6_embedded_quad_tails_parse() {
    assert_eq!(
        parse_host("[::ffff:127.0.0.1]"),
        Some(v6([0, 0, 0, 0, 0, 0xffff, 0x7f00, 0x0001]))
    );
    assert_eq!(
        parse_host("[1:2:3:4:5:6:7.8.9.10]"),
        Some(v6([1, 2, 3, 4, 5, 6, 0x0708, 0x090a]))
    );
    assert_eq!(parse_host("[::1.2.3.4]"), Some(v6([0, 0, 0, 0, 0, 0, 0x0102, 0x0304])));
    assert!(parse_host("[1.2.3.4]").is_none());
    assert!(parse_host("[1.2.3.4::1]").is_none());
    assert!(parse_host("[::ffff:1.2.3.256]").is_none());
    assert!(parse_host("[1:2:3:4:5:6:7:1.2.3.4]").is_none());
}

#[test]
fn ipv6_zone_suffixes_parse() {
    assert_eq!(parse_host("[fe80::1%3]"), Some(v6s([0xfe80, 0, 0, 0, 0, 0, 0, 1], 3)));
    assert_eq!(parse_host("[fe80::1%00]"), Some(v6s([0xfe80, 0, 0, 0, 0, 0, 0, 1], 0)));
    assert_eq!(parse_host("[::1]"), Some(v6s([0, 0, 0, 0, 0, 0, 0, 1], 0)));
    assert!(parse_host("[fe80::1%]").is_none());
    assert!(parse_host("[fe80::1%eth0]").is_none());
    assert!(parse_host("[fe80::1%4294967296]").is_none());
    assert!(parse_host("[%3]").is_none());
}

#[test]
fn ipv6_rejects_malformed_hosts() {
    assert!(parse_host("::1").is_none());
    assert!(parse_host("[::1").is_none());
    assert!(parse_host("::1]").is_none());
    assert!(parse_host("[1::2::3]").is_none());
    assert!(parse_host("[1:2:3:4:5:6:7]").is_none());
    assert!(parse_host("[1:2:3:4:5:6:7:8:9]").is_none());
    assert!(parse_host("[1:2:3:4:5:6:7:8::]").is_none());
    assert!(parse_host("[::1:2:3:4:5:6:7:8]").is_none());
    assert!(parse_host("[12345::]").is_none());
    assert!(parse_host("[g::1]").is_none());
    assert!(parse_host("[:1:2:3]").is_none());
    assert!(parse_host("[1:2:]").is_none());
    assert!(parse_host("[]").is_none());
}

#[test]
fn ipv4_rejects_malformed_hosts() {
    assert!(parse_ipv4("localhost").is_none());
    assert!(parse_ipv4("256.1.1.1").is_none());
    assert!(parse_ipv4("01.2.3.4").is_none());
    assert!(parse_ipv4("1.2.3").is_none());
    assert!(parse_ipv4("1.2.3.4.5").is_none());
    assert!(parse_ipv4("1..2.3").is_none());
    assert!(parse_ipv4("").is_none());
    assert!(parse_ipv4("1.2.3.").is_none());
}

#[test]
fn config_defaults_alone_resolve() {
    let defaults = layer(Some("0.0.0.0"), Some("8080"), None, None);
    let cfg = resolve_config(&defaults, &empty_layer(), &empty_layer()).unwrap();
    assert_eq!(cfg.host, "0.0.0.0");
    assert_eq!(cfg.port, 8080);
    assert!(cfg.tls.is_none());
}

#[test]
fn config_env_wins_over_file_and_defaults() {
    let defaults = layer(Some("0.0.0.0"), Some("8080"), None, None);
    let file = layer(Some("10.0.0.1"), Some("9000"), None, None);
    let env = layer(Some("127.0.0.1"), None, None, None);
    let cfg = resolve_config(&defaults, &file, &env).unwrap();
    assert_eq!(cfg.host, "127.0.0.1");
    assert_eq!(cfg.port, 9000);
}

#[test]
fn config_missing_fields_are_reported() {
    let err = resolve_config(&empty_layer(), &empty_layer(), &empty_layer()).unwrap_err();
    assert_eq!(err, ConfigError::MissingHost);
    let only_host = layer(Some("127.0.0.1"), None, None, None);
    let err = resolve_config(&only_host, &empty_layer(), &empty_layer()).unwrap_err();
    assert_eq!(err, ConfigError::MissingPort);
    let bad_port = layer(Some("127.0.0.1"), Some("http"), None, None);
    let err = resolve_config(&bad_port, &empty_layer(), &empty_layer()).unwrap_err();
    assert_eq!(err, ConfigError::MalformedPort);
}

#[test]
fn config_tls_needs_both_paths() {
    let both = layer(Some("127.0.0.1"), Some("443"), Some("c.pem"), Some("k.pem"));
    let cfg = resolve_config(&both, &empty_layer(), &empty_layer()).unwrap();
    let tls = cfg.tls.unwrap();
    assert_eq!(tls.cert_path, "c.pem");
    assert_eq!(tls.key_path, "k.pem");

    let cert_only = layer(Some("127.0.0.1"), Some("443"), Some("c.pem"), None);
    let cfg = resolve_config(&cert_only, &empty_layer(), &empty_layer()).unwrap();
    assert!(cfg.tls.is_none());
}

#[test]
fn health_address_defaults() {
    assert_eq!(health_host(None), "127.0.0.1");
    assert_eq!(health_host(Some("0.0.0.0".to_string())), "0.0.0.0");
    assert_eq!(health_port(None), 18080);
    assert_eq!(health_port(Some("18081")), 18081);
    assert_eq!(health_port(Some("not a port")), 18080);
    assert_eq!(health_port(Some("70000")), 18080);
}

#[test]
fn health_address_is_validated() {
    let a = health_bind_addr(None, None).unwrap();
    assert_eq!(a.host, v4(127, 0, 0, 1));
    assert_eq!(a.port, 18080);

    let b = health_bind_addr(Some("0.0.0.0".to_string()), Some("9100")).unwrap();
    assert_eq!(b.host, v4(0, 0, 0, 0));
    assert_eq!(b.port, 9100);

    let c = health_bind_addr(Some("[::1]".to_string()), None).unwrap();
    assert_eq!(c.host, v6([0, 0, 0, 0, 0, 0, 0, 1]));

    let d = health_bind_addr(Some("127.0.0.1".to_string()), Some("not a port")).unwrap();
    assert_eq!(d.port, 18080);

    let err = health_bind_addr(Some("localhost".to_string()), None).unwrap_err();
    assert_eq!(err, ServerError::AddressParse);
}

#[test]
fn bind_addr_validates_host() {
    let cfg = AppConfig { host: "127.0.0.1".to_string(), port: 8080, tls: None };
    let addr = bind_addr(&cfg).unwrap();
    assert_eq!(addr.host, v4(127, 0, 0, 1));
    assert_eq!(addr.port, 8080);

    let cfg6 = AppConfig { host: "[::1]".to_string(), port: 9090, tls: None };
    let addr6 = bind_addr(&cfg6).unwrap();
    assert_eq!(addr6.host, v6([0, 0, 0, 0, 0, 0, 0, 1]));
    assert_eq!(addr6.port, 9090);

    let bad = AppConfig { host: "example.com".to_string(), port: 8080, tls: None };
    assert_eq!(bind_addr(&bad).unwrap_err(), ServerError::AddressParse);

    let with_tls = AppConfig {
        host: "0.0.0.0".to_string(),
        port: 443,
        tls: Some(TlsSettings {
            cert_path: "c.pem".to_string(),
            key_path: "k.pem".to_string(),
        }),
    };
    assert!(bind_addr(&with_tls).is_ok());
}
