use loadsmith_oracle::conn::{
    build_descriptor, default_host, default_port, default_true, duration_fits, parse_duration,
    ConnectionConfig, DescriptorError, Duration, TlsConfig,
};

/// A config as the JSON `{"service_name": ..., "user": ..., "password": ...}`
/// deserializes: every other key takes its default.
fn cfg(service_name: Option<&str>, user: &str, password: &str) -> ConnectionConfig {
    ConnectionConfig {
        host: default_host(),
        port: default_port(),
        service_name: service_name.map(String::from),
        sid: None,
        user: user.to_string(),
        password: password.to_string(),
        tls: None,
        connect_timeout: None,
    }
}

fn tls(enabled: bool, wallet_dir: Option<&str>, server_dn_match: bool) -> TlsConfig {
    TlsConfig {
        enabled,
        wallet_dir: wallet_dir.map(String::from),
        server_dn_match,
        distinguished_name: None,
    }
}

#[test]
fn parse_duration_units() {
    assert_eq!(parse_duration("10s").unwrap(), Duration::from_secs(10));
    assert_eq!(parse_duration("500ms").unwrap(), Duration::from_millis(500));
    assert_eq!(parse_duration("2m").unwrap(), Duration::from_secs(120));
    assert!(parse_duration("100").is_err());
    assert!(parse_duration("10y").is_err());
}

#[test]
fn descriptor_plaintext_service() {
    let c = cfg(Some("FREEPDB1"), "lab", "lab");
    let d = build_descriptor(&c).unwrap();
    assert!(d.contains("(PROTOCOL=TCP)"));
    assert!(d.contains("(SERVICE_NAME=FREEPDB1)"));
    assert!(d.contains("(PORT=1521)"));
    assert!(!d.contains("SECURITY"));
    assert!(d.contains("(CONNECT_TIMEOUT=10)"));
}

#[test]
fn descriptor_requires_service_or_sid() {
    let c = cfg(None, "lab", "lab");
    assert!(build_descriptor(&c).is_err());
}

#[test]
fn descriptor_tls_uses_tcps_and_wallet() {
    let mut c = cfg(Some("FREEPDB1"), "lab", "lab");
    c.tls = Some(tls(true, Some("/wallet"), false));
    let d = build_descriptor(&c).unwrap();
    assert!(d.contains("(PROTOCOL=TCPS)"));
    assert!(d.contains("(MY_WALLET_DIRECTORY=/wallet)"));
    assert!(d.contains("(SSL_SERVER_DN_MATCH=no)"));
}

#[test]
fn defaults_of_missing_keys() {
    assert_eq!(default_host(), "localhost");
    assert_eq!(default_port(), 1521);
    assert!(default_true());
}

#[test]
fn parse_duration_all_units_and_spacing() {
    assert_eq!(parse_duration("3h").unwrap(), Duration::from_secs(10800));
    assert_eq!(parse_duration("1d").unwrap(), Duration::from_secs(86400));
    assert_eq!(parse_duration("  7 s\t").unwrap(), Duration::from_secs(7));
    assert_eq!(parse_duration("+5m").unwrap(), Duration::from_secs(300));
    assert_eq!(parse_duration("0ms").unwrap(), Duration::from_secs(0));
    assert_eq!(parse_duration("\u{3000}1500ms").unwrap(), Duration::from_millis(1500));
    let d = parse_duration("1500ms").unwrap();
    assert_eq!(d.as_secs(), 1);
    assert_eq!(d.subsec_nanos(), 500_000_000);
}

#[test]
fn parse_duration_rejects_malformed() {
    for bad in ["", "s", "ms", "-5s", "+s", "1.5s", "10 mss", "10sm", "s10", "18446744073709551616s"] {
        let e = parse_duration(bad).unwrap_err();
        assert_eq!(e.input, bad.trim());
    }
    let e = parse_duration("  10y ").unwrap_err();
    assert_eq!(
        e.message(),
        "invalid duration '10y': expected a number followed by ms/s/m/h/d (e.g. '10s', '500ms', '2h')"
    );
}

#[test]
fn duration_fits_tracks_overflow() {
    assert!(duration_fits("18446744073709551615s"));
    assert!(duration_fits("18446744073709551615ms"));
    assert!(!duration_fits("18446744073709551615m"));
    assert!(!duration_fits("5124095576030432h"));
    assert!(duration_fits("5124095576030431h"));
    assert!(duration_fits("307445734561825860m"));
    assert!(duration_fits("garbage"));
}

#[test]
fn descriptor_exact_text_plaintext_sid() {
    let mut c = cfg(None, "u", "p");
    c.sid = Some("ORCL".to_string());
    c.host = "db.example".to_string();
    c.port = 1522;
    c.connect_timeout = Some("500ms".to_string());
    assert_eq!(
        build_descriptor(&c).unwrap(),
        "(DESCRIPTION=(CONNECT_TIMEOUT=1)(ADDRESS=(PROTOCOL=TCP)(HOST=db.example)(PORT=1522))(CONNECT_DATA=(SID=ORCL)))"
    );
}

#[test]
fn descriptor_exact_text_tls_with_dn() {
    let mut c = cfg(Some("SVC"), "u", "p");
    c.sid = Some("IGNORED".to_string());
    c.connect_timeout = Some("2m".to_string());
    let mut t = tls(true, Some("/w"), true);
    t.distinguished_name = Some("CN=db".to_string());
    c.tls = Some(t);
    assert_eq!(
        build_descriptor(&c).unwrap(),
        "(DESCRIPTION=(CONNECT_TIMEOUT=120)(ADDRESS=(PROTOCOL=TCPS)(HOST=localhost)(PORT=1521))(CONNECT_DATA=(SERVICE_NAME=SVC))(SECURITY=(SSL_SERVER_DN_MATCH=yes)(SSL_SERVER_CERT_DN=\"CN=db\")(MY_WALLET_DIRECTORY=/w)))"
    );
}

#[test]
fn descriptor_disabled_tls_is_plaintext() {
    let mut c = cfg(Some("SVC"), "u", "p");
    c.tls = Some(tls(false, Some("/w"), true));
    let d = build_descriptor(&c).unwrap();
    assert!(d.contains("(PROTOCOL=TCP)"));
    assert!(!d.contains("SECURITY"));
}

#[test]
fn descriptor_errors() {
    let c = cfg(None, "u", "p");
    let e = build_descriptor(&c).unwrap_err();
    assert!(matches!(e, DescriptorError::MissingServiceOrSid));
    assert_eq!(e.message(), "oracle config requires either service_name or sid");
    let mut c = cfg(Some("S"), "u", "p");
    c.connect_timeout = Some("soon".to_string());
    let e = build_descriptor(&c).unwrap_err();
    assert!(matches!(&e, DescriptorError::InvalidConnectTimeout(d) if d.input == "soon"));
    assert!(e.message().starts_with("invalid connect_timeout: invalid duration 'soon'"));
}

#[test]
fn rendered_counts_read_back() {
    let max = u64::MAX.to_string();
    assert_eq!(parse_duration(&format!("{max}s")).unwrap(), Duration::from_secs(u64::MAX));
    assert_eq!(parse_duration(&format!("{max}ms")).unwrap(), Duration::from_millis(u64::MAX));
    assert_eq!(parse_duration("007m").unwrap(), Duration::from_secs(420));
}

#[test]
fn timeout_is_at_least_one_second() {
    let mut c = cfg(Some("S"), "u", "p");
    c.connect_timeout = Some("0ms".to_string());
    assert!(build_descriptor(&c).unwrap().contains("(CONNECT_TIMEOUT=1)"));
    c.connect_timeout = Some(" 1d ".to_string());
    assert!(build_descriptor(&c).unwrap().contains("(CONNECT_TIMEOUT=86400)"));
}

#[test]
fn parsed_durations_equal_constructed_ones() {
    assert_eq!(parse_duration("10s").unwrap(), Duration::from_secs(10));
    assert_eq!(parse_duration("1000ms").unwrap(), Duration::from_secs(1));
    assert_eq!(parse_duration("60s").unwrap(), parse_duration("1m").unwrap());
}

#[test]
fn session_pins_numeric_characters() {
    assert_eq!(
        loadsmith_oracle::conn::session_setup_sql(),
        "ALTER SESSION SET NLS_NUMERIC_CHARACTERS = '.,'"
    );
}
