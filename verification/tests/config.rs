use hyper_proxy::config::{env_bool, ConfigError, ConfigVars};
use hyper_proxy::{BackendScheme, BackendUrl, LoadBalancingMode, ProxyConfig};

fn vars() -> ConfigVars {
    ConfigVars {
        cert: Some("cert".to_string()),
        key: Some("key".to_string()),
        port: None,
        enable_h2: None,
        enable_h3: None,
        enable_websocket: None,
        mode: None,
    }
}

fn text(value: &str) -> Option<String> {
    Some(value.to_string())
}

#[test]
fn unset_variables_give_the_defaults() {
    let config = ProxyConfig::from_vars(vars()).unwrap();
    assert_eq!(config.cert_pem_base64, "cert");
    assert_eq!(config.key_pem_base64, "key");
    assert_eq!(config.port, 443);
    assert!(config.enable_h2 && config.enable_h3 && config.enable_websocket);
    assert_eq!(config.initial_mode, LoadBalancingMode::LeastConn);
    let copy = config.clone();
    assert_eq!(copy.cert_pem_base64, "cert");
    assert_eq!(copy.port, 443);
}

#[test]
fn set_variables_are_read() {
    let config = ProxyConfig::from_vars(ConfigVars {
        port: text("8443"),
        enable_h2: text("no"),
        enable_h3: text(" YES "),
        enable_websocket: text("0"),
        mode: text(" Queued\n"),
        ..vars()
    })
    .unwrap();
    assert_eq!(config.port, 8443);
    assert!(!config.enable_h2);
    assert!(config.enable_h3);
    assert!(!config.enable_websocket);
    assert_eq!(config.initial_mode, LoadBalancingMode::Queue);
}

#[test]
fn ports_that_are_no_numbers_give_the_default() {
    for (value, port) in [
        ("0", 0),
        ("+80", 80),
        ("00080", 80),
        ("65535", 65535),
        ("65536", 443),
        ("99999999999999999999", 443),
        ("", 443),
        ("+", 443),
        ("++1", 443),
        ("-1", 443),
        (" 80", 443),
        ("80a", 443),
        ("8_0", 443),
    ] {
        let config = ProxyConfig::from_vars(ConfigVars { port: text(value), ..vars() }).unwrap();
        assert_eq!(config.port, port, "{value}");
    }
}

#[test]
fn missing_certificate_comes_before_missing_key() {
    let err = ProxyConfig::from_vars(ConfigVars { cert: None, key: None, ..vars() }).unwrap_err();
    assert!(matches!(err, ConfigError::MissingCert));
    assert_eq!(
        err.message(),
        "TLS_CERT_BASE64 must contain the base64-encoded PEM certificate"
    );
    let err = ProxyConfig::from_vars(ConfigVars { key: None, mode: text("x"), ..vars() })
        .unwrap_err();
    assert!(matches!(err, ConfigError::MissingKey));
    assert_eq!(
        err.message(),
        "TLS_KEY_BASE64 must contain the base64-encoded PEM private key"
    );
}

#[test]
fn unsupported_mode_is_an_error() {
    let err = ProxyConfig::from_vars(ConfigVars { mode: text(" Random "), ..vars() }).unwrap_err();
    assert!(matches!(err, ConfigError::UnsupportedMode(_)));
    assert_eq!(err.message(), "unsupported load balancer: random");
}

#[test]
fn switches_are_on_for_three_words() {
    for value in ["1", "true", "yes", "TRUE", "\u{3000}Yes\t"] {
        assert!(env_bool(&text(value), false), "{value}");
    }
    for value in ["", "0", "on", "y", "11", "tru e"] {
        assert!(!env_bool(&text(value), true), "{value}");
    }
    assert!(env_bool(&None, true));
    assert!(!env_bool(&None, false));
}

#[test]
fn modes_have_names() {
    for mode in [LoadBalancingMode::LeastConn, LoadBalancingMode::Queue] {
        assert_eq!(LoadBalancingMode::from_str(mode.as_str()), Ok(mode));
    }
    assert_eq!(LoadBalancingMode::LeastConn.as_str(), "leastconn");
    assert_eq!(LoadBalancingMode::Queue.as_str(), "queue");
    for name in ["leastconn", "least_conn", "least", " LEAST\u{a0}", "LeastConn"] {
        assert_eq!(name.parse::<LoadBalancingMode>(), Ok(LoadBalancingMode::LeastConn));
    }
    for name in ["queue", "queued", "\u{2003}Queue\r\n"] {
        assert_eq!(name.parse::<LoadBalancingMode>(), Ok(LoadBalancingMode::Queue));
    }
    assert_eq!(
        "Round Robin".parse::<LoadBalancingMode>(),
        Err("unsupported load balancer: round robin".to_string())
    );
    // only ASCII letters are lowered, and a zero-width space is no white space
    assert_eq!(
        LoadBalancingMode::from_str("\u{200b}QUEUE\u{c4}"),
        Err("unsupported load balancer: \u{200b}queue\u{c4}".to_string())
    );
}

#[test]
fn schemes_have_names() {
    assert_eq!(BackendScheme::from_name("http"), Some(BackendScheme::Http));
    assert_eq!(BackendScheme::from_name("https"), Some(BackendScheme::Https));
    assert_eq!(BackendScheme::from_name("ws"), Some(BackendScheme::Ws));
    assert_eq!(BackendScheme::from_name("wss"), Some(BackendScheme::Wss));
    assert_eq!(BackendScheme::from_name("HTTP"), None);
    assert_eq!(BackendScheme::from_name(""), None);
    assert!(BackendScheme::Http.is_http() && BackendScheme::Https.is_http());
    assert!(!BackendScheme::Ws.is_http() && !BackendScheme::Wss.is_http());
    let url = BackendUrl::parse("WSS://Example.com").unwrap();
    assert_eq!(BackendScheme::from_url(&url), Some(BackendScheme::Wss));
    let url = BackendUrl::parse("mailto:someone@example.com").unwrap();
    assert_eq!(BackendScheme::from_url(&url), None);
}
