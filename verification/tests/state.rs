use hyper_proxy::pool::Acquisition;
use hyper_proxy::{BackendScheme, BackendUrl, LoadBalancingMode, ProxyState};

fn url(text: &str) -> BackendUrl {
    BackendUrl::parse(text).unwrap()
}

#[test]
fn add_backend_rejects_invalid_scheme() {
    let mut state = ProxyState::new(LoadBalancingMode::LeastConn);
    let err = state.add_backend(url("ftp://example.com"), None).unwrap_err();
    assert!(err.contains("unsupported backend scheme"));
    assert_eq!(err, "unsupported backend scheme: ftp");
    let (http, ws) = state.list_backends();
    assert!(http.is_empty() && ws.is_empty());
}

#[test]
fn add_backend_rejects_zero_max_connections() {
    let mut state = ProxyState::new(LoadBalancingMode::LeastConn);
    let err = state.add_backend(url("https://example.com"), Some(0)).unwrap_err();
    assert!(err.contains("max_connections must be > 0"));
    let (http, ws) = state.list_backends();
    assert!(http.is_empty() && ws.is_empty());
}

#[test]
fn invalid_scheme_is_reported_before_the_limit() {
    let mut state = ProxyState::new(LoadBalancingMode::LeastConn);
    let err = state.add_backend(url("ftp://example.com"), Some(0)).unwrap_err();
    assert_eq!(err, "unsupported backend scheme: ftp");
}

#[test]
fn list_backends_separates_http_and_ws() {
    let mut state = ProxyState::new(LoadBalancingMode::LeastConn);
    state.add_backend(url("https://example.com"), None).unwrap();
    state.add_backend(url("wss://example.com"), None).unwrap();

    let (http, ws) = state.list_backends();
    assert_eq!(http.len(), 1);
    assert_eq!(ws.len(), 1);
    assert_eq!(http[0].scheme, BackendScheme::Https);
    assert_eq!(ws[0].scheme, BackendScheme::Wss);
}

#[test]
fn added_backends_get_different_random_ids() {
    let mut state = ProxyState::new(LoadBalancingMode::LeastConn);
    let a = state.add_backend(url("http://a.example"), Some(3)).unwrap();
    let b = state.add_backend(url("http://a.example"), Some(3)).unwrap();
    assert_ne!(a.id, b.id);
    for id in [&a.id, &b.id] {
        let chars: Vec<char> = id.chars().collect();
        assert_eq!(chars.len(), 36);
        for (i, c) in chars.iter().enumerate() {
            if [8, 13, 18, 23].contains(&i) {
                assert_eq!(*c, '-');
            } else {
                assert!(c.is_ascii_digit() || ('a'..='f').contains(c));
            }
        }
        assert_eq!(chars[14], '4');
        assert!("89ab".contains(chars[19]));
    }
    assert_eq!(a.url.as_str(), "http://a.example/");
    assert_eq!(a.max_connections, Some(3));
    assert_eq!(a.active_connections, 0);
}

#[test]
fn given_id_is_kept() {
    let mut state = ProxyState::new(LoadBalancingMode::Queue);
    let view = state
        .add_backend_with_id("one".to_string(), url("ws://a.example"), None)
        .unwrap();
    assert_eq!(view.id, "one");
    assert_eq!(view.scheme, BackendScheme::Ws);
    let (http, ws) = state.list_backends();
    assert!(http.is_empty());
    assert_eq!(ws[0].id, "one");
}

#[test]
fn remove_backend_searches_both_pools() {
    let mut state = ProxyState::new(LoadBalancingMode::LeastConn);
    state.add_backend_with_id("h".to_string(), url("http://a.example"), None).unwrap();
    state.add_backend_with_id("w".to_string(), url("ws://a.example"), None).unwrap();

    assert!(state.remove_backend("x").is_none());
    assert_eq!(state.remove_backend("w").unwrap().id, "w");
    assert_eq!(state.remove_backend("h").unwrap().scheme, BackendScheme::Http);
    assert!(state.remove_backend("h").is_none());
    let (http, ws) = state.list_backends();
    assert!(http.is_empty() && ws.is_empty());
}

#[test]
fn equal_ids_are_removed_from_the_http_pool_first() {
    let mut state = ProxyState::new(LoadBalancingMode::LeastConn);
    state.add_backend_with_id("x".to_string(), url("ws://a.example"), None).unwrap();
    state.add_backend_with_id("x".to_string(), url("http://a.example"), None).unwrap();
    assert_eq!(state.remove_backend("x").unwrap().scheme, BackendScheme::Http);
    assert_eq!(state.remove_backend("x").unwrap().scheme, BackendScheme::Ws);
}

#[test]
fn mode_can_be_changed() {
    let mut state = ProxyState::new(LoadBalancingMode::LeastConn);
    assert_eq!(state.mode(), LoadBalancingMode::LeastConn);
    state.set_mode(LoadBalancingMode::Queue);
    assert_eq!(state.mode(), LoadBalancingMode::Queue);
}

#[test]
fn pools_are_acquired_and_released_apart() {
    let mut state = ProxyState::new(LoadBalancingMode::Queue);
    assert!(matches!(state.acquire_http(), Acquisition::Unavailable));
    state.add_backend_with_id("h".to_string(), url("http://a.example"), Some(1)).unwrap();
    state.add_backend_with_id("w".to_string(), url("wss://a.example"), Some(1)).unwrap();

    assert!(matches!(state.acquire_http(), Acquisition::Leased(_)));
    assert!(matches!(state.acquire_http(), Acquisition::Wait));
    assert!(matches!(state.acquire_ws(), Acquisition::Leased(_)));
    assert!(matches!(state.acquire_ws(), Acquisition::Wait));

    // the other pool does not know the id
    state.release_ws("h");
    assert!(matches!(state.acquire_ws(), Acquisition::Wait));
    state.release_http("h");
    let (http, ws) = state.list_backends();
    assert_eq!(http[0].active_connections, 0);
    assert_eq!(ws[0].active_connections, 1);
    assert!(matches!(state.acquire_http(), Acquisition::Leased(_)));
    state.release_ws("w");
    assert!(matches!(state.acquire_ws(), Acquisition::Leased(_)));

    state.set_mode(LoadBalancingMode::LeastConn);
    assert!(matches!(state.acquire_http(), Acquisition::Unavailable));
}

#[test]
fn requests_that_wait_go_on_waiting_when_the_mode_changes() {
    let mut state = ProxyState::new(LoadBalancingMode::Queue);
    state.add_backend_with_id("h".to_string(), url("http://a.example"), Some(1)).unwrap();
    state.add_backend_with_id("w".to_string(), url("ws://a.example"), Some(1)).unwrap();
    assert!(matches!(state.acquire_http(), Acquisition::Leased(_)));
    assert!(matches!(state.acquire_ws(), Acquisition::Leased(_)));
    assert!(matches!(state.acquire_http(), Acquisition::Wait));
    assert!(matches!(state.acquire_ws(), Acquisition::Wait));

    state.set_mode(LoadBalancingMode::LeastConn);
    assert!(matches!(state.retry_http(), Acquisition::Wait));
    assert!(matches!(state.retry_ws(), Acquisition::Wait));
    state.release_http("h");
    match state.retry_http() {
        Acquisition::Leased(lease) => assert_eq!(lease.backend_id(), "h"),
        other => panic!("no lease: {other:?}"),
    }
    state.remove_backend("w");
    assert!(matches!(state.retry_ws(), Acquisition::Unavailable));
}

#[test]
fn leased_backends_speak_the_protocol() {
    let mut state = ProxyState::new(LoadBalancingMode::LeastConn);
    for text in ["ws://a.example", "https://a.example", "wss://a.example", "http://a.example"] {
        state.add_backend(url(text), None).unwrap();
    }
    for _ in 0..4 {
        match (state.acquire_http(), state.acquire_ws()) {
            (Acquisition::Leased(http), Acquisition::Leased(ws)) => {
                assert!(http.backend().scheme.is_http());
                assert!(!ws.backend().scheme.is_http());
            }
            other => panic!("no leases: {other:?}"),
        }
    }
}

#[test]
fn listing_holds_what_was_added_and_not_removed() {
    let mut state = ProxyState::new(LoadBalancingMode::Queue);
    for (id, text) in [
        ("1", "http://a.example"),
        ("2", "ws://a.example"),
        ("3", "https://a.example"),
        ("4", "http://b.example"),
        ("5", "wss://a.example"),
    ] {
        state.add_backend_with_id(id.to_string(), url(text), None).unwrap();
    }
    state.add_backend_with_id("6".to_string(), url("ftp://a.example"), None).unwrap_err();
    state.acquire_http();
    state.remove_backend("3");
    state.remove_backend("2");
    state.remove_backend("3");
    state.release_http("1");
    state.add_backend_with_id("7".to_string(), url("http://c.example"), None).unwrap();

    let (http, ws) = state.list_backends();
    let ids: Vec<&str> = http.iter().map(|view| view.id.as_str()).collect();
    assert_eq!(ids, vec!["1", "4", "7"]);
    let ids: Vec<&str> = ws.iter().map(|view| view.id.as_str()).collect();
    assert_eq!(ids, vec!["5"]);
}

#[test]
fn listing_loses_the_first_of_equal_ids() {
    let mut state = ProxyState::new(LoadBalancingMode::Queue);
    for text in ["ws://a.example", "http://a.example", "http://b.example", "http://c.example"] {
        let id = if text == "http://b.example" { "y" } else { "x" };
        state.add_backend_with_id(id.to_string(), url(text), None).unwrap();
    }
    let hosts = |state: &ProxyState| -> Vec<String> {
        let (http, ws) = state.list_backends();
        http.iter().chain(ws.iter()).map(|view| view.url.as_str().to_string()).collect()
    };
    state.remove_backend("x");
    assert_eq!(hosts(&state), vec!["http://b.example/", "http://c.example/", "ws://a.example/"]);
    state.remove_backend("x");
    assert_eq!(hosts(&state), vec!["http://b.example/", "ws://a.example/"]);
    state.remove_backend("x");
    assert_eq!(hosts(&state), vec!["http://b.example/"]);
}
