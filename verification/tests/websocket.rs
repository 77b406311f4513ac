use http::header::HeaderMap;
use hyper_proxy::pool::{Acquisition, BackendLease};
use hyper_proxy::proxy::{HeaderError, ProxyRequest};
use hyper_proxy::websocket::{
    host_of, proxy_websocket, relay_step, websocket_request, RelayAction, RelayEvent, RelaySide,
    WebSocketError,
};
use hyper_proxy::{BackendUrl, LoadBalancingMode, ProxyState};
use tokio_tungstenite::tungstenite::handshake::client::{generate_request, Request};

fn lease(url: &str) -> BackendLease {
    let mut state = ProxyState::new(LoadBalancingMode::Queue);
    state.add_backend(BackendUrl::parse(url).unwrap(), None).unwrap();
    match state.acquire_ws() {
        Acquisition::Leased(lease) => lease,
        other => panic!("no lease: {other:?}"),
    }
}

fn request(path: &str, request_id: Option<&str>) -> ProxyRequest {
    ProxyRequest {
        method: "GET".to_string(),
        path: path.to_string(),
        query: Some("q".to_string()),
        headers: HeaderMap::new(),
        request_id: request_id.map(|id| id.to_string()),
    }
}

#[test]
fn handshake_is_accepted_by_the_client() {
    let made = proxy_websocket(Some(&lease("ws://u@back.example:9000/base")), &request("/chat", Some("id")))
        .unwrap();
    assert_eq!(made.url, "ws://u@back.example:9000/base/chat?q");
    assert_eq!(made.method(), "GET");
    assert_eq!(made.headers.len(), 6);
    assert_eq!(made.headers["host"], "back.example:9000");
    assert_eq!(made.headers["connection"], "Upgrade");
    assert_eq!(made.headers["upgrade"], "websocket");
    assert_eq!(made.headers["sec-websocket-version"], "13");
    assert_eq!(made.headers["x-request-id"], "id");

    let mut handshake = Request::new(());
    *handshake.uri_mut() = made.url.parse().unwrap();
    *handshake.headers_mut() = made.headers.clone();
    let (_, key) = generate_request(handshake).unwrap();
    assert_eq!(made.headers["sec-websocket-key"], key.as_str());
}

#[test]
fn handshake_keys_are_random() {
    let lease = lease("wss://back.example");
    let one = proxy_websocket(Some(&lease), &request("/", None)).unwrap();
    let two = proxy_websocket(Some(&lease), &request("/", None)).unwrap();
    assert_eq!(one.headers.len(), 5);
    let key = one.headers["sec-websocket-key"].to_str().unwrap().to_string();
    assert_eq!(key.len(), 24);
    assert!(key.ends_with("=="));
    assert!(key[..22].chars().all(|c| c.is_ascii_alphanumeric() || c == '+' || c == '/'));
    assert_ne!(key, two.headers["sec-websocket-key"].to_str().unwrap());
}

#[test]
fn connections_without_a_backend_are_refused() {
    let err = proxy_websocket(None, &request("/", None)).unwrap_err();
    assert!(matches!(err, WebSocketError::NoBackend));
    assert_eq!(err.message(), "no websocket backends available");
}

#[test]
fn handshakes_that_cannot_be_made_are_errors() {
    let lease = lease("ws://back.example");
    let err = proxy_websocket(Some(&lease), &request(&"a".repeat(70000), None)).unwrap_err();
    assert!(matches!(err, WebSocketError::InvalidUri(_)));
    assert_eq!(err.message(), "uri too long");
    let err = proxy_websocket(Some(&lease), &request("/", Some("\r"))).unwrap_err();
    assert!(matches!(err, WebSocketError::Header(HeaderError::InvalidValue)));
    assert_eq!(err.message(), "failed to parse header value");

    let url = || "ws://h/".to_string();
    let err = websocket_request(url(), Ok(None), "key", None).unwrap_err();
    assert!(matches!(err, WebSocketError::NoHost));
    assert_eq!(err.message(), "no host name in the url");
    let err = websocket_request(url(), Ok(Some("u@".to_string())), "key", None).unwrap_err();
    assert!(matches!(err, WebSocketError::NoHost));
    let err = websocket_request(url(), Err("why".to_string()), "key", None).unwrap_err();
    assert_eq!(err.message(), "why");
    let err = websocket_request(url(), Ok(Some("h".to_string())), "\0", None).unwrap_err();
    assert!(matches!(err, WebSocketError::Header(HeaderError::InvalidValue)));
    let made = websocket_request(url(), Ok(Some("a:b@h:1".to_string())), "key", None).unwrap();
    assert_eq!(made.headers["host"], "h:1");
    assert_eq!(made.headers["sec-websocket-key"], "key");
    assert_eq!(WebSocketError::InvalidUrl.message(), "the backend url does not parse");
    assert_eq!(
        WebSocketError::Header(HeaderError::TooManyFields).message(),
        "max size reached"
    );
}

#[test]
fn host_is_behind_the_credentials() {
    assert_eq!(host_of("example.com:80"), "example.com:80");
    assert_eq!(host_of("user:pw@example.com"), "example.com");
    assert_eq!(host_of("a@b@c"), "b@c");
    assert_eq!(host_of("@"), "");
    assert_eq!(host_of(""), "");
}

#[test]
fn messages_are_relayed_until_a_side_closes() {
    let (client, backend) = (RelaySide::Client, RelaySide::Backend);
    assert_eq!(relay_step(RelayEvent::Message(client)), RelayAction::SendTo(backend));
    assert_eq!(relay_step(RelayEvent::Message(backend)), RelayAction::SendTo(client));
    for side in [client, backend] {
        assert_eq!(relay_step(RelayEvent::Closed(side)), RelayAction::Finish);
        assert_eq!(relay_step(RelayEvent::Failed(side)), RelayAction::Fail);
    }
}
