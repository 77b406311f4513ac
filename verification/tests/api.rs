use hyper_proxy::api::{
    handle_api, handle_api_with_id, is_api_path, route_api, AddBackendRequest, ApiBody, ApiPayload,
    ApiResponse, ApiRoute, SetBalancerRequest,
};
use hyper_proxy::{BackendScheme, BackendUrl, LoadBalancingMode, ProxyState};

fn add(url: &str, max_connections: Option<usize>) -> ApiBody {
    ApiBody::AddBackend(Ok(AddBackendRequest {
        url: BackendUrl::parse(url).unwrap(),
        max_connections,
    }))
}

fn set(mode: &str) -> ApiBody {
    ApiBody::SetBalancer(Ok(SetBalancerRequest { mode: mode.to_string() }))
}

fn error(response: &ApiResponse) -> (u16, &str) {
    match &response.payload {
        ApiPayload::Error(message) => (response.status, message.as_str()),
        other => panic!("no error: {other:?}"),
    }
}

fn mode(response: &ApiResponse) -> (u16, &str) {
    match &response.payload {
        ApiPayload::Balancer { mode } => (response.status, mode.as_str()),
        other => panic!("no mode: {other:?}"),
    }
}

#[test]
fn requests_are_routed() {
    for (method, path, route) in [
        ("GET", "/api/health", ApiRoute::Health),
        ("GET", "/api/backends", ApiRoute::ListBackends),
        ("POST", "/api/backends", ApiRoute::AddBackend),
        ("DELETE", "/api/backends/", ApiRoute::RemoveBackend),
        ("DELETE", "/api/backends/x/y", ApiRoute::RemoveBackend),
        ("GET", "/api/balancer", ApiRoute::GetBalancer),
        ("PUT", "/api/balancer", ApiRoute::SetBalancer),
        ("DELETE", "/api/backends", ApiRoute::Unknown),
        ("POST", "/api/health", ApiRoute::Unknown),
        ("get", "/api/health", ApiRoute::Unknown),
        ("GET", "/api/health/", ApiRoute::Unknown),
        ("GET", "/api/backends/x", ApiRoute::Unknown),
        ("GET", "/api", ApiRoute::Unknown),
    ] {
        assert_eq!(route_api(method, path), route, "{method} {path}");
        assert!(route == ApiRoute::Unknown || is_api_path(path));
    }
    assert!(!is_api_path("/api"));
    assert!(!is_api_path("/apix"));
    assert!(!is_api_path("/"));
}

#[test]
fn health_is_answered() {
    let mut state = ProxyState::new(LoadBalancingMode::LeastConn);
    let response = handle_api(&mut state, "GET", "/api/health", ApiBody::Unread);
    assert_eq!(response.status, 200);
    assert!(matches!(response.payload, ApiPayload::Health));
}

#[test]
fn backends_are_added_listed_and_removed() {
    let mut state = ProxyState::new(LoadBalancingMode::LeastConn);
    let response = handle_api(
        &mut state,
        "POST",
        "/api/backends",
        add("https://origin.example.com", Some(100)),
    );
    assert_eq!(response.status, 201);
    let added = match response.payload {
        ApiPayload::Backend(view) => view,
        other => panic!("not added: {other:?}"),
    };
    assert_eq!(added.url.as_str(), "https://origin.example.com/");
    assert_eq!(added.scheme, BackendScheme::Https);
    assert_eq!(added.max_connections, Some(100));
    assert_eq!(added.active_connections, 0);
    assert_eq!(added.id.len(), 36);

    handle_api_with_id(&mut state, "POST", "/api/backends", add("ws://w", None), "w".to_string());
    let response = handle_api(&mut state, "GET", "/api/backends", ApiBody::Unread);
    assert_eq!(response.status, 200);
    match response.payload {
        ApiPayload::Backends { mode, http, ws } => {
            assert_eq!(mode, "leastconn");
            assert_eq!(http.len(), 1);
            assert_eq!(http[0].id, added.id);
            assert_eq!(ws.len(), 1);
            assert_eq!(ws[0].id, "w");
        }
        other => panic!("not listed: {other:?}"),
    }

    let path = format!("/api/backends/{}", added.id);
    let response = handle_api(&mut state, "DELETE", &path, ApiBody::Unread);
    assert_eq!(response.status, 200);
    match response.payload {
        ApiPayload::Backend(view) => assert_eq!(view.id, added.id),
        other => panic!("not removed: {other:?}"),
    }
    let response = handle_api(&mut state, "DELETE", &path, ApiBody::Unread);
    assert_eq!(error(&response), (404, "backend not found"));
    let (http, ws) = state.list_backends();
    assert!(http.is_empty());
    assert_eq!(ws.len(), 1);
}

#[test]
fn ids_are_read_from_paths() {
    let mut state = ProxyState::new(LoadBalancingMode::LeastConn);
    let response = handle_api(&mut state, "DELETE", "/api/backends/", ApiBody::Unread);
    assert_eq!(error(&response), (400, "backend id is required"));
    // the id is what follows the one prefix
    let body = add("http://h", None);
    handle_api_with_id(&mut state, "POST", "/api/backends", body, "x".to_string());
    let path = "/api/backends//api/backends/x";
    let response = handle_api(&mut state, "DELETE", path, ApiBody::Unread);
    assert_eq!(error(&response), (404, "backend not found"));
    assert_eq!(state.list_backends().0[0].id, "x");
    let path = "/api/backends//api/backends/";
    let response = handle_api(&mut state, "DELETE", path, ApiBody::Unread);
    assert_eq!(error(&response), (404, "backend not found"));

    let body = add("http://h", None);
    let id = "/api/backends/x".to_string();
    handle_api_with_id(&mut state, "POST", "/api/backends", body, id);
    let path = "/api/backends//api/backends/x";
    let response = handle_api(&mut state, "DELETE", path, ApiBody::Unread);
    assert_eq!(response.status, 200);
    let response = handle_api(&mut state, "DELETE", "/api/backends/x", ApiBody::Unread);
    assert_eq!(response.status, 200);
    assert!(state.list_backends().0.is_empty());
}

#[test]
fn refused_requests_change_nothing() {
    let mut state = ProxyState::new(LoadBalancingMode::Queue);
    for (method, path, body, expected) in [
        (
            "POST",
            "/api/backends",
            ApiBody::AddBackend(Err("expected value".to_string())),
            (400, "invalid json: expected value"),
        ),
        (
            "POST",
            "/api/backends",
            add("ftp://example.com", None),
            (400, "unsupported backend scheme: ftp"),
        ),
        (
            "POST",
            "/api/backends",
            add("https://example.com", Some(0)),
            (400, "max_connections must be > 0"),
        ),
        (
            "PUT",
            "/api/balancer",
            ApiBody::SetBalancer(Err("EOF".to_string())),
            (400, "invalid json: EOF"),
        ),
        (
            "PUT",
            "/api/balancer",
            set(" Fastest "),
            (400, "unsupported load balancer: fastest"),
        ),
        ("DELETE", "/api/backends/none", ApiBody::Unread, (404, "backend not found")),
        ("PATCH", "/api/backends", ApiBody::Unread, (404, "unknown api endpoint")),
    ] {
        let response = handle_api(&mut state, method, path, body);
        assert_eq!(error(&response), expected);
        assert_eq!(state.mode(), LoadBalancingMode::Queue);
        let (http, ws) = state.list_backends();
        assert!(http.is_empty() && ws.is_empty());
    }
}

#[test]
fn mode_that_is_set_is_read() {
    let mut state = ProxyState::new(LoadBalancingMode::Queue);
    let response = handle_api(&mut state, "GET", "/api/balancer", ApiBody::Unread);
    assert_eq!(mode(&response), (200, "queue"));
    let response = handle_api(&mut state, "PUT", "/api/balancer", set("Least_Conn"));
    assert_eq!(mode(&response), (200, "leastconn"));
    let response = handle_api(&mut state, "GET", "/api/balancer", ApiBody::Unread);
    assert_eq!(mode(&response), (200, "leastconn"));
    assert_eq!(state.mode(), LoadBalancingMode::LeastConn);
}
