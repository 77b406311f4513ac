use http::header::{HeaderMap, HeaderValue};
use hyper_proxy::api::{handle_api, AddBackendRequest, ApiBody, ApiPayload};
use hyper_proxy::pool::{Acquisition, BackendLease};
use hyper_proxy::proxy::{finish_http, proxy_http, Forward, ProxyRequest, UpstreamResponse};
use hyper_proxy::response::BodyCollector;
use hyper_proxy::{BackendUrl, BackendView, LoadBalancingMode, ProxyState};

/// A proxy in front of backends that answer with their names, each with its own address.
struct Setup {
    state: ProxyState,
    backends: Vec<(u16, &'static str)>,
}

/// A request that holds a lease, and the answer that the backend will give.
struct Pending {
    lease: BackendLease,
    answer: String,
}

impl Setup {
    fn new(mode: LoadBalancingMode, backends: &[(u16, &'static str)]) -> Setup {
        Setup { state: ProxyState::new(mode), backends: backends.to_vec() }
    }

    fn add_backend(&mut self, url: &str, max_connections: Option<usize>) -> BackendView {
        let url = BackendUrl::parse(url).unwrap();
        let body = ApiBody::AddBackend(Ok(AddBackendRequest { url, max_connections }));
        let response = handle_api(&mut self.state, "POST", "/api/backends", body);
        assert_eq!(response.status, 201);
        match response.payload {
            ApiPayload::Backend(view) => view,
            other => panic!("not added: {other:?}"),
        }
    }

    /// Forwards a request; nothing where it has to wait.
    fn start(&mut self, method: &str, path: &str, body: Option<&[u8]>) -> Option<Pending> {
        let lease = match self.state.acquire_http() {
            Acquisition::Leased(lease) => lease,
            Acquisition::Wait => return None,
            Acquisition::Unavailable => panic!("no backends"),
        };
        let request = ProxyRequest {
            method: method.to_string(),
            path: path.to_string(),
            query: None,
            headers: HeaderMap::new(),
            request_id: None,
        };
        let upstream = match proxy_http(Some(&lease), &request) {
            Forward::Send(upstream) => upstream,
            other => panic!("not sent: {other:?}"),
        };
        assert_eq!(upstream.method, method);
        let (port, name) = *self
            .backends
            .iter()
            .find(|(port, _)| upstream.url == format!("https://localhost:{port}{path}"))
            .unwrap();
        assert_eq!(upstream.headers["host"], format!("localhost:{port}").as_str());

        let answer = match body {
            None => name.to_string(),
            Some(body) => {
                let mut collector = BodyCollector::new();
                for chunk in body.chunks(100) {
                    collector.push(chunk);
                }
                let received = collector.finish();
                assert_eq!(received, body);
                format!("{name}:{}", received.len())
            }
        };
        Some(Pending { lease, answer })
    }

    /// Answers a request with what the backend answers, and gives the lease back.
    fn finish(&mut self, pending: Pending) -> String {
        let mut headers = HeaderMap::new();
        headers.insert("content-type", HeaderValue::from_static("text/plain"));
        let response = finish_http(Ok(UpstreamResponse {
            status: 200,
            headers,
            body: pending.answer.into_bytes(),
        }));
        assert_eq!(response.status, 200);
        assert_eq!(response.content_type.unwrap(), "text/plain");
        self.state.release_http(pending.lease.backend_id());
        String::from_utf8(response.body.unwrap()).unwrap()
    }

    fn get_text(&mut self, path: &str) -> String {
        let pending = self.start("GET", path, None).unwrap();
        self.finish(pending)
    }
}

#[test]
fn add_backends_iteratively_and_route_queue() {
    let mut proxy =
        Setup::new(LoadBalancingMode::Queue, &[(8001, "backend-a"), (8002, "backend-b")]);

    proxy.add_backend("https://localhost:8001", None);
    let first = proxy.get_text("/");
    assert_eq!(first, "backend-a");

    proxy.add_backend("https://localhost:8002", None);
    let second = proxy.get_text("/");
    let third = proxy.get_text("/");
    assert_eq!(second, "backend-a");
    assert_eq!(third, "backend-b");
}

#[test]
fn leastconn_prefers_idle_backend() {
    let mut proxy =
        Setup::new(LoadBalancingMode::LeastConn, &[(8001, "backend-slow"), (8002, "backend-fast")]);
    proxy.add_backend("https://localhost:8001", None);
    proxy.add_backend("https://localhost:8002", None);

    let slow_request = proxy.start("GET", "/", None).unwrap();
    let fast_text = proxy.get_text("/");
    let third_text = proxy.get_text("/");
    let slow_text = proxy.finish(slow_request);

    assert_eq!(fast_text, "backend-fast");
    assert_eq!(third_text, "backend-fast");
    assert_eq!(slow_text, "backend-slow");
}

#[test]
fn queue_waits_for_maxconn_and_preserves_body() {
    let mut proxy = Setup::new(LoadBalancingMode::Queue, &[(8001, "backend-queue")]);
    proxy.add_backend("https://localhost:8001", Some(1));

    let path = "/echo/sleep/200";
    let body_one = vec![b'a'; 1024];
    let body_two = vec![b'b'; 2048];

    let first = proxy.start("POST", path, Some(&body_one)).unwrap();
    // the second request waits as long as the first one is not answered
    assert!(proxy.start("POST", path, Some(&body_two)).is_none());
    assert!(proxy.start("POST", path, Some(&body_two)).is_none());
    let first = proxy.finish(first);
    let second = proxy.start("POST", path, Some(&body_two)).unwrap();
    let second = proxy.finish(second);

    let mut lengths = vec![first, second];
    lengths.sort();
    assert_eq!(lengths, vec!["backend-queue:1024", "backend-queue:2048"]);
}
