use http::header::{HeaderMap, HeaderName, HeaderValue};
use hyper_proxy::headers::{
    is_hop_by_hop_header, should_skip_request_header, should_skip_response_header,
};
use hyper_proxy::pool::{Acquisition, BackendLease};
use hyper_proxy::proxy::{
    finish_http, forward_http, map_upstream_response, proxy_http, upstream_headers,
    Forward, HeaderError, ProxyRequest, UpstreamResponse,
};
use hyper_proxy::response::{json_response, text_response};
use hyper_proxy::{BackendUrl, LoadBalancingMode, ProxyState};

const HOP_BY_HOP: [&str; 9] = [
    "connection",
    "keep-alive",
    "proxy-authenticate",
    "proxy-authorization",
    "te",
    "trailer",
    "transfer-encoding",
    "upgrade",
    "proxy-connection",
];

fn headers(fields: &[(&str, &[u8])]) -> HeaderMap {
    let mut map = HeaderMap::new();
    for (name, value) in fields {
        map.append(
            HeaderName::from_bytes(name.as_bytes()).unwrap(),
            HeaderValue::from_bytes(value).unwrap(),
        );
    }
    map
}

fn values<'a>(map: &'a HeaderMap, name: &str) -> Vec<&'a [u8]> {
    map.get_all(name).iter().map(|value| value.as_bytes()).collect()
}

fn request(path: &str, query: Option<&str>, fields: &[(&str, &[u8])]) -> ProxyRequest {
    ProxyRequest {
        method: "POST".to_string(),
        path: path.to_string(),
        query: query.map(|q| q.to_string()),
        headers: headers(fields),
        request_id: Some("id-1".to_string()),
    }
}

fn lease(url: &str) -> BackendLease {
    let mut state = ProxyState::new(LoadBalancingMode::LeastConn);
    state.add_backend(BackendUrl::parse(url).unwrap(), None).unwrap();
    match state.acquire_http() {
        Acquisition::Leased(lease) => lease,
        other => panic!("no lease: {other:?}"),
    }
}

#[test]
fn hop_by_hop_headers_are_known() {
    for name in HOP_BY_HOP {
        assert!(is_hop_by_hop_header(name));
        assert!(should_skip_request_header(name));
        assert!(should_skip_response_header(name));
    }
    for name in ["host", "content-type", "trailers", "x-connection", ""] {
        assert!(!is_hop_by_hop_header(name));
        assert!(!should_skip_response_header(name));
    }
    assert!(should_skip_request_header("host"));
    assert!(!should_skip_request_header("accept"));
}

#[test]
fn hop_by_hop_headers_are_not_sent_upstream() {
    let fields: Vec<(&str, &[u8])> = HOP_BY_HOP.iter().map(|n| (*n, b"x".as_slice())).collect();
    let out = upstream_headers(&headers(&fields), None, None).unwrap();
    assert_eq!(out.len(), 1);
    assert_eq!(values(&out, "x-forwarded-proto"), vec![b"https".as_slice()]);
}

#[test]
fn upstream_headers_are_made() {
    let sent = headers(&[
        ("Accept", b"a"),
        ("accept", b"\xff\tb"),
        ("Host", b"front.example"),
        ("Host", b"second"),
        ("Connection", b"close"),
    ]);
    let out = upstream_headers(&sent, Some("id-1"), Some("back.example:81")).unwrap();
    assert_eq!(values(&out, "accept"), vec![b"a".as_slice(), b"\xff\tb".as_slice()]);
    assert_eq!(values(&out, "host"), vec![b"back.example:81".as_slice()]);
    assert_eq!(values(&out, "x-forwarded-host"), vec![b"front.example".as_slice()]);
    assert_eq!(values(&out, "x-forwarded-proto"), vec![b"https".as_slice()]);
    assert_eq!(values(&out, "x-request-id"), vec![b"id-1".as_slice()]);
    assert_eq!(out.len(), 6);
}

#[test]
fn forwarded_headers_of_other_proxies_are_kept() {
    let sent = headers(&[
        ("host", b"front.example"),
        ("x-forwarded-host", b"first.example"),
        ("x-forwarded-proto", b"http"),
        ("x-request-id", b"theirs"),
    ]);
    let out = upstream_headers(&sent, Some("ours"), None).unwrap();
    assert_eq!(
        values(&out, "x-forwarded-host"),
        vec![b"first.example".as_slice(), b"front.example".as_slice()]
    );
    assert_eq!(values(&out, "x-forwarded-proto"), vec![b"http".as_slice()]);
    assert_eq!(values(&out, "x-request-id"), vec![b"theirs".as_slice()]);
    assert!(values(&out, "host").is_empty());
}

#[test]
fn sensitive_values_stay_sensitive() {
    let mut value = HeaderValue::from_static("secret");
    value.set_sensitive(true);
    let mut sent = HeaderMap::new();
    sent.insert("authorization", value);
    let out = upstream_headers(&sent, None, None).unwrap();
    assert!(out.get("authorization").unwrap().is_sensitive());
}

#[test]
fn invalid_request_ids_are_errors_only_where_they_are_sent() {
    let none = headers(&[]);
    assert_eq!(
        upstream_headers(&none, Some("a\nb"), None).unwrap_err(),
        HeaderError::InvalidValue
    );
    assert_eq!(
        upstream_headers(&none, None, Some("a\u{7f}")).unwrap_err(),
        HeaderError::InvalidValue
    );
    let sent = headers(&[("x-request-id", b"theirs")]);
    assert!(upstream_headers(&sent, Some("a\nb"), None).is_ok());
    assert_eq!(HeaderError::InvalidValue.message(), "failed to parse header value");
    assert_eq!(HeaderError::TooManyFields.message(), "max size reached");
}

#[test]
fn many_headers_are_forwarded_and_too_many_are_an_error() {
    let mut sent = HeaderMap::new();
    for i in 0..6000 {
        sent.append(
            HeaderName::from_bytes(format!("x-{i}").as_bytes()).unwrap(),
            HeaderValue::from_static("v"),
        );
    }
    let out = upstream_headers(&sent, Some("id"), Some("h")).unwrap();
    assert_eq!(out.len(), 6003);
    for i in 6000..24576 {
        sent.append(
            HeaderName::from_bytes(format!("x-{i}").as_bytes()).unwrap(),
            HeaderValue::from_static("v"),
        );
    }
    assert_eq!(
        upstream_headers(&sent, Some("id"), Some("h")).unwrap_err(),
        HeaderError::TooManyFields
    );
}

#[test]
fn requests_are_forwarded_to_the_leased_backend() {
    let lease = lease("https://user:pw@back.example:8443/base/?old#frag");
    let req = request("/a b", Some("q=1"), &[("host", b"front.example")]);
    match proxy_http(Some(&lease), &req) {
        Forward::Send(upstream) => {
            assert_eq!(upstream.method, "POST");
            assert_eq!(upstream.url, "https://user:pw@back.example:8443/base/a%20b?q=1#frag");
            assert_eq!(
                values(&upstream.headers, "host"),
                vec![b"user:pw@back.example:8443".as_slice()]
            );
            assert_eq!(values(&upstream.headers, "x-request-id"), vec![b"id-1".as_slice()]);
        }
        other => panic!("not sent: {other:?}"),
    }
}

#[test]
fn requests_without_a_backend_are_refused() {
    match proxy_http(None, &request("/", None, &[])) {
        Forward::Respond(response) => {
            assert_eq!(response.status, 503);
            assert_eq!(response.body.unwrap(), b"no http backends available");
            assert_eq!(response.content_type.unwrap(), "text/plain");
            assert!(response.headers.is_empty());
            assert!(response.etag.is_none());
        }
        other => panic!("not refused: {other:?}"),
    }
}

#[test]
fn urls_that_are_no_uris_are_refused() {
    // a URI is at most 65534 bytes long
    let long = format!("/{}", "a".repeat(70000));
    match proxy_http(Some(&lease("http://h")), &request(&long, None, &[])) {
        Forward::Respond(response) => {
            assert_eq!(response.status, 502);
            assert_eq!(response.body.unwrap(), b"invalid backend uri: uri too long");
        }
        other => panic!("not refused: {other:?}"),
    }
    let req = request("/", None, &[]);
    match forward_http("x".to_string(), Err("why not".to_string()), &req) {
        Forward::Respond(response) => {
            assert_eq!(response.status, 502);
            assert_eq!(response.body.unwrap(), b"invalid backend uri: why not");
        }
        other => panic!("not refused: {other:?}"),
    }
}

#[test]
fn headers_that_cannot_be_sent_fail_the_request() {
    let mut req = request("/", None, &[]);
    req.request_id = Some("\n".to_string());
    assert!(matches!(
        proxy_http(Some(&lease("http://h")), &req),
        Forward::Fail(HeaderError::InvalidValue)
    ));
    assert!(matches!(
        forward_http("http://h/".to_string(), Ok(None), &req),
        Forward::Fail(HeaderError::InvalidValue)
    ));
}

#[test]
fn upstream_responses_are_mapped() {
    let response = map_upstream_response(UpstreamResponse {
        status: 418,
        headers: headers(&[
            ("Content-Type", b"text/html"),
            ("content-type", b"\xff"),
            ("connection", b"close"),
            ("x-one", b"1"),
            ("x-binary", b"\x80"),
            ("x-tab", b"a\tb"),
            ("x-one", b"2"),
            ("content-length", b"3"),
        ]),
        body: b"abc".to_vec(),
    });
    assert_eq!(response.status, 418);
    assert_eq!(response.body.unwrap(), b"abc");
    assert_eq!(response.content_type.unwrap(), "text/html");
    assert!(response.etag.is_none());
    let mut fields = response.headers.clone();
    fields.sort();
    let expected: Vec<(String, String)> =
        [("content-length", "3"), ("x-one", "1"), ("x-one", "2"), ("x-tab", "a\tb")]
            .iter()
            .map(|(name, value)| (name.to_string(), value.to_string()))
            .collect();
    assert_eq!(fields, expected);
}

#[test]
fn last_content_type_that_is_text_counts() {
    let response = map_upstream_response(UpstreamResponse {
        status: 200,
        headers: headers(&[("content-type", b"a/b"), ("content-type", b"c/d")]),
        body: Vec::new(),
    });
    assert_eq!(response.content_type.unwrap(), "c/d");
    assert_eq!(response.body.unwrap(), b"");
    let response = map_upstream_response(UpstreamResponse {
        status: 204,
        headers: headers(&[]),
        body: Vec::new(),
    });
    assert!(response.content_type.is_none());
    assert!(response.headers.is_empty());
}

#[test]
fn upstream_errors_are_reported() {
    let response = finish_http(Err("connection refused".to_string()));
    assert_eq!(response.status, 502);
    assert_eq!(response.body.unwrap(), b"upstream error: connection refused");
    let response = finish_http(Ok(UpstreamResponse {
        status: 200,
        headers: headers(&[("te", b"x")]),
        body: b"ok".to_vec(),
    }));
    assert_eq!(response.status, 200);
    assert_eq!(response.body.unwrap(), b"ok");
    assert!(response.headers.is_empty());
}

#[test]
fn responses_are_framed() {
    let response = text_response(400, "f\u{fc}r");
    assert_eq!(response.status, 400);
    assert_eq!(response.body.unwrap(), "f\u{fc}r".as_bytes());
    assert_eq!(response.content_type.unwrap(), "text/plain");
    let response = json_response(Some(b"[1]".to_vec()), 201);
    assert_eq!(response.status, 201);
    assert_eq!(response.body.unwrap(), b"[1]");
    assert_eq!(response.content_type.unwrap(), "application/json");
    let response = json_response(None, 200);
    assert_eq!(response.body.unwrap(), b"{}");
    assert!(response.headers.is_empty() && response.etag.is_none());
}
