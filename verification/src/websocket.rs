//! Forwarding of WebSocket connections: the opening handshake with the backend, and the relay of
//! messages.

use crate::headers::{fields_of, is_field_name, is_field_value, new_headers, values_named};
use crate::pool::BackendLease;
use crate::proxy::{
    append_text, as_text, leased, lemma_visible_ascii_is_valid, parse_uri, parsed_text, reaches_backend,
    upstream_url, uri_authority, HeaderError, ProxyRequest,
};
use crate::urls::{compose_backend_url, is_web_scheme, opt_string, opt_text, UrlError};
use http::header::{HeaderMap, HeaderValue};
use vstd::prelude::*;
use vstd::string::*;
use vstd::utf8::encode_utf8;

verus! {

/// Why a WebSocket connection is not forwarded.
#[derive(Debug)]
pub enum WebSocketError {
    /// No backend was leased.
    NoBackend,
    /// The URL of the backend is not valid.
    InvalidUrl,
    /// The URL of the backend is no URI.
    InvalidUri(String),
    /// The URL of the backend has no host.
    NoHost,
    /// The header of the handshake cannot be made.
    Header(HeaderError),
}

impl WebSocketError {
    /// What is wrong, in words.
    pub open spec fn text(self) -> Seq<char> {
        match self {
            WebSocketError::NoBackend => "no websocket backends available"@,
            WebSocketError::InvalidUrl => "the backend url does not parse"@,
            WebSocketError::InvalidUri(message) => message@,
            WebSocketError::NoHost => "no host name in the url"@,
            WebSocketError::Header(HeaderError::InvalidValue) => "failed to parse header value"@,
            WebSocketError::Header(HeaderError::TooManyFields) => "max size reached"@,
        }
    }

    /// What is wrong, in words.
    pub fn message(&self) -> (text: &str)
        ensures
            text@ == self.text(),
    {
        match self {
            WebSocketError::NoBackend => "no websocket backends available",
            WebSocketError::InvalidUrl => "the backend url does not parse",
            WebSocketError::InvalidUri(message) => message.as_str(),
            WebSocketError::NoHost => "no host name in the url",
            WebSocketError::Header(e) => e.message(),
        }
    }
}

/// The request that opens a WebSocket connection to a backend.
#[derive(Debug)]
pub struct WebSocketRequest {
    pub url: String,
    pub headers: HeaderMap<HeaderValue>,
}

impl WebSocketRequest {
    /// The method of the request, which is the same for every opening handshake.
    pub fn method(&self) -> (method: &'static str)
        ensures
            method@ == "GET"@,
    {
        "GET"
    }
}

/// Whether `c` is a digit of the Base64 encoding.
pub open spec fn is_base64_digit(c: char) -> bool {
    'A' <= c <= 'Z' || 'a' <= c <= 'z' || '0' <= c <= '9' || c == '+' || c == '/'
}

/// Whether `key` writes 16 bytes in Base64.
pub open spec fn is_handshake_key(key: Seq<char>) -> bool {
    &&& key.len() == 24
    &&& forall|i: int| 0 <= i < 22 ==> is_base64_digit(#[trigger] key[i])
    &&& key[22] == '='
    &&& key[23] == '='
}

/// `tungstenite::handshake::client::generate_key`: 16 random bytes in Base64. The contract claims
/// the form that every such key has, and nothing of which one it is.
#[verifier::external_body]
fn new_handshake_key() -> (key: String)
    ensures
        is_handshake_key(key@),
{
    tokio_tungstenite::tungstenite::handshake::client::generate_key()
}

/// The part of an authority behind the credentials of a user, if it has any.
pub open spec fn host_part(authority: Seq<char>) -> Seq<char> {
    match authority.index_of_first('@') {
        Some(i) => authority.skip(i + 1),
        None => authority,
    }
}

/// The part of an authority behind the credentials of a user, if it has any.
pub fn host_of(authority: &str) -> (host: &str)
    ensures
        host@ == host_part(authority@),
{
    let len = authority.unicode_len();
    let mut i: usize = 0;
    while i < len
        invariant
            i <= len,
            len == authority@.len(),
            forall|j: int| 0 <= j < i ==> authority@[j] != '@',
        decreases len - i,
    {
        if authority.get_char(i) == '@' {
            proof {
                authority@.index_of_first_ensures('@');
                assert(authority@.contains('@'));
            }
            return authority.substring_char(i + 1, len);
        }
        i = i + 1;
    }
    proof {
        authority@.index_of_first_ensures('@');
    }
    authority
}

/// The values of the fields with name `n` in the opening handshake.
pub open spec fn handshake_values(
    n: Seq<char>,
    host: Seq<char>,
    key: Seq<char>,
    request_id: Option<Seq<char>>,
) -> Seq<Seq<u8>> {
    if n == "host"@ {
        seq![encode_utf8(host)]
    } else if n == "connection"@ {
        seq![encode_utf8("Upgrade"@)]
    } else if n == "upgrade"@ {
        seq![encode_utf8("websocket"@)]
    } else if n == "sec-websocket-version"@ {
        seq![encode_utf8("13"@)]
    } else if n == "sec-websocket-key"@ {
        seq![encode_utf8(key)]
    } else if n == "x-request-id"@ && request_id is Some {
        seq![encode_utf8(request_id->0)]
    } else {
        seq![]
    }
}

/// Whether the host and the id of a request can be values of header fields.
pub open spec fn handshake_texts_are_valid(
    host: Seq<char>,
    key: Seq<char>,
    request_id: Option<Seq<char>>,
) -> bool {
    &&& is_field_value(encode_utf8(host))
    &&& is_field_value(encode_utf8(key))
    &&& request_id is Some ==> is_field_value(encode_utf8(request_id->0))
}

/// Whether a header has the fields of the opening handshake, and no others.
pub open spec fn has_handshake_fields(
    headers: HeaderMap<HeaderValue>,
    host: Seq<char>,
    key: Seq<char>,
    request_id: Option<Seq<char>>,
) -> bool {
    forall|n: Seq<char>| #[trigger]
        values_named(fields_of(headers), n) == handshake_values(n, host, key, request_id)
}

/// Whether `r` is the opening handshake with the backend at `url`, or the reason why there is
/// none, where `parsed` is what that URL was parsed to.
pub open spec fn opens(
    url: Seq<char>,
    parsed: Result<Option<Seq<char>>, Seq<char>>,
    key: Seq<char>,
    request_id: Option<Seq<char>>,
    r: Result<WebSocketRequest, WebSocketError>,
) -> bool {
    match parsed {
        Err(message) => r matches Err(WebSocketError::InvalidUri(m)) && m@ == message,
        Ok(None) => r matches Err(WebSocketError::NoHost),
        Ok(Some(authority)) => {
            let host = host_part(authority);
            if host.len() == 0 {
                r matches Err(WebSocketError::NoHost)
            } else if !handshake_texts_are_valid(host, key, request_id) {
                r matches Err(WebSocketError::Header(HeaderError::InvalidValue))
            } else {
                &&& r matches Ok(request)
                &&& request.url@ == url
                &&& has_handshake_fields(request.headers, host, key, request_id)
            }
        },
    }
}

/// The names of the fields of the handshake are valid and different from each other, and its fixed
/// values are valid.
pub(crate) proof fn lemma_handshake_fields()
    ensures
        is_field_name("host"@),
        is_field_name("connection"@),
        is_field_name("upgrade"@),
        is_field_name("sec-websocket-version"@),
        is_field_name("sec-websocket-key"@),
        is_field_name("x-request-id"@),
        "host"@.len() == 4,
        "connection"@.len() == 10,
        "upgrade"@.len() == 7,
        "sec-websocket-version"@.len() == 21,
        "sec-websocket-key"@.len() == 17,
        "x-request-id"@.len() == 12,
        is_field_value(encode_utf8("Upgrade"@)),
        is_field_value(encode_utf8("websocket"@)),
        is_field_value(encode_utf8("13"@)),
{
    reveal_strlit("host");
    reveal_strlit("connection");
    reveal_strlit("upgrade");
    reveal_strlit("sec-websocket-version");
    reveal_strlit("sec-websocket-key");
    reveal_strlit("x-request-id");
    reveal_strlit("Upgrade");
    reveal_strlit("websocket");
    reveal_strlit("13");
    lemma_visible_ascii_is_valid("Upgrade"@);
    lemma_visible_ascii_is_valid("websocket"@);
    lemma_visible_ascii_is_valid("13"@);
}

/// The header of the opening handshake.
fn handshake_headers(host: &str, key: &str, request_id: Option<&str>) -> (r: Result<
    HeaderMap<HeaderValue>,
    HeaderError,
>)
    ensures
        match r {
            Ok(headers) => {
                &&& handshake_texts_are_valid(host@, key@, opt_text(request_id))
                &&& has_handshake_fields(headers, host@, key@, opt_text(request_id))
            },
            Err(e) => {
                &&& e == HeaderError::InvalidValue
                &&& !handshake_texts_are_valid(host@, key@, opt_text(request_id))
            },
        },
{
    proof {
        lemma_handshake_fields();
    }
    let mut headers = new_headers();
    append_text(&mut headers, "host", host)?;
    append_text(&mut headers, "connection", "Upgrade")?;
    append_text(&mut headers, "upgrade", "websocket")?;
    append_text(&mut headers, "sec-websocket-version", "13")?;
    append_text(&mut headers, "sec-websocket-key", key)?;
    if let Some(id) = request_id {
        append_text(&mut headers, "x-request-id", id)?;
    }
    assert forall|n: Seq<char>| #[trigger]
        values_named(fields_of(headers), n) == handshake_values(
            n,
            host@,
            key@,
            opt_text(request_id),
        ) by {
        assert(values_named(fields_of(headers), n) =~= handshake_values(
            n,
            host@,
            key@,
            opt_text(request_id),
        ));
    }
    Ok(headers)
}

/// The opening handshake with the backend at `url`, where `parsed` is what that URL was parsed to,
/// under the given key.
pub fn websocket_request(
    url: String,
    parsed: Result<Option<String>, String>,
    key: &str,
    request_id: Option<&str>,
) -> (r: Result<WebSocketRequest, WebSocketError>)
    ensures
        opens(url@, parsed_text(parsed), key@, opt_text(request_id), r),
{
    match parsed {
        Err(message) => Err(WebSocketError::InvalidUri(message)),
        Ok(None) => Err(WebSocketError::NoHost),
        Ok(Some(authority)) => {
            let host = host_of(authority.as_str());
            if host.is_empty() {
                return Err(WebSocketError::NoHost);
            }
            match handshake_headers(host, key, request_id) {
                Ok(headers) => Ok(WebSocketRequest { url, headers }),
                Err(e) => Err(WebSocketError::Header(e)),
            }
        },
    }
}

/// Whether `r` is the opening handshake for a request for which the given backend was leased, if
/// any, under some key; or the reason why there is none.
pub open spec fn proxies_websocket(
    lease: Option<BackendLease>,
    req: ProxyRequest,
    r: Result<WebSocketRequest, WebSocketError>,
) -> bool {
    match lease {
        None => r matches Err(WebSocketError::NoBackend),
        Some(lease) => match upstream_url(lease, req) {
            Err(UrlError::DoesNotParse) => {
                &&& !is_web_scheme(lease@.url@.scheme)
                &&& r matches Err(WebSocketError::InvalidUrl)
            },
            Err(UrlError::TooLong) => {
                &&& r matches Err(WebSocketError::InvalidUri(message))
                &&& message@ == "uri too long"@
            },
            Ok(url) => exists|key: Seq<char>|
                {
                    &&& is_handshake_key(key)
                    &&& is_field_value(encode_utf8(key))
                    &&& #[trigger] opens(
                        url,
                        uri_authority(url),
                        key,
                        opt_string(req.request_id),
                        r,
                    )
                },
        },
    }
}

/// The opening handshake with a leased backend, under a new random key; or the reason why the
/// connection is not forwarded.
pub fn proxy_websocket(lease: Option<&BackendLease>, req: &ProxyRequest) -> (r: Result<
    WebSocketRequest,
    WebSocketError,
>)
    ensures
        lease is Some ==> reaches_backend(*lease->0, *req),
        proxies_websocket(leased(lease), *req, r),
{
    let lease = match lease {
        None => {
            return Err(WebSocketError::NoBackend);
        },
        Some(lease) => lease,
    };
    match compose_backend_url(&lease.backend().url, req.path.as_str(), as_text(&req.query)) {
        Err(UrlError::DoesNotParse) => Err(WebSocketError::InvalidUrl),
        Err(UrlError::TooLong) => Err(WebSocketError::InvalidUri("uri too long".to_owned())),
        Ok(url) => {
            let parsed = parse_uri(url.as_str());
            let key = new_handshake_key();
            proof {
                assert forall|i: int| 0 <= i < key@.len() implies ' ' <= #[trigger] key@[i]
                    <= '~' by {
                    if i < 22 {
                        assert(is_base64_digit(key@[i]));
                    }
                }
                lemma_visible_ascii_is_valid(key@);
            }
            websocket_request(url, parsed, key.as_str(), as_text(&req.request_id))
        },
    }
}

/// A side of a relay.
#[derive(Debug, Clone, Copy, PartialEq, Eq, Structural)]
pub enum RelaySide {
    Client,
    Backend,
}

/// The side across from the given one.
pub open spec fn other_side(side: RelaySide) -> RelaySide {
    match side {
        RelaySide::Client => RelaySide::Backend,
        RelaySide::Backend => RelaySide::Client,
    }
}

/// What happens on a relay.
#[derive(Debug, Clone, Copy, PartialEq, Eq, Structural)]
pub enum RelayEvent {
    /// A message came from a side.
    Message(RelaySide),
    /// A side closed the connection.
    Closed(RelaySide),
    /// The connection to a side failed.
    Failed(RelaySide),
}

/// What is done on a relay.
#[derive(Debug, Clone, Copy, PartialEq, Eq, Structural)]
pub enum RelayAction {
    /// The message is sent to a side, and the relay goes on.
    SendTo(RelaySide),
    /// The relay ends.
    Finish,
    /// The relay ends with the error of the connection that failed.
    Fail,
}

/// What is done on a relay when something happens: a message is sent to the other side, and the
/// relay ends as soon as either side closes or fails.
pub open spec fn relay_action(event: RelayEvent) -> RelayAction {
    match event {
        RelayEvent::Message(from) => RelayAction::SendTo(other_side(from)),
        RelayEvent::Closed(_) => RelayAction::Finish,
        RelayEvent::Failed(_) => RelayAction::Fail,
    }
}

/// Whether a relay is still open after the given events.
pub open spec fn relay_is_open(events: Seq<RelayEvent>) -> bool {
    forall|i: int| 0 <= i < events.len() ==> relay_action(#[trigger] events[i]) is SendTo
}

/// What is done on a relay when something happens.
pub fn relay_step(event: RelayEvent) -> (action: RelayAction)
    ensures
        action == relay_action(event),
{
    match event {
        RelayEvent::Message(RelaySide::Client) => RelayAction::SendTo(RelaySide::Backend),
        RelayEvent::Message(RelaySide::Backend) => RelayAction::SendTo(RelaySide::Client),
        RelayEvent::Closed(_) => RelayAction::Finish,
        RelayEvent::Failed(_) => RelayAction::Fail,
    }
}

} // verus!
