//! Forwarding: what is sent upstream for a request, and what is made of the answer.

use crate::headers::{
    append_field, contains_field, fields_of, first_value, is_field_name, is_field_value,
    is_hop_by_hop, lemma_field_names, list_fields, new_headers, should_skip_request_header,
    should_skip_response_header, skips_request_field, value_bytes, value_from_text, value_text,
    values_named, visible_text,
};
use crate::pool::BackendLease;
use crate::response::{text_response, HandlerResponse};
use crate::text::same_text;
use crate::urls::{
    both_fit, compose_backend_url, composed_url, is_composed_of, is_web_scheme, joined_path,
    opt_string, opt_text, UrlError,
};
use http::header::{HeaderMap, HeaderValue};
use vstd::prelude::*;
use vstd::string::*;
use vstd::utf8::encode_utf8;

verus! {

/// Why the header of an upstream request cannot be made.
#[derive(Debug, Clone, Copy, PartialEq, Eq, Structural)]
pub enum HeaderError {
    /// A value holds characters that no header field can have.
    InvalidValue,
    /// The header has too many fields.
    TooManyFields,
}

impl HeaderError {
    /// What is wrong, in words.
    pub fn message(&self) -> (text: &'static str)
        ensures
            text@ == match *self {
                HeaderError::InvalidValue => "failed to parse header value"@,
                HeaderError::TooManyFields => "max size reached"@,
            },
    {
        match self {
            HeaderError::InvalidValue => "failed to parse header value",
            HeaderError::TooManyFields => "max size reached",
        }
    }
}

/// The values that the proxy itself gives to the fields with name `n`: the id of the request,
/// where the client sent none; the host that the client asked for; the protocol that the client
/// used, where no other proxy gave it; and the host of the backend.
pub open spec fn added_values(
    fields: Seq<(Seq<char>, Seq<u8>)>,
    n: Seq<char>,
    request_id: Option<Seq<char>>,
    authority: Option<Seq<char>>,
) -> Seq<Seq<u8>> {
    if n == "x-request-id"@ {
        if adds_request_id(fields, request_id) {
            seq![encode_utf8(request_id->0)]
        } else {
            seq![]
        }
    } else if n == "x-forwarded-host"@ {
        let hosts = values_named(fields, "host"@);
        if hosts.len() > 0 {
            seq![hosts[0]]
        } else {
            seq![]
        }
    } else if n == "x-forwarded-proto"@ {
        if values_named(fields, n).len() == 0 {
            seq![encode_utf8("https"@)]
        } else {
            seq![]
        }
    } else if n == "host"@ {
        match authority {
            Some(host) => seq![encode_utf8(host)],
            None => seq![],
        }
    } else {
        seq![]
    }
}

/// Whether the proxy adds the id of the request: it has one, and the client sent none.
pub open spec fn adds_request_id(
    fields: Seq<(Seq<char>, Seq<u8>)>,
    request_id: Option<Seq<char>>,
) -> bool {
    request_id is Some && values_named(fields, "x-request-id"@).len() == 0
}

/// The values of the fields with name `n` in the upstream request: those that the client sent,
/// unless such fields are left out, and then those that the proxy adds.
pub open spec fn upstream_values(
    fields: Seq<(Seq<char>, Seq<u8>)>,
    n: Seq<char>,
    request_id: Option<Seq<char>>,
    authority: Option<Seq<char>>,
) -> Seq<Seq<u8>> {
    (if skips_request_field(n) {
        seq![]
    } else {
        values_named(fields, n)
    }) + added_values(fields, n, request_id, authority)
}

/// Whether the texts that the proxy adds can be values of header fields.
pub open spec fn added_texts_are_valid(
    fields: Seq<(Seq<char>, Seq<u8>)>,
    request_id: Option<Seq<char>>,
    authority: Option<Seq<char>>,
) -> bool {
    &&& adds_request_id(fields, request_id) ==> is_field_value(encode_utf8(request_id->0))
    &&& authority is Some ==> is_field_value(encode_utf8(authority->0))
}

/// Whether a header has the fields of the upstream request, and no others.
pub open spec fn has_upstream_fields(
    headers: HeaderMap<HeaderValue>,
    fields: Seq<(Seq<char>, Seq<u8>)>,
    request_id: Option<Seq<char>>,
    authority: Option<Seq<char>>,
) -> bool {
    forall|n: Seq<char>| #[trigger]
        values_named(fields_of(headers), n) == upstream_values(fields, n, request_id, authority)
}

/// Whether `r` is the header of the upstream request, or the reason why there is none.
pub open spec fn makes_upstream_headers(
    fields: Seq<(Seq<char>, Seq<u8>)>,
    request_id: Option<Seq<char>>,
    authority: Option<Seq<char>>,
    r: Result<HeaderMap<HeaderValue>, HeaderError>,
) -> bool {
    match r {
        Ok(headers) => {
            &&& added_texts_are_valid(fields, request_id, authority)
            &&& has_upstream_fields(headers, fields, request_id, authority)
        },
        Err(HeaderError::InvalidValue) => !added_texts_are_valid(fields, request_id, authority),
        Err(HeaderError::TooManyFields) => (fields.len() + 4) * 5 >= 32768,
    }
}

/// A text of visible ASCII characters can be the value of a header field.
pub(crate) proof fn lemma_visible_ascii_is_valid(text: Seq<char>)
    requires
        forall|i: int| 0 <= i < text.len() ==> ' ' <= #[trigger] text[i] <= '~',
    ensures
        is_field_value(encode_utf8(text)),
{
    vstd::utf8::is_ascii_chars_encode_utf8(text);
}

/// Adds a field to a header.
fn append_value(headers: &mut HeaderMap<HeaderValue>, name: &str, value: HeaderValue) -> (r: Result<
    (),
    HeaderError,
>)
    requires
        is_field_name(name@),
    ensures
        match r {
            Ok(_) => {
                &&& fields_of(*final(headers)).len() == fields_of(*old(headers)).len() + 1
                &&& forall|n: Seq<char>| #[trigger]
                    values_named(fields_of(*final(headers)), n) == if n == name@ {
                        values_named(fields_of(*old(headers)), n).push(value_bytes(value))
                    } else {
                        values_named(fields_of(*old(headers)), n)
                    }
            },
            Err(e) => e == HeaderError::TooManyFields && fields_of(*old(headers)).len() * 5
                >= 32768,
        },
{
    match append_field(headers, name, value) {
        Ok(_) => Ok(()),
        Err(_) => Err(HeaderError::TooManyFields),
    }
}

/// Adds a field with a text as its value to a header.
pub(crate) fn append_text(headers: &mut HeaderMap<HeaderValue>, name: &str, text: &str) -> (r: Result<
    (),
    HeaderError,
>)
    requires
        is_field_name(name@),
    ensures
        match r {
            Ok(_) => {
                &&& is_field_value(encode_utf8(text@))
                &&& fields_of(*final(headers)).len() == fields_of(*old(headers)).len() + 1
                &&& forall|n: Seq<char>| #[trigger]
                    values_named(fields_of(*final(headers)), n) == if n == name@ {
                        values_named(fields_of(*old(headers)), n).push(encode_utf8(text@))
                    } else {
                        values_named(fields_of(*old(headers)), n)
                    }
            },
            Err(HeaderError::InvalidValue) => !is_field_value(encode_utf8(text@)),
            Err(HeaderError::TooManyFields) => fields_of(*old(headers)).len() * 5 >= 32768,
        },
{
    match value_from_text(text) {
        Some(value) => append_value(headers, name, value),
        None => Err(HeaderError::InvalidValue),
    }
}

/// The fields of a request that are forwarded as they are.
fn forwarded_headers(headers: &HeaderMap<HeaderValue>) -> (r: Result<
    HeaderMap<HeaderValue>,
    HeaderError,
>)
    ensures
        match r {
            Ok(out) => {
                &&& fields_of(out).len() <= fields_of(*headers).len()
                &&& forall|n: Seq<char>| #[trigger]
                    values_named(fields_of(out), n) == if skips_request_field(n) {
                        Seq::<Seq<u8>>::empty()
                    } else {
                        values_named(fields_of(*headers), n)
                    }
            },
            Err(e) => e == HeaderError::TooManyFields && fields_of(*headers).len() * 5 >= 32768,
        },
{
    let fields = list_fields(headers);
    let ghost all = fields_of(*headers);
    let mut out = new_headers();
    let mut idx: usize = 0;
    while idx < fields.len()
        invariant
            idx <= fields@.len(),
            all == fields_of(*headers),
            fields@.len() == all.len(),
            forall|i: int|
                0 <= i < fields@.len() ==> {
                    &&& all[i] == ((#[trigger] fields@[i]).0@, value_bytes(fields@[i].1))
                    &&& is_field_name(fields@[i].0@)
                },
            fields_of(out).len() <= idx,
            forall|n: Seq<char>| #[trigger]
                values_named(fields_of(out), n) == if skips_request_field(n) {
                    Seq::<Seq<u8>>::empty()
                } else {
                    values_named(all.take(idx as int), n)
                },
        decreases fields@.len() - idx,
    {
        let name = fields[idx].0.as_str();
        assert(all[idx as int] == (fields@[idx as int].0@, value_bytes(fields@[idx as int].1)));
        assert(all.take(idx + 1).drop_last() =~= all.take(idx as int));
        if !should_skip_request_header(name) {
            append_value(&mut out, name, fields[idx].1.clone())?;
        }
        idx = idx + 1;
    }
    assert(all.take(fields@.len() as int) =~= all);
    Ok(out)
}

/// The header of the upstream request: what the client sent, without the fields about one
/// connection and without `host`, and then what the proxy adds.
pub fn upstream_headers(
    headers: &HeaderMap<HeaderValue>,
    request_id: Option<&str>,
    authority: Option<&str>,
) -> (r: Result<HeaderMap<HeaderValue>, HeaderError>)
    ensures
        makes_upstream_headers(fields_of(*headers), opt_text(request_id), opt_text(authority), r),
{
    proof {
        lemma_field_names();
        reveal_strlit("https");
        lemma_visible_ascii_is_valid("https"@);
    }
    let mut out = forwarded_headers(headers)?;
    if let Some(id) = request_id {
        if !contains_field(headers, "x-request-id") {
            append_text(&mut out, "x-request-id", id)?;
        }
    }
    if let Some(host) = first_value(headers, "host") {
        append_value(&mut out, "x-forwarded-host", host)?;
    }
    if !contains_field(headers, "x-forwarded-proto") {
        append_text(&mut out, "x-forwarded-proto", "https")?;
    }
    if let Some(host) = authority {
        append_text(&mut out, "host", host)?;
    }
    assert forall|n: Seq<char>| #[trigger]
        values_named(fields_of(out), n) == upstream_values(
            fields_of(*headers),
            n,
            opt_text(request_id),
            opt_text(authority),
        ) by {
        assert(values_named(fields_of(out), n) =~= upstream_values(
            fields_of(*headers),
            n,
            opt_text(request_id),
            opt_text(authority),
        ));
    }
    Ok(out)
}

/// What `http::Uri` makes of a text: the authority of the URI, if it has one, or what is wrong with
/// the text, in words.
pub uninterp spec fn uri_authority(text: Seq<char>) -> Result<Option<Seq<char>>, Seq<char>>;

/// The characters of what a URI was parsed to.
pub open spec fn parsed_text(parsed: Result<Option<String>, String>) -> Result<
    Option<Seq<char>>,
    Seq<char>,
> {
    match parsed {
        Ok(authority) => Ok(opt_string(authority)),
        Err(message) => Err(message@),
    }
}

/// `http::Uri::from_str`, with the `authority` of the URI that it returns, and the `Display` of
/// its error. The contract names the result.
#[verifier::external_body]
pub(crate) fn parse_uri(text: &str) -> (r: Result<Option<String>, String>)
    ensures
        parsed_text(r) == uri_authority(text@),
{
    match text.parse::<http::Uri>() {
        Ok(uri) => Ok(uri.authority().map(|authority| authority.as_str().to_string())),
        Err(err) => Err(err.to_string()),
    }
}

/// A request that is to be forwarded.
#[derive(Debug)]
pub struct ProxyRequest {
    pub method: String,
    pub path: String,
    pub query: Option<String>,
    pub headers: HeaderMap<HeaderValue>,
    /// The id under which the request is logged.
    pub request_id: Option<String>,
}

/// A request to a backend.
#[derive(Debug)]
pub struct UpstreamRequest {
    pub method: String,
    pub url: String,
    pub headers: HeaderMap<HeaderValue>,
}

/// What is done with a request.
#[derive(Debug)]
pub enum Forward {
    /// It is sent to a backend.
    Send(UpstreamRequest),
    /// It is answered at once.
    Respond(HandlerResponse),
    /// Its header cannot be forwarded.
    Fail(HeaderError),
}

/// An optional string as an optional text.
pub(crate) fn as_text(text: &Option<String>) -> (r: Option<&str>)
    ensures
        opt_text(r) == opt_string(*text),
{
    match text {
        Some(t) => Some(t.as_str()),
        None => None,
    }
}

/// Whether `forward` is what is done with a request whose upstream URL is `url`, where `parsed` is
/// what that URL was parsed to.
pub open spec fn forwards(
    url: Seq<char>,
    parsed: Result<Option<Seq<char>>, Seq<char>>,
    req: ProxyRequest,
    forward: Forward,
) -> bool {
    match parsed {
        Err(message) => forward is Respond && forward->Respond_0.is_text(
            502,
            "invalid backend uri: "@ + message,
        ),
        Ok(authority) => {
            let fields = fields_of(req.headers);
            let id = opt_string(req.request_id);
            match forward {
                Forward::Send(upstream) => {
                    &&& upstream.method@ == req.method@
                    &&& upstream.url@ == url
                    &&& makes_upstream_headers(fields, id, authority, Ok(upstream.headers))
                },
                Forward::Respond(_) => false,
                Forward::Fail(e) => makes_upstream_headers(fields, id, authority, Err(e)),
            }
        },
    }
}

/// What is done with a request whose upstream URL is `url`, where `parsed` is what that URL was
/// parsed to.
pub fn forward_http(
    url: String,
    parsed: Result<Option<String>, String>,
    req: &ProxyRequest,
) -> (forward: Forward)
    ensures
        forwards(url@, parsed_text(parsed), *req, forward),
{
    match parsed {
        Err(message) => Forward::Respond(
            text_response(502, "invalid backend uri: ".to_owned().concat(&message).as_str()),
        ),
        Ok(authority) => {
            match upstream_headers(&req.headers, as_text(&req.request_id), as_text(&authority)) {
                Ok(headers) => Forward::Send(
                    UpstreamRequest { method: req.method.clone(), url, headers },
                ),
                Err(e) => Forward::Fail(e),
            }
        },
    }
}

/// The URL to which a request is forwarded over a lease.
pub open spec fn upstream_url(lease: BackendLease, req: ProxyRequest) -> Result<
    Seq<char>,
    UrlError,
> {
    composed_url(
        lease@.url@.text,
        joined_path(lease@.url@.path, req.path@),
        opt_string(req.query),
    )
}

/// Whether the URL to which a request is forwarded over a lease is the backend's URL with the
/// joined path and the query of the request. It exists unless the positions of its pieces do not
/// fit 32 bits. This holds of the schemes that are forwarded.
pub open spec fn reaches_backend(lease: BackendLease, req: ProxyRequest) -> bool {
    let path = joined_path(lease@.url@.path, req.path@);
    let query = opt_string(req.query);
    is_web_scheme(lease@.url@.scheme) ==> match upstream_url(lease, req) {
        Ok(url) => is_composed_of(url, lease@.url@, path, query),
        Err(e) => e == UrlError::TooLong && !both_fit(lease@.url@, path, query),
    }
}

/// Whether `forward` is what is done with a request for which the given backend was leased, if any.
pub open spec fn proxies(lease: Option<BackendLease>, req: ProxyRequest, forward: Forward) -> bool {
    match lease {
        None => forward is Respond && forward->Respond_0.is_text(
            503,
            "no http backends available"@,
        ),
        Some(lease) => match upstream_url(lease, req) {
            Err(UrlError::DoesNotParse) => {
                &&& !is_web_scheme(lease@.url@.scheme)
                &&& forward is Respond
                &&& forward->Respond_0.is_text(
                    502,
                    "invalid backend url: the backend url does not parse"@,
                )
            },
            Err(UrlError::TooLong) => forward is Respond && forward->Respond_0.is_text(
                502,
                "invalid backend uri: uri too long"@,
            ),
            Ok(url) => forwards(url, uri_authority(url), req, forward),
        },
    }
}

/// The lease behind an optional reference.
pub open spec fn leased(lease: Option<&BackendLease>) -> Option<BackendLease> {
    match lease {
        Some(lease) => Some(*lease),
        None => None,
    }
}

/// What is done with a request: it is refused where no backend was leased, and else forwarded to
/// the leased backend.
pub fn proxy_http(lease: Option<&BackendLease>, req: &ProxyRequest) -> (forward: Forward)
    ensures
        lease is Some ==> reaches_backend(*lease->0, *req),
        proxies(leased(lease), *req, forward),
{
    let lease = match lease {
        None => {
            return Forward::Respond(text_response(503, "no http backends available"));
        },
        Some(lease) => lease,
    };
    match compose_backend_url(&lease.backend().url, req.path.as_str(), as_text(&req.query)) {
        Err(UrlError::DoesNotParse) => Forward::Respond(
            text_response(502, "invalid backend url: the backend url does not parse"),
        ),
        Err(UrlError::TooLong) => Forward::Respond(
            text_response(502, "invalid backend uri: uri too long"),
        ),
        Ok(url) => {
            let parsed = parse_uri(url.as_str());
            forward_http(url, parsed, req)
        },
    }
}

/// What a backend answered: a status, the fields of the header and the body.
#[derive(Debug)]
pub struct UpstreamResponse {
    pub status: u16,
    pub headers: HeaderMap<HeaderValue>,
    pub body: Vec<u8>,
}

/// The fields of an upstream response that stand in the response: those that are text, without
/// those about one connection and without the content type.
pub open spec fn response_fields(fields: Seq<(Seq<char>, Seq<u8>)>) -> Seq<(Seq<char>, Seq<char>)>
    decreases fields.len(),
{
    if fields.len() == 0 {
        Seq::empty()
    } else {
        let rest = response_fields(fields.drop_last());
        let (name, value) = fields.last();
        if is_hop_by_hop(name) || name == "content-type"@ || visible_text(value) is None {
            rest
        } else {
            rest.push((name, visible_text(value)->0))
        }
    }
}

/// The content type of the response: the last one of the upstream response that is text.
pub open spec fn response_content_type(fields: Seq<(Seq<char>, Seq<u8>)>) -> Option<Seq<char>>
    decreases fields.len(),
{
    if fields.len() == 0 {
        None
    } else {
        let (name, value) = fields.last();
        if name == "content-type"@ && visible_text(value) is Some {
            visible_text(value)
        } else {
            response_content_type(fields.drop_last())
        }
    }
}

/// The names and values of a list of fields.
pub open spec fn field_texts(headers: Seq<(String, String)>) -> Seq<(Seq<char>, Seq<char>)> {
    headers.map_values(|field: (String, String)| (field.0@, field.1@))
}

/// Whether `response` is what is made of an upstream response with the given fields.
pub open spec fn maps_response(
    status: u16,
    fields: Seq<(Seq<char>, Seq<u8>)>,
    body: Seq<u8>,
    response: HandlerResponse,
) -> bool {
    &&& response.status == status
    &&& response.body is Some
    &&& response.body->0@ == body
    &&& opt_string(response.content_type) == response_content_type(fields)
    &&& field_texts(response.headers@) == response_fields(fields)
    &&& response.etag is None
}

/// The response that is made of an upstream response.
pub fn map_upstream_response(upstream: UpstreamResponse) -> (response: HandlerResponse)
    ensures
        maps_response(upstream.status, fields_of(upstream.headers), upstream.body@, response),
{
    proof {
        lemma_field_names();
    }
    let fields = list_fields(&upstream.headers);
    let ghost all = fields_of(upstream.headers);
    let mut headers: Vec<(String, String)> = Vec::new();
    let mut content_type: Option<String> = None;
    let mut idx: usize = 0;
    assert(field_texts(headers@) =~= response_fields(all.take(0)));
    while idx < fields.len()
        invariant
            idx <= fields@.len(),
            !is_hop_by_hop("content-type"@),
            fields@.len() == all.len(),
            forall|i: int|
                0 <= i < fields@.len() ==> all[i] == (
                    (#[trigger] fields@[i]).0@,
                    value_bytes(fields@[i].1),
                ),
            opt_string(content_type) == response_content_type(all.take(idx as int)),
            field_texts(headers@) == response_fields(all.take(idx as int)),
        decreases fields@.len() - idx,
    {
        let ghost before = headers@;
        let name = fields[idx].0.as_str();
        proof {
            assert(all[idx as int] == (fields@[idx as int].0@, value_bytes(fields@[idx as int].1)));
            assert(all.take(idx + 1).drop_last() =~= all.take(idx as int));
            assert(all.take(idx + 1).last() == all[idx as int]);
        }
        if !should_skip_response_header(name) {
            if same_text(name, "content-type") {
                if let Some(text) = value_text(&fields[idx].1) {
                    content_type = Some(text);
                }
            } else if let Some(text) = value_text(&fields[idx].1) {
                headers.push((fields[idx].0.clone(), text));
                assert(field_texts(headers@) =~= field_texts(before).push(
                    (fields@[idx as int].0@, text@),
                ));
            }
        }
        idx = idx + 1;
    }
    assert(all.take(fields@.len() as int) =~= all);
    HandlerResponse {
        status: upstream.status,
        body: Some(upstream.body),
        content_type,
        headers,
        etag: None,
    }
}

/// Whether `response` is the response to a request that was sent to a backend: what is made of the
/// backend's answer, or 502 and the error of the connection to it.
pub open spec fn finishes(
    outcome: Result<UpstreamResponse, String>,
    response: HandlerResponse,
) -> bool {
    match outcome {
        Ok(upstream) => maps_response(
            upstream.status,
            fields_of(upstream.headers),
            upstream.body@,
            response,
        ),
        Err(message) => response.is_text(502, "upstream error: "@ + message@),
    }
}

/// The response to a request that was sent to a backend: what the backend answered, or an error of
/// the connection to it.
pub fn finish_http(outcome: Result<UpstreamResponse, String>) -> (response: HandlerResponse)
    ensures
        finishes(outcome, response),
{
    match outcome {
        Ok(upstream) => map_upstream_response(upstream),
        Err(message) => text_response(502, "upstream error: ".to_owned().concat(&message).as_str()),
    }
}

} // verus!
