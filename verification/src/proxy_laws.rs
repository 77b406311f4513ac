//! What holds of every request that is forwarded and of every response that is passed on.

use crate::headers::{
    fields_of, is_field_value, is_hop_by_hop, lemma_field_names, skips_request_field, values_named,
    visible_text,
};
use crate::pool::BackendLease;
use crate::proxy::{
    added_values, field_texts, finishes, forwards, has_upstream_fields, leased,
    makes_upstream_headers, maps_response, parsed_text, proxies, response_content_type, response_fields, upstream_url,
    upstream_values, uri_authority, Forward, HeaderError, ProxyRequest, UpstreamResponse,
};
use crate::response::HandlerResponse;
use crate::urls::{is_web_scheme, opt_string};
use crate::websocket::{
    handshake_values, has_handshake_fields, host_part, is_base64_digit, is_handshake_key,
    lemma_handshake_fields, opens, other_side, proxies_websocket, relay_action, relay_is_open,
    RelayAction, RelayEvent, RelaySide, WebSocketError, WebSocketRequest,
};
use http::header::{HeaderMap, HeaderValue};
use vstd::prelude::*;
use vstd::utf8::encode_utf8;

verus! {

/// A request that is sent upstream has the method of the request, the given URL and exactly the
/// fields that the other laws speak of; the host is the authority of the URL.
pub proof fn law_sent_request_has_the_upstream_fields(
    url: Seq<char>,
    parsed: Result<Option<Seq<char>>, Seq<char>>,
    req: ProxyRequest,
    forward: Forward,
    n: Seq<char>,
)
    requires
        forwards(url, parsed, req, forward),
        forward is Send,
    ensures
        parsed is Ok,
        forward->Send_0.method@ == req.method@,
        forward->Send_0.url@ == url,
        values_named(fields_of(forward->Send_0.headers), n) == upstream_values(
            fields_of(req.headers),
            n,
            opt_string(req.request_id),
            parsed->Ok_0,
        ),
{
}

/// The request that opens a WebSocket connection goes to the given URL and has exactly the fields
/// of a handshake: of the client's request, only the id is passed on.
pub proof fn law_opening_request_has_the_handshake_fields(
    url: Seq<char>,
    parsed: Result<Option<Seq<char>>, Seq<char>>,
    key: Seq<char>,
    request_id: Option<Seq<char>>,
    r: Result<WebSocketRequest, WebSocketError>,
    n: Seq<char>,
)
    requires
        opens(url, parsed, key, request_id, r),
        r is Ok,
    ensures
        parsed matches Ok(Some(authority)) && values_named(fields_of(r->Ok_0.headers), n)
            == handshake_values(n, host_part(authority), key, request_id),
        r->Ok_0.url@ == url,
{
}

/// No field about one connection is sent upstream.
pub proof fn law_no_hop_by_hop_upstream(
    fields: Seq<(Seq<char>, Seq<u8>)>,
    n: Seq<char>,
    request_id: Option<Seq<char>>,
    authority: Option<Seq<char>>,
)
    requires
        is_hop_by_hop(n),
    ensures
        upstream_values(fields, n, request_id, authority).len() == 0,
{
    lemma_field_names();
}

/// The `host` of an upstream request is that of the backend, whatever the client sent; the host
/// that the client asked for is passed on behind what `x-forwarded-host` held before.
pub proof fn law_host_is_that_of_the_backend(
    fields: Seq<(Seq<char>, Seq<u8>)>,
    request_id: Option<Seq<char>>,
    authority: Seq<char>,
)
    ensures
        upstream_values(fields, "host"@, request_id, Some(authority)) == seq![
            encode_utf8(authority),
        ],
        values_named(fields, "host"@).len() > 0 ==> upstream_values(
            fields,
            "x-forwarded-host"@,
            request_id,
            Some(authority),
        ) == values_named(fields, "x-forwarded-host"@).push(values_named(fields, "host"@)[0]),
{
    lemma_field_names();
    assert(upstream_values(fields, "host"@, request_id, Some(authority)) =~= seq![
        encode_utf8(authority),
    ]);
    if values_named(fields, "host"@).len() > 0 {
        assert(upstream_values(fields, "x-forwarded-host"@, request_id, Some(authority))
            =~= values_named(fields, "x-forwarded-host"@).push(values_named(fields, "host"@)[0]));
    }
}

/// The id of a request is propagated: what the client sent as the id is forwarded as it is, and
/// where the client sent none, the id that the proxy has is sent.
pub proof fn law_request_id_is_propagated(
    fields: Seq<(Seq<char>, Seq<u8>)>,
    request_id: Seq<char>,
    authority: Option<Seq<char>>,
)
    ensures
        upstream_values(fields, "x-request-id"@, Some(request_id), authority) == if values_named(
            fields,
            "x-request-id"@,
        ).len() > 0 {
            values_named(fields, "x-request-id"@)
        } else {
            seq![encode_utf8(request_id)]
        },
{
    lemma_field_names();
    assert(upstream_values(fields, "x-request-id"@, Some(request_id), authority) =~= if values_named(
        fields,
        "x-request-id"@,
    ).len() > 0 {
        values_named(fields, "x-request-id"@)
    } else {
        seq![encode_utf8(request_id)]
    });
}

/// The protocol is always passed on: as an earlier proxy gave it, or else as `https`.
pub proof fn law_protocol_is_passed_on(
    fields: Seq<(Seq<char>, Seq<u8>)>,
    request_id: Option<Seq<char>>,
    authority: Option<Seq<char>>,
)
    ensures
        upstream_values(fields, "x-forwarded-proto"@, request_id, authority) == if values_named(
            fields,
            "x-forwarded-proto"@,
        ).len() > 0 {
            values_named(fields, "x-forwarded-proto"@)
        } else {
            seq![encode_utf8("https"@)]
        },
{
    lemma_field_names();
    assert(upstream_values(fields, "x-forwarded-proto"@, request_id, authority)
        =~= if values_named(fields, "x-forwarded-proto"@).len() > 0 {
        values_named(fields, "x-forwarded-proto"@)
    } else {
        seq![encode_utf8("https"@)]
    });
}

/// Every other field is forwarded as it is.
pub proof fn law_other_fields_are_forwarded(
    fields: Seq<(Seq<char>, Seq<u8>)>,
    n: Seq<char>,
    request_id: Option<Seq<char>>,
    authority: Option<Seq<char>>,
)
    requires
        !skips_request_field(n),
        n != "x-request-id"@,
        n != "x-forwarded-host"@,
        n != "x-forwarded-proto"@,
    ensures
        upstream_values(fields, n, request_id, authority) == values_named(fields, n),
{
    assert(added_values(fields, n, request_id, authority) =~= Seq::<Seq<u8>>::empty());
    assert(upstream_values(fields, n, request_id, authority) =~= values_named(fields, n));
}

/// No field about one connection is passed on from a backend, and the content type not among the
/// fields; what is passed on was a field of the upstream response, with that text as its value.
pub proof fn law_response_fields_are_upstream_fields(fields: Seq<(Seq<char>, Seq<u8>)>, i: int)
    requires
        0 <= i < response_fields(fields).len(),
    ensures
        !is_hop_by_hop(response_fields(fields)[i].0),
        response_fields(fields)[i].0 != "content-type"@,
        exists|j: int|
            0 <= j < fields.len() && (#[trigger] fields[j]).0 == response_fields(fields)[i].0
                && visible_text(fields[j].1) == Some(response_fields(fields)[i].1),
    decreases fields.len(),
{
    let rest = fields.drop_last();
    let last = fields.len() - 1;
    if i < response_fields(rest).len() {
        law_response_fields_are_upstream_fields(rest, i);
        let j = choose|j: int|
            0 <= j < rest.len() && (#[trigger] rest[j]).0 == response_fields(rest)[i].0
                && visible_text(rest[j].1) == Some(response_fields(rest)[i].1);
        assert(fields[j] == rest[j]);
    } else {
        assert(fields[last] == fields.last());
    }
}

/// Every field of an upstream response that is text, is not about one connection and is not the
/// content type is passed on.
pub proof fn law_text_fields_are_passed_on(fields: Seq<(Seq<char>, Seq<u8>)>, j: int)
    requires
        0 <= j < fields.len(),
        !is_hop_by_hop(fields[j].0),
        fields[j].0 != "content-type"@,
        visible_text(fields[j].1) is Some,
    ensures
        response_fields(fields).contains((fields[j].0, visible_text(fields[j].1)->0)),
    decreases fields.len(),
{
    let rest = fields.drop_last();
    let item = (fields[j].0, visible_text(fields[j].1)->0);
    if j < rest.len() {
        law_text_fields_are_passed_on(rest, j);
        let i = choose|i: int| 0 <= i < response_fields(rest).len() && response_fields(rest)[i]
            == item;
        assert(response_fields(fields)[i] == item);
    } else {
        assert(response_fields(fields).last() == item);
        assert(response_fields(fields)[response_fields(fields).len() - 1] == item);
    }
}

/// The opening handshake with a WebSocket backend has each of the fields that the protocol asks
/// for, once.
pub proof fn law_handshake_is_complete(
    host: Seq<char>,
    key: Seq<char>,
    request_id: Option<Seq<char>>,
)
    ensures
        handshake_values("host"@, host, key, request_id) == seq![encode_utf8(host)],
        handshake_values("connection"@, host, key, request_id) == seq![encode_utf8("Upgrade"@)],
        handshake_values("upgrade"@, host, key, request_id) == seq![encode_utf8("websocket"@)],
        handshake_values("sec-websocket-version"@, host, key, request_id) == seq![
            encode_utf8("13"@),
        ],
        handshake_values("sec-websocket-key"@, host, key, request_id) == seq![encode_utf8(key)],
{
    lemma_handshake_fields();
}

/// A relay is bidirectional: what comes from one side is sent to the other side.
pub proof fn law_relay_is_bidirectional(from: RelaySide)
    ensures
        relay_action(RelayEvent::Message(from)) == RelayAction::SendTo(other_side(from)),
        other_side(from) != from,
        other_side(other_side(from)) == from,
{
}

/// A relay stays open until either side closes or fails, and no longer: it goes on over the given
/// events exactly where all of them are messages.
pub proof fn law_relay_stays_open_until_a_side_closes(events: Seq<RelayEvent>)
    ensures
        relay_is_open(events) <==> forall|i: int|
            0 <= i < events.len() ==> !((#[trigger] events[i]) is Closed) && !(events[i] is Failed),
{
}

/// The fields about one connection are those with these nine names, and no others.
pub proof fn law_nine_names_are_about_one_connection(name: Seq<char>)
    ensures
        is_hop_by_hop(name) <==> name == "connection"@ || name == "keep-alive"@ || name
            == "proxy-authenticate"@ || name == "proxy-authorization"@ || name == "te"@ || name
            == "trailer"@ || name == "transfer-encoding"@ || name == "upgrade"@ || name
            == "proxy-connection"@,
        skips_request_field(name) <==> is_hop_by_hop(name) || name == "host"@,
{
}

/// The values with a name are those of the fields with that name, in their order: another field
/// adds its value at the end where it has the name, and changes nothing where it has not.
pub proof fn law_values_are_those_of_the_fields(
    fields: Seq<(Seq<char>, Seq<u8>)>,
    name: Seq<char>,
    value: Seq<u8>,
    n: Seq<char>,
)
    ensures
        values_named(Seq::<(Seq<char>, Seq<u8>)>::empty(), n).len() == 0,
        n == name ==> values_named(fields.push((name, value)), n) == values_named(fields, n).push(
            value,
        ),
        n != name ==> values_named(fields.push((name, value)), n) == values_named(fields, n),
{
    assert(fields.push((name, value)).drop_last() =~= fields);
}

/// Only ten names are left out of an upstream request: whatever the client sent under any other
/// name, a cookie for one, is sent upstream under it, all values in their order, in front of
/// anything that the proxy adds; and the proxy adds only under three names and `host`.
pub proof fn law_only_ten_names_are_left_out(
    fields: Seq<(Seq<char>, Seq<u8>)>,
    request_id: Option<Seq<char>>,
    authority: Option<Seq<char>>,
    r: Result<HeaderMap<HeaderValue>, HeaderError>,
    n: Seq<char>,
)
    requires
        makes_upstream_headers(fields, request_id, authority, r),
        r is Ok,
        n != "connection"@ && n != "keep-alive"@ && n != "proxy-authenticate"@ && n
            != "proxy-authorization"@ && n != "te"@ && n != "trailer"@ && n != "transfer-encoding"@
            && n != "upgrade"@ && n != "proxy-connection"@ && n != "host"@,
    ensures
        values_named(fields, n).is_prefix_of(values_named(fields_of(r->Ok_0), n)),
        n != "x-request-id"@ && n != "x-forwarded-host"@ && n != "x-forwarded-proto"@
            ==> values_named(fields_of(r->Ok_0), n) == values_named(fields, n),
{
    let headers = r->Ok_0;
    assert(has_upstream_fields(headers, fields, request_id, authority));
    assert(values_named(fields_of(headers), n) == upstream_values(
        fields,
        n,
        request_id,
        authority,
    ));
    assert(values_named(fields, n) + added_values(fields, n, request_id, authority)
        =~= upstream_values(fields, n, request_id, authority));
    if n != "x-request-id"@ && n != "x-forwarded-host"@ && n != "x-forwarded-proto"@ {
        law_other_fields_are_forwarded(fields, n, request_id, authority);
    }
}

/// Nothing is sent upstream under the nine names of the fields about one connection, whatever the
/// client sent.
pub proof fn law_nothing_is_sent_under_the_nine_names(
    fields: Seq<(Seq<char>, Seq<u8>)>,
    request_id: Option<Seq<char>>,
    authority: Option<Seq<char>>,
    r: Result<HeaderMap<HeaderValue>, HeaderError>,
    n: Seq<char>,
)
    requires
        makes_upstream_headers(fields, request_id, authority, r),
        r is Ok,
        n == "connection"@ || n == "keep-alive"@ || n == "proxy-authenticate"@ || n
            == "proxy-authorization"@ || n == "te"@ || n == "trailer"@ || n == "transfer-encoding"@
            || n == "upgrade"@ || n == "proxy-connection"@,
    ensures
        values_named(fields_of(r->Ok_0), n).len() == 0,
{
    let headers = r->Ok_0;
    assert(has_upstream_fields(headers, fields, request_id, authority));
    law_no_hop_by_hop_upstream(fields, n, request_id, authority);
}

/// What the proxy adds: the authority of the backend as the only `host`; the first host that the
/// client asked for, behind what `x-forwarded-host` held; `https` as `x-forwarded-proto` where the
/// client sent none; and the id of the request as `x-request-id` where the client sent none.
pub proof fn law_four_fields_are_added(
    fields: Seq<(Seq<char>, Seq<u8>)>,
    request_id: Option<Seq<char>>,
    authority: Option<Seq<char>>,
    r: Result<HeaderMap<HeaderValue>, HeaderError>,
)
    requires
        makes_upstream_headers(fields, request_id, authority, r),
        r is Ok,
    ensures
        ({
            let out = fields_of(r->Ok_0);
            let hosts = values_named(fields, "host"@);
            &&& authority is Some ==> values_named(out, "host"@) == seq![
                encode_utf8(authority->0),
            ]
            &&& authority is None ==> values_named(out, "host"@).len() == 0
            &&& hosts.len() > 0 ==> values_named(out, "x-forwarded-host"@) == values_named(
                fields,
                "x-forwarded-host"@,
            ).push(hosts[0])
            &&& hosts.len() == 0 ==> values_named(out, "x-forwarded-host"@) == values_named(
                fields,
                "x-forwarded-host"@,
            )
            &&& values_named(fields, "x-forwarded-proto"@).len() > 0 ==> values_named(
                out,
                "x-forwarded-proto"@,
            ) == values_named(fields, "x-forwarded-proto"@)
            &&& values_named(fields, "x-forwarded-proto"@).len() == 0 ==> values_named(
                out,
                "x-forwarded-proto"@,
            ) == seq![encode_utf8("https"@)]
            &&& values_named(fields, "x-request-id"@).len() > 0 || request_id is None
                ==> values_named(out, "x-request-id"@) == values_named(fields, "x-request-id"@)
            &&& values_named(fields, "x-request-id"@).len() == 0 && request_id is Some
                ==> values_named(out, "x-request-id"@) == seq![encode_utf8(request_id->0)]
        }),
{
    lemma_field_names();
    let headers = r->Ok_0;
    assert(has_upstream_fields(headers, fields, request_id, authority));
    let out = fields_of(headers);
    assert(values_named(out, "host"@) =~= added_values(fields, "host"@, request_id, authority));
    assert(values_named(out, "x-forwarded-host"@) =~= values_named(fields, "x-forwarded-host"@)
        + added_values(fields, "x-forwarded-host"@, request_id, authority));
    assert(values_named(out, "x-forwarded-proto"@) =~= values_named(fields, "x-forwarded-proto"@)
        + added_values(fields, "x-forwarded-proto"@, request_id, authority));
    assert(values_named(out, "x-request-id"@) =~= values_named(fields, "x-request-id"@)
        + added_values(fields, "x-request-id"@, request_id, authority));
    if values_named(fields, "host"@).len() > 0 {
        assert(values_named(out, "x-forwarded-host"@) =~= values_named(
            fields,
            "x-forwarded-host"@,
        ).push(values_named(fields, "host"@)[0]));
    }
}

/// A header is made for every request with fewer than 6550 fields where the id of the request and
/// the authority hold no control characters but the tab, whatever else they hold; an id or an
/// authority that does is the only other reason.
pub proof fn law_usual_headers_are_made(
    fields: Seq<(Seq<char>, Seq<u8>)>,
    request_id: Option<Seq<char>>,
    authority: Option<Seq<char>>,
    r: Result<HeaderMap<HeaderValue>, HeaderError>,
)
    requires
        makes_upstream_headers(fields, request_id, authority, r),
    ensures
        ({
            let id_is_wrong = request_id is Some && exists|i: int|
                0 <= i < encode_utf8(request_id->0).len() && (#[trigger] encode_utf8(
                    request_id->0,
                )[i] < 32 && encode_utf8(request_id->0)[i] != 9 || encode_utf8(request_id->0)[i]
                    == 127);
            let authority_is_wrong = authority is Some && exists|i: int|
                0 <= i < encode_utf8(authority->0).len() && (#[trigger] encode_utf8(
                    authority->0,
                )[i] < 32 && encode_utf8(authority->0)[i] != 9 || encode_utf8(authority->0)[i]
                    == 127);
            let id_is_sent = values_named(fields, "x-request-id"@).len() > 0;
            &&& fields.len() < 6550 && (id_is_sent || !id_is_wrong) && !authority_is_wrong ==> r is Ok
            &&& r == Err::<HeaderMap<HeaderValue>, HeaderError>(HeaderError::InvalidValue) ==> (
            !id_is_sent && id_is_wrong) || authority_is_wrong
            &&& r is Ok ==> (id_is_sent || !id_is_wrong) && !authority_is_wrong
        }),
{
    if request_id is Some {
        law_header_values_hold_no_control_characters(encode_utf8(request_id->0));
    }
    if authority is Some {
        law_header_values_hold_no_control_characters(encode_utf8(authority->0));
    }
}

/// A header value is valid exactly where none of its bytes is that of a control character but the
/// tab; bytes from 128 on are valid.
pub proof fn law_header_values_hold_no_control_characters(bytes: Seq<u8>)
    ensures
        is_field_value(bytes) <==> !(exists|i: int|
            0 <= i < bytes.len() && (#[trigger] bytes[i] < 32 && bytes[i] != 9 || bytes[i] == 127)),
{
    if !is_field_value(bytes) {
        let i = choose|i: int|
            0 <= i < bytes.len() && !(#[trigger] bytes[i] >= 32 && bytes[i] != 127 || bytes[i]
                == 9);
        assert(bytes[i] < 32 && bytes[i] != 9 || bytes[i] == 127);
    }
}

/// A request whose upstream URL is no URI is answered with 502 and the reason; any other one is
/// sent, with its method, to the URL, unless its header cannot be made.
pub proof fn law_requests_are_sent_where_they_can_be(
    url: Seq<char>,
    parsed: Result<Option<Seq<char>>, Seq<char>>,
    req: ProxyRequest,
    forward: Forward,
)
    requires
        forwards(url, parsed, req, forward),
    ensures
        parsed is Ok <==> !(forward is Respond),
        forward matches Forward::Respond(response) ==> {
            &&& response.status == 502
            &&& response.body is Some
            &&& response.body->0@ == encode_utf8("invalid backend uri: "@ + parsed->Err_0)
            &&& response.content_type is Some
            &&& response.content_type->0@ == "text/plain"@
            &&& response.headers@.len() == 0
            &&& response.etag is None
        },
        forward matches Forward::Send(upstream) ==> upstream.method@ == req.method@
            && upstream.url@ == url,
{
}

/// A text answer has the given status, the characters of the message as its body, `text/plain` as
/// its content type, and nothing else.
pub proof fn law_text_answers_hold_the_message(
    response: HandlerResponse,
    status: u16,
    message: Seq<char>,
)
    requires
        response.is_text(status, message),
    ensures
        response.status == status,
        response.body is Some,
        response.body->0@ == encode_utf8(message),
        response.content_type is Some,
        response.content_type->0@ == "text/plain"@,
        response.headers@.len() == 0,
        response.etag is None,
{
}

/// An answer with a document has the given status, the document as its body and the given content
/// type, and nothing else.
pub proof fn law_document_answers_hold_the_document(
    response: HandlerResponse,
    status: u16,
    document: Seq<u8>,
    content_type: Seq<char>,
)
    requires
        response.is_plain(status, document, content_type),
    ensures
        response.status == status,
        response.body is Some,
        response.body->0@ == document,
        response.content_type is Some,
        response.content_type->0@ == content_type,
        response.headers@.len() == 0,
        response.etag is None,
{
}

/// The text of a header value is its bytes, one character for each, where all of them are visible
/// ASCII characters, spaces or tabs, however many there are; and there is none where one is not.
pub proof fn law_header_text_is_visible_ascii(bytes: Seq<u8>)
    ensures
        visible_text(bytes) is Some <==> forall|i: int|
            0 <= i < bytes.len() ==> 0x20 <= #[trigger] bytes[i] <= 0x7e || bytes[i] == 0x09,
        visible_text(bytes) is Some ==> visible_text(bytes)->0.len() == bytes.len() && forall|
            i: int,
        |
            0 <= i < bytes.len() ==> (#[trigger] visible_text(bytes)->0[i]) as int == bytes[i],
{
    if visible_text(bytes) is Some {
        assert forall|i: int| 0 <= i < bytes.len() implies 0x20 <= #[trigger] bytes[i] <= 0x7e
            || bytes[i] == 0x09 by {}
    }
}

/// The content type of a response is that of the upstream response: the last value under that name
/// that is text, whatever it is; and there is none only where no value under that name is text.
pub proof fn law_content_type_is_passed_on(
    status: u16,
    fields: Seq<(Seq<char>, Seq<u8>)>,
    body: Seq<u8>,
    response: HandlerResponse,
    j: int,
)
    requires
        maps_response(status, fields, body, response),
        0 <= j < fields.len(),
        fields[j].0 == "content-type"@,
        visible_text(fields[j].1) is Some,
    ensures
        response.content_type is Some,
        (forall|k: int|
            j < k < fields.len() && (#[trigger] fields[k]).0 == "content-type"@ ==> visible_text(
                fields[k].1,
            ) is None) ==> response.content_type->0@ == visible_text(fields[j].1)->0,
{
    lemma_content_type_is_the_last(fields, j);
}

proof fn lemma_content_type_is_the_last(fields: Seq<(Seq<char>, Seq<u8>)>, j: int)
    requires
        0 <= j < fields.len(),
        fields[j].0 == "content-type"@,
        visible_text(fields[j].1) is Some,
    ensures
        response_content_type(fields) is Some,
        (forall|k: int|
            j < k < fields.len() && (#[trigger] fields[k]).0 == "content-type"@ ==> visible_text(
                fields[k].1,
            ) is None) ==> response_content_type(fields) == visible_text(fields[j].1),
    decreases fields.len(),
{
    let rest = fields.drop_last();
    let last = fields.len() - 1;
    assert(fields[last] == fields.last());
    if j < last {
        assert(rest[j] == fields[j]);
        lemma_content_type_is_the_last(rest, j);
        if forall|k: int|
            j < k < fields.len() && (#[trigger] fields[k]).0 == "content-type"@ ==> visible_text(
                fields[k].1,
            ) is None {
            assert forall|k: int|
                j < k < rest.len() && (
                #[trigger] rest[k]).0 == "content-type"@ implies visible_text(
                rest[k].1,
            ) is None by {
                assert(rest[k] == fields[k]);
            }
        }
    }
}

/// A response without a content type comes of an upstream response under whose content type no
/// value is text; and one with a content type of one that has that value.
pub proof fn law_content_type_is_not_made_up(
    status: u16,
    fields: Seq<(Seq<char>, Seq<u8>)>,
    body: Seq<u8>,
    response: HandlerResponse,
)
    requires
        maps_response(status, fields, body, response),
    ensures
        response.content_type is None ==> forall|j: int|
            0 <= j < fields.len() && (#[trigger] fields[j]).0 == "content-type"@ ==> visible_text(
                fields[j].1,
            ) is None,
        response.content_type is Some ==> exists|j: int|
            0 <= j < fields.len() && (#[trigger] fields[j]).0 == "content-type"@ && visible_text(
                fields[j].1,
            ) == Some(response.content_type->0@),
{
    if response.content_type is None {
        assert forall|j: int|
            0 <= j < fields.len() && (
            #[trigger] fields[j]).0 == "content-type"@ implies visible_text(fields[j].1) is None by {
            if visible_text(fields[j].1) is Some {
                lemma_content_type_is_the_last(fields, j);
            }
        }
    } else {
        lemma_content_type_has_a_source(fields);
    }
}

proof fn lemma_content_type_has_a_source(fields: Seq<(Seq<char>, Seq<u8>)>)
    requires
        response_content_type(fields) is Some,
    ensures
        exists|j: int|
            0 <= j < fields.len() && (#[trigger] fields[j]).0 == "content-type"@ && visible_text(
                fields[j].1,
            ) == response_content_type(fields),
    decreases fields.len(),
{
    let rest = fields.drop_last();
    let last = fields.len() - 1;
    assert(fields[last] == fields.last());
    if !(fields[last].0 == "content-type"@ && visible_text(fields[last].1) is Some) {
        lemma_content_type_has_a_source(rest);
        let j = choose|j: int|
            0 <= j < rest.len() && (#[trigger] rest[j]).0 == "content-type"@ && visible_text(
                rest[j].1,
            ) == response_content_type(rest);
        assert(fields[j] == rest[j]);
    }
}

/// The status and the body of a response are those of the upstream response, and it has no entity
/// tag of its own.
pub proof fn law_status_and_body_are_passed_on(
    status: u16,
    fields: Seq<(Seq<char>, Seq<u8>)>,
    body: Seq<u8>,
    response: HandlerResponse,
)
    requires
        maps_response(status, fields, body, response),
    ensures
        response.status == status,
        response.body is Some,
        response.body->0@ == body,
        response.etag is None,
{
}

/// The fields of a response are those of the upstream response, one by one and in order: another
/// field that is text is passed on behind the others, as it is, unless it has one of the nine names
/// or is the content type; and one that is left out changes nothing.
pub proof fn law_response_fields_come_one_by_one(
    fields: Seq<(Seq<char>, Seq<u8>)>,
    name: Seq<char>,
    value: Seq<u8>,
)
    ensures
        response_fields(Seq::<(Seq<char>, Seq<u8>)>::empty()).len() == 0,
        ({
            let left_out = name == "connection"@ || name == "keep-alive"@ || name
                == "proxy-authenticate"@ || name == "proxy-authorization"@ || name == "te"@ || name
                == "trailer"@ || name == "transfer-encoding"@ || name == "upgrade"@ || name
                == "proxy-connection"@ || name == "content-type"@ || visible_text(value) is None;
            &&& left_out ==> response_fields(fields.push((name, value))) == response_fields(fields)
            &&& !left_out ==> response_fields(fields.push((name, value))) == response_fields(
                fields,
            ).push((name, visible_text(value)->0))
        }),
{
    assert(fields.push((name, value)).drop_last() =~= fields);
}

/// A response has as many fields as are passed on, each with its name and its text.
pub proof fn law_response_holds_the_fields(
    status: u16,
    fields: Seq<(Seq<char>, Seq<u8>)>,
    body: Seq<u8>,
    response: HandlerResponse,
    i: int,
)
    requires
        maps_response(status, fields, body, response),
    ensures
        response.headers@.len() == response_fields(fields).len(),
        0 <= i < response.headers@.len() ==> response.headers@[i].0@ == response_fields(fields)[i].0
            && response.headers@[i].1@ == response_fields(fields)[i].1,
{
    assert(field_texts(response.headers@).len() == response.headers@.len());
    if 0 <= i < response.headers@.len() {
        assert(field_texts(response.headers@)[i] == (
            response.headers@[i].0@,
            response.headers@[i].1@,
        ));
    }
}

/// The host in an authority is what follows the first `@`, or all of it where it has none.
pub proof fn law_host_follows_the_credentials(credentials: Seq<char>, host: Seq<char>)
    requires
        forall|i: int| 0 <= i < credentials.len() ==> credentials[i] != '@',
    ensures
        host_part(credentials + seq!['@'] + host) == host,
        host_part(credentials) == credentials,
{
    let authority = credentials + seq!['@'] + host;
    let n = credentials.len() as int;
    assert(authority[n] == '@');
    authority.index_of_first_ensures('@');
    assert(authority.contains('@'));
    let i = authority.index_of_first('@')->0;
    assert(i == n) by {
        if i < n {
            assert(authority[i] == credentials[i]);
        }
    }
    assert(authority.skip(n + 1) =~= host);
    credentials.index_of_first_ensures('@');
}

/// An opening handshake is made for every URI with a host, unless a text holds control characters
/// but the tab; it has these five fields, the id of the request where there is one, and nothing
/// else.
pub proof fn law_opening_request_is_a_handshake(
    url: Seq<char>,
    authority: Seq<char>,
    key: Seq<char>,
    request_id: Option<Seq<char>>,
    r: Result<WebSocketRequest, WebSocketError>,
    n: Seq<char>,
)
    requires
        opens(
            url,
            Ok::<Option<Seq<char>>, Seq<char>>(Some(authority)),
            key,
            request_id,
            r,
        ),
        host_part(authority).len() > 0,
        is_field_value(encode_utf8(host_part(authority))),
        is_field_value(encode_utf8(key)),
        request_id is Some ==> is_field_value(encode_utf8(request_id->0)),
    ensures
        r is Ok,
        r->Ok_0.url@ == url,
        ({
            let fields = fields_of(r->Ok_0.headers);
            &&& values_named(fields, "host"@) == seq![encode_utf8(host_part(authority))]
            &&& values_named(fields, "connection"@) == seq![encode_utf8("Upgrade"@)]
            &&& values_named(fields, "upgrade"@) == seq![encode_utf8("websocket"@)]
            &&& values_named(fields, "sec-websocket-version"@) == seq![encode_utf8("13"@)]
            &&& values_named(fields, "sec-websocket-key"@) == seq![encode_utf8(key)]
            &&& request_id is Some ==> values_named(fields, "x-request-id"@) == seq![
                encode_utf8(request_id->0),
            ]
            &&& request_id is None ==> values_named(fields, "x-request-id"@).len() == 0
            &&& n != "host"@ && n != "connection"@ && n != "upgrade"@ && n
                != "sec-websocket-version"@ && n != "sec-websocket-key"@ && n != "x-request-id"@
                ==> values_named(fields, n).len() == 0
        }),
{
    lemma_handshake_fields();
    let headers = r->Ok_0.headers;
    assert(has_handshake_fields(headers, host_part(authority), key, request_id));
}

/// A URL that is no URI, or has no host, and texts that no header field can hold, are the reasons
/// why no handshake is made, each with its own error.
pub proof fn law_handshakes_fail_for_a_reason(
    url: Seq<char>,
    parsed: Result<Option<Seq<char>>, Seq<char>>,
    key: Seq<char>,
    request_id: Option<Seq<char>>,
    r: Result<WebSocketRequest, WebSocketError>,
)
    requires
        opens(url, parsed, key, request_id, r),
    ensures
        parsed matches Err(message) ==> (r matches Err(WebSocketError::InvalidUri(m)) && m@
            == message),
        parsed == Ok::<Option<Seq<char>>, Seq<char>>(None) ==> r matches Err(
            WebSocketError::NoHost,
        ),
        r matches Err(WebSocketError::InvalidUri(m)) ==> parsed is Err,
        r matches Err(WebSocketError::NoHost) ==> parsed is Ok && (parsed->Ok_0 is None
            || host_part(parsed->Ok_0->0).len() == 0),
        r matches Err(WebSocketError::Header(e)) ==> {
            &&& e == HeaderError::InvalidValue
            &&& !is_field_value(encode_utf8(host_part(parsed->Ok_0->0))) || !is_field_value(
                encode_utf8(key),
            ) || request_id is Some && !is_field_value(encode_utf8(request_id->0))
        },
        !(r matches Err(WebSocketError::NoBackend)) && !(r matches Err(WebSocketError::InvalidUrl)),
{
}

/// What the reasons why a connection is not forwarded say.
pub proof fn law_reasons_have_these_words(message: String)
    ensures
        WebSocketError::NoBackend.text() == "no websocket backends available"@,
        WebSocketError::InvalidUrl.text() == "the backend url does not parse"@,
        WebSocketError::InvalidUri(message).text() == message@,
        WebSocketError::NoHost.text() == "no host name in the url"@,
        WebSocketError::Header(HeaderError::InvalidValue).text()
            == "failed to parse header value"@,
        WebSocketError::Header(HeaderError::TooManyFields).text() == "max size reached"@,
{
}

/// What is done on a relay: messages go to the other side, and either side ends it.
pub proof fn law_relay_passes_messages_on(side: RelaySide)
    ensures
        relay_action(RelayEvent::Message(RelaySide::Client)) == RelayAction::SendTo(
            RelaySide::Backend,
        ),
        relay_action(RelayEvent::Message(RelaySide::Backend)) == RelayAction::SendTo(
            RelaySide::Client,
        ),
        relay_action(RelayEvent::Closed(side)) == RelayAction::Finish,
        relay_action(RelayEvent::Failed(side)) == RelayAction::Fail,
{
}

/// The lease behind a reference is the one that is referred to.
pub proof fn law_lease_is_the_one_given(lease: &BackendLease)
    ensures
        leased(Some(lease)) == Some(*lease),
        leased(None) is None,
{
}

/// What was parsed keeps its characters.
pub proof fn law_parsed_texts_keep_their_characters(authority: String, message: String)
    ensures
        parsed_text(Ok(Some(authority))) == Ok::<Option<Seq<char>>, Seq<char>>(Some(authority@)),
        parsed_text(Ok(None)) == Ok::<Option<Seq<char>>, Seq<char>>(None),
        parsed_text(Err(message)) == Err::<Option<Seq<char>>, Seq<char>>(message@),
{
}

/// The key of a handshake is 22 Base64 digits and two equals signs, as 16 bytes are written.
pub proof fn law_handshake_keys_write_sixteen_bytes(key: Seq<char>, i: int)
    requires
        is_handshake_key(key),
    ensures
        key.len() == 24,
        0 <= i < 22 ==> 'A' <= key[i] <= 'Z' || 'a' <= key[i] <= 'z' || '0' <= key[i] <= '9'
            || key[i] == '+' || key[i] == '/',
        key[22] == '=' && key[23] == '=',
{
    if 0 <= i < 22 {
        assert(is_base64_digit(key[i]));
    }
}

/// A request for which no backend was leased is answered with 503; one for which a backend with one
/// of the four schemes was leased is sent to the composed URL, with its method, wherever that URL
/// exists, is a URI and the header can be made, and answered with 502 where it is too long or no
/// URI.
pub proof fn law_requests_are_forwarded_or_answered(
    lease: Option<BackendLease>,
    req: ProxyRequest,
    forward: Forward,
)
    requires
        proxies(lease, req, forward),
    ensures
        lease is None ==> {
            &&& forward matches Forward::Respond(response)
            &&& response.status == 503
            &&& response.body is Some
            &&& response.body->0@ == encode_utf8("no http backends available"@)
        },
        lease is Some && upstream_url(lease->0, req) is Ok ==> {
            let url = upstream_url(lease->0, req)->Ok_0;
            &&& uri_authority(url) is Ok <==> !(forward is Respond)
            &&& forward matches Forward::Respond(response) ==> response.status == 502
                && response.body is Some && response.body->0@ == encode_utf8(
                "invalid backend uri: "@ + uri_authority(url)->Err_0,
            )
            &&& forward matches Forward::Send(upstream) ==> upstream.url@ == url
                && upstream.method@ == req.method@ && makes_upstream_headers(
                fields_of(req.headers),
                opt_string(req.request_id),
                uri_authority(url)->Ok_0,
                Ok(upstream.headers),
            )
            &&& forward matches Forward::Fail(e) ==> makes_upstream_headers(
                fields_of(req.headers),
                opt_string(req.request_id),
                uri_authority(url)->Ok_0,
                Err(e),
            )
        },
        lease is Some && upstream_url(lease->0, req) is Err ==> {
            &&& forward matches Forward::Respond(response)
            &&& response.status == 502
            &&& is_web_scheme(lease->0@.url@.scheme) ==> response.body is Some
                && response.body->0@ == encode_utf8("invalid backend uri: uri too long"@)
        },
{
}

/// What a backend answered is passed on; a connection that failed is answered with 502 and the
/// whole of the error.
pub proof fn law_answers_and_errors_are_passed_on(
    outcome: Result<UpstreamResponse, String>,
    response: HandlerResponse,
)
    requires
        finishes(outcome, response),
    ensures
        outcome matches Ok(upstream) ==> response.status == upstream.status && response.body is Some
            && response.body->0@ == upstream.body@ && maps_response(
            upstream.status,
            fields_of(upstream.headers),
            upstream.body@,
            response,
        ),
        outcome matches Err(message) ==> {
            &&& response.status == 502
            &&& response.body is Some
            &&& response.body->0@ == encode_utf8("upstream error: "@ + message@)
            &&& response.content_type is Some
            &&& response.content_type->0@ == "text/plain"@
            &&& response.headers@.len() == 0
        },
{
}

/// A WebSocket connection for which no backend was leased is not forwarded; for one with a backend
/// with one of the four schemes the handshake is that with the composed URL, under a key of its
/// own, wherever that URL exists.
pub proof fn law_connections_are_opened_or_refused(
    lease: Option<BackendLease>,
    req: ProxyRequest,
    r: Result<WebSocketRequest, WebSocketError>,
)
    requires
        proxies_websocket(lease, req, r),
    ensures
        lease is None <==> r matches Err(WebSocketError::NoBackend),
        lease is Some && upstream_url(lease->0, req) is Ok ==> {
            let url = upstream_url(lease->0, req)->Ok_0;
            exists|key: Seq<char>|
                {
                    &&& key.len() == 24
                    &&& is_field_value(encode_utf8(key))
                    &&& #[trigger] opens(
                        url,
                        uri_authority(url),
                        key,
                        opt_string(req.request_id),
                        r,
                    )
                }
        },
        lease is Some && upstream_url(lease->0, req) is Err && is_web_scheme(
            lease->0@.url@.scheme,
        ) ==> (r matches Err(WebSocketError::InvalidUri(message)) && message@ == "uri too long"@),
{
    if lease is Some && upstream_url(lease->0, req) is Ok {
        let url = upstream_url(lease->0, req)->Ok_0;
        let key = choose|key: Seq<char>|
            {
                &&& is_handshake_key(key)
                &&& is_field_value(encode_utf8(key))
                &&& #[trigger] opens(
                    url,
                    uri_authority(url),
                    key,
                    opt_string(req.request_id),
                    r,
                )
            };
        law_handshakes_fail_for_a_reason(
            url,
            uri_authority(url),
            key,
            opt_string(req.request_id),
            r,
        );
    }
}

} // verus!
