//! Header maps of the `http` crate, and the operations on them that the proxy relies on.

use crate::text::same_text;
use http::header::{HeaderMap, HeaderName, HeaderValue, MaxSizeReached};
use vstd::prelude::*;
use vstd::utf8::encode_utf8;

verus! {

#[verifier::external_type_specification]
#[verifier::external_body]
#[verifier::reject_recursive_types(T)]
pub struct ExHeaderMap<T>(http::header::HeaderMap<T>);

#[verifier::external_type_specification]
#[verifier::external_body]
pub struct ExHeaderValue(http::header::HeaderValue);

#[verifier::external_type_specification]
#[verifier::external_body]
pub struct ExMaxSizeReached(http::header::MaxSizeReached);

/// The bytes that a header value holds.
pub uninterp spec fn value_bytes(value: HeaderValue) -> Seq<u8>;

/// The fields that a header map holds, each a name and the bytes of a value, in the order in which
/// the map is walked.
pub uninterp spec fn fields_of(map: HeaderMap<HeaderValue>) -> Seq<(Seq<char>, Seq<u8>)>;

/// Whether `c` may stand in the name of a header field: a lower-case letter, a digit or one of a
/// few signs.
pub open spec fn is_name_char(c: char) -> bool {
    ||| 'a' <= c <= 'z'
    ||| '0' <= c <= '9'
    ||| c == '!' || c == '"' || c == '#' || c == '$' || c == '%' || c == '&' || c == '\''
    ||| c == '*' || c == '+' || c == '-' || c == '.' || c == '^' || c == '_' || c == '`'
    ||| c == '|' || c == '~'
}

/// Whether `name` is the name of a header field, in lower case.
pub open spec fn is_field_name(name: Seq<char>) -> bool {
    &&& 0 < name.len() <= 0xffff
    &&& forall|i: int| 0 <= i < name.len() ==> is_name_char(#[trigger] name[i])
}

/// Whether `bytes` can be the value of a header field: no control characters but the tab.
pub open spec fn is_field_value(bytes: Seq<u8>) -> bool {
    forall|i: int| 0 <= i < bytes.len() ==> #[trigger] bytes[i] >= 32 && bytes[i] != 127 || bytes[i]
        == 9
}

/// The values of the fields with the given name, in their order.
pub open spec fn values_named(fields: Seq<(Seq<char>, Seq<u8>)>, name: Seq<char>) -> Seq<Seq<u8>>
    decreases fields.len(),
{
    if fields.len() == 0 {
        Seq::empty()
    } else {
        let rest = values_named(fields.drop_last(), name);
        if fields.last().0 == name {
            rest.push(fields.last().1)
        } else {
            rest
        }
    }
}

/// The text of a header value, if it has only visible ASCII characters and tabs.
pub open spec fn visible_text(bytes: Seq<u8>) -> Option<Seq<char>> {
    if forall|i: int| 0 <= i < bytes.len() ==> 32 <= #[trigger] bytes[i] < 127 || bytes[i] == 9 {
        Some(bytes.map_values(|b: u8| b as char))
    } else {
        None
    }
}

/// `HeaderValue::clone`, which is derived: a value with the same bytes.
pub assume_specification[ <HeaderValue as Clone>::clone ](value: &HeaderValue) -> (copy: HeaderValue)
    ensures
        value_bytes(copy) == value_bytes(*value),
;

/// `HeaderMap::new`: a map without fields.
#[verifier::external_body]
pub(crate) fn new_headers() -> (map: HeaderMap<HeaderValue>)
    ensures
        fields_of(map) == Seq::<(Seq<char>, Seq<u8>)>::empty(),
{
    HeaderMap::new()
}

/// `HeaderMap::iter`: hands out every field once, the name as text and the value as a copy. The
/// names are in lower case, as every `HeaderName` is.
#[verifier::external_body]
pub(crate) fn list_fields(map: &HeaderMap<HeaderValue>) -> (fields: Vec<(String, HeaderValue)>)
    ensures
        fields@.len() == fields_of(*map).len(),
        forall|i: int|
            0 <= i < fields@.len() ==> {
                &&& fields_of(*map)[i] == ((#[trigger] fields@[i]).0@, value_bytes(fields@[i].1))
                &&& is_field_name(fields@[i].0@)
            },
{
    map.iter().map(|(name, value)| (name.as_str().to_string(), value.clone())).collect()
}

/// `HeaderMap::contains_key`: whether a field has the given name.
#[verifier::external_body]
pub(crate) fn contains_field(map: &HeaderMap<HeaderValue>, name: &str) -> (r: bool)
    requires
        is_field_name(name@),
    ensures
        r == (values_named(fields_of(*map), name@).len() > 0),
{
    map.contains_key(HeaderName::from_lowercase(name.as_bytes()).unwrap())
}

/// `HeaderMap::get`: the first value of the fields with the given name, as a copy.
#[verifier::external_body]
pub(crate) fn first_value(map: &HeaderMap<HeaderValue>, name: &str) -> (r: Option<HeaderValue>)
    requires
        is_field_name(name@),
    ensures
        match r {
            Some(value) => {
                &&& values_named(fields_of(*map), name@).len() > 0
                &&& value_bytes(value) == values_named(fields_of(*map), name@)[0]
            },
            None => values_named(fields_of(*map), name@).len() == 0,
        },
{
    map.get(HeaderName::from_lowercase(name.as_bytes()).unwrap()).cloned()
}

/// `HeaderMap::try_append`: adds a value behind those that the name has, and tells whether it had
/// any. It fails, and changes no field, only where the table of names would have to grow beyond
/// 32768 slots; that does not happen while a fifth of them would do. Nothing is said of a larger
/// map, where it depends on how the table came to be, nor of the place of the field among those
/// with other names, which the crate leaves open.
#[verifier::external_body]
pub(crate) fn append_field(map: &mut HeaderMap<HeaderValue>, name: &str, value: HeaderValue) -> (r:
    Result<bool, MaxSizeReached>)
    requires
        is_field_name(name@),
    ensures
        match r {
            Ok(present) => {
                &&& present == (values_named(fields_of(*old(map)), name@).len() > 0)
                &&& fields_of(*final(map)).len() == fields_of(*old(map)).len() + 1
                &&& forall|n: Seq<char>| #[trigger]
                    values_named(fields_of(*final(map)), n) == if n == name@ {
                        values_named(fields_of(*old(map)), n).push(value_bytes(value))
                    } else {
                        values_named(fields_of(*old(map)), n)
                    }
            },
            Err(_) => fields_of(*final(map)) == fields_of(*old(map)),
        },
        fields_of(*old(map)).len() * 5 < 32768 ==> r is Ok,
{
    map.try_append(HeaderName::from_lowercase(name.as_bytes()).unwrap(), value)
}

/// `HeaderValue::from_str`: a value with the bytes of the text, if they can stand in one.
#[verifier::external_body]
pub(crate) fn value_from_text(text: &str) -> (r: Option<HeaderValue>)
    ensures
        match r {
            Some(value) => is_field_value(encode_utf8(text@)) && value_bytes(value) == encode_utf8(
                text@,
            ),
            None => !is_field_value(encode_utf8(text@)),
        },
{
    HeaderValue::from_str(text).ok()
}

/// `HeaderValue::to_str`: the value as text, if it has only visible ASCII characters and tabs.
#[verifier::external_body]
pub(crate) fn value_text(value: &HeaderValue) -> (r: Option<String>)
    ensures
        match r {
            Some(text) => visible_text(value_bytes(*value)) == Some(text@),
            None => visible_text(value_bytes(*value)) is None,
        },
{
    value.to_str().ok().map(|text| text.to_string())
}

/// Whether a field with the given name is about one connection only, and so not forwarded.
pub open spec fn is_hop_by_hop(name: Seq<char>) -> bool {
    ||| name == "connection"@
    ||| name == "keep-alive"@
    ||| name == "proxy-authenticate"@
    ||| name == "proxy-authorization"@
    ||| name == "te"@
    ||| name == "trailer"@
    ||| name == "transfer-encoding"@
    ||| name == "upgrade"@
    ||| name == "proxy-connection"@
}

/// The names of the fields that the proxy adds, or looks at, are valid, different from each other
/// and from those of the fields about one connection.
pub(crate) proof fn lemma_field_names()
    ensures
        is_field_name("x-request-id"@),
        is_field_name("x-forwarded-host"@),
        is_field_name("x-forwarded-proto"@),
        is_field_name("host"@),
        "x-request-id"@ != "x-forwarded-host"@,
        "x-request-id"@ != "x-forwarded-proto"@,
        "x-request-id"@ != "host"@,
        "x-forwarded-host"@ != "x-forwarded-proto"@,
        "x-forwarded-host"@ != "host"@,
        "x-forwarded-proto"@ != "host"@,
        !is_hop_by_hop("host"@),
        !is_hop_by_hop("x-request-id"@),
        !is_hop_by_hop("x-forwarded-host"@),
        !is_hop_by_hop("x-forwarded-proto"@),
        !is_hop_by_hop("content-type"@),
{
    reveal_strlit("connection");
    reveal_strlit("keep-alive");
    reveal_strlit("proxy-authenticate");
    reveal_strlit("proxy-authorization");
    reveal_strlit("te");
    reveal_strlit("trailer");
    reveal_strlit("transfer-encoding");
    reveal_strlit("upgrade");
    reveal_strlit("proxy-connection");
    reveal_strlit("host");
    reveal_strlit("x-request-id");
    reveal_strlit("x-forwarded-host");
    reveal_strlit("x-forwarded-proto");
    reveal_strlit("content-type");
    assert("host"@.len() == 4);
    assert("x-request-id"@.len() == 12);
    assert("x-forwarded-host"@.len() == 16);
    assert("x-forwarded-proto"@.len() == 17);
    assert("content-type"@.len() == 12);
    assert("x-forwarded-host"@[0] == 'x');
    assert("x-forwarded-proto"@[0] == 'x');
    assert("proxy-connection"@[0] == 'p');
    assert("transfer-encoding"@[0] == 't');
}

/// Whether a field with the given name is about one connection only. Names are in lower case.
pub fn is_hop_by_hop_header(name: &str) -> (r: bool)
    ensures
        r == is_hop_by_hop(name@),
{
    same_text(name, "connection") || same_text(name, "keep-alive") || same_text(
        name,
        "proxy-authenticate",
    ) || same_text(name, "proxy-authorization") || same_text(name, "te") || same_text(
        name,
        "trailer",
    ) || same_text(name, "transfer-encoding") || same_text(name, "upgrade") || same_text(
        name,
        "proxy-connection",
    )
}

/// Whether a field of a request is left out of the upstream request.
pub open spec fn skips_request_field(name: Seq<char>) -> bool {
    is_hop_by_hop(name) || name == "host"@
}

/// Whether a field of a request is left out of the upstream request: the fields about one
/// connection, and `host`, which the upstream request has of its own.
pub fn should_skip_request_header(name: &str) -> (r: bool)
    ensures
        r == skips_request_field(name@),
{
    if is_hop_by_hop_header(name) {
        return true;
    }
    same_text(name, "host")
}

/// Whether a field of an upstream response is left out of the response.
pub fn should_skip_response_header(name: &str) -> (r: bool)
    ensures
        r == is_hop_by_hop(name@),
{
    is_hop_by_hop_header(name)
}

} // verus!
