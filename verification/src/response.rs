//! The responses that the proxy hands to the server.

use vstd::prelude::*;
use vstd::string::*;
use vstd::utf8::encode_utf8;

verus! {

/// A response to a request.
#[derive(Debug)]
pub struct HandlerResponse {
    pub status: u16,
    pub body: Option<Vec<u8>>,
    pub content_type: Option<String>,
    pub headers: Vec<(String, String)>,
    pub etag: Option<String>,
}

impl HandlerResponse {
    /// Whether the response has the given status, body and content type, and nothing else.
    pub open spec fn is_plain(self, status: u16, body: Seq<u8>, content_type: Seq<char>) -> bool {
        &&& self.status == status
        &&& self.body is Some
        &&& self.body->0@ == body
        &&& self.content_type is Some
        &&& self.content_type->0@ == content_type
        &&& self.headers@.len() == 0
        &&& self.etag is None
    }

    /// Whether the response is the given message as plain text.
    pub open spec fn is_text(self, status: u16, message: Seq<char>) -> bool {
        self.is_plain(status, encode_utf8(message), "text/plain"@)
    }
}

/// A response that holds a message as plain text.
pub fn text_response(status: u16, message: &str) -> (response: HandlerResponse)
    ensures
        response.is_text(status, message@),
{
    HandlerResponse {
        status,
        body: Some(message.as_bytes_vec()),
        content_type: Some("text/plain".to_owned()),
        headers: Vec::new(),
        etag: None,
    }
}

/// A response that holds a JSON document; `{}` where the document could not be encoded.
pub fn json_response(encoded: Option<Vec<u8>>, status: u16) -> (response: HandlerResponse)
    ensures
        response.is_plain(
            status,
            match encoded {
                Some(document) => document@,
                None => seq![0x7bu8, 0x7du8],
            },
            "application/json"@,
        ),
{
    let body = match encoded {
        Some(document) => document,
        None => vec![0x7bu8, 0x7du8],
    };
    HandlerResponse {
        status,
        body: Some(body),
        content_type: Some("application/json".to_owned()),
        headers: Vec::new(),
        etag: None,
    }
}

/// The chunks of a body, put together.
#[derive(Debug)]
pub struct BodyCollector {
    data: Vec<u8>,
}

impl View for BodyCollector {
    type V = Seq<u8>;

    closed spec fn view(&self) -> Seq<u8> {
        self.data@
    }
}

impl BodyCollector {
    /// No chunks so far.
    pub fn new() -> (collector: Self)
        ensures
            collector@ == Seq::<u8>::empty(),
    {
        BodyCollector { data: Vec::new() }
    }

    /// Puts a chunk behind what was collected.
    pub fn push(&mut self, chunk: &[u8])
        ensures
            final(self)@ == old(self)@ + chunk@,
    {
        self.data.extend_from_slice(chunk);
    }

    /// The body that was collected.
    pub fn finish(self) -> (body: Vec<u8>)
        ensures
            body@ == self@,
    {
        self.data
    }
}

} // verus!
