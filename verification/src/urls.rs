//! The URL of a backend, and the URL of the upstream request that is made of it.

use crate::text::{same_text, trim_end_matches, trim_start_matches, without_prefixes, without_suffixes};
use vstd::prelude::*;
use vstd::string::*;

verus! {

/// The parts of a parsed URL: its serialization, and the pieces that this is made of.
pub struct UrlParts {
    pub text: Seq<char>,
    pub scheme: Seq<char>,
    /// The credentials, the host and the port.
    pub authority: Seq<char>,
    pub path: Seq<char>,
    pub query: Option<Seq<char>>,
    pub fragment: Option<Seq<char>>,
}

/// What `url::Url::parse` makes of a text: the parts of the URL, or what is wrong with the text, in
/// words.
pub uninterp spec fn url_parts(input: Seq<char>) -> Result<UrlParts, Seq<char>>;

/// The serialization of the URL that `base` writes, after `url::Url::set_path`.
pub uninterp spec fn url_with_path(base: Seq<char>, path: Seq<char>) -> Seq<char>;

/// The serialization of the URL that `base` writes, after `url::Url::set_query`.
pub uninterp spec fn url_with_query(base: Seq<char>, query: Option<Seq<char>>) -> Seq<char>;

/// The schemes of the URLs that the proxy forwards to.
pub open spec fn is_web_scheme(scheme: Seq<char>) -> bool {
    scheme == "http"@ || scheme == "https"@ || scheme == "ws"@ || scheme == "wss"@
}

/// The characters of an optional text.
pub open spec fn opt_text(text: Option<&str>) -> Option<Seq<char>> {
    match text {
        Some(t) => Some(t@),
        None => None,
    }
}

/// The characters of an optional string.
pub open spec fn opt_string(text: Option<String>) -> Option<Seq<char>> {
    match text {
        Some(t) => Some(t@),
        None => None,
    }
}

/// Whether `text` is a URL as the `url` crate writes it.
pub open spec fn is_serialized(text: Seq<char>) -> bool {
    url_parts(text) matches Ok(parts) && parts.text == text
}

/// An optional piece of a URL, behind the sign that it begins with.
pub open spec fn marked(mark: char, piece: Option<Seq<char>>) -> Seq<char> {
    match piece {
        Some(text) => seq![mark] + text,
        None => seq![],
    }
}

/// How a URL with a scheme that is forwarded is written.
pub open spec fn written(parts: UrlParts) -> Seq<char> {
    parts.scheme + seq![':', '/', '/'] + parts.authority + parts.path + marked('?', parts.query)
        + marked('#', parts.fragment)
}

/// A piece of a URL that is replaced.
#[derive(Debug, Clone, Copy, PartialEq, Eq, Structural)]
pub enum UrlPiece {
    Path,
    Query,
}

/// Whether a character is left out where it is set in a URL.
pub open spec fn is_dropped(c: char) -> bool {
    c == '\t' || c == '\n' || c == '\r'
}

/// Whether an ASCII character is percent-encoded where it is set in a URL.
pub open spec fn is_encoded(piece: UrlPiece, c: char) -> bool {
    ||| c < ' '
    ||| c == '\u{7f}'
    ||| c == ' ' || c == '"' || c == '#' || c == '<' || c == '>'
    ||| match piece {
        UrlPiece::Path => c == '?' || c == '`' || c == '{' || c == '}',
        UrlPiece::Query => c == '\'',
    }
}

/// How many bytes a character has where it is set in a URL.
pub open spec fn encoded_char_len(piece: UrlPiece, c: char) -> nat {
    if is_dropped(c) {
        0
    } else if (c as u32) < 0x80 {
        if is_encoded(piece, c) {
            3
        } else {
            1
        }
    } else if (c as u32) < 0x800 {
        6
    } else if (c as u32) < 0x1_0000 {
        9
    } else {
        12
    }
}

/// How many bytes a text has where it is set in a URL. A path can become shorter, by its dot
/// segments.
pub open spec fn encoded_len(piece: UrlPiece, text: Seq<char>) -> nat
    decreases text.len(),
{
    if text.len() == 0 {
        0
    } else {
        encoded_len(piece, text.drop_last()) + encoded_char_len(piece, text.last())
    }
}

/// The length of an optional piece of a URL, with the sign that it begins with.
pub open spec fn marked_len(piece: Option<Seq<char>>) -> nat {
    match piece {
        Some(text) => text.len() + 1,
        None => 0,
    }
}

/// The number of bytes in front of the path of a URL.
pub open spec fn head_len(parts: UrlParts) -> int {
    parts.text.len() - parts.path.len() - marked_len(parts.query) - marked_len(parts.fragment)
}

/// How many bytes a path that is set in a URL can have besides its own: a slash in front of it;
/// and where the scheme is none of those that are forwarded, at most four.
pub open spec fn path_room(scheme: Seq<char>, path: Seq<char>) -> nat {
    if !is_web_scheme(scheme) {
        4
    } else if path.len() > 0 && path[0] == '/' {
        0
    } else {
        1
    }
}

/// The number of bytes of a URL up to the end of its path, after the path was set; dot segments can
/// make it smaller.
pub open spec fn new_path_end(parts: UrlParts, path: Seq<char>) -> int {
    head_len(parts) + path_room(parts.scheme, path) + encoded_len(UrlPiece::Path, path)
}

/// Whether a path can be set in a URL. The `url` crate keeps the positions at which the query and
/// the fragment begin in 32 bits, and panics where they do not fit.
pub open spec fn path_fits(parts: UrlParts, path: Seq<char>) -> bool {
    &&& head_len(parts) + parts.path.len() <= u32::MAX
    &&& new_path_end(parts, path) <= u32::MAX
    &&& parts.fragment is Some ==> new_path_end(parts, path) + marked_len(parts.query) <= u32::MAX
}

/// The number of bytes that a query adds to a URL, with the sign that it begins with.
pub open spec fn added_query_len(query: Option<Seq<char>>) -> nat {
    match query {
        Some(q) => encoded_len(UrlPiece::Query, q) + 1,
        None => 0,
    }
}

/// Whether a query can be set in a URL, by the positions at which the query and the fragment begin.
pub open spec fn query_fits(parts: UrlParts, query: Option<Seq<char>>) -> bool {
    let path_end = head_len(parts) + parts.path.len();
    &&& query is Some ==> path_end <= u32::MAX
    &&& parts.fragment is Some ==> path_end + added_query_len(query) <= u32::MAX
}

/// Whether a path and then a query can be set in a URL.
pub open spec fn both_fit(parts: UrlParts, path: Seq<char>, query: Option<Seq<char>>) -> bool {
    &&& path_fits(parts, path)
    &&& parts.fragment is Some ==> new_path_end(parts, path) + added_query_len(query) <= u32::MAX
}

/// Whether a path is set in a URL as it is: it begins with a slash, holds only characters that
/// stand for themselves, and no segment that could be a dot segment.
pub open spec fn is_plain_path(path: Seq<char>) -> bool {
    &&& path.len() > 0
    &&& path[0] == '/'
    &&& forall|i: int|
        0 <= i < path.len() ==> {
            &&& ' ' < #[trigger] path[i] <= '~'
            &&& !is_encoded(UrlPiece::Path, path[i])
            &&& path[i] != '\\'
            &&& i > 0 && path[i - 1] == '/' ==> path[i] != '.' && path[i] != '%'
        }
}

/// Whether a query is set in a URL as it is: it holds only characters that stand for themselves.
pub open spec fn is_plain_query(query: Seq<char>) -> bool {
    forall|i: int|
        0 <= i < query.len() ==> ' ' < #[trigger] query[i] <= '~' && !is_encoded(
            UrlPiece::Query,
            query[i],
        )
}

/// Whether `text` writes a URL with another path, which is no longer than the given one with its
/// percent-encoding, and is the given one where that is plain. This is claimed of the schemes that
/// are forwarded only.
pub open spec fn replaces_path(before: UrlParts, path: Seq<char>, text: Seq<char>) -> bool {
    is_web_scheme(before.scheme) ==> {
        &&& url_parts(text) matches Ok(after)
        &&& after == (UrlParts { text, path: after.path, ..before })
        &&& text == written(after)
        &&& after.path.len() <= path_room(before.scheme, path) + encoded_len(UrlPiece::Path, path)
        &&& is_plain_path(path) ==> after.path == path
    }
}

/// Whether `text` writes a URL with another query, which is there exactly where one is given, and
/// is the given one where that is plain. This is claimed of the schemes that are forwarded only.
pub open spec fn replaces_query(
    before: UrlParts,
    query: Option<Seq<char>>,
    text: Seq<char>,
) -> bool {
    is_web_scheme(before.scheme) ==> {
        &&& url_parts(text) matches Ok(after)
        &&& after == (UrlParts { text, query: after.query, ..before })
        &&& text == written(after)
        &&& after.query is Some <==> query is Some
        &&& query matches Some(q) ==> (is_plain_query(q) ==> after.query == query)
    }
}

/// A URL as it was parsed.
#[derive(Debug)]
struct ParsedUrl {
    text: String,
    scheme: String,
    authority: String,
    path: String,
    query: Option<String>,
    fragment: Option<String>,
}

impl View for ParsedUrl {
    type V = UrlParts;

    closed spec fn view(&self) -> UrlParts {
        UrlParts {
            text: self.text@,
            scheme: self.scheme@,
            authority: self.authority@,
            path: self.path@,
            query: opt_string(self.query),
            fragment: opt_string(self.fragment),
        }
    }
}

impl Clone for ParsedUrl {
    fn clone(&self) -> (copy: Self)
        ensures
            copy == *self,
    {
        ParsedUrl {
            text: self.text.clone(),
            scheme: self.scheme.clone(),
            authority: self.authority.clone(),
            path: self.path.clone(),
            query: match &self.query {
                Some(query) => Some(query.clone()),
                None => None,
            },
            fragment: match &self.fragment {
                Some(fragment) => Some(fragment.clone()),
                None => None,
            },
        }
    }
}

/// `url::Url::parse`, with the `as_str`, `scheme`, `authority`, `path`, `query` and `fragment` of
/// the URL that it returns, and the `Display` of its error. The contract names the result. Of a URL
/// with one of the forwarded schemes it claims that these pieces, which the crate cuts out of the
/// serialization, make it up; and that the URL is parsed again from it, which the crate lists as an
/// invariant of its `Url` (`Url::check_invariants`).
#[verifier::external_body]
fn parse_url(input: &str) -> (r: Result<ParsedUrl, String>)
    ensures
        match r {
            Ok(url) => {
                &&& url_parts(input@) == Ok::<UrlParts, Seq<char>>(url@)
                &&& is_web_scheme(url@.scheme) ==> {
                    &&& url@.text == written(url@)
                    &&& url_parts(url@.text) == Ok::<UrlParts, Seq<char>>(url@)
                }
            },
            Err(message) => url_parts(input@) == Err::<UrlParts, Seq<char>>(message@),
        },
{
    match url::Url::parse(input) {
        Ok(url) => Ok(ParsedUrl {
            text: url.as_str().to_string(),
            scheme: url.scheme().to_string(),
            authority: url.authority().to_string(),
            path: url.path().to_string(),
            query: url.query().map(|query| query.to_string()),
            fragment: url.fragment().map(|fragment| fragment.to_string()),
        }),
        Err(err) => Err(err.to_string()),
    }
}

/// `url::Url::set_path`, on the URL that `base` writes. The contract names the serialization of the
/// outcome. Where the URL has one of the forwarded schemes, it claims that the outcome is parsed
/// again as it is (`Url::check_invariants`), with the other pieces as they were; that the new path
/// is no longer than the given one is with its percent-encoding; and that a plain path is taken
/// over as it is.
#[verifier::external_body]
fn set_path(base: &str, path: &str) -> (text: String)
    requires
        is_serialized(base@),
        path_fits(url_parts(base@)->Ok_0, path@),
    ensures
        text@ == url_with_path(base@, path@),
        replaces_path(url_parts(base@)->Ok_0, path@, text@),
{
    let mut url = url::Url::parse(base).unwrap();
    url.set_path(path);
    url.as_str().to_string()
}

/// `url::Url::set_query`, on the URL that `base` writes. The contract names the serialization of
/// the outcome. Where the URL has one of the forwarded schemes, it claims that the outcome is
/// parsed again as it is (`Url::check_invariants`), with the other pieces as they were; that it has
/// a query exactly where one was given; and that a plain query is taken over as it is.
#[verifier::external_body]
fn set_query(base: &str, query: Option<&str>) -> (text: String)
    requires
        is_serialized(base@),
        query_fits(url_parts(base@)->Ok_0, opt_text(query)),
    ensures
        text@ == url_with_query(base@, opt_text(query)),
        replaces_query(url_parts(base@)->Ok_0, opt_text(query), text@),
{
    let mut url = url::Url::parse(base).unwrap();
    url.set_query(query);
    url.as_str().to_string()
}

/// The absolute URL of a backend.
#[derive(Debug)]
pub struct BackendUrl {
    url: ParsedUrl,
}

impl View for BackendUrl {
    type V = UrlParts;

    closed spec fn view(&self) -> UrlParts {
        self.url@
    }
}

impl Clone for BackendUrl {
    fn clone(&self) -> (copy: Self)
        ensures
            copy == *self,
    {
        proof {
            use_type_invariant(self);
        }
        BackendUrl { url: self.url.clone() }
    }
}

impl BackendUrl {
    #[verifier::type_invariant]
    spec fn parses_again(self) -> bool {
        is_web_scheme(self@.scheme) ==> {
            &&& self@.text == written(self@)
            &&& url_parts(self@.text) == Ok::<UrlParts, Seq<char>>(self@)
        }
    }

    /// The URL that `input` writes, or what is wrong with it, in words.
    pub fn parse(input: &str) -> (r: Result<BackendUrl, String>)
        ensures
            match r {
                Ok(url) => url_parts(input@) == Ok::<UrlParts, Seq<char>>(url@),
                Err(message) => url_parts(input@) == Err::<UrlParts, Seq<char>>(message@),
            },
    {
        match parse_url(input) {
            Ok(url) => Ok(BackendUrl { url }),
            Err(message) => Err(message),
        }
    }

    /// The serialization of the URL.
    pub fn as_str(&self) -> (text: &str)
        ensures
            text@ == self@.text,
    {
        self.url.text.as_str()
    }

    /// The scheme of the URL.
    pub fn scheme(&self) -> (scheme: &str)
        ensures
            scheme@ == self@.scheme,
    {
        self.url.scheme.as_str()
    }

    /// The path of the URL.
    pub fn path(&self) -> (path: &str)
        ensures
            path@ == self@.path,
    {
        self.url.path.as_str()
    }
}

/// The path of an upstream request: the path of the backend, without the slashes at its end, then
/// one slash and the path of the request, without the slashes at its start. Where the request has
/// no path left, the path of the backend stands alone; where neither has one, `/` does.
pub open spec fn joined_path(base: Seq<char>, request: Seq<char>) -> Seq<char> {
    let base = without_suffixes(base, '/');
    let request = without_prefixes(request, '/');
    if request.len() == 0 {
        if base.len() == 0 {
            "/"@
        } else {
            base
        }
    } else {
        base + "/"@ + request
    }
}

/// Joins the path of a backend and the path of a request.
pub fn join_paths(base: &str, request: &str) -> (path: String)
    ensures
        path@ == joined_path(base@, request@),
{
    proof {
        reveal_strlit("/");
    }
    let base_path = trim_end_matches(base, '/');
    let req_path = trim_start_matches(request, '/');
    if base_path.is_empty() {
        if req_path.is_empty() {
            "/".to_owned()
        } else {
            let path = "/".to_owned().concat(req_path);
            assert(path@ =~= base_path@ + "/"@ + req_path@);
            path
        }
    } else if req_path.is_empty() {
        base_path.to_owned()
    } else {
        base_path.to_owned().concat("/").concat(req_path)
    }
}

/// The slashes at the seam do not matter: one more at the end of the backend's path, or at the
/// start of the request's path, gives the same path.
pub proof fn law_slashes_at_the_seam_do_not_matter(base: Seq<char>, request: Seq<char>)
    ensures
        joined_path(base.push('/'), request) == joined_path(base, request),
        joined_path(base, "/"@ + request) == joined_path(base, request),
{
    reveal_strlit("/");
    assert(base.push('/').drop_last() =~= base);
    assert(("/"@ + request).drop_first() =~= request);
}

/// The path of an upstream request is never empty, and starts with the path of the backend,
/// without the slashes at its end.
pub proof fn law_joined_path_starts_with_base(base: Seq<char>, request: Seq<char>)
    ensures
        joined_path(base, request).len() > 0,
        without_suffixes(base, '/').is_prefix_of(joined_path(base, request)),
{
    reveal_strlit("/");
}

/// A backend without a path of its own gets the path of the request as it is, where that has one
/// slash at its start.
pub proof fn law_plain_backend_gets_the_request_path(request: Seq<char>)
    requires
        request.len() == 0 || request[0] != '/',
    ensures
        joined_path("/"@, "/"@ + request) == "/"@ + request,
        joined_path(seq![], "/"@ + request) == "/"@ + request,
{
    reveal_strlit("/");
    law_slashes_at_the_seam_do_not_matter(seq![], request);
    law_slashes_at_the_seam_do_not_matter("/"@, request);
    assert(without_suffixes("/"@, '/') =~= seq![]) by {
        assert("/"@.drop_last() =~= seq![]);
    }
    assert(joined_path(seq![], request) =~= "/"@ + request);
    assert(joined_path("/"@, request) =~= "/"@ + request);
}

/// Why there is no URL for an upstream request.
#[derive(Debug, Clone, Copy, PartialEq, Eq, Structural)]
pub enum UrlError {
    /// The URL of the backend is not parsed again from its serialization.
    DoesNotParse,
    /// The URL is too long to be composed.
    TooLong,
}

/// What the URL of an upstream request is: the backend's URL with the joined path, and then with
/// the query of the request.
pub open spec fn composed_url(
    base: Seq<char>,
    path: Seq<char>,
    query: Option<Seq<char>>,
) -> Result<Seq<char>, UrlError> {
    let with_path = url_with_path(base, path);
    if !is_serialized(base) {
        Err(UrlError::DoesNotParse)
    } else if !path_fits(url_parts(base)->Ok_0, path) {
        Err(UrlError::TooLong)
    } else if !is_serialized(with_path) {
        Err(UrlError::DoesNotParse)
    } else if !query_fits(url_parts(with_path)->Ok_0, query) {
        Err(UrlError::TooLong)
    } else {
        Ok(url_with_query(with_path, query))
    }
}

/// Whether a URL is the backend's URL with the given path and query: all other pieces are those of
/// the backend, and a plain path and a plain query stand in it as they are.
pub open spec fn is_composed_of(
    url: Seq<char>,
    base: UrlParts,
    path: Seq<char>,
    query: Option<Seq<char>>,
) -> bool {
    &&& url_parts(url) matches Ok(parts)
    &&& parts == (UrlParts { text: url, path: parts.path, query: parts.query, ..base })
    &&& url == written(parts)
    &&& is_plain_path(path) ==> parts.path == path
    &&& parts.query is Some <==> query is Some
    &&& query matches Some(q) ==> (is_plain_query(q) ==> parts.query == query)
}

/// How many bytes a character has where it is set in a URL.
fn encoded_char_length(piece: UrlPiece, c: char) -> (len: u128)
    ensures
        len == encoded_char_len(piece, c),
        len <= 12,
{
    if c == '\t' || c == '\n' || c == '\r' {
        0
    } else if (c as u32) < 0x80 {
        let common = c < ' ' || c == '\u{7f}' || c == ' ' || c == '"' || c == '#' || c == '<' || c
            == '>';
        let special = match piece {
            UrlPiece::Path => c == '?' || c == '`' || c == '{' || c == '}',
            UrlPiece::Query => c == '\'',
        };
        if common || special {
            3
        } else {
            1
        }
    } else if (c as u32) < 0x800 {
        6
    } else if (c as u32) < 0x1_0000 {
        9
    } else {
        12
    }
}

/// How many bytes a text has where it is set in a URL.
pub fn encoded_length(piece: UrlPiece, text: &str) -> (len: u128)
    ensures
        len == encoded_len(piece, text@),
        len <= 12 * usize::MAX,
{
    let count = text.unicode_len();
    let mut len: u128 = 0;
    for c in it: text.chars()
        invariant
            it.seq() == text@,
            count == text@.len(),
            it.index() <= count,
            len == encoded_len(piece, text@.take(it.index() as int)),
            len <= 12 * it.index(),
    {
        assert(text@.take(it.index() + 1).drop_last() =~= text@.take(it.index() as int));
        len = len + encoded_char_length(piece, c);
    }
    assert(text@.take(count as int) =~= text@);
    len
}

impl ParsedUrl {
    /// The length of an optional piece, with the sign that it begins with.
    fn marked_length(piece: &Option<String>) -> (len: u128)
        ensures
            len == marked_len(opt_string(*piece)),
            len <= usize::MAX + 1,
    {
        match piece {
            Some(text) => text.as_str().unicode_len() as u128 + 1,
            None => 0,
        }
    }

    /// Whether a path can be set in the URL.
    fn can_set_path(&self, path: &str) -> (r: bool)
        ensures
            r == path_fits(self@, path@),
    {
        let limit = u32::MAX as u128;
        let whole = self.text.as_str().unicode_len() as u128;
        let old_path = self.path.as_str().unicode_len() as u128;
        let old_query = ParsedUrl::marked_length(&self.query);
        let old_fragment = ParsedUrl::marked_length(&self.fragment);
        let room: u128 = if !has_web_scheme(self.scheme.as_str()) {
            4
        } else if path.unicode_len() > 0 && path.get_char(0) == '/' {
            0
        } else {
            1
        };
        let added = room + encoded_length(UrlPiece::Path, path);
        let query_behind: u128 = if self.fragment.is_some() {
            old_query
        } else {
            0
        };
        let tail = old_query + old_fragment;
        whole <= limit + tail && whole + added + query_behind <= limit + tail + old_path
    }

    /// Whether a query can be set in the URL.
    fn can_set_query(&self, query: Option<&str>) -> (r: bool)
        ensures
            r == query_fits(self@, opt_text(query)),
    {
        let limit = u32::MAX as u128;
        let whole = self.text.as_str().unicode_len() as u128;
        let tail = ParsedUrl::marked_length(&self.query) + ParsedUrl::marked_length(&self.fragment);
        let added: u128 = match query {
            Some(query) => encoded_length(UrlPiece::Query, query) + 1,
            None => 0,
        };
        (query.is_none() || whole <= limit + tail) && (self.fragment.is_none() || whole + added
            <= limit + tail)
    }
}

/// Whether a scheme is one of those that the proxy forwards to.
fn has_web_scheme(scheme: &str) -> (r: bool)
    ensures
        r == is_web_scheme(scheme@),
{
    same_text(scheme, "http") || same_text(scheme, "https") || same_text(scheme, "ws")
        || same_text(scheme, "wss")
}

/// What a text is parsed to, if it is a URL as the `url` crate writes it.
fn parse_serialized(text: &str) -> (r: Option<ParsedUrl>)
    ensures
        match r {
            Some(url) => is_serialized(text@) && url_parts(text@) == Ok::<UrlParts, Seq<char>>(
                url@,
            ),
            None => !is_serialized(text@),
        },
{
    match parse_url(text) {
        Ok(url) => if same_text(url.text.as_str(), text) {
            Some(url)
        } else {
            None
        },
        Err(_) => None,
    }
}

/// The URL of the upstream request: the backend's URL with the joined path and with the query of
/// the request. With one of the forwarded schemes there always is one, unless the positions of its
/// pieces do not fit 32 bits.
pub fn compose_backend_url(base: &BackendUrl, path: &str, query: Option<&str>) -> (r: Result<
    String,
    UrlError,
>)
    ensures
        match r {
            Ok(url) => composed_url(base@.text, joined_path(base@.path, path@), opt_text(query))
                == Ok::<Seq<char>, UrlError>(url@),
            Err(e) => composed_url(base@.text, joined_path(base@.path, path@), opt_text(query))
                == Err::<Seq<char>, UrlError>(e),
        },
        is_web_scheme(base@.scheme) ==> r != Err::<String, UrlError>(UrlError::DoesNotParse),
        is_web_scheme(base@.scheme) && both_fit(
            base@,
            joined_path(base@.path, path@),
            opt_text(query),
        ) ==> r is Ok,
        is_web_scheme(base@.scheme) && r is Ok ==> is_composed_of(
            r->Ok_0@,
            base@,
            joined_path(base@.path, path@),
            opt_text(query),
        ),
{
    proof {
        use_type_invariant(base);
    }
    let combined = join_paths(base.path(), path);
    let parsed = match parse_serialized(base.as_str()) {
        Some(parsed) => parsed,
        None => {
            return Err(UrlError::DoesNotParse);
        },
    };
    if !parsed.can_set_path(combined.as_str()) {
        return Err(UrlError::TooLong);
    }
    let with_path = set_path(base.as_str(), combined.as_str());
    let parsed = match parse_serialized(with_path.as_str()) {
        Some(parsed) => parsed,
        None => {
            return Err(UrlError::DoesNotParse);
        },
    };
    if !parsed.can_set_query(query) {
        return Err(UrlError::TooLong);
    }
    Ok(set_query(with_path.as_str(), query))
}

} // verus!
