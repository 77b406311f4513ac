//! What the URL of an upstream request is made of.

use crate::pool::BackendLease;
use crate::proxy::{reaches_backend, upstream_url, ProxyRequest};
use crate::urls::{
    both_fit, composed_url, encoded_char_len, encoded_len, head_len, is_plain_path, is_plain_query,
    is_web_scheme, joined_path, path_fits, query_fits, url_parts, url_with_path, url_with_query,
    UrlError, UrlParts, UrlPiece,
};
use vstd::prelude::*;

verus! {

/// The path of a request stands behind the path of the backend: where the backend's path does not
/// end in a slash and the request's does not start with one, the two are joined by one slash, and
/// both are there in full.
pub proof fn law_request_path_follows_the_backend_path(base: Seq<char>, request: Seq<char>)
    requires
        base.len() > 0 ==> base.last() != '/',
        request.len() > 0,
        request[0] != '/',
    ensures
        joined_path(base, request) == base + seq!['/'] + request,
        joined_path(base, seq!['/'] + request) == base + seq!['/'] + request,
        joined_path(base.push('/'), seq!['/'] + request) == base + seq!['/'] + request,
{
    reveal_strlit("/");
    assert("/"@ =~= seq!['/']);
    let slashed = seq!['/'] + request;
    crate::text::lemma_without_suffixes(base, '/', base.len() as int);
    crate::text::lemma_without_suffixes(base.push('/'), '/', base.len() as int);
    crate::text::lemma_without_prefixes(request, '/', 0);
    crate::text::lemma_without_prefixes(slashed, '/', 1);
    assert(base.take(base.len() as int) =~= base);
    assert(base.push('/').take(base.len() as int) =~= base);
    assert(request.skip(0) =~= request);
    assert(slashed.skip(1) =~= request);
}

/// Whatever slashes there are at the end of the backend's path and at the start of the request's,
/// the joined path is what is in front of the ones, one slash and what is behind the others.
pub proof fn law_paths_meet_at_one_slash(base: Seq<char>, request: Seq<char>, b: int, r: int)
    requires
        0 <= b <= base.len(),
        forall|i: int| b <= i < base.len() ==> base[i] == '/',
        b > 0 ==> base[b - 1] != '/',
        0 <= r < request.len(),
        forall|i: int| 0 <= i < r ==> request[i] == '/',
        request[r] != '/',
    ensures
        joined_path(base, request) == base.take(b) + seq!['/'] + request.skip(r),
{
    reveal_strlit("/");
    assert("/"@ =~= seq!['/']);
    crate::text::lemma_without_suffixes(base, '/', b);
    crate::text::lemma_without_prefixes(request, '/', r);
}

/// A request for the root gets the backend's own path, without the slashes at its end, or the root
/// where the backend has none.
pub proof fn law_root_request_gets_the_backend_path(base: Seq<char>, request: Seq<char>, b: int)
    requires
        0 <= b <= base.len(),
        forall|i: int| b <= i < base.len() ==> base[i] == '/',
        b > 0 ==> base[b - 1] != '/',
        forall|i: int| 0 <= i < request.len() ==> request[i] == '/',
    ensures
        joined_path(base, request) == if b > 0 {
            base.take(b)
        } else {
            seq!['/']
        },
{
    reveal_strlit("/");
    assert("/"@ =~= seq!['/']);
    crate::text::lemma_without_suffixes(base, '/', b);
    crate::text::lemma_without_prefixes(request, '/', request.len() as int);
}

/// What a composed URL is: the path is set in the backend's URL first and the query then, whatever
/// they are; there is none only where the positions do not fit or a URL is not parsed again.
pub proof fn law_composed_url_has_path_and_query_set(
    base: Seq<char>,
    path: Seq<char>,
    query: Option<Seq<char>>,
)
    ensures
        composed_url(base, path, query) is Ok ==> composed_url(base, path, query)->Ok_0
            == url_with_query(url_with_path(base, path), query),
        composed_url(base, path, query) is Ok <==> {
            &&& url_parts(base) is Ok
            &&& url_parts(base)->Ok_0.text == base
            &&& path_fits(url_parts(base)->Ok_0, path)
            &&& url_parts(url_with_path(base, path)) is Ok
            &&& url_parts(url_with_path(base, path))->Ok_0.text == url_with_path(base, path)
            &&& query_fits(url_parts(url_with_path(base, path))->Ok_0, query)
        },
        composed_url(base, path, query) == Err::<Seq<char>, UrlError>(UrlError::TooLong) ==> {
            ||| !path_fits(url_parts(base)->Ok_0, path)
            ||| !query_fits(url_parts(url_with_path(base, path))->Ok_0, query)
        },
{
}

/// The schemes that are forwarded are the four of HTTP and WebSockets.
pub proof fn law_four_schemes_are_forwarded(scheme: Seq<char>)
    ensures
        is_web_scheme(scheme) <==> scheme == "http"@ || scheme == "https"@ || scheme == "ws"@
            || scheme == "wss"@,
{
}

/// What a request is forwarded to: of the backend, the scheme, the credentials, host and port, and
/// the fragment; of the request, the query, if it has one, and else none; and the path of both. A
/// path and a query of letters, digits and the usual signs stand in the URL as they are.
pub proof fn law_request_reaches_the_backend(lease: BackendLease, req: ProxyRequest)
    requires
        lease@.url@.scheme == "http"@ || lease@.url@.scheme == "https"@ || lease@.url@.scheme
            == "ws"@ || lease@.url@.scheme == "wss"@,
        reaches_backend(lease, req),
        upstream_url(lease, req) is Ok,
    ensures
        ({
            let base = lease@.url@;
            let path = joined_path(base.path, req.path@);
            let url = upstream_url(lease, req)->Ok_0;
            &&& url == url_with_query(
                url_with_path(base.text, path),
                match req.query {
                    Some(query) => Some(query@),
                    None => None,
                },
            )
            &&& url_parts(url) matches Ok(parts)
            &&& parts.text == url
            &&& parts.scheme == base.scheme
            &&& parts.authority == base.authority
            &&& parts.fragment == base.fragment
            &&& req.query is None ==> parts.query is None
            &&& req.query is Some ==> parts.query is Some
            &&& req.query is Some && is_plain_query(req.query->0@) ==> parts.query == Some(
                req.query->0@,
            )
            &&& is_plain_path(path) ==> parts.path == path
            &&& url == base.scheme + seq![':', '/', '/'] + base.authority + parts.path + (match parts.query {
                Some(query) => seq!['?'] + query,
                None => Seq::<char>::empty(),
            }) + (match base.fragment {
                Some(fragment) => seq!['#'] + fragment,
                None => Seq::<char>::empty(),
            })
        }),
{
    let url = upstream_url(lease, req)->Ok_0;
    let parts = url_parts(url)->Ok_0;
    assert(crate::urls::written(parts) == url);
}

/// Every request has a URL at the backend, unless it would be longer than any that is in use.
pub proof fn law_every_usual_request_has_a_url(lease: BackendLease, req: ProxyRequest)
    requires
        lease@.url@.scheme == "http"@ || lease@.url@.scheme == "https"@ || lease@.url@.scheme
            == "ws"@ || lease@.url@.scheme == "wss"@,
        reaches_backend(lease, req),
        lease@.url@.text.len() + 12 * joined_path(lease@.url@.path, req.path@).len() + 12 * (
        match req.query {
            Some(query) => query@.len(),
            None => 0nat,
        }) + 5 <= 0xffff_ffff,
    ensures
        upstream_url(lease, req) is Ok,
{
    law_urls_of_any_usual_length_fit(
        lease@.url@,
        joined_path(lease@.url@.path, req.path@),
        match req.query {
            Some(query) => Some(query@),
            None => None,
        },
    );
}

/// A path stands for itself where it begins with a slash, holds only visible ASCII characters but
/// those that are reserved, and no segment begins with a dot or a percent sign; a query, where it
/// holds only visible ASCII characters but those that are reserved.
pub proof fn law_plain_texts_stand_for_themselves(text: Seq<char>)
    ensures
        is_plain_path(text) <==> {
            &&& text.len() > 0
            &&& text[0] == '/'
            &&& forall|i: int|
                0 <= i < text.len() ==> 0x21 <= (#[trigger] text[i]) as int <= 0x7e && text[i] != '"'
                    && text[i] != '#' && text[i] != '<' && text[i] != '>' && text[i] != '?'
                    && text[i] != '`' && text[i] != '{' && text[i] != '}' && text[i] != '\\' && (i > 0
                    && text[i - 1] == '/' ==> text[i] != '.' && text[i] != '%')
        },
        is_plain_query(text) <==> forall|i: int|
            0 <= i < text.len() ==> 0x21 <= (#[trigger] text[i]) as int <= 0x7e && text[i] != '"'
                && text[i] != '#' && text[i] != '<' && text[i] != '>' && text[i] != '\'',
{
}

/// A URL can be composed wherever the whole of it has a length that fits 32 bits, at twelve bytes
/// for every character of the path and of the query.
pub proof fn law_urls_of_any_usual_length_fit(
    parts: UrlParts,
    path: Seq<char>,
    query: Option<Seq<char>>,
)
    requires
        parts.text.len() + 12 * path.len() + 12 * (match query {
            Some(q) => q.len(),
            None => 0nat,
        }) + 5 <= 0xffff_ffff,
    ensures
        both_fit(parts, path, query),
        path_fits(parts, path),
{
    lemma_encoded_len_is_bounded(UrlPiece::Path, path);
    if query is Some {
        lemma_encoded_len_is_bounded(UrlPiece::Query, query->0);
    }
}

proof fn lemma_encoded_len_is_bounded(piece: UrlPiece, text: Seq<char>)
    ensures
        encoded_len(piece, text) <= 12 * text.len(),
    decreases text.len(),
{
    if text.len() > 0 {
        lemma_encoded_len_is_bounded(piece, text.drop_last());
    }
}

/// A text of visible characters that are not reserved has as many bytes in a URL as it has
/// characters; each further character adds its own.
pub proof fn law_plain_characters_have_one_byte(piece: UrlPiece, text: Seq<char>, c: char)
    ensures
        encoded_len(piece, Seq::<char>::empty()) == 0,
        encoded_len(piece, text.push(c)) == encoded_len(piece, text) + encoded_char_len(piece, c),
        c == '\t' || c == '\n' || c == '\r' ==> encoded_char_len(piece, c) == 0,
        0x21 <= c as int <= 0x7e && c != '"' && c != '#' && c != '<' && c != '>' && c != '?' && c
            != '`' && c != '{' && c != '}' && c != '\'' ==> encoded_char_len(piece, c) == 1,
        encoded_char_len(UrlPiece::Path, '\'') == 1,
        c == '?' || c == '`' || c == '{' || c == '}' ==> encoded_char_len(UrlPiece::Query, c) == 1
            && encoded_char_len(UrlPiece::Path, c) == 3,
        c as int <= 0x7f ==> encoded_char_len(piece, c) <= 3,
        0x80 <= c as int <= 0x7ff ==> encoded_char_len(piece, c) == 6,
        0x800 <= c as int <= 0xffff ==> encoded_char_len(piece, c) == 9,
        0x1_0000 <= c as int ==> encoded_char_len(piece, c) == 12,
{
    assert(text.push(c).drop_last() =~= text);
}

/// A path and a query are refused only where a position does not fit 32 bits: the end of the path,
/// old or new, or the start of the fragment behind them.
pub proof fn law_only_positions_are_limited(
    parts: UrlParts,
    path: Seq<char>,
    query: Option<Seq<char>>,
)
    requires
        parts.scheme == "http"@ || parts.scheme == "https"@ || parts.scheme == "ws"@ || parts.scheme
            == "wss"@,
        path.len() > 0,
        path[0] == '/',
        parts.fragment is None,
    ensures
        head_len(parts) + parts.path.len() <= 0xffff_ffff && head_len(parts) + encoded_len(
            UrlPiece::Path,
            path,
        ) <= 0xffff_ffff ==> both_fit(parts, path, query),
        head_len(parts) + parts.path.len() <= 0xffff_ffff ==> query_fits(parts, query),
        head_len(parts) == parts.text.len() - parts.path.len() - (match parts.query {
            Some(q) => q.len() + 1,
            None => 0,
        }),
{
}

} // verus!
