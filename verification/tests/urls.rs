use hyper_proxy::text::{
    parse_u16, same_text, starts_with, trim, trim_end_matches, trim_start_matches,
};
use hyper_proxy::urls::{
    compose_backend_url, encoded_length, join_paths, BackendUrl, UrlPiece,
};

fn compose(base: &str, path: &str, query: Option<&str>) -> String {
    compose_backend_url(&BackendUrl::parse(base).unwrap(), path, query).unwrap()
}

#[test]
fn urls_are_parsed() {
    let url = BackendUrl::parse("HTTPS://Example.com:443/a/../b?x=1#f").unwrap();
    assert_eq!(url.as_str(), "https://example.com/b?x=1#f");
    assert_eq!(url.scheme(), "https");
    assert_eq!(url.path(), "/b");
    let copy = url.clone();
    assert_eq!(copy.as_str(), url.as_str());
    assert_eq!(BackendUrl::parse("/relative").unwrap_err(), "relative URL without a base");
    assert_eq!(BackendUrl::parse("").unwrap_err(), "relative URL without a base");
    assert_eq!(BackendUrl::parse("http://").unwrap_err(), "empty host");
}

#[test]
fn urls_parse_again_to_themselves() {
    for text in [
        "http://example.com",
        "https://user:pw@example.com:8443/a%20b/?q#f",
        "ws://[::1]:9000/x",
        "wss://b\u{fc}cher.example/\u{fc}?\u{fc}",
    ] {
        let url = BackendUrl::parse(text).unwrap();
        let again = BackendUrl::parse(url.as_str()).unwrap();
        assert_eq!(again.as_str(), url.as_str());
        assert_eq!(again.scheme(), url.scheme());
        assert_eq!(again.path(), url.path());
    }
}

#[test]
fn paths_are_joined() {
    assert_eq!(join_paths("", ""), "/");
    assert_eq!(join_paths("/", "/"), "/");
    assert_eq!(join_paths("/", "/a/b"), "/a/b");
    assert_eq!(join_paths("", "a"), "/a");
    assert_eq!(join_paths("/base", "/"), "/base");
    assert_eq!(join_paths("/base/", ""), "/base");
    assert_eq!(join_paths("/base", "/a"), "/base/a");
    assert_eq!(join_paths("/base///", "///a//"), "/base/a//");
    assert_eq!(join_paths("//", "//"), "/");
}

#[test]
fn slashes_at_the_seam_do_not_matter() {
    for (base, request) in [("/x", "y"), ("", ""), ("/x/", "/y/"), ("/", "z")] {
        let joined = join_paths(base, request);
        assert_eq!(join_paths(&format!("{base}/"), request), joined);
        assert_eq!(join_paths(base, &format!("/{request}")), joined);
        assert!(joined.starts_with(base.trim_end_matches('/')));
        assert!(!joined.is_empty());
    }
}

#[test]
fn upstream_urls_are_composed() {
    assert_eq!(compose("https://localhost:1234", "/", None), "https://localhost:1234/");
    assert_eq!(
        compose("https://localhost:1234", "/echo/sleep/200", None),
        "https://localhost:1234/echo/sleep/200"
    );
    assert_eq!(compose("http://h/base/", "/a", Some("b=c")), "http://h/base/a?b=c");
    // the query of the backend is replaced, its fragment stays
    assert_eq!(compose("http://h/base?old=1#f", "/a", None), "http://h/base/a#f");
    assert_eq!(compose("ws://h/base?old=1", "/", Some("new")), "ws://h/base?new");
    assert_eq!(compose("http://h", "/a b", Some("")), "http://h/a%20b?");
    assert_eq!(compose("http://h", "/a?b#c", None), "http://h/a%3Fb%23c");
}

#[test]
fn texts_are_compared() {
    assert!(same_text("", ""));
    assert!(same_text("\u{e4}bc", "\u{e4}bc"));
    assert!(!same_text("abc", "abd"));
    assert!(!same_text("abc", "ab"));
    assert!(!same_text("", "a"));
}

#[test]
fn lengths_of_encoded_texts_are_counted() {
    for (text, path_len, query_len) in [
        ("", 0, 0),
        ("/a.b~%2e", 8, 8),
        ("\t\n\r", 0, 0),
        (" \"#<>\u{0}\u{1f}\u{7f}", 24, 24),
        ("?`{}", 12, 4),
        ("'", 1, 3),
        ("\u{e4}\u{20ac}\u{1f600}", 27, 27),
    ] {
        assert_eq!(encoded_length(UrlPiece::Path, text), path_len, "{text:?}");
        assert_eq!(encoded_length(UrlPiece::Query, text), query_len, "{text:?}");
        // what the URL holds is as long as that
        let url = compose("http://h", &format!("/{text}"), None);
        assert_eq!(url.len() as u128, 8 + encoded_length(UrlPiece::Path, &join_paths("/", text)));
        let url = compose("http://h", "/", Some(text));
        assert_eq!(url.len() as u128, 10 + query_len);
    }
}

#[test]
fn long_urls_are_composed() {
    // a long query of the backend is dropped
    let base = format!("http://h/?{}", "q".repeat(0x20_0000));
    assert_eq!(compose(&base, "/a", None), "http://h/a");
    let long = "/a".repeat(0x10_0000);
    assert_eq!(compose(&format!("http://h{long}"), "/b", None), format!("http://h{long}/b"));
}

#[test]
fn other_pieces_stay_those_of_the_backend() {
    assert_eq!(
        compose("wss://u:p@h.example:81/base?old#frag", "/a/.b%20c/d", Some("x=1&y[]=%20'2")),
        "wss://u:p@h.example:81/base/a/.b%20c/d?x=1&y[]=%20%272#frag"
    );
    assert_eq!(compose("http://h/x", "/a/./../b", Some("")), "http://h/x/b?");
    assert_eq!(compose("ftp://h/x?q", "/y", None), "ftp://h/x/y");
}

#[test]
fn prefixes_and_suffixes_are_found_and_trimmed() {
    assert!(starts_with("/api/x", "/api/"));
    assert!(starts_with("\u{e4}b", "\u{e4}"));
    assert!(starts_with("", ""));
    assert!(!starts_with("/ap", "/api/"));
    assert!(!starts_with("/apx/", "/api/"));
    assert_eq!(trim_start_matches("//a/b/", '/'), "a/b/");
    assert_eq!(trim_start_matches("///", '/'), "");
    assert_eq!(trim_start_matches("\u{e4}/", '/'), "\u{e4}/");
    assert_eq!(trim_end_matches("/a//", '/'), "/a");
    assert_eq!(trim_end_matches("///", '/'), "");
    assert_eq!(trim_end_matches("/\u{e4}", '/'), "/\u{e4}");
}

#[test]
fn white_space_is_trimmed() {
    assert_eq!(trim("\u{3000} a b\u{85}\n"), "a b");
    assert_eq!(trim("a"), "a");
    assert_eq!(trim(" \t\u{2028}"), "");
    assert_eq!(trim(""), "");
    assert_eq!(trim("\u{200b} \u{feff}"), "\u{200b} \u{feff}");
}

#[test]
fn port_numbers_are_parsed() {
    for text in [
        "0", "1", "65535", "+7", "007", "000000000065535", "65536", "99999999999", "", "+", "-0",
        "++1", "1+", " 1", "1 ", "\u{661}", "0x1", "655350",
    ] {
        assert_eq!(parse_u16(text), text.parse::<u16>().ok(), "{text:?}");
    }
}
