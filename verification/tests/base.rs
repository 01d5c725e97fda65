//! Texts, JSON values, ordered maps, times, response statuses and annotations.

use agent_sdk::annotation::{doc_text, hook_fault, hook_marker};
use agent_sdk::http::{
    is_success, map_http_error, map_transport_error, parse_retry_after_ms, TransportFault,
};
use agent_sdk::json::Json;
use agent_sdk::key_map::KeyMap;
use agent_sdk::language_model::error::ModelError;
use agent_sdk::text::{decimal, join, parse_u64, strip_trailing, trim};
use agent_sdk::time::Timeout;

fn s(text: &str) -> String {
    text.to_string()
}

fn strings(texts: &[&str]) -> Vec<String> {
    texts.iter().map(|t| t.to_string()).collect()
}

#[test]
fn trim_drops_white_space_at_both_ends() {
    assert_eq!(trim("  a b\t\n"), "a b");
    assert_eq!(trim("\u{3000}x\u{a0}"), "x");
    assert_eq!(trim(" \n "), "");
    assert_eq!(trim(""), "");
}

#[test]
fn trim_knows_the_white_space_of_unicode() {
    let spaces = "\t\n\u{b}\u{c}\r \u{85}\u{a0}\u{1680}\u{2000}\u{2001}\u{2002}\u{2003}\u{2004}\
                  \u{2005}\u{2006}\u{2007}\u{2008}\u{2009}\u{200a}\u{2028}\u{2029}\u{202f}\u{205f}\u{3000}";
    for c in (0..0x11_0000u32).filter_map(char::from_u32) {
        assert_eq!(trim(&c.to_string()).is_empty(), spaces.contains(c), "{c:?}");
    }
}

#[test]
fn strip_trailing_drops_every_one() {
    assert_eq!(strip_trailing("http://x///", '/'), "http://x");
    assert_eq!(strip_trailing("/a/b", '/'), "/a/b");
    assert_eq!(strip_trailing("///", '/'), "");
}

#[test]
fn decimal_writes_digits() {
    assert_eq!(decimal(0), "0");
    assert_eq!(decimal(1907), "1907");
    assert_eq!(decimal(u128::MAX), "340282366920938463463374607431768211455");
}

#[test]
fn parse_u64_reads_what_fits() {
    assert_eq!(parse_u64("0"), Some(0));
    assert_eq!(parse_u64("007"), Some(7));
    assert_eq!(parse_u64("+12"), Some(12));
    assert_eq!(parse_u64("18446744073709551615"), Some(u64::MAX));
    assert_eq!(parse_u64("18446744073709551616"), None);
    assert_eq!(parse_u64(""), None);
    assert_eq!(parse_u64("+"), None);
    assert_eq!(parse_u64("-1"), None);
    assert_eq!(parse_u64("1.5"), None);
    assert_eq!(parse_u64(" 1"), None);
}

#[test]
fn join_puts_newlines_between() {
    assert_eq!(join(&strings(&["a", "", "b"])), "a\n\nb");
    assert_eq!(join(&strings(&["a"])), "a");
    assert_eq!(join(&Vec::new()), "");
}

#[test]
fn json_parse_sorts_out_the_values() {
    assert_eq!(Json::parse("null"), Ok(Json::Null));
    assert_eq!(Json::parse(" true "), Ok(Json::Bool(true)));
    assert_eq!(Json::parse("\"a\\n\\u00e9\""), Ok(Json::Text(s("a\n\u{e9}"))));
    assert_eq!(Json::parse("{ \"b\" : [1, 2], \"a\":null }"), Ok(Json::Raw(s("{\"a\":null,\"b\":[1,2]}"))));
    assert_eq!(Json::parse("12"), Ok(Json::Raw(s("12"))));
    assert!(Json::parse("{not").is_err());
    assert!(Json::parse("").is_err());
}

#[test]
fn json_text_and_body() {
    assert_eq!(Json::Null.to_text(), "null");
    assert_eq!(Json::Bool(false).to_text(), "false");
    assert_eq!(Json::Text(s("a\"b\n")).to_text(), "\"a\\\"b\\n\"");
    assert_eq!(Json::Raw(s("{\"a\":1}")).to_text(), "{\"a\":1}");
    assert_eq!(Json::Text(s("a\"b\n")).body(), "a\"b\n");
    assert_eq!(Json::Bool(true).body(), "true");
    assert_eq!(Json::empty_object().to_text(), "{}");
}

#[test]
fn json_kinds() {
    assert!(Json::Null.is_null());
    assert!(!Json::empty_object().is_null());
    assert_eq!(Json::Bool(true).as_bool(), Some(true));
    assert_eq!(Json::Text(s("true")).as_bool(), None);
}

#[test]
fn key_map_keeps_its_keys_in_order() {
    let mut m: KeyMap<u32, Json> = KeyMap::new();
    m.insert(7, Json::Bool(true));
    m.insert(2, Json::Null);
    m.insert(5, Json::Text(s("x")));
    m.insert(2, Json::Bool(false));
    assert_eq!(m.len(), 3);
    assert_eq!((*m.key_at(0), *m.key_at(1), *m.key_at(2)), (2, 5, 7));
    assert_eq!(m.get(&2), Some(&Json::Bool(false)));
    assert_eq!(m.get(&3), None);
    assert_eq!(m.remove(&5), Some(Json::Text(s("x"))));
    assert_eq!(m.remove(&5), None);
    assert!(!m.contains_key(&5));
    assert!(m.contains_key(&7));
    assert_eq!(m.len(), 2);
}

#[test]
fn key_map_of_texts_is_in_dictionary_order() {
    let mut m: KeyMap<String, Json> = KeyMap::new();
    for k in ["b", "ab", "", "a", "\u{e9}"] {
        m.insert(s(k), Json::Text(s(k)));
    }
    let mut keys = Vec::new();
    for i in 0..m.len() {
        keys.push(m.key_at(i).clone());
        assert_eq!(m.value_at(i), &Json::Text(m.key_at(i).clone()));
    }
    assert_eq!(keys, strings(&["", "a", "ab", "b", "\u{e9}"]));
    assert_eq!(m.clone(), m);
}

#[test]
fn timeouts_in_milliseconds() {
    assert_eq!(Timeout::from_secs(5).as_millis(), 5000);
    assert_eq!(Timeout::from_millis(1234), Timeout { secs: 1, nanos: 234_000_000 });
    assert_eq!(Timeout::from_millis(1234).as_millis(), 1234);
    assert_eq!(Timeout { secs: 0, nanos: 999_999 }.as_millis(), 0);
}

#[test]
fn success_is_two_hundred_to_two_ninety_nine() {
    assert!(is_success(200));
    assert!(is_success(299));
    assert!(!is_success(199));
    assert!(!is_success(300));
}

#[test]
fn retry_after_is_in_seconds() {
    assert_eq!(parse_retry_after_ms(Some("7")), Some(7000));
    assert_eq!(parse_retry_after_ms(Some(" 3 ")), Some(3000));
    assert_eq!(parse_retry_after_ms(Some("Wed, 21 Oct 2015 07:28:00 GMT")), None);
    assert_eq!(parse_retry_after_ms(None), None);
    assert_eq!(parse_retry_after_ms(Some("18446744073709551615")), Some(u64::MAX));
}

#[test]
fn statuses_map_to_model_errors() {
    let err = |status| map_http_error(status, Some("7"), s("b"));
    assert_eq!(err(401), ModelError::Auth(s("b")));
    assert_eq!(err(403), ModelError::Auth(s("b")));
    assert_eq!(err(429), ModelError::RateLimit { message: s("b"), retry_after_ms: Some(7000) });
    assert_eq!(err(413), ModelError::ContextLengthExceeded(s("b")));
    assert_eq!(err(400), ModelError::InvalidRequest(s("b")));
    assert_eq!(err(408), ModelError::Transport(s("HTTP 408: b")));
    assert_eq!(err(500), ModelError::Provider(s("HTTP 500: b")));
    assert_eq!(err(599), ModelError::Provider(s("HTTP 599: b")));
    assert_eq!(err(404), ModelError::Other(s("HTTP 404: b")));
    assert_eq!(err(302), ModelError::Other(s("HTTP 302: b")));
}

#[test]
fn rate_limit_without_a_hint() {
    assert_eq!(
        map_http_error(429, None, s("slow down")),
        ModelError::RateLimit { message: s("slow down"), retry_after_ms: None }
    );
}

#[test]
fn transport_faults_map_to_transport_errors() {
    assert_eq!(
        map_transport_error(TransportFault::Timeout, s("slow")),
        ModelError::Transport(s("timeout: slow"))
    );
    assert_eq!(
        map_transport_error(TransportFault::Connect, s("refused")),
        ModelError::Transport(s("connect: refused"))
    );
    assert_eq!(
        map_transport_error(TransportFault::Other, s("odd")),
        ModelError::Transport(s("odd"))
    );
}

#[test]
fn doc_lines_make_a_description() {
    assert_eq!(doc_text(&strings(&[" Echo it.", "", "  More. "])), Some(s("Echo it.\n\n More.")));
    assert_eq!(doc_text(&Vec::new()), None);
}

#[test]
fn hooks_are_async_functions() {
    assert_eq!(hook_fault(true), None);
    assert_eq!(hook_fault(false), Some(s("#[hook] requires an `async fn`")));
    assert_eq!(hook_marker("audit"), "__audit_HOOK_MARKER");
}
