use get::config::Config;
use get::headers::{add_header, add_headers, header_map_of, replace_headers, HeaderError};
use get::json_builder::PathAccess;
use get::parser::BodyValue;
use get::request_builder::{
    encode_query, get_scheme, session_header_pairs, RequestBuilder, RequestError,
};
use get::session::{Scheme, Session};
use get::url_builder::URLBuilder;
use http::{HeaderMap, Version};

fn pairs(list: &[(&str, &str)]) -> Vec<(String, String)> {
    list.iter().map(|(name, value)| (name.to_string(), value.to_string())).collect()
}

fn values(map: &HeaderMap, name: &str) -> Vec<String> {
    map.get_all(name)
        .iter()
        .map(|value| String::from_utf8(value.as_bytes().to_vec()).unwrap())
        .collect()
}

fn request(url: &str, session: &Session) -> RequestBuilder {
    let url = URLBuilder::from_input(url, "localhost").unwrap();
    RequestBuilder::from_input(url, session, &Config::default()).unwrap()
}

#[test]
fn scheme_comes_from_session_then_from_the_hostnames() {
    let hostnames = vec!["localhost".to_string(), "dev.local".to_string()];
    let session = Session::new();
    assert_eq!(get_scheme("localhost", &session, &hostnames), "http");
    assert_eq!(get_scheme("dev.local", &session, &hostnames), "http");
    assert_eq!(get_scheme("example.com", &session, &hostnames), "https");
    assert_eq!(get_scheme("LOCALHOST", &session, &hostnames), "https");
    assert_eq!(get_scheme("localhost", &session, &[]), "https");
    let session = Session { headers: None, scheme: Some(Scheme::HTTPS) };
    assert_eq!(get_scheme("localhost", &session, &hostnames), "https");
    let session = Session { headers: None, scheme: Some(Scheme::HTTP) };
    assert_eq!(get_scheme("example.com", &session, &hostnames), "http");
}

#[test]
fn new_request_has_host_and_session_headers() {
    let session = Session {
        headers: Some(vec![
            ("Accept".to_string(), vec!["a/b".to_string(), "c/d".to_string()]),
            ("X-Empty".to_string(), vec![]),
            ("X-One".to_string(), vec!["1".to_string()]),
        ]),
        scheme: None,
    };
    let made = request("example.com:8080/x", &session);
    assert_eq!(made.url.scheme.as_deref(), Some("https"));
    assert_eq!(made.url.build().unwrap(), "https://example.com:8080/x");
    assert_eq!(values(&made.headers, "host"), vec!["example.com:8080"]);
    assert_eq!(values(&made.headers, "accept"), vec!["a/b", "c/d"]);
    assert_eq!(values(&made.headers, "x-one"), vec!["1"]);
    assert!(!made.headers.contains_key("x-empty"));
    assert_eq!(made.headers.len(), 4);
    assert_eq!(made.body, None);
    assert_eq!(made.version, Version::HTTP_11);

    let made = request(":3000", &Session::new());
    assert_eq!(made.url.build().unwrap(), "http://localhost:3000/");
    assert_eq!(values(&made.headers, "host"), vec!["localhost:3000"]);

    let made = request("http://example.com", &Session { headers: None, scheme: Some(Scheme::HTTPS) });
    assert_eq!(made.url.scheme.as_deref(), Some("http"));
    assert_eq!(values(&made.headers, "host"), vec!["example.com"]);
}

#[test]
fn new_request_needs_a_hostname_and_valid_headers() {
    let error =
        RequestBuilder::from_input(URLBuilder::new(), &Session::new(), &Config::default()).unwrap_err();
    assert!(matches!(error, RequestError::MissingHostname));
    assert_eq!(error.message(), "hostname parsed");
    let mut url = URLBuilder::new();
    url.scheme = Some("http".to_string());
    let error = RequestBuilder::from_input(url, &Session::new(), &Config::default()).unwrap_err();
    assert!(matches!(error, RequestError::MissingHostname));

    let session = Session {
        headers: Some(vec![("X-One".to_string(), vec!["1".to_string(), "\n".to_string()])]),
        scheme: None,
    };
    let url = URLBuilder::from_input("example.com", "localhost").unwrap();
    let error = RequestBuilder::from_input(url, &session, &Config::default()).unwrap_err();
    assert!(matches!(error, RequestError::Header(HeaderError::InvalidValue(_))));
    assert_eq!(error.message(), "failed to parse header value");
}

#[test]
fn session_headers_as_pairs() {
    let session = Session {
        headers: Some(vec![
            ("a".to_string(), vec!["1".to_string(), "2".to_string()]),
            ("b".to_string(), vec![]),
            ("c".to_string(), vec!["3".to_string()]),
        ]),
        scheme: None,
    };
    assert_eq!(
        session_header_pairs(&session),
        pairs(&[("a", "1"), ("a", "2"), ("c", "3")])
    );
    assert!(session_header_pairs(&Session::new()).is_empty());
}

#[test]
fn query_is_form_encoded() {
    assert_eq!(encode_query(&[]), "");
    assert_eq!(encode_query(&pairs(&[("foo", "bar")])), "foo=bar");
    assert_eq!(
        encode_query(&pairs(&[("foo", "bar & baz"), ("saison", "Été+hiver"), ("", "")])),
        "foo=bar+%26+baz&saison=%C3%89t%C3%A9%2Bhiver&="
    );
}

#[test]
fn add_query_extends_the_query() {
    let made = request("example.com/x?a=b", &Session::new());
    let made = made.add_query(&[]);
    assert_eq!(made.url.query.as_deref(), Some("a=b"));
    let made = made.add_query(&pairs(&[("c", "d e"), ("f", "g")]));
    assert_eq!(made.url.query.as_deref(), Some("a=b&c=d+e&f=g"));
    assert_eq!(made.url.build().unwrap(), "https://example.com/x?a=b&c=d+e&f=g");

    let made = request("example.com/x", &Session::new()).add_query(&pairs(&[("c", "d")]));
    assert_eq!(made.url.query.as_deref(), Some("c=d"));
    let made = request("example.com/x?", &Session::new()).add_query(&pairs(&[("c", "d")]));
    assert_eq!(made.url.query.as_deref(), Some("c=d"));
}

#[test]
fn merge_headers_replaces_by_name() {
    let session = Session {
        headers: Some(vec![("Accept".to_string(), vec!["a/b".to_string(), "c/d".to_string()])]),
        scheme: None,
    };
    let made = request("example.com", &session);
    let made = made.merge_headers(HeaderMap::new()).unwrap();
    assert_eq!(made.headers.len(), 3);
    let given = header_map_of(&pairs(&[
        ("accept", "e/f"),
        ("X-New", "1"),
        ("ACCEPT", "g/h"),
        ("x-new", "2"),
        ("Host", "other"),
    ]))
    .unwrap();
    let made = made.merge_headers(given).unwrap();
    assert_eq!(values(&made.headers, "accept"), vec!["e/f", "g/h"]);
    assert_eq!(values(&made.headers, "x-new"), vec!["1", "2"]);
    assert_eq!(values(&made.headers, "host"), vec!["other"]);
    assert_eq!(made.headers.len(), 5);
    assert_eq!(made.headers.keys_len(), 3);
}

#[test]
fn replace_headers_keeps_what_the_source_does_not_name() {
    let mut dst = header_map_of(&pairs(&[("a", "1"), ("b", "2"), ("a", "3")])).unwrap();
    let src = header_map_of(&pairs(&[("b", "4"), ("c", "5"), ("b", "6"), ("c", "7"), ("b", "8")]))
        .unwrap();
    replace_headers(&mut dst, src).unwrap();
    assert_eq!(values(&dst, "a"), vec!["1", "3"]);
    assert_eq!(values(&dst, "b"), vec!["4", "6", "8"]);
    assert_eq!(values(&dst, "c"), vec!["5", "7"]);
    replace_headers(&mut dst, HeaderMap::new()).unwrap();
    assert_eq!(dst.len(), 7);
}

#[test]
fn header_names_are_normalized_and_values_kept() {
    let map = header_map_of(&pairs(&[("Content-Type", " Text/Plain; é "), ("CONTENT-TYPE", "\tx")]))
        .unwrap();
    let names: Vec<&str> = map.keys().map(|name| name.as_str()).collect();
    assert_eq!(names, vec!["content-type"]);
    assert_eq!(values(&map, "content-type"), vec![" Text/Plain; é ", "\tx"]);
}

#[test]
fn header_that_is_not_valid_is_refused() {
    let mut map = HeaderMap::new();
    add_header(&mut map, "ok", "fine").unwrap();
    for name in ["", "bad name", "bad:name", "é", "a\0"] {
        let error = add_header(&mut map, name, "v").unwrap_err();
        assert!(matches!(error, HeaderError::InvalidName(_)), "{:?}", name);
        assert_eq!(error.message(), "invalid HTTP header name");
    }
    for value in ["a\nb", "\u{7f}", "\0", "a\rb"] {
        let error = add_header(&mut map, "ok", value).unwrap_err();
        assert!(matches!(error, HeaderError::InvalidValue(_)), "{:?}", value);
    }
    let error = add_header(&mut map, "bad name", "\n").unwrap_err();
    assert!(matches!(error, HeaderError::InvalidName(_)));
    assert_eq!(values(&map, "ok"), vec!["fine"]);
    assert_eq!(map.len(), 1);

    let error = add_headers(&mut map, &pairs(&[("a", "1"), ("b", "\n"), ("c d", "3")])).unwrap_err();
    assert!(matches!(error, HeaderError::InvalidValue(_)));
    assert_eq!(values(&map, "a"), vec!["1"]);
    assert!(!map.contains_key("b"));
}

#[test]
fn header_map_that_cannot_grow_is_an_error() {
    let many: Vec<(String, String)> =
        (0..40000).map(|i| (format!("x-{}", i), "v".to_string())).collect();
    let error = header_map_of(&many).unwrap_err();
    assert!(matches!(error, HeaderError::TooMany(_)));
    assert_eq!(error.message(), "max size reached");
}

#[test]
fn add_data_sets_the_body() {
    let fragment = || BodyValue::String {
        path: vec![PathAccess::ObjectKey("a".to_string())],
        value: "b".to_string(),
    };
    let made = request("example.com", &Session::new());
    let made = made.add_data(&[], None).unwrap();
    assert_eq!(made.body, None);
    let made = made.add_data(&[], Some("text")).unwrap();
    assert_eq!(made.body.as_deref(), Some("text"));
    let made = made.add_data(&[], None).unwrap();
    assert_eq!(made.body.as_deref(), Some("text"));
    let made = made.add_data(&[fragment()], None).unwrap();
    assert_eq!(made.body.as_deref(), Some(r#"{"a":"b"}"#));

    let error = request("example.com", &Session::new())
        .add_data(&[fragment()], Some("text"))
        .unwrap_err();
    assert!(matches!(error, RequestError::DataAndValues));
    assert_eq!(error.message(), "Cannot specify both data and body values");

    let conflict = BodyValue::String {
        path: vec![PathAccess::ObjectKey("a".to_string()), PathAccess::ArrayEnd],
        value: "c".to_string(),
    };
    let error = request("example.com", &Session::new())
        .add_data(&[fragment(), conflict], None)
        .unwrap_err();
    assert!(matches!(error, RequestError::Body(_)));
    assert_eq!(error.message(), "expect array root");
}

#[test]
fn version_is_set() {
    let made = request("example.com", &Session::new()).version(Version::HTTP_2);
    assert_eq!(made.version, Version::HTTP_2);
    assert_eq!(made.body, None);
    assert_eq!(values(&made.headers, "host"), vec!["example.com"]);
}
