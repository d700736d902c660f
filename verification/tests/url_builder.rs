use get::config::Config;
use get::session::{Scheme, Session, SessionStore};
use get::text::{decimal_string, same_text, starts_with};
use get::url_builder::{URLBuilder, UrlError, UrlForm, UrlParts};

fn builder(
    scheme: Option<&str>,
    hostname: Option<&str>,
    port: Option<&str>,
    path: Option<&str>,
    query: Option<&str>,
) -> URLBuilder {
    URLBuilder {
        scheme: scheme.map(|text| text.to_string()),
        hostname: hostname.map(|text| text.to_string()),
        port: port.map(|text| text.to_string()),
        path: path.map(|text| text.to_string()),
        query: query.map(|text| text.to_string()),
    }
}

#[test]
fn authority_is_hostname_and_port() {
    let url = builder(None, Some("example.com"), Some("8080"), None, None);
    assert_eq!(url.authority().unwrap(), "example.com:8080");
    let url = builder(None, Some("example.com"), None, None, None);
    assert_eq!(url.authority().unwrap(), "example.com");
    let url = builder(Some("http"), None, Some("8080"), Some("/"), None);
    let error = url.authority().unwrap_err();
    assert!(matches!(error, UrlError::MissingHostname));
    assert_eq!(error.message(), "hostname is required");
}

#[test]
fn build_puts_the_parts_together() {
    let url = builder(Some("https"), Some("example.com"), Some("8080"), Some("/foo"), Some("bar=1"));
    assert_eq!(url.build().unwrap(), "https://example.com:8080/foo?bar=1");
    let url = builder(Some("http"), Some("example.com"), None, Some("/"), None);
    assert_eq!(url.build().unwrap(), "http://example.com/");
    let url = builder(Some("http"), Some("example.com"), None, Some(""), Some(""));
    assert_eq!(url.build().unwrap(), "http://example.com?");
}

#[test]
fn build_says_what_is_missing_first() {
    let error = builder(None, None, None, None, None).build().unwrap_err();
    assert!(matches!(error, UrlError::MissingScheme));
    assert_eq!(error.message(), "scheme is required");
    let error = builder(Some("http"), None, None, None, None).build().unwrap_err();
    assert!(matches!(error, UrlError::MissingHostname));
    let error = builder(Some("http"), Some("h"), None, None, None).build().unwrap_err();
    assert!(matches!(error, UrlError::MissingPath));
    assert_eq!(error.message(), "path is required");
    let empty = URLBuilder::new();
    assert!(empty.scheme.is_none() && empty.hostname.is_none() && empty.port.is_none());
    assert!(empty.path.is_none() && empty.query.is_none());
}

#[test]
fn complete_url_is_read_in_parts() {
    let url = URLBuilder::from_input("https://Example.com:8443/foo/bar?baz=1&qux", "localhost")
        .unwrap();
    assert_eq!(url.scheme.as_deref(), Some("https"));
    assert_eq!(url.hostname.as_deref(), Some("example.com"));
    assert_eq!(url.port.as_deref(), Some("8443"));
    assert_eq!(url.path.as_deref(), Some("/foo/bar"));
    assert_eq!(url.query.as_deref(), Some("baz=1&qux"));

    let url = URLBuilder::from_input("http://example.com", "localhost").unwrap();
    assert_eq!(url.scheme.as_deref(), Some("http"));
    assert_eq!(url.port, None);
    assert_eq!(url.path.as_deref(), Some("/"));
    assert_eq!(url.query, None);

    let url = URLBuilder::from_input("https://example.com:443/", "localhost").unwrap();
    assert_eq!(url.port, None);
    let url = URLBuilder::from_input("http://example.com:443/", "localhost").unwrap();
    assert_eq!(url.port.as_deref(), Some("443"));
}

#[test]
fn port_alone_takes_the_fallback_hostname() {
    let url = URLBuilder::from_input(":8080/foo?bar", "localhost").unwrap();
    assert_eq!(url.scheme, None);
    assert_eq!(url.hostname.as_deref(), Some("localhost"));
    assert_eq!(url.port.as_deref(), Some("8080"));
    assert_eq!(url.path.as_deref(), Some("/foo"));
    assert_eq!(url.query.as_deref(), Some("bar"));
    assert_eq!(url.authority().unwrap(), "localhost:8080");

    let url = URLBuilder::from_input(":65535", "127.0.0.1").unwrap();
    assert_eq!(url.hostname.as_deref(), Some("127.0.0.1"));
    assert_eq!(url.port.as_deref(), Some("65535"));
}

#[test]
fn url_without_scheme_leaves_the_scheme_open() {
    let url = URLBuilder::from_input("example.com/foo?bar", "localhost").unwrap();
    assert_eq!(url.scheme, None);
    assert_eq!(url.hostname.as_deref(), Some("example.com"));
    assert_eq!(url.port, None);
    assert_eq!(url.path.as_deref(), Some("/foo"));
    assert_eq!(url.query.as_deref(), Some("bar"));

    let url = URLBuilder::from_input("example.com:3000", "localhost").unwrap();
    assert_eq!(url.port.as_deref(), Some("3000"));
    let url = URLBuilder::from_input("ftp://example.com", "localhost").unwrap();
    assert_eq!(url.scheme, None);
    assert_eq!(url.hostname.as_deref(), Some("ftp"));
}

#[test]
fn text_that_is_no_url_is_refused() {
    for input in ["http://", "https://exa mple.com", ":port", "example.com:99999", ""] {
        let error = URLBuilder::from_input(input, "localhost").unwrap_err();
        assert!(matches!(error, UrlError::Parse(_)), "{:?}", input);
        assert!(error.message().starts_with("parse URL: "));
    }
}

#[test]
fn form_of_an_input() {
    assert_eq!(URLBuilder::form_of("http://x"), UrlForm::Complete);
    assert_eq!(URLBuilder::form_of("https://x"), UrlForm::Complete);
    assert_eq!(URLBuilder::form_of("HTTP://x"), UrlForm::NoScheme);
    assert_eq!(URLBuilder::form_of("http:/x"), UrlForm::NoScheme);
    assert_eq!(URLBuilder::form_of(":80"), UrlForm::PortOnly);
    assert_eq!(URLBuilder::form_of(""), UrlForm::NoScheme);
    assert_eq!(URLBuilder::form_of("x:80"), UrlForm::NoScheme);
}

#[test]
fn builder_from_parts() {
    let parts = || UrlParts {
        scheme: "https".to_string(),
        host: None,
        port: Some(80),
        path: "/p".to_string(),
        query: None,
    };
    let error = URLBuilder::from_parts(UrlForm::Complete, parts(), "fallback").unwrap_err();
    assert!(matches!(error, UrlError::NoHost));
    assert_eq!(error.message(), "get host");
    let error = URLBuilder::from_parts(UrlForm::NoScheme, parts(), "fallback").unwrap_err();
    assert!(matches!(error, UrlError::NoHost));
    let url = URLBuilder::from_parts(UrlForm::PortOnly, parts(), "fallback").unwrap();
    assert_eq!(url.scheme, None);
    assert_eq!(url.hostname.as_deref(), Some("fallback"));
    assert_eq!(url.port.as_deref(), Some("80"));
    assert_eq!(url.path.as_deref(), Some("/p"));
}

#[test]
fn numbers_in_decimal() {
    assert_eq!(decimal_string(0), "0");
    assert_eq!(decimal_string(7), "7");
    assert_eq!(decimal_string(10), "10");
    assert_eq!(decimal_string(8080), "8080");
    assert_eq!(decimal_string(65535), "65535");
    for n in [1u16, 9, 99, 100, 101, 1000, 12345, 60000] {
        assert_eq!(decimal_string(n), n.to_string());
    }
}

#[test]
fn texts_compare_by_their_characters() {
    assert!(same_text("", ""));
    assert!(same_text("héllo", "héllo"));
    assert!(!same_text("hello", "hellO"));
    assert!(!same_text("hello", "hell"));
    assert!(starts_with("http://x", "http://"));
    assert!(starts_with("abc", ""));
    assert!(starts_with("abc", "abc"));
    assert!(!starts_with("ab", "abc"));
    assert!(!starts_with("xbc", "ab"));
}

#[test]
fn scheme_as_text() {
    assert_eq!(Scheme::HTTP.as_str(), "http");
    assert_eq!(Scheme::HTTPS.as_str(), "https");
}

#[test]
fn new_session_sets_nothing() {
    let session = Session::new();
    assert!(session.headers.is_none());
    assert!(session.scheme.is_none());
    let session = Session::default();
    assert!(session.headers.is_none());
    assert!(session.scheme.is_none());
}

#[test]
fn session_store_finds_the_first_session_of_an_authority() {
    let store = SessionStore {
        sessions: vec![
            ("a.example".to_string(), Session { headers: None, scheme: Some(Scheme::HTTP) }),
            ("b.example:80".to_string(), Session { headers: None, scheme: Some(Scheme::HTTPS) }),
            ("a.example".to_string(), Session { headers: None, scheme: None }),
        ],
    };
    assert_eq!(store.get("a.example").unwrap().scheme, Some(Scheme::HTTP));
    assert_eq!(store.get("b.example:80").unwrap().scheme, Some(Scheme::HTTPS));
    assert!(store.get("b.example").is_none());
    assert!(SessionStore { sessions: vec![] }.get("a.example").is_none());
}

#[test]
fn config_defaults() {
    let config = Config::default();
    assert_eq!(config.fallback_hostname, "localhost");
    assert_eq!(config.http_hostnames, vec!["localhost".to_string()]);

    let config = Config::from_file(None, None);
    assert_eq!(config.fallback_hostname, "localhost");
    assert_eq!(config.http_hostnames, vec!["localhost".to_string()]);

    let config = Config::from_file(Some("dev.local".to_string()), None);
    assert_eq!(config.fallback_hostname, "dev.local");
    assert_eq!(config.http_hostnames, vec!["localhost".to_string()]);

    let config = Config::from_file(None, Some(vec![]));
    assert_eq!(config.fallback_hostname, "localhost");
    assert!(config.http_hostnames.is_empty());
}
