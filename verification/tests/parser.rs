use std::str::FromStr;

use get::json_builder::{build, PathAccess};
use get::parser::{parse_component, BodyValue, ComponentError, ParsedRequest, RequestComponent};
use http::{HeaderMap, HeaderName, HeaderValue};

fn inputs(tokens: &[&str]) -> Vec<String> {
    tokens.iter().map(|token| token.to_string()).collect()
}

fn to_json(body: &[BodyValue]) -> String {
    build(body).unwrap()
}

#[test]
fn parser_parse_simple_header() {
    let request = ParsedRequest::from_inputs(&inputs(&["foo:bar"])).unwrap();

    let headers = vec![(
        HeaderName::from_str("foo").unwrap(),
        HeaderValue::from_str("bar").unwrap(),
    )];

    assert_eq!(request.header_map().unwrap(), HeaderMap::from_iter(headers));
    assert_eq!(
        request.headers,
        vec![("foo".to_string(), "bar".to_string())]
    );
}

#[test]
fn parser_parse_quoted_header() {
    let request = ParsedRequest::from_inputs(&inputs(&["foo:bar baz"])).unwrap();

    let headers = vec![(
        HeaderName::from_str("foo").unwrap(),
        HeaderValue::from_str("bar baz").unwrap(),
    )];

    assert_eq!(request.header_map().unwrap(), HeaderMap::from_iter(headers));
    assert_eq!(
        request.headers,
        vec![("foo".to_string(), "bar baz".to_string())]
    );
}

#[test]
fn parser_reject_bad_header() {
    let error = ParsedRequest::from_inputs(&inputs(&["foo bar:baz"])).unwrap_err();
    assert_eq!(error.message(), "Invalid request component");
}

#[test]
fn parser_parse_simple_query_param() {
    let request = ParsedRequest::from_inputs(&inputs(&["foo==bar"])).unwrap();
    assert_eq!(request.query, vec![("foo".to_string(), "bar".to_string())]);
}

#[test]
fn parser_parse_quoted_query_param() {
    let request = ParsedRequest::from_inputs(&inputs(&["foo bar==baz qux"])).unwrap();
    assert_eq!(
        request.query,
        vec![("foo bar".to_string(), "baz qux".to_string())]
    );
}

#[test]
fn parser_parse_simple_body_param() {
    let request = ParsedRequest::from_inputs(&inputs(&["foo=bar"])).unwrap();
    assert_eq!(to_json(&request.body), r#"{"foo":"bar"}"#)
}

#[test]
fn parser_parse_nested_body_param() {
    let request = ParsedRequest::from_inputs(&inputs(&["foo[bar]=baz"])).unwrap();
    assert_eq!(to_json(&request.body), r#"{"foo":{"bar":"baz"}}"#)
}

#[test]
fn parser_parse_flexible_object_key_body_param() {
    let request = ParsedRequest::from_inputs(&inputs(&["foo[bar]baz.qux=quux"])).unwrap();
    assert_eq!(
        to_json(&request.body),
        r#"{"foo":{"bar":{"baz":{"qux":"quux"}}}}"#
    )
}

#[test]
fn parser_parse_flexible_array_index_body_param() {
    let request = ParsedRequest::from_inputs(&inputs(&["foo[bar]0.qux=quux"])).unwrap();
    assert_eq!(
        to_json(&request.body),
        r#"{"foo":{"bar":[{"qux":"quux"}]}}"#
    )
}

#[test]
fn parser_parse_flexible_leading_body_param() {
    let request = ParsedRequest::from_inputs(&inputs(&["[foo][bar]=baz"])).unwrap();
    assert_eq!(to_json(&request.body), r#"{"foo":{"bar":"baz"}}"#)
}

#[test]
fn parser_parse_multi_nested_body_param() {
    let request = ParsedRequest::from_inputs(&inputs(&["foo[bar][baz][qux]=quux"])).unwrap();
    assert_eq!(
        to_json(&request.body),
        r#"{"foo":{"bar":{"baz":{"qux":"quux"}}}}"#
    )
}

#[test]
fn parser_parse_array_end_body_param() {
    let request = ParsedRequest::from_inputs(&inputs(&["[]=foo"])).unwrap();
    assert_eq!(to_json(&request.body), r#"["foo"]"#)
}

#[test]
fn parser_parse_nested_array_end_body_param() {
    let request = ParsedRequest::from_inputs(&inputs(&["foo[][]=bar"])).unwrap();
    assert_eq!(to_json(&request.body), r#"{"foo":[["bar"]]}"#)
}

#[test]
fn parser_parse_array_index_body_param() {
    let request = ParsedRequest::from_inputs(&inputs(&["[1]=foo"])).unwrap();
    assert_eq!(to_json(&request.body), r#"[null,"foo"]"#)
}

#[test]
fn parser_parse_nested_array_index_body_param() {
    let request = ParsedRequest::from_inputs(&inputs(&["foo[0][1]=bar"])).unwrap();
    assert_eq!(to_json(&request.body), r#"{"foo":[[null,"bar"]]}"#)
}

#[test]
fn parser_parse_mixed_body_param() {
    let request = ParsedRequest::from_inputs(&inputs(&["[][foo][bar][][1][baz]=qux"])).unwrap();
    assert_eq!(
        to_json(&request.body),
        r#"[{"foo":{"bar":[[null,{"baz":"qux"}]]}}]"#
    )
}

#[test]
fn parser_parse_multiple_mixed_body_params() {
    let request = ParsedRequest::from_inputs(&inputs(&[
        "a[b]=c",
        "a[d]=e",
        "a[f][]=g",
        "a[f][1]=h",
        "a[f][2][i]=j",
    ]))
    .unwrap();
    assert_eq!(
        to_json(&request.body),
        r#"{"a":{"b":"c","d":"e","f":["g","h",{"i":"j"}]}}"#
    )
}

#[test]
fn parser_parse_raw_json_string_body_param() {
    let request = ParsedRequest::from_inputs(&inputs(&[r#"foo:="bar""#])).unwrap();
    assert_eq!(to_json(&request.body), r#"{"foo":"bar"}"#)
}

#[test]
fn parser_parse_raw_json_int_body_param() {
    let request = ParsedRequest::from_inputs(&inputs(&["foo:=1"])).unwrap();
    assert_eq!(to_json(&request.body), r#"{"foo":1}"#)
}

#[test]
fn parser_parse_raw_json_null_body_param() {
    let request = ParsedRequest::from_inputs(&inputs(&["foo:=null"])).unwrap();
    assert_eq!(to_json(&request.body), r#"{"foo":null}"#)
}

#[test]
fn parser_parse_raw_json_map_body_param() {
    let request = ParsedRequest::from_inputs(&inputs(&[r#"foo:={"bar":"baz"}"#])).unwrap();
    assert_eq!(to_json(&request.body), r#"{"foo":{"bar":"baz"}}"#)
}

fn key(name: &str) -> PathAccess {
    PathAccess::ObjectKey(name.to_string())
}

fn literal(token: &str) -> (Vec<PathAccess>, String) {
    match parse_component(token).unwrap() {
        RequestComponent::BodyValue(BodyValue::String { path, value }) => (path, value),
        other => panic!("no literal fragment: {:?}", other),
    }
}

fn raw(token: &str) -> (Vec<PathAccess>, String) {
    match parse_component(token).unwrap() {
        RequestComponent::BodyValue(BodyValue::JSON { path, value }) => (path, value),
        other => panic!("no raw fragment: {:?}", other),
    }
}

fn query(token: &str) -> (String, String) {
    match parse_component(token).unwrap() {
        RequestComponent::QueryParam { name, value } => (name, value),
        other => panic!("no query parameter: {:?}", other),
    }
}

fn header(token: &str) -> (String, String) {
    match parse_component(token).unwrap() {
        RequestComponent::Header { key, value } => (key, value),
        other => panic!("no header: {:?}", other),
    }
}

#[test]
fn query_param_keeps_name_and_value_as_written() {
    for (name, value) in [
        ("foo", "bar"),
        ("foo bar", "baz qux"),
        ("a", "=b"),
        ("a:b[c]", "d==e"),
        ("é", "ü ß"),
        (":", ":"),
    ] {
        let token = format!("{}=={}", name, value);
        let (read_name, read_value) = query(&token);
        assert_eq!(read_name, name);
        assert_eq!(read_value, value);
        assert_eq!(format!("{}=={}", read_name, read_value), token);
    }
}

#[test]
fn query_param_needs_a_name_and_a_value() {
    assert_eq!(literal("foo=="), (vec![key("foo")], "=".to_string()));
    assert_eq!(literal("==bar"), (vec![], "=bar".to_string()));
    assert_eq!(literal("=="), (vec![], "=".to_string()));
}

#[test]
fn query_param_wins_over_body_and_header() {
    assert_eq!(
        query("x-y:z==w"),
        ("x-y:z".to_string(), "w".to_string())
    );
    assert_eq!(
        query("a[b]==c"),
        ("a[b]".to_string(), "c".to_string())
    );
}

#[test]
fn body_value_is_what_follows_the_operator() {
    assert_eq!(literal("foo="), (vec![key("foo")], String::new()));
    assert_eq!(raw("foo:="), (vec![key("foo")], String::new()));
    assert_eq!(literal("foo=a=b"), (vec![key("foo")], "a=b".to_string()));
    assert_eq!(literal("foo= bar "), (vec![key("foo")], " bar ".to_string()));
    assert_eq!(raw("foo:=:=1"), (vec![key("foo")], ":=1".to_string()));
    assert_eq!(literal("=bar"), (vec![], "bar".to_string()));
    assert_eq!(raw(":=[1]"), (vec![], "[1]".to_string()));
}

#[test]
fn raw_body_wins_over_header() {
    assert_eq!(raw("name:=value"), (vec![key("name")], "value".to_string()));
    assert_eq!(header("name:value"), ("name".to_string(), "value".to_string()));
}

#[test]
fn path_steps_in_brackets() {
    assert_eq!(
        literal("[foo][12][]=x").0,
        vec![key("foo"), PathAccess::ArrayIndex(12), PathAccess::ArrayEnd]
    );
    assert_eq!(literal("[007]=x").0, vec![PathAccess::ArrayIndex(7)]);
    assert_eq!(literal("[12x]=x").0, vec![key("12x")]);
    assert_eq!(literal("[a b.c=d:e]=x").0, vec![key("a b.c=d:e")]);
    assert_eq!(literal("[[]=x").0, vec![key("[")]);
}

#[test]
fn path_steps_without_brackets() {
    assert_eq!(
        literal("foo[bar]0.qux=quux").0,
        vec![key("foo"), key("bar"), PathAccess::ArrayIndex(0), key("qux")]
    );
    assert_eq!(
        literal("foo[bar]baz.qux=quux").0,
        vec![key("foo"), key("bar"), key("baz"), key("qux")]
    );
    assert_eq!(literal("a.0=x").0, vec![key("a"), PathAccess::ArrayIndex(0)]);
    assert_eq!(literal("1=x").0, vec![PathAccess::ArrayIndex(1)]);
    assert_eq!(
        literal("12ab=x").0,
        vec![PathAccess::ArrayIndex(12), key("ab")]
    );
    assert_eq!(literal("foo12=x").0, vec![key("foo12")]);
    assert_eq!(literal("a]b=x").0, vec![key("a]b")]);
    assert_eq!(literal("a b=x").0, vec![key("a b")]);
}

#[test]
fn index_that_does_not_fit_is_a_key() {
    assert_eq!(
        literal("[4294967295]=x").0,
        vec![PathAccess::ArrayIndex(4294967295)]
    );
    assert_eq!(literal("[4294967296]=x").0, vec![key("4294967296")]);
    assert_eq!(literal("[99999999999]=x").0, vec![key("99999999999")]);
    assert_eq!(
        literal("a[b]99999999999=x").0,
        vec![key("a"), key("b"), key("99999999999")]
    );
    assert_eq!(
        literal("[00000000000000000001]=x").0,
        vec![PathAccess::ArrayIndex(1)]
    );
}

#[test]
fn header_name_is_letters_digits_underscore_and_hyphen() {
    assert_eq!(
        header("Content-Type:application/json"),
        ("Content-Type".to_string(), "application/json".to_string())
    );
    assert_eq!(header("X_Z-9z:a"), ("X_Z-9z".to_string(), "a".to_string()));
    assert_eq!(header("Z:z"), ("Z".to_string(), "z".to_string()));
    assert_eq!(header("foo: bar "), ("foo".to_string(), " bar ".to_string()));
    assert_eq!(header("foo:a=b"), ("foo".to_string(), "a=b".to_string()));
    assert_eq!(header("foo::"), ("foo".to_string(), ":".to_string()));
}

#[test]
fn tokens_that_are_no_component() {
    for token in [
        "",
        "foo",
        "foo:",
        ":bar",
        "foo bar:baz",
        "foo.bar:baz",
        "f\u{e9}:x",
        "[",
        "[]",
        "[foo",
        "[foo]",
        ".",
        "a.=b",
        "a[=b",
        "a[]b]",
    ] {
        assert_eq!(
            parse_component(token).unwrap_err(),
            ComponentError::InvalidComponent,
            "{:?}",
            token
        );
    }
}

#[test]
fn components_keep_their_order_within_each_kind() {
    let request = ParsedRequest::from_inputs(&inputs(&[
        "a==1", "x:1", "p=1", "b==2", "q:=2", "y:2", "a==3",
    ]))
    .unwrap();
    assert_eq!(
        request.query,
        vec![
            ("a".to_string(), "1".to_string()),
            ("b".to_string(), "2".to_string()),
            ("a".to_string(), "3".to_string()),
        ]
    );
    assert_eq!(
        request.headers,
        vec![
            ("x".to_string(), "1".to_string()),
            ("y".to_string(), "2".to_string()),
        ]
    );
    assert_eq!(request.body.len(), 2);
    assert!(matches!(&request.body[0], BodyValue::String { value, .. } if value == "1"));
    assert!(matches!(&request.body[1], BodyValue::JSON { value, .. } if value == "2"));
}

#[test]
fn headers_are_checked_when_the_header_map_is_made() {
    let request = ParsedRequest::from_inputs(&inputs(&["Foo:bar", "foo:b\u{7f}z"])).unwrap();
    assert_eq!(
        request.headers,
        vec![
            ("Foo".to_string(), "bar".to_string()),
            ("foo".to_string(), "b\u{7f}z".to_string()),
        ]
    );
    assert!(request.header_map().is_err());

    let request = ParsedRequest::from_inputs(&inputs(&["Foo:bar", "foo:baz", "x-y:z"])).unwrap();
    let map = request.header_map().unwrap();
    let values: Vec<&str> = map
        .get_all("foo")
        .iter()
        .map(|value| value.to_str().unwrap())
        .collect();
    assert_eq!(values, vec!["bar", "baz"]);
    assert_eq!(map.len(), 3);
}

#[test]
fn last_write_wins() {
    let request = ParsedRequest::from_inputs(&inputs(&["a[b]=c", "a[b]=d"])).unwrap();
    assert_eq!(to_json(&request.body), r#"{"a":{"b":"d"}}"#);
}

#[test]
fn appends_and_indices_meet_in_one_array() {
    let request =
        ParsedRequest::from_inputs(&inputs(&["a[f][]=g", "a[f][1]=h", "a[f][2][i]=j"])).unwrap();
    assert_eq!(to_json(&request.body), r#"{"a":{"f":["g","h",{"i":"j"}]}}"#);
}

#[test]
fn same_literal_fragment_twice_is_once() {
    let once = ParsedRequest::from_inputs(&inputs(&["a[b][2]=c"])).unwrap();
    let twice = ParsedRequest::from_inputs(&inputs(&["a[b][2]=c", "a[b][2]=c"])).unwrap();
    assert_eq!(to_json(&once.body), to_json(&twice.body));
    assert_eq!(to_json(&once.body), r#"{"a":{"b":[null,null,"c"]}}"#);
}

#[test]
fn type_conflict_is_an_error() {
    let request = ParsedRequest::from_inputs(&inputs(&["a[b]=c", "a[b][]=e"])).unwrap();
    let error = build(&request.body).unwrap_err();
    assert_eq!(error.message(), "expect array root");
    let request = ParsedRequest::from_inputs(&inputs(&["a[]=c", "a[b]=e"])).unwrap();
    let error = build(&request.body).unwrap_err();
    assert_eq!(error.message(), "expect object root");
}

#[test]
fn one_bad_token_fails_the_request() {
    let error = ParsedRequest::from_inputs(&inputs(&["a==1", "nothing", "b=2"])).unwrap_err();
    assert_eq!(error, ComponentError::InvalidComponent);
    let request = ParsedRequest::from_inputs(&[]).unwrap();
    assert!(request.query.is_empty() && request.headers.is_empty() && request.body.is_empty());
}
