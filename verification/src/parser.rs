//! Reads request components from tokens.

use vstd::prelude::*;
use crate::grammar::{
    Component, Fragment, Parsed, array_end_at, array_index_at, collect, component, components,
    is_at, lemma_step_advances, number_at, object_key_at, parse_all, path_at, step_at,
};
use crate::headers::{
    HeaderError, header_entries, header_map_of, headers_outcome, no_entries, with_headers,
};
use crate::json_builder::{PathAccess, PathStep, path_view};
use crate::text::{CharClass, chars_of, lemma_run_len, parse_decimal, scan_run, slice_of};

verus! {

/// A body fragment: where a value goes in the document, and the value as it
/// was written.
#[derive(Debug)]
pub enum BodyValue {
    /// The value is put into the document as a JSON string.
    String { path: Vec<PathAccess>, value: String },
    /// The value is JSON text, and what it denotes is put into the document.
    JSON { path: Vec<PathAccess>, value: String },
}

impl View for BodyValue {
    type V = Fragment;

    open spec fn view(&self) -> Fragment {
        match self {
            BodyValue::String { path, value } => Fragment::Literal {
                path: path_view(path@),
                value: value@,
            },
            BodyValue::JSON { path, value } => Fragment::Raw {
                path: path_view(path@),
                value: value@,
            },
        }
    }
}

/// What one token says.
#[derive(Debug)]
pub enum RequestComponent {
    QueryParam { name: String, value: String },
    Header { key: String, value: String },
    BodyValue(BodyValue),
}

impl View for RequestComponent {
    type V = Component;

    open spec fn view(&self) -> Component {
        match self {
            RequestComponent::QueryParam { name, value } => Component::QueryParam {
                name: name@,
                value: value@,
            },
            RequestComponent::Header { key, value } => Component::Header {
                name: key@,
                value: value@,
            },
            RequestComponent::BodyValue(fragment) => Component::Body(fragment@),
        }
    }
}

/// A token that is being read: its text, and its characters one by one.
pub struct Token<'a> {
    text: &'a str,
    chars: Vec<char>,
}

impl<'a> Token<'a> {
    /// The characters of the token.
    pub closed spec fn view(&self) -> Seq<char> {
        self.text@
    }

    #[verifier::type_invariant]
    spec fn chars_are_the_text(&self) -> bool {
        self.chars@ == self.text@
    }

    /// The token with the given text.
    pub fn new(text: &'a str) -> (token: Token<'a>)
        ensures
            token@ == text@,
    {
        Token { text, chars: chars_of(text) }
    }

    /// The number of characters.
    fn len(&self) -> (len: usize)
        ensures
            len == self@.len(),
    {
        proof {
            use_type_invariant(self);
        }
        self.chars.len()
    }

    /// Whether the character `c` stands at `at`.
    fn has(&self, at: usize, c: char) -> (found: bool)
        ensures
            found == is_at(self@, at as int, c),
            found ==> at < usize::MAX,
    {
        proof {
            use_type_invariant(self);
        }
        at < self.chars.len() && self.chars[at] == c
    }

    /// The end of the run of characters of `class` that starts at `from`.
    fn run(&self, from: usize, class: CharClass) -> (end: usize)
        requires
            from <= self@.len(),
        ensures
            end == from + crate::text::run_len(self@, from as int, class),
            from <= end <= self@.len(),
    {
        proof {
            use_type_invariant(self);
        }
        scan_run(&self.chars, from, class)
    }

    /// The characters from `from` to `to`, as a string.
    fn part(&self, from: usize, to: usize) -> (part: String)
        requires
            from <= to <= self@.len(),
        ensures
            part@ == self@.subrange(from as int, to as int),
    {
        slice_of(self.text, from, to)
    }

    /// The number written by the digits at `from`, and where they end.
    fn number(&self, from: usize) -> (read: Option<(u32, usize)>)
        requires
            from <= self@.len(),
        ensures
            read is Some == number_at(self@, from as int) is Some,
            read matches Some(found) ==> number_at(self@, from as int) == Some(
                (found.0, found.1 as int),
            ) && from < found.1 <= self@.len(),
    {
        proof {
            use_type_invariant(self);
            lemma_run_len(self@, from as int, CharClass::Digit);
        }
        let end = self.run(from, CharClass::Digit);
        if end == from {
            return None;
        }
        match parse_decimal(&self.chars, from, end) {
            Some(value) => Some((value, end)),
            None => None,
        }
    }
}

/// What a reader of path steps finds at a position: the step and where it
/// ends, or nothing.
pub open spec fn read_is(read: Option<(PathAccess, usize)>, expected: Option<(PathStep, int)>) -> bool {
    match read {
        Some(found) => expected == Some((found.0@, found.1 as int)),
        None => expected is None,
    }
}

/// Reads an array index at `from`: `[digits]`, `.digits` or bare digits.
pub fn array_index(token: &Token, from: usize) -> (read: Option<(PathAccess, usize)>)
    requires
        from <= token@.len(),
    ensures
        read_is(read, array_index_at(token@, from as int)),
{
    if token.has(from, '[') {
        if let Some((index, end)) = token.number(from + 1) {
            if token.has(end, ']') {
                return Some((PathAccess::ArrayIndex(index), end + 1));
            }
        }
    }
    if token.has(from, '.') {
        if let Some((index, end)) = token.number(from + 1) {
            return Some((PathAccess::ArrayIndex(index), end));
        }
    }
    match token.number(from) {
        Some((index, end)) => Some((PathAccess::ArrayIndex(index), end)),
        None => None,
    }
}

/// Reads an object key at `from`: `[key]`, `.key` or a bare `key`.
pub fn object_key(token: &Token, from: usize) -> (read: Option<(PathAccess, usize)>)
    requires
        from <= token@.len(),
    ensures
        read_is(read, object_key_at(token@, from as int)),
{
    if token.has(from, '[') {
        let end = token.run(from + 1, CharClass::BracketKey);
        if end > from + 1 && token.has(end, ']') {
            return Some((PathAccess::ObjectKey(token.part(from + 1, end)), end + 1));
        }
    }
    if token.has(from, '.') {
        let end = token.run(from + 1, CharClass::BareKey);
        if end > from + 1 {
            return Some((PathAccess::ObjectKey(token.part(from + 1, end)), end));
        }
    }
    let end = token.run(from, CharClass::BareKey);
    if end > from {
        Some((PathAccess::ObjectKey(token.part(from, end)), end))
    } else {
        None
    }
}

/// Reads an append marker at `from`: `[]`.
pub fn array_end(token: &Token, from: usize) -> (read: Option<(PathAccess, usize)>)
    requires
        from <= token@.len(),
    ensures
        read_is(read, array_end_at(token@, from as int)),
{
    if token.has(from, '[') && token.has(from + 1, ']') {
        Some((PathAccess::ArrayEnd, from + 2))
    } else {
        None
    }
}

/// Reads the path step at `from`: an array index where one can be read, else
/// an object key, else an append marker.
pub fn path_step(token: &Token, from: usize) -> (read: Option<(PathAccess, usize)>)
    requires
        from <= token@.len(),
    ensures
        read_is(read, step_at(token@, from as int)),
{
    match array_index(token, from) {
        Some(found) => Some(found),
        None => match object_key(token, from) {
            Some(found) => Some(found),
            None => array_end(token, from),
        },
    }
}

/// Reads the steps that follow one another from `from` on, and says where
/// the last of them ends.
pub fn path(token: &Token, from: usize) -> (read: (Vec<PathAccess>, usize))
    requires
        from <= token@.len(),
    ensures
        path_view(read.0@) == path_at(token@, from as int).0,
        read.1 == path_at(token@, from as int).1,
        from <= read.1 <= token@.len(),
{
    let mut steps: Vec<PathAccess> = Vec::new();
    let mut at: usize = from;
    proof {
        assert(path_view(steps@) + path_at(token@, at as int).0 =~= path_at(token@, from as int).0);
    }
    loop
        invariant
            from <= at <= token@.len(),
            path_view(steps@) + path_at(token@, at as int).0 == path_at(token@, from as int).0,
            path_at(token@, at as int).1 == path_at(token@, from as int).1,
        ensures
            path_view(steps@) == path_at(token@, from as int).0,
            at == path_at(token@, from as int).1,
            from <= at <= token@.len(),
        decreases token@.len() - at,
    {
        match path_step(token, at) {
            Some((step, end)) => {
                proof {
                    lemma_step_advances(token@, at as int);
                    let before = path_view(steps@);
                    let after = path_view(steps@.push(step));
                    assert(after =~= before + seq![step@]);
                    assert(after + path_at(token@, end as int).0 =~= before + path_at(
                        token@,
                        at as int,
                    ).0);
                }
                steps.push(step);
                at = end;
            },
            None => {
                proof {
                    assert(path_view(steps@) + Seq::<PathStep>::empty() =~= path_view(steps@));
                }
                break ;
            },
        }
    }
    (steps, at)
}

/// What a reader of whole tokens finds: the component, or nothing.
pub open spec fn component_is(read: Option<RequestComponent>, expected: Option<Component>) -> bool {
    match read {
        Some(found) => expected == Some(found@),
        None => expected is None,
    }
}

/// Reads the token as a query parameter: `key==value`.
pub fn query_param(token: &Token) -> (read: Option<RequestComponent>)
    ensures
        component_is(read, crate::grammar::query_param(token@)),
{
    let key = token.run(0, CharClass::QueryKey);
    let len = token.len();
    if key >= 1 && token.has(key, '=') && token.has(key + 1, '=') && key + 2 < len {
        Some(
            RequestComponent::QueryParam {
                name: token.part(0, key),
                value: token.part(key + 2, len),
            },
        )
    } else {
        None
    }
}

/// Reads the token as a body fragment: a path, `=` or `:=`, and the value.
pub fn body(token: &Token) -> (read: Option<RequestComponent>)
    ensures
        component_is(read, crate::grammar::body(token@)),
{
    let (steps, end) = path(token, 0);
    let len = token.len();
    if token.has(end, ':') && token.has(end + 1, '=') {
        Some(
            RequestComponent::BodyValue(
                BodyValue::JSON { path: steps, value: token.part(end + 2, len) },
            ),
        )
    } else if token.has(end, '=') {
        Some(
            RequestComponent::BodyValue(
                BodyValue::String { path: steps, value: token.part(end + 1, len) },
            ),
        )
    } else {
        None
    }
}

/// Reads the token as a header: `name:value`.
pub fn header(token: &Token) -> (read: Option<RequestComponent>)
    ensures
        component_is(read, crate::grammar::header(token@)),
{
    let name = token.run(0, CharClass::HeaderName);
    let len = token.len();
    if name >= 1 && token.has(name, ':') && name + 1 < len {
        Some(
            RequestComponent::Header { key: token.part(0, name), value: token.part(name + 1, len) },
        )
    } else {
        None
    }
}

/// A token that is no request component.
#[derive(Debug, Clone, Copy, PartialEq, Eq)]
pub enum ComponentError {
    /// The token is neither a query parameter nor a body fragment nor a
    /// header.
    InvalidComponent,
}

impl ComponentError {
    /// The error in words.
    pub fn message(&self) -> (text: String)
        ensures
            text@ == "Invalid request component"@,
    {
        "Invalid request component".to_owned()
    }
}

/// Reads one token: a query parameter, else a body fragment, else a header.
/// A token that is none of them is refused.
pub fn parse_component(input: &str) -> (read: Result<RequestComponent, ComponentError>)
    ensures
        match read {
            Ok(found) => component(input@) == Some(found@),
            Err(_) => component(input@) is None,
        },
{
    let token = Token::new(input);
    if let Some(found) = query_param(&token) {
        return Ok(found);
    }
    if let Some(found) = body(&token) {
        return Ok(found);
    }
    match header(&token) {
        Some(found) => Ok(found),
        None => Err(ComponentError::InvalidComponent),
    }
}

/// The texts of a sequence of strings, one for one.
pub open spec fn texts(strings: Seq<String>) -> Seq<Seq<char>> {
    Seq::new(strings.len(), |i: int| strings[i]@)
}

/// The texts of a sequence of pairs of strings, one for one.
pub open spec fn pairs_view(pairs: Seq<(String, String)>) -> Seq<(Seq<char>, Seq<char>)> {
    Seq::new(pairs.len(), |i: int| (pairs[i].0@, pairs[i].1@))
}

/// The models of a sequence of body fragments, one for one.
pub open spec fn fragments_view(fragments: Seq<BodyValue>) -> Seq<Fragment> {
    Seq::new(fragments.len(), |i: int| fragments[i]@)
}

/// What the tokens of one request say: query parameters, headers and body
/// fragments, each in the order in which they were given.
#[derive(Debug)]
pub struct ParsedRequest {
    /// The query parameters: name and value.
    pub query: Vec<(String, String)>,
    /// The headers: name and value, as they were written.
    pub headers: Vec<(String, String)>,
    /// The body fragments.
    pub body: Vec<BodyValue>,
}

impl View for ParsedRequest {
    type V = Parsed;

    open spec fn view(&self) -> Parsed {
        Parsed {
            query: pairs_view(self.query@),
            headers: pairs_view(self.headers@),
            body: fragments_view(self.body@),
        }
    }
}

impl ParsedRequest {
    /// Reads the tokens of a request. Each token is read by itself; one that
    /// is no request component fails the whole request.
    pub fn from_inputs(inputs: &[String]) -> (read: Result<ParsedRequest, ComponentError>)
        ensures
            match read {
                Ok(request) => parse_all(texts(inputs@)) == Some(request@),
                Err(_) => parse_all(texts(inputs@)) is None,
            },
    {
        let mut query: Vec<(String, String)> = Vec::new();
        let mut headers: Vec<(String, String)> = Vec::new();
        let mut body: Vec<BodyValue> = Vec::new();
        let ghost tokens = texts(inputs@);
        let mut at: usize = 0;
        proof {
            assert(pairs_view(query@) =~= Seq::empty());
            assert(pairs_view(headers@) =~= Seq::empty());
            assert(fragments_view(body@) =~= Seq::empty());
        }
        while at < inputs.len()
            invariant
                at <= inputs@.len(),
                tokens == texts(inputs@),
                forall|i: int| 0 <= i < at ==> (#[trigger] component(tokens[i])) is Some,
                collect(components(tokens, at as int)) == (Parsed {
                    query: pairs_view(query@),
                    headers: pairs_view(headers@),
                    body: fragments_view(body@),
                }),
            decreases inputs@.len() - at,
        {
            let ghost before = components(tokens, at as int);
            let ghost after = components(tokens, at + 1);
            proof {
                assert(after.drop_last() =~= before);
                assert(after.last() == component(tokens[at as int]).unwrap());
                assert(tokens[at as int] == inputs@[at as int]@);
            }
            match parse_component(inputs[at].as_str()) {
                Ok(RequestComponent::QueryParam { name, value }) => {
                    proof {
                        assert(pairs_view(query@.push((name, value))) =~= pairs_view(query@).push(
                            (name@, value@),
                        ));
                    }
                    query.push((name, value));
                },
                Ok(RequestComponent::Header { key, value }) => {
                    proof {
                        assert(pairs_view(headers@.push((key, value))) =~= pairs_view(
                            headers@,
                        ).push((key@, value@)));
                    }
                    headers.push((key, value));
                },
                Ok(RequestComponent::BodyValue(fragment)) => {
                    proof {
                        assert(fragments_view(body@.push(fragment)) =~= fragments_view(body@).push(
                            fragment@,
                        ));
                    }
                    body.push(fragment);
                },
                Err(error) => {
                    return Err(error);
                },
            }
            at += 1;
        }
        Ok(ParsedRequest { query, headers, body })
    }

    /// The headers of the request as a header map of the `http` crate: each
    /// name and each value is checked and converted, in the order in which
    /// the headers were given.
    pub fn header_map(&self) -> (made: Result<http::HeaderMap<http::HeaderValue>, HeaderError>)
        ensures
            headers_outcome(
                match made {
                    Ok(map) => Ok(header_entries(map)),
                    Err(error) => Err(error@),
                },
                with_headers(no_entries(), self@.headers),
            ),
            self.headers@.len() == 0 ==> made is Ok,
    {
        header_map_of(self.headers.as_slice())
    }
}

} // verus!
