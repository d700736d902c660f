//! The grammar of request components, as functions on character sequences.
//!
//! A token is a query parameter (`key==value`), a body fragment (a path, then
//! `=` or `:=`, then the value) or a header (`name:value`). The three are
//! tried in that order, and each either takes the whole token or nothing.

use vstd::prelude::*;
use crate::json_builder::PathStep;
use crate::text::{CharClass, decimal_value, lemma_run_len, lemma_run_len_is, run_len};

verus! {

/// A body fragment: where a value goes in the document, and the value as it
/// was written.
pub ghost enum Fragment {
    /// The value is put into the document as a JSON string.
    Literal { path: Seq<PathStep>, value: Seq<char> },
    /// The value is JSON text, and what it denotes is put into the document.
    Raw { path: Seq<PathStep>, value: Seq<char> },
}

/// What one token says.
pub ghost enum Component {
    QueryParam { name: Seq<char>, value: Seq<char> },
    Header { name: Seq<char>, value: Seq<char> },
    Body(Fragment),
}

/// Whether `s` has the character `c` at position `at`.
pub open spec fn is_at(s: Seq<char>, at: int, c: char) -> bool {
    0 <= at < s.len() && s[at] == c
}

/// The number written by the run of decimal digits that starts at `from`,
/// and where the run ends. There is none where no digit stands at `from`, or
/// where the number does not fit in 32 bits.
pub open spec fn number_at(s: Seq<char>, from: int) -> Option<(u32, int)> {
    let len = run_len(s, from, CharClass::Digit);
    if len >= 1 && decimal_value(s.subrange(from, from + len)) <= u32::MAX {
        Some((decimal_value(s.subrange(from, from + len)) as u32, from + len))
    } else {
        None
    }
}

/// An array index at `from`: `[digits]`, `.digits` or bare digits.
pub open spec fn array_index_at(s: Seq<char>, from: int) -> Option<(PathStep, int)> {
    let bracketed = number_at(s, from + 1);
    let bare = number_at(s, from);
    if is_at(s, from, '[') && bracketed is Some && is_at(s, bracketed.unwrap().1, ']') {
        Some((PathStep::ArrayIndex(bracketed.unwrap().0), bracketed.unwrap().1 + 1))
    } else if is_at(s, from, '.') && bracketed is Some {
        Some((PathStep::ArrayIndex(bracketed.unwrap().0), bracketed.unwrap().1))
    } else if bare is Some {
        Some((PathStep::ArrayIndex(bare.unwrap().0), bare.unwrap().1))
    } else {
        None
    }
}

/// An object key at `from`: `[key]` with a key free of `]`, or `.key` or a
/// bare `key` free of `.`, `[`, `=` and `:`. No key is empty.
pub open spec fn object_key_at(s: Seq<char>, from: int) -> Option<(PathStep, int)> {
    let bracketed = run_len(s, from + 1, CharClass::BracketKey);
    let dotted = run_len(s, from + 1, CharClass::BareKey);
    let bare = run_len(s, from, CharClass::BareKey);
    if is_at(s, from, '[') && bracketed >= 1 && is_at(s, from + 1 + bracketed, ']') {
        Some((PathStep::ObjectKey(s.subrange(from + 1, from + 1 + bracketed)), from + bracketed + 2))
    } else if is_at(s, from, '.') && dotted >= 1 {
        Some((PathStep::ObjectKey(s.subrange(from + 1, from + 1 + dotted)), from + 1 + dotted))
    } else if bare >= 1 {
        Some((PathStep::ObjectKey(s.subrange(from, from + bare)), from + bare))
    } else {
        None
    }
}

/// An append marker at `from`: `[]`.
pub open spec fn array_end_at(s: Seq<char>, from: int) -> Option<(PathStep, int)> {
    if is_at(s, from, '[') && is_at(s, from + 1, ']') {
        Some((PathStep::ArrayEnd, from + 2))
    } else {
        None
    }
}

/// The path step at `from` and where it ends: an array index where one can
/// be read, else an object key, else an append marker.
pub open spec fn step_at(s: Seq<char>, from: int) -> Option<(PathStep, int)> {
    if array_index_at(s, from) is Some {
        array_index_at(s, from)
    } else if object_key_at(s, from) is Some {
        object_key_at(s, from)
    } else {
        array_end_at(s, from)
    }
}

/// A step takes at least one character and ends inside the sequence.
pub proof fn lemma_step_advances(s: Seq<char>, from: int)
    requires
        0 <= from <= s.len(),
        step_at(s, from) is Some,
    ensures
        from < step_at(s, from).unwrap().1 <= s.len(),
{
    lemma_run_len(s, from, CharClass::Digit);
    lemma_run_len(s, from, CharClass::BareKey);
    if from < s.len() {
        lemma_run_len(s, from + 1, CharClass::Digit);
        lemma_run_len(s, from + 1, CharClass::BareKey);
        lemma_run_len(s, from + 1, CharClass::BracketKey);
    }
}

/// The steps that can be read one after another from `from` on, and where
/// the last of them ends.
pub open spec fn path_at(s: Seq<char>, from: int) -> (Seq<PathStep>, int)
    decreases s.len() - from,
{
    if 0 <= from <= s.len() && step_at(s, from) is Some {
        proof {
            lemma_step_advances(s, from);
        }
        let step = step_at(s, from)->0;
        let rest = path_at(s, step.1);
        (seq![step.0] + rest.0, rest.1)
    } else {
        (Seq::empty(), from)
    }
}

/// The path ends inside the sequence.
pub proof fn lemma_path_ends(s: Seq<char>, from: int)
    requires
        0 <= from <= s.len(),
    ensures
        from <= path_at(s, from).1 <= s.len(),
    decreases s.len() - from,
{
    if step_at(s, from) is Some {
        lemma_step_advances(s, from);
        lemma_path_ends(s, step_at(s, from).unwrap().1);
    }
}

/// The token as a query parameter: a key of one or more characters other
/// than `=`, then `==`, then a value of one or more characters.
pub open spec fn query_param(s: Seq<char>) -> Option<Component> {
    let key = run_len(s, 0, CharClass::QueryKey);
    if key >= 1 && is_at(s, key, '=') && is_at(s, key + 1, '=') && key + 2 < s.len() {
        Some(
            Component::QueryParam {
                name: s.subrange(0, key),
                value: s.subrange(key + 2, s.len() as int),
            },
        )
    } else {
        None
    }
}

/// The token as a body fragment: a path, then `:=` for a raw value or `=`
/// for a literal one, then the value, which may be empty.
pub open spec fn body(s: Seq<char>) -> Option<Component> {
    let (path, end) = path_at(s, 0);
    if is_at(s, end, ':') && is_at(s, end + 1, '=') {
        Some(Component::Body(Fragment::Raw { path, value: s.subrange(end + 2, s.len() as int) }))
    } else if is_at(s, end, '=') {
        Some(
            Component::Body(Fragment::Literal { path, value: s.subrange(end + 1, s.len() as int) }),
        )
    } else {
        None
    }
}

/// The token as a header: a name of one or more ASCII letters, digits, `_`
/// or `-`, then `:`, then a value of one or more characters.
pub open spec fn header(s: Seq<char>) -> Option<Component> {
    let name = run_len(s, 0, CharClass::HeaderName);
    if name >= 1 && is_at(s, name, ':') && name + 1 < s.len() {
        Some(
            Component::Header {
                name: s.subrange(0, name),
                value: s.subrange(name + 1, s.len() as int),
            },
        )
    } else {
        None
    }
}

/// What the token says: the first of query parameter, body fragment and
/// header that it can be read as; nothing where it is none of them.
pub open spec fn component(s: Seq<char>) -> Option<Component> {
    if query_param(s) is Some {
        query_param(s)
    } else if body(s) is Some {
        body(s)
    } else {
        header(s)
    }
}

/// A token that is read as a query parameter is its name, `==` and its
/// value, character for character.
pub proof fn lemma_query_param_round_trip(s: Seq<char>)
    requires
        component(s) is Some,
        component(s).unwrap() is QueryParam,
    ensures
        s == component(s).unwrap()->QueryParam_name + seq!['=', '='] + component(
            s,
        ).unwrap()->QueryParam_value,
{
    lemma_run_len(s, 0, CharClass::QueryKey);
    let name = component(s).unwrap()->QueryParam_name;
    let value = component(s).unwrap()->QueryParam_value;
    assert(s =~= name + seq!['=', '='] + value);
}

/// A name of one or more characters other than `=`, then `==`, then a value
/// of one or more characters, is read as the query parameter with that name
/// and that value.
pub proof fn lemma_query_param_reads_back(name: Seq<char>, value: Seq<char>)
    requires
        name.len() >= 1,
        forall|i: int| 0 <= i < name.len() ==> name[i] != '=',
        value.len() >= 1,
    ensures
        component(name + seq!['=', '='] + value) == Some(Component::QueryParam { name, value }),
{
    let s = name + seq!['=', '='] + value;
    assert forall|i: int| 0 <= i < name.len() implies CharClass::QueryKey.has(#[trigger] s[i]) by {
        assert(s[i] == name[i]);
    }
    assert(s[name.len() as int] == '=');
    assert(s[name.len() as int + 1] == '=');
    lemma_run_len_is(s, 0, name.len() as int, CharClass::QueryKey);
    assert(s.subrange(0, name.len() as int) =~= name);
    assert(s.subrange(name.len() as int + 2, s.len() as int) =~= value);
}

/// A token that is read as a header is its name, `:` and its value,
/// character for character.
pub proof fn lemma_header_round_trip(s: Seq<char>)
    requires
        component(s) is Some,
        component(s).unwrap() is Header,
    ensures
        s == component(s).unwrap()->Header_name + seq![':'] + component(
            s,
        ).unwrap()->Header_value,
{
    lemma_run_len(s, 0, CharClass::HeaderName);
    let name = component(s).unwrap()->Header_name;
    let value = component(s).unwrap()->Header_value;
    assert(s =~= name + seq![':'] + value);
}

/// A token that is read as a body fragment ends with the fragment's value,
/// and `=` stands before the value.
pub proof fn lemma_body_ends_with_value(s: Seq<char>)
    requires
        component(s) is Some,
        component(s).unwrap() is Body,
    ensures
        ({
            let value = match component(s).unwrap()->Body_0 {
                Fragment::Literal { value, .. } => value,
                Fragment::Raw { value, .. } => value,
            };
            &&& value.len() < s.len()
            &&& s.subrange(s.len() - value.len(), s.len() as int) == value
            &&& s[s.len() - value.len() - 1] == '='
        }),
{
    lemma_path_ends(s, 0);
}

/// Where only characters of bare keys stand from `from` up to a colon at
/// `end`, the path that is read from `from` ends at the colon.
pub proof fn lemma_path_stops_at_colon(s: Seq<char>, from: int, end: int)
    requires
        0 <= from <= end,
        is_at(s, end, ':'),
        forall|i: int| from <= i < end ==> CharClass::BareKey.has(#[trigger] s[i]),
    ensures
        path_at(s, from).1 == end,
    decreases end - from,
{
    lemma_run_len(s, from, CharClass::Digit);
    lemma_run_len(s, from, CharClass::BareKey);
    if from < end {
        let digits = run_len(s, from, CharClass::Digit);
        if from + digits > end {
            assert(CharClass::Digit.has(s[end]));
        }
        lemma_run_len_is(s, from, end - from, CharClass::BareKey);
        lemma_step_advances(s, from);
        let next = step_at(s, from).unwrap().1;
        assert(next == from + digits || next == end);
        lemma_path_stops_at_colon(s, next, end);
    }
}

/// A name of one or more ASCII letters, digits, `_` or `-`, then `:`, then a
/// value of one or more characters other than `=`, is read as the header
/// with that name and that value.
pub proof fn lemma_header_reads_back(name: Seq<char>, value: Seq<char>)
    requires
        name.len() >= 1,
        forall|i: int| 0 <= i < name.len() ==> CharClass::HeaderName.has(#[trigger] name[i]),
        value.len() >= 1,
        forall|i: int| 0 <= i < value.len() ==> value[i] != '=',
    ensures
        component(name + seq![':'] + value) == Some(Component::Header { name, value }),
{
    let s = name + seq![':'] + value;
    let n = name.len() as int;
    assert forall|i: int| 0 <= i < n implies CharClass::HeaderName.has(#[trigger] s[i])
        && CharClass::BareKey.has(s[i]) by {
        assert(s[i] == name[i]);
    }
    assert(s[n] == ':');
    assert forall|i: int| 0 <= i < s.len() implies CharClass::QueryKey.has(#[trigger] s[i]) by {
        if i < n {
            assert(s[i] == name[i]);
        } else if i > n {
            assert(s[i] == value[i - n - 1]);
        }
    }
    lemma_run_len_is(s, 0, s.len() as int, CharClass::QueryKey);
    assert(query_param(s) is None);
    lemma_path_stops_at_colon(s, 0, n);
    assert(s[n + 1] == value[0]);
    assert(body(s) is None);
    lemma_run_len_is(s, 0, n, CharClass::HeaderName);
    assert(s.subrange(0, n) =~= name);
    assert(s.subrange(n + 1, s.len() as int) =~= value);
}

/// What a sequence of tokens says, sorted by kind; within each kind the
/// order of the tokens is kept.
pub ghost struct Parsed {
    /// The query parameters: name and value.
    pub query: Seq<(Seq<char>, Seq<char>)>,
    /// The headers: name and value.
    pub headers: Seq<(Seq<char>, Seq<char>)>,
    /// The body fragments.
    pub body: Seq<Fragment>,
}

/// The components sorted by kind, each kind in the order in which its
/// components come.
pub open spec fn collect(components: Seq<Component>) -> Parsed
    decreases components.len(),
{
    if components.len() == 0 {
        Parsed { query: Seq::empty(), headers: Seq::empty(), body: Seq::empty() }
    } else {
        let before = collect(components.drop_last());
        match components.last() {
            Component::QueryParam { name, value } => Parsed {
                query: before.query.push((name, value)),
                ..before
            },
            Component::Header { name, value } => Parsed {
                headers: before.headers.push((name, value)),
                ..before
            },
            Component::Body(fragment) => Parsed { body: before.body.push(fragment), ..before },
        }
    }
}

/// Each component goes to exactly one kind: the kinds together hold as many
/// entries as there are components.
pub proof fn lemma_collect_keeps_all(components: Seq<Component>)
    ensures
        collect(components).query.len() + collect(components).headers.len() + collect(
            components,
        ).body.len() == components.len(),
    decreases components.len(),
{
    if components.len() > 0 {
        lemma_collect_keeps_all(components.drop_last());
    }
}

/// Whether each of the tokens is a request component.
pub open spec fn all_components(tokens: Seq<Seq<char>>) -> bool {
    forall|i: int| 0 <= i < tokens.len() ==> (#[trigger] component(tokens[i])) is Some
}

/// What the first `count` tokens say, one component for each.
pub open spec fn components(tokens: Seq<Seq<char>>, count: int) -> Seq<Component> {
    Seq::new(count as nat, |i: int| component(tokens[i]).unwrap())
}

/// What the tokens say, sorted by kind; nothing where one of them is no
/// request component.
pub open spec fn parse_all(tokens: Seq<Seq<char>>) -> Option<Parsed> {
    if all_components(tokens) {
        Some(collect(components(tokens, tokens.len() as int)))
    } else {
        None
    }
}

} // verus!
