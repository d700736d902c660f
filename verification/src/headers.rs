//! HTTP headers as the `http` crate holds them.
//!
//! Header names, header values and the header map are the `http` crate's
//! own. What the library knows of them is stated here and not proved: it is
//! what the crate's source shows.

use vstd::prelude::*;
use vstd::string::*;
use std::str::FromStr;
use http::header::{InvalidHeaderName, InvalidHeaderValue, MaxSizeReached};
use http::{HeaderMap, HeaderName, HeaderValue};
use crate::parser::pairs_view;
use crate::text::same_text;

verus! {

/// The multimap of the `http` crate from header names to values.
#[verifier::external_type_specification]
#[verifier::external_body]
#[verifier::reject_recursive_types(T)]
pub struct ExHeaderMap<T>(http::HeaderMap<T>);

/// A header name of the `http` crate: valid, and in lower case.
#[verifier::external_type_specification]
#[verifier::external_body]
pub struct ExHeaderName(http::HeaderName);

/// A header value of the `http` crate: valid bytes.
#[verifier::external_type_specification]
#[verifier::external_body]
pub struct ExHeaderValue(http::HeaderValue);

/// The error of the `http` crate for a text that is no header name.
#[verifier::external_type_specification]
#[verifier::external_body]
pub struct ExInvalidHeaderName(http::header::InvalidHeaderName);

/// The error of the `http` crate for a text that is no header value.
#[verifier::external_type_specification]
#[verifier::external_body]
pub struct ExInvalidHeaderValue(http::header::InvalidHeaderValue);

/// The error of the `http` crate for a header map that cannot grow.
#[verifier::external_type_specification]
#[verifier::external_body]
pub struct ExMaxSizeReached(http::header::MaxSizeReached);

/// The text of a header name: what `HeaderName::as_str` returns.
pub uninterp spec fn header_name_text(name: HeaderName) -> Seq<char>;

/// The bytes of a header value: what `HeaderValue::as_bytes` returns.
pub uninterp spec fn header_value_bytes(value: HeaderValue) -> Seq<u8>;

/// The text of the header name that `HeaderName::from_str` makes of a text:
/// the text in its normal form. Nothing where the text is no header name.
pub uninterp spec fn header_name_of(text: Seq<char>) -> Option<Seq<char>>;

/// What a header map holds: for each name that it has, by the name's text,
/// the bytes of its values in the order in which they were added.
pub uninterp spec fn header_entries(map: HeaderMap<HeaderValue>) -> Map<Seq<char>, Seq<Seq<u8>>>;

/// The entries of a map that holds nothing.
pub open spec fn no_entries() -> Map<Seq<char>, Seq<Seq<u8>>> {
    Map::empty()
}

/// Whether a header value may hold the byte: anything from the space on but
/// the delete character, and the tab.
pub open spec fn value_byte(byte: u8) -> bool {
    (byte >= 32 && byte != 127) || byte == 9
}

/// Whether the bytes are those of a header value.
pub open spec fn value_bytes(bytes: Seq<u8>) -> bool {
    forall|i: int| 0 <= i < bytes.len() ==> value_byte(#[trigger] bytes[i])
}

/// The entries with one more value for a name: behind the values that the
/// name has, or as its only value.
pub open spec fn appended(
    entries: Map<Seq<char>, Seq<Seq<u8>>>,
    name: Seq<char>,
    value: Seq<u8>,
) -> Map<Seq<char>, Seq<Seq<u8>>> {
    if entries.contains_key(name) {
        entries.insert(name, entries[name].push(value))
    } else {
        entries.insert(name, seq![value])
    }
}

/// Makes a header name of a text with `HeaderName::from_str`.
///
/// Trusted: the outcome depends on the text alone; the name's text is
/// `header_name_of` of the text.
#[verifier::external_body]
pub(crate) fn name_from_str(text: &str) -> (made: Result<HeaderName, InvalidHeaderName>)
    ensures
        match made {
            Ok(name) => header_name_of(text@) == Some(header_name_text(name)),
            Err(_) => header_name_of(text@) is None,
        },
{
    HeaderName::from_str(text)
}

/// Makes a header value of a text with `HeaderValue::from_str`.
///
/// Trusted: the text is taken where each of its bytes is a byte of a header
/// value, and the value then holds the bytes of the text.
#[verifier::external_body]
pub(crate) fn value_from_str(text: &str) -> (made: Result<HeaderValue, InvalidHeaderValue>)
    ensures
        made is Ok <==> value_bytes(text.spec_bytes()),
        made matches Ok(value) ==> header_value_bytes(value) == text.spec_bytes(),
{
    HeaderValue::from_str(text)
}

/// The text of a header name, by `HeaderName::as_str`.
#[verifier::external_body]
pub(crate) fn name_str(name: &HeaderName) -> (text: &str)
    ensures
        text@ == header_name_text(*name),
{
    name.as_str()
}

/// An empty header map, by `HeaderMap::new`.
#[verifier::external_body]
pub(crate) fn new_map() -> (headers: HeaderMap<HeaderValue>)
    ensures
        header_entries(headers) == no_entries(),
{
    HeaderMap::new()
}

/// Whether the map holds nothing, by `HeaderMap::is_empty`.
#[verifier::external_body]
pub(crate) fn map_is_empty(map: &HeaderMap<HeaderValue>) -> (bare: bool)
    ensures
        bare == (header_entries(*map) == no_entries()),
{
    map.is_empty()
}

/// Adds a value for a name with `HeaderMap::try_append`, which keeps the
/// values that the name has.
///
/// Trusted: where the call succeeds, the map holds the value behind those
/// that the name had, and the result says whether the name had any. The call
/// fails where the map cannot grow; nothing is said of the map then.
#[verifier::external_body]
pub(crate) fn try_append(map: &mut HeaderMap<HeaderValue>, name: HeaderName, value: HeaderValue) -> (had:
    Result<bool, MaxSizeReached>)
    ensures
        had matches Ok(known) ==> known == header_entries(*old(map)).contains_key(
            header_name_text(name),
        ) && header_entries(*final(map)) == appended(
            header_entries(*old(map)),
            header_name_text(name),
            header_value_bytes(value),
        ),
{
    map.try_append(name, value)
}

/// Sets the value of a name with `HeaderMap::try_insert`, which removes the
/// values that the name has.
///
/// Trusted: where the call succeeds, the name has the value and no other,
/// and the other names have what they had. The call fails where the map
/// cannot grow; nothing is said of the map then.
#[verifier::external_body]
pub(crate) fn try_insert(map: &mut HeaderMap<HeaderValue>, name: HeaderName, value: HeaderValue) -> (had:
    Result<Option<HeaderValue>, MaxSizeReached>)
    ensures
        had is Ok ==> header_entries(*final(map)) == header_entries(*old(map)).insert(
            header_name_text(name),
            seq![header_value_bytes(value)],
        ),
{
    map.try_insert(name, value)
}

/// The values that the listed headers have for a name, in the order of the
/// list.
pub open spec fn listed_values(list: Seq<(HeaderName, HeaderValue)>, name: Seq<char>) -> Seq<
    Seq<u8>,
>
    decreases list.len(),
{
    if list.len() == 0 {
        Seq::empty()
    } else if header_name_text(list.last().0) == name {
        listed_values(list.drop_last(), name).push(header_value_bytes(list.last().1))
    } else {
        listed_values(list.drop_last(), name)
    }
}

/// The headers of a map, one for each value, by `HeaderMap::iter`.
///
/// Trusted: the values of each name come in the order in which the map
/// holds them, and a name that the map has comes at least once. In which
/// order the names come is left open.
#[verifier::external_body]
pub(crate) fn map_list(map: &HeaderMap<HeaderValue>) -> (list: Vec<(HeaderName, HeaderValue)>)
    ensures
        forall|name: Seq<char>|
            header_entries(*map).contains_key(name) ==> #[trigger] listed_values(list@, name)
                == header_entries(*map)[name] && listed_values(list@, name).len() > 0,
        forall|name: Seq<char>|
            !header_entries(*map).contains_key(name) ==> (#[trigger] listed_values(
                list@,
                name,
            )).len() == 0,
{
    map.iter().map(|(name, value)| (name.clone(), value.clone())).collect()
}

/// The message of the `http` crate for a text that is no header name, by
/// the `Display` of `InvalidHeaderName`.
///
/// Trusted: that `Display` writes one fixed text, whatever the error.
#[verifier::external_body]
pub(crate) fn invalid_name_text(error: &InvalidHeaderName) -> (text: String)
    ensures
        text@ == "invalid HTTP header name"@,
{
    error.to_string()
}

/// The message of the `http` crate for a text that is no header value, by
/// the `Display` of `InvalidHeaderValue`.
///
/// Trusted: that `Display` writes one fixed text, whatever the error.
#[verifier::external_body]
pub(crate) fn invalid_value_text(error: &InvalidHeaderValue) -> (text: String)
    ensures
        text@ == "failed to parse header value"@,
{
    error.to_string()
}

/// The message of the `http` crate for a header map that cannot grow, by
/// the `Display` of `MaxSizeReached`.
///
/// Trusted: that `Display` writes one fixed text, whatever the error.
#[verifier::external_body]
pub(crate) fn max_size_text(error: &MaxSizeReached) -> (text: String)
    ensures
        text@ == "max size reached"@,
{
    error.to_string()
}

/// Why a header could not be added.
#[derive(Debug)]
pub enum HeaderError {
    /// The name is no header name.
    InvalidName(InvalidHeaderName),
    /// The value is no header value.
    InvalidValue(InvalidHeaderValue),
    /// The header map cannot grow.
    TooMany(MaxSizeReached),
}

/// The mathematical model of [`HeaderError`]: the kind of the error.
pub ghost enum HeaderFailure {
    InvalidName,
    InvalidValue,
    TooMany,
}

impl View for HeaderError {
    type V = HeaderFailure;

    open spec fn view(&self) -> HeaderFailure {
        match self {
            HeaderError::InvalidName(_) => HeaderFailure::InvalidName,
            HeaderError::InvalidValue(_) => HeaderFailure::InvalidValue,
            HeaderError::TooMany(_) => HeaderFailure::TooMany,
        }
    }
}

impl HeaderFailure {
    /// The error in words: those that the `http` crate has for it.
    pub open spec fn text(self) -> Seq<char> {
        match self {
            HeaderFailure::InvalidName => "invalid HTTP header name"@,
            HeaderFailure::InvalidValue => "failed to parse header value"@,
            HeaderFailure::TooMany => "max size reached"@,
        }
    }
}

impl HeaderError {
    /// The error in words: those of the `http` crate for the error that it
    /// holds.
    pub fn message(&self) -> (text: String)
        ensures
            text@ == self@.text(),
    {
        match self {
            HeaderError::InvalidName(error) => invalid_name_text(error),
            HeaderError::InvalidValue(error) => invalid_value_text(error),
            HeaderError::TooMany(error) => max_size_text(error),
        }
    }
}

/// The entries with one more header, given as the user wrote it: the name is
/// put into its normal form, and the value is taken byte for byte. A text
/// that is no header name fails first, then one that is no header value.
pub open spec fn with_header(
    entries: Map<Seq<char>, Seq<Seq<u8>>>,
    name: Seq<char>,
    value: Seq<char>,
) -> Result<Map<Seq<char>, Seq<Seq<u8>>>, HeaderFailure> {
    match header_name_of(name) {
        None => Err(HeaderFailure::InvalidName),
        Some(text) => if value_bytes(vstd::utf8::encode_utf8(value)) {
            Ok(appended(entries, text, vstd::utf8::encode_utf8(value)))
        } else {
            Err(HeaderFailure::InvalidValue)
        },
    }
}

/// The entries with the headers added one after another, or the first
/// failure.
pub open spec fn with_headers(
    entries: Map<Seq<char>, Seq<Seq<u8>>>,
    headers: Seq<(Seq<char>, Seq<char>)>,
) -> Result<Map<Seq<char>, Seq<Seq<u8>>>, HeaderFailure>
    decreases headers.len(),
{
    if headers.len() == 0 {
        Ok(entries)
    } else {
        match with_header(entries, headers[0].0, headers[0].1) {
            Ok(next) => with_headers(next, headers.drop_first()),
            Err(failure) => Err(failure),
        }
    }
}

/// Whether an outcome is in order where, the map willing, `expected` is
/// what comes of the headers: success gives the expected entries, and a
/// failure is the expected one or the map's refusal to grow.
pub open spec fn headers_outcome(
    done: Result<Map<Seq<char>, Seq<Seq<u8>>>, HeaderFailure>,
    expected: Result<Map<Seq<char>, Seq<Seq<u8>>>, HeaderFailure>,
) -> bool {
    match done {
        Ok(entries) => expected == Ok::<Map<Seq<char>, Seq<Seq<u8>>>, HeaderFailure>(entries),
        Err(failure) => failure == HeaderFailure::TooMany || expected == Err::<
            Map<Seq<char>, Seq<Seq<u8>>>,
            HeaderFailure,
        >(failure),
    }
}

/// What became of a map, in the model.
pub open spec fn entries_after(done: Result<(), HeaderError>, map: HeaderMap<HeaderValue>) -> Result<
    Map<Seq<char>, Seq<Seq<u8>>>,
    HeaderFailure,
> {
    match done {
        Ok(_) => Ok(header_entries(map)),
        Err(error) => Err(error@),
    }
}

/// Adds one header to the map: the name and the value are checked and
/// converted, and the value is put behind those that the name has.
pub fn add_header(map: &mut HeaderMap<HeaderValue>, key: &str, value: &str) -> (done: Result<
    (),
    HeaderError,
>)
    ensures
        headers_outcome(
            entries_after(done, *final(map)),
            with_header(header_entries(*old(map)), key@, value@),
        ),
{
    let name = match name_from_str(key) {
        Ok(name) => name,
        Err(error) => {
            return Err(HeaderError::InvalidName(error));
        },
    };
    let value = match value_from_str(value) {
        Ok(value) => value,
        Err(error) => {
            return Err(HeaderError::InvalidValue(error));
        },
    };
    match try_append(map, name, value) {
        Ok(_) => Ok(()),
        Err(error) => Err(HeaderError::TooMany(error)),
    }
}

/// Adds the headers to the map, one after another, and stops at the first
/// that fails.
pub fn add_headers(map: &mut HeaderMap<HeaderValue>, headers: &[(String, String)]) -> (done: Result<
    (),
    HeaderError,
>)
    ensures
        headers_outcome(
            entries_after(done, *final(map)),
            with_headers(header_entries(*old(map)), pairs_view(headers@)),
        ),
        headers@.len() == 0 ==> done is Ok,
{
    let ghost all = pairs_view(headers@);
    let ghost start = header_entries(*map);
    let mut at: usize = 0;
    proof {
        assert(all.skip(0) =~= all);
    }
    while at < headers.len()
        invariant
            at <= headers@.len(),
            all == pairs_view(headers@),
            start == header_entries(*old(map)),
            with_headers(start, all) == with_headers(header_entries(*map), all.skip(at as int)),
        decreases headers@.len() - at,
    {
        let ghost rest = all.skip(at as int);
        let ghost before = header_entries(*map);
        proof {
            assert(rest[0] == (headers@[at as int].0@, headers@[at as int].1@));
            assert(rest.drop_first() =~= all.skip(at + 1));
        }
        match add_header(map, headers[at].0.as_str(), headers[at].1.as_str()) {
            Ok(()) => {},
            Err(error) => {
                proof {
                    if error@ != HeaderFailure::TooMany {
                        assert(with_header(before, rest[0].0, rest[0].1) == Err::<
                            Map<Seq<char>, Seq<Seq<u8>>>,
                            HeaderFailure,
                        >(error@));
                        assert(with_headers(before, rest) == Err::<
                            Map<Seq<char>, Seq<Seq<u8>>>,
                            HeaderFailure,
                        >(error@));
                    }
                }
                return Err(error);
            },
        }
        at += 1;
    }
    Ok(())
}

/// The header map that holds the headers, added one after another.
pub fn header_map_of(headers: &[(String, String)]) -> (made: Result<
    HeaderMap<HeaderValue>,
    HeaderError,
>)
    ensures
        headers_outcome(
            match made {
                Ok(map) => Ok(header_entries(map)),
                Err(error) => Err(error@),
            },
            with_headers(no_entries(), pairs_view(headers@)),
        ),
        headers@.len() == 0 ==> made is Ok,
{
    let mut map = new_map();
    match add_headers(&mut map, headers) {
        Ok(()) => Ok(map),
        Err(error) => Err(error),
    }
}

/// The entries of `base` with those of `over` laid over them: a name that
/// `over` has takes its values from there, and any other keeps what it has
/// in `base`.
pub open spec fn replaced(
    base: Map<Seq<char>, Seq<Seq<u8>>>,
    over: Map<Seq<char>, Seq<Seq<u8>>>,
) -> Map<Seq<char>, Seq<Seq<u8>>> {
    base.union_prefer_right(over)
}

/// The entries of `base` after the listed headers have been laid over them:
/// a name that the list has takes its values from there, in the order of the
/// list, and any other keeps what it has in `base`.
pub open spec fn overlaid(
    base: Map<Seq<char>, Seq<Seq<u8>>>,
    list: Seq<(HeaderName, HeaderValue)>,
) -> Map<Seq<char>, Seq<Seq<u8>>> {
    Map::new(
        |name: Seq<char>| base.contains_key(name) || listed_values(list, name).len() > 0,
        |name: Seq<char>|
            if listed_values(list, name).len() > 0 {
                listed_values(list, name)
            } else {
                base[name]
            },
    )
}

/// Whether one of the texts is the given one.
fn is_among(texts: &Vec<String>, text: &str) -> (found: bool)
    ensures
        found == exists|i: int| 0 <= i < texts@.len() && texts@[i]@ == text@,
{
    let mut at: usize = 0;
    while at < texts.len()
        invariant
            at <= texts@.len(),
            forall|i: int| 0 <= i < at ==> texts@[i]@ != text@,
        decreases texts@.len() - at,
    {
        if same_text(texts[at].as_str(), text) {
            return true;
        }
        at += 1;
    }
    false
}

/// Lays the headers of `src` over those of `dst`: each name of `src` has in
/// `dst` the values that it has in `src`, and no others.
pub fn replace_headers(dst: &mut HeaderMap<HeaderValue>, src: HeaderMap<HeaderValue>) -> (done:
    Result<(), HeaderError>)
    ensures
        match done {
            Ok(_) => header_entries(*final(dst)) == replaced(
                header_entries(*old(dst)),
                header_entries(src),
            ),
            Err(error) => error@ == HeaderFailure::TooMany,
        },
        header_entries(src) == no_entries() ==> done is Ok,
{
    let ghost base = header_entries(*dst);
    let list = map_list(&src);
    let ghost all = list@;
    proof {
        if header_entries(src) == no_entries() && all.len() > 0 {
            let text = header_name_text(all.last().0);
            assert(listed_values(all, text).len() > 0);
            assert(!header_entries(src).contains_key(text));
        }
    }
    let mut seen: Vec<String> = Vec::new();
    proof {
        assert(header_entries(*dst) =~= overlaid(base, all.take(0)));
    }
    for header in it: list
        invariant
            it.seq() == all,
            header_entries(src) == no_entries() ==> all.len() == 0,
            header_entries(*dst) == overlaid(base, all.take(it.index() as int)),
            forall|name: Seq<char>|
                (exists|i: int| 0 <= i < seen@.len() && seen@[i]@ == name) <==> (
                #[trigger] listed_values(all.take(it.index() as int), name)).len() > 0,
    {
        let ghost before = all.take(it.index() as int);
        let ghost after = all.take(it.index() + 1);
        let ghost text = header_name_text(header.0);
        let ghost bytes = header_value_bytes(header.1);
        proof {
            assert(after.drop_last() =~= before);
            assert(after.last() == header);
        }
        let ghost seen_before = seen@;
        let ghost entries_before = header_entries(*dst);
        let known = is_among(&seen, name_str(&header.0));
        proof {
            assert(known == (listed_values(before, text).len() > 0));
            assert(listed_values(after, text) == listed_values(before, text).push(bytes));
        }
        if !known {
            seen.push(name_str(&header.0).to_owned());
        }
        let (name, value) = header;
        let grown = if known {
            match try_append(dst, name, value) {
                Ok(_) => Ok(()),
                Err(error) => Err(error),
            }
        } else {
            match try_insert(dst, name, value) {
                Ok(_) => Ok(()),
                Err(error) => Err(error),
            }
        };
        match grown {
            Ok(()) => {},
            Err(error) => {
                return Err(HeaderError::TooMany(error));
            },
        }
        proof {
            assert forall|other: Seq<char>|
                (exists|i: int| 0 <= i < seen@.len() && seen@[i]@ == other) <==> (
                #[trigger] listed_values(after, other)).len() > 0 by {
                if other == text {
                    if known {
                        let i = choose|i: int|
                            0 <= i < seen_before.len() && seen_before[i]@ == text;
                        assert(0 <= i < seen@.len() && seen@[i]@ == other);
                    } else {
                        let i = seen@.len() - 1;
                        assert(0 <= i < seen@.len() && seen@[i]@ == other);
                    }
                } else {
                    assert(listed_values(after, other) == listed_values(before, other));
                    if exists|i: int| 0 <= i < seen@.len() && seen@[i]@ == other {
                        let i = choose|i: int| 0 <= i < seen@.len() && seen@[i]@ == other;
                        assert(0 <= i < seen_before.len() && seen_before[i]@ == other);
                    }
                    if listed_values(before, other).len() > 0 {
                        let i = choose|i: int|
                            0 <= i < seen_before.len() && seen_before[i]@ == other;
                        assert(0 <= i < seen@.len() && seen@[i]@ == other);
                    }
                }
            }
            let target = overlaid(base, after);
            assert forall|other: Seq<char>|
                header_entries(*dst).contains_key(other) == target.contains_key(
                    other,
                ) && (target.contains_key(other) ==> header_entries(*dst)[other]
                    == target[other]) by {
                if other != text {
                    assert(listed_values(after, other) == listed_values(before, other));
                    assert(entries_before.contains_key(other) == overlaid(
                        base,
                        before,
                    ).contains_key(other));
                }
            }
            assert(header_entries(*dst) =~= target);
        }
    }
    proof {
        assert(all.take(all.len() as int) =~= all);
        assert(overlaid(base, all) =~= replaced(base, header_entries(src)));
    }
    Ok(())
}

} // verus!
