//! A request in the making: the URL in parts, the headers, the body and the
//! HTTP version, filled in from user input and a stored session.

use vstd::prelude::*;
use vstd::string::*;
use http::{HeaderMap, HeaderValue, Version};
use crate::config::Config;
use crate::grammar::Fragment;
use crate::headers::{
    HeaderError, HeaderFailure, add_headers, header_entries, headers_outcome, map_is_empty,
    new_map, no_entries, replace_headers, replaced, with_headers,
};
use crate::json::{Json, json_text};
use crate::json_builder::{BuildError, BuildFailure, build, fold};
use crate::parser::{BodyValue, fragments_view, pairs_view, texts};
use crate::session::{Scheme, Session};
use crate::text::same_text;
use crate::url_builder::{URLBuilder, UrlView, text_of};

verus! {

/// An HTTP version of the `http` crate.
#[verifier::external_type_specification]
#[verifier::external_body]
pub struct ExVersion(http::Version);

/// The HTTP version that a request has where none is set, by the `http`
/// crate's `Version::default`.
#[verifier::external_body]
pub(crate) fn default_version() -> Version {
    Version::default()
}

/// The text of `target` with one more pair in the form `name=value`, written
/// as `application/x-www-form-urlencoded` and set off by `&` where the
/// target is not empty: what `url::form_urlencoded::Serializer` makes of it.
pub uninterp spec fn form_pair_appended(
    target: Seq<char>,
    name: Seq<char>,
    value: Seq<char>,
) -> Seq<char>;

/// Appends one pair to a target with `url::form_urlencoded::Serializer`:
/// a serializer for the target, `append_pair`, and `finish`.
///
/// Trusted: the outcome depends on the three texts alone, so it is
/// `form_pair_appended` of them.
#[verifier::external_body]
pub(crate) fn append_pair(target: String, name: &str, value: &str) -> (text: String)
    ensures
        text@ == form_pair_appended(target@, name@, value@),
{
    url::form_urlencoded::Serializer::new(target).append_pair(name, value).finish()
}

/// The pairs as one `application/x-www-form-urlencoded` text, appended to
/// `target` one after another.
pub open spec fn form_encoded(target: Seq<char>, pairs: Seq<(Seq<char>, Seq<char>)>) -> Seq<char>
    decreases pairs.len(),
{
    if pairs.len() == 0 {
        target
    } else {
        form_encoded(form_pair_appended(target, pairs[0].0, pairs[0].1), pairs.drop_first())
    }
}

/// The pairs as one `application/x-www-form-urlencoded` text.
pub fn encode_query(query: &[(String, String)]) -> (text: String)
    ensures
        text@ == form_encoded(Seq::empty(), pairs_view(query@)),
{
    let ghost all = pairs_view(query@);
    let mut text = String::new();
    let mut at: usize = 0;
    proof {
        assert(all.skip(0) =~= all);
    }
    while at < query.len()
        invariant
            at <= query@.len(),
            all == pairs_view(query@),
            form_encoded(Seq::empty(), all) == form_encoded(text@, all.skip(at as int)),
        decreases query@.len() - at,
    {
        proof {
            let rest = all.skip(at as int);
            assert(rest[0] == (query@[at as int].0@, query@[at as int].1@));
            assert(rest.drop_first() =~= all.skip(at + 1));
        }
        text = append_pair(text, query[at].0.as_str(), query[at].1.as_str());
        at += 1;
    }
    text
}

/// The query of a URL with more parameters: the encoded parameters behind
/// the query that is there, set off by `&`, or alone where there is no
/// query or an empty one.
pub open spec fn query_with(query: Option<Seq<char>>, encoded: Seq<char>) -> Seq<char> {
    match query {
        Some(text) => if text.len() > 0 {
            text + seq!['&'] + encoded
        } else {
            encoded
        },
        None => encoded,
    }
}

/// The URL with the query parameters added to its query: encoded, and behind
/// the query that is there. With no parameters the URL stays as it is.
pub open spec fn url_with_query(url: UrlView, query: Seq<(Seq<char>, Seq<char>)>) -> UrlView {
    if query.len() == 0 {
        url
    } else {
        UrlView { query: Some(query_with(url.query, form_encoded(Seq::empty(), query))), ..url }
    }
}

/// Adds the query parameters to the query of the URL.
pub fn extend_query(url: &mut URLBuilder, query: &[(String, String)])
    ensures
        final(url)@ == url_with_query(old(url)@, pairs_view(query@)),
        query@.len() == 0 ==> *final(url) == *old(url),
{
    if query.len() == 0 {
        return ;
    }
    let encoded = encode_query(query);
    let merged = match &url.query {
        Some(text) => {
            if text.as_str().unicode_len() > 0 {
                proof {
                    reveal_strlit("&");
                    assert("&"@ =~= seq!['&']);
                }
                let mut merged = text.clone();
                merged.append("&");
                merged.append(encoded.as_str());
                merged
            } else {
                encoded
            }
        },
        None => encoded,
    };
    url.query = Some(merged);
}

/// The scheme of a request to a hostname whose URL names none: the
/// session's, or else `http` for the hostnames that are reached over plain
/// HTTP and `https` for all others.
pub open spec fn scheme_for(
    hostname: Seq<char>,
    session_scheme: Option<Scheme>,
    http_hostnames: Seq<Seq<char>>,
) -> Seq<char> {
    match session_scheme {
        Some(scheme) => scheme.text(),
        None => if http_hostnames.contains(hostname) {
            "http"@
        } else {
            "https"@
        },
    }
}

/// The scheme of a request to `hostname` whose URL names none.
pub fn get_scheme(hostname: &str, session: &Session, http_hostnames: &[String]) -> (scheme: String)
    ensures
        scheme@ == scheme_for(hostname@, session.scheme, texts(http_hostnames@)),
{
    if let Some(scheme) = &session.scheme {
        return scheme.as_str().to_owned();
    }
    let mut at: usize = 0;
    while at < http_hostnames.len()
        invariant
            at <= http_hostnames@.len(),
            session.scheme is None,
            forall|i: int| 0 <= i < at ==> texts(http_hostnames@)[i] != hostname@,
        decreases http_hostnames@.len() - at,
    {
        if same_text(http_hostnames[at].as_str(), hostname) {
            proof {
                assert(texts(http_hostnames@)[at as int] == hostname@);
            }
            return "http".to_owned();
        }
        at += 1;
    }
    "https".to_owned()
}

/// The headers of a session as pairs of name and value: each name with each
/// of its values, in their order.
pub open spec fn session_pairs(headers: Seq<(String, Vec<String>)>) -> Seq<(Seq<char>, Seq<char>)>
    decreases headers.len(),
{
    if headers.len() == 0 {
        Seq::empty()
    } else {
        session_pairs(headers.drop_last()) + Seq::new(
            headers.last().1@.len(),
            |i: int| (headers.last().0@, headers.last().1@[i]@),
        )
    }
}

/// The headers that a session sets, as pairs of name and value.
pub open spec fn session_headers(session: Session) -> Seq<(Seq<char>, Seq<char>)> {
    match session.headers {
        Some(headers) => session_pairs(headers@),
        None => Seq::empty(),
    }
}

/// The headers that a session sets, as pairs of name and value.
pub fn session_header_pairs(session: &Session) -> (pairs: Vec<(String, String)>)
    ensures
        pairs_view(pairs@) == session_headers(*session),
{
    let mut pairs: Vec<(String, String)> = Vec::new();
    proof {
        assert(pairs_view(pairs@) =~= Seq::empty());
    }
    if let Some(headers) = &session.headers {
        let mut at: usize = 0;
        proof {
            assert(headers@.take(0) =~= Seq::empty());
        }
        while at < headers.len()
            invariant
                at <= headers@.len(),
                pairs_view(pairs@) == session_pairs(headers@.take(at as int)),
            decreases headers@.len() - at,
        {
            let name = &headers[at].0;
            let values = &headers[at].1;
            let ghost before = pairs_view(pairs@);
            let mut i: usize = 0;
            while i < values.len()
                invariant
                    i <= values@.len(),
                    pairs_view(pairs@) == before + Seq::new(
                        i as nat,
                        |k: int| (name@, values@[k]@),
                    ),
                decreases values@.len() - i,
            {
                let ghost so_far = pairs_view(pairs@);
                pairs.push((name.clone(), values[i].clone()));
                proof {
                    assert(pairs_view(pairs@) =~= so_far.push((name@, values@[i as int]@)));
                    assert(so_far.push((name@, values@[i as int]@)) =~= before + Seq::new(
                        (i + 1) as nat,
                        |k: int| (name@, values@[k]@),
                    ));
                }
                i += 1;
            }
            proof {
                let next = headers@.take(at + 1);
                assert(next.drop_last() =~= headers@.take(at as int));
                assert(next.last() == headers@[at as int]);
            }
            at += 1;
        }
        proof {
            assert(headers@.take(headers@.len() as int) =~= headers@);
        }
    }
    pairs
}

/// Wraps what a request is made of: the URL, the headers, the body and the
/// HTTP version.
#[derive(Debug)]
pub struct RequestBuilder {
    pub url: URLBuilder,
    pub headers: HeaderMap<HeaderValue>,
    pub body: Option<String>,
    pub version: Version,
}

/// Why a request could not be made.
#[derive(Debug)]
pub enum RequestError {
    /// The URL has no hostname.
    MissingHostname,
    /// A header could not be added.
    Header(HeaderError),
    /// Both a body text and body fragments were given.
    DataAndValues,
    /// The body fragments do not build a document.
    Body(BuildError),
}

/// The mathematical model of [`RequestError`]: the kind of the error.
pub ghost enum RequestFailure {
    MissingHostname,
    Header(HeaderFailure),
    DataAndValues,
    Body(BuildFailure),
}

impl View for RequestError {
    type V = RequestFailure;

    open spec fn view(&self) -> RequestFailure {
        match self {
            RequestError::MissingHostname => RequestFailure::MissingHostname,
            RequestError::Header(error) => RequestFailure::Header(error@),
            RequestError::DataAndValues => RequestFailure::DataAndValues,
            RequestError::Body(error) => RequestFailure::Body(error@),
        }
    }
}

impl RequestError {
    /// The error in words. For a header and for a raw value of the body
    /// they are those of the crate that refused it.
    pub fn message(&self) -> (text: String)
        ensures
            self is MissingHostname ==> text@ == "hostname parsed"@,
            self is DataAndValues ==> text@ == "Cannot specify both data and body values"@,
            self matches RequestError::Body(BuildError::Conflict(conflict)) ==> text@
                == conflict.text(),
    {
        match self {
            RequestError::MissingHostname => "hostname parsed".to_owned(),
            RequestError::Header(error) => error.message(),
            RequestError::DataAndValues => "Cannot specify both data and body values".to_owned(),
            RequestError::Body(error) => error.message(),
        }
    }
}

/// The URL of a request with the scheme filled in: a URL that names a
/// scheme stays as it is, and one that names none gets the scheme for its
/// hostname. Either way the URL must have a hostname.
pub open spec fn url_with_scheme(
    url: UrlView,
    session_scheme: Option<Scheme>,
    http_hostnames: Seq<Seq<char>>,
) -> Option<UrlView> {
    match url.hostname {
        None => None,
        Some(hostname) => if url.scheme is None {
            Some(
                UrlView {
                    scheme: Some(scheme_for(hostname, session_scheme, http_hostnames)),
                    ..url
                },
            )
        } else {
            Some(url)
        },
    }
}

/// The headers that a request starts with, as the user might have written
/// them: `Host` with the authority of the URL, then those of the session.
pub open spec fn first_headers(url: UrlView, session: Session) -> Seq<(Seq<char>, Seq<char>)> {
    seq![("Host"@, url.authority()->Ok_0)] + session_headers(session)
}

/// The body of a request after data has been added to it: the given text,
/// or the JSON text of the document that the fragments build, or the body
/// that was there where neither is given. To give both is an error.
pub open spec fn body_with(body: Option<Seq<char>>, values: Seq<Fragment>, data: Option<&str>) -> Result<
    Option<Seq<char>>,
    RequestFailure,
> {
    if data is Some && values.len() > 0 {
        Err(RequestFailure::DataAndValues)
    } else if values.len() > 0 {
        match fold(Json::Null, values) {
            Ok(tree) => Ok(Some(json_text(tree))),
            Err(failure) => Err(RequestFailure::Body(failure)),
        }
    } else {
        match data {
            Some(text) => Ok(Some(text@)),
            None => Ok(body),
        }
    }
}

impl RequestBuilder {
    /// Creates a new RequestBuilder from a URL, the session that is stored
    /// for its authority, and the configuration.
    ///
    /// The URL gets its scheme where it names none. The headers are `Host`
    /// and those of the session. There is no body yet.
    pub fn from_input(url: URLBuilder, session: &Session, config: &Config) -> (made: Result<
        RequestBuilder,
        RequestError,
    >)
        ensures
            match url_with_scheme(url@, session.scheme, texts(config.http_hostnames@)) {
                None => made matches Err(error) && error@ == RequestFailure::MissingHostname,
                Some(filled) => match made {
                    Ok(request) => request.url@ == filled && request.body is None
                        && with_headers(no_entries(), first_headers(filled, *session)) == Ok::<
                        Map<Seq<char>, Seq<Seq<u8>>>,
                        HeaderFailure,
                    >(header_entries(request.headers)),
                    Err(error) => error@ matches RequestFailure::Header(failure) && headers_outcome(
                        Err(failure),
                        with_headers(no_entries(), first_headers(filled, *session)),
                    ),
                },
            },
    {
        let mut url = url;
        if url.scheme.is_none() {
            let scheme = match &url.hostname {
                Some(hostname) => get_scheme(
                    hostname.as_str(),
                    session,
                    config.http_hostnames.as_slice(),
                ),
                None => {
                    return Err(RequestError::MissingHostname);
                },
            };
            url.scheme = Some(scheme);
        }
        let host = match url.authority() {
            Ok(host) => host,
            Err(_) => {
                return Err(RequestError::MissingHostname);
            },
        };
        let mut first: Vec<(String, String)> = Vec::new();
        first.push(("Host".to_owned(), host));
        let mut rest = session_header_pairs(session);
        proof {
            assert(pairs_view(first@ + rest@) =~= first_headers(url@, *session));
        }
        first.append(&mut rest);
        let mut headers = new_map();
        match add_headers(&mut headers, first.as_slice()) {
            Ok(()) => {},
            Err(error) => {
                return Err(RequestError::Header(error));
            },
        }
        Ok(RequestBuilder { url, headers, body: None, version: default_version() })
    }

    /// Adds the given query parameters to the request: encoded, and behind
    /// the query that the URL has. With no parameters the request stays as
    /// it is.
    pub fn add_query(self, query: &[(String, String)]) -> (request: RequestBuilder)
        ensures
            request.headers == self.headers,
            request.body == self.body,
            request.version == self.version,
            request.url@ == url_with_query(self.url@, pairs_view(query@)),
    {
        let mut request = self;
        extend_query(&mut request.url, query);
        request
    }

    /// Merges the given headers into the request: a name that they have
    /// takes its values from them, and any other keeps what it has.
    pub fn merge_headers(self, headers: HeaderMap<HeaderValue>) -> (merged: Result<
        RequestBuilder,
        RequestError,
    >)
        ensures
            match merged {
                Ok(request) => request.url == self.url && request.body == self.body
                    && request.version == self.version && header_entries(request.headers)
                    == replaced(header_entries(self.headers), header_entries(headers)),
                Err(error) => error@ == RequestFailure::Header(HeaderFailure::TooMany),
            },
            header_entries(headers) == no_entries() ==> merged is Ok,
    {
        let mut request = self;
        if map_is_empty(&headers) {
            proof {
                assert(replaced(header_entries(request.headers), no_entries()) =~= header_entries(
                    request.headers,
                ));
            }
            return Ok(request);
        }
        match replace_headers(&mut request.headers, headers) {
            Ok(()) => Ok(request),
            Err(error) => Err(RequestError::Header(error)),
        }
    }

    /// Adds data to the request body: the given text, or the document that
    /// the body fragments build. To give both is an error.
    pub fn add_data(self, values: &[BodyValue], data: Option<&str>) -> (added: Result<
        RequestBuilder,
        RequestError,
    >)
        ensures
            match body_with(text_of(self.body), fragments_view(values@), data) {
                Ok(body) => added matches Ok(request) && text_of(request.body) == body
                    && request.url == self.url && request.headers == self.headers
                    && request.version == self.version,
                Err(failure) => added matches Err(error) && error@ == failure,
            },
    {
        if data.is_some() && values.len() > 0 {
            return Err(RequestError::DataAndValues);
        }
        let mut request = self;
        if let Some(text) = data {
            request.body = Some(text.to_owned());
        }
        if values.len() > 0 {
            match build(values) {
                Ok(text) => {
                    request.body = Some(text);
                },
                Err(error) => {
                    return Err(RequestError::Body(error));
                },
            }
        }
        Ok(request)
    }

    /// Sets the HTTP version of the request.
    pub fn version(self, version: Version) -> (request: RequestBuilder)
        ensures
            request.url == self.url,
            request.headers == self.headers,
            request.body == self.body,
            request.version == version,
    {
        let mut request = self;
        request.version = version;
        request
    }
}

} // verus!
