//! What the command line asks for, and the request that answers it.

use vstd::prelude::*;
use vstd::string::*;
use http::{HeaderMap, HeaderValue};
use crate::grammar::{Fragment, Parsed, parse_all};
use crate::headers::{
    HeaderError, HeaderFailure, header_entries, header_map_of, no_entries, replace_headers,
    replaced, with_headers,
};
use crate::json::{Json, json_text};
use crate::json_builder::{BuildError, BuildFailure, build, fold};
use crate::parser::{ComponentError, ParsedRequest, texts};
use crate::request_builder::{
    extend_query, get_scheme, scheme_for, session_header_pairs, session_headers, url_with_query,
};
use crate::session::Session;
use crate::url_builder::{URLBuilder, UrlError, UrlFailure, UrlView, text_of};

verus! {

/// The arguments of the command line.
#[derive(Debug)]
pub struct CLI {
    /// The URL of the request, in one of the forms that a URL builder reads.
    pub url: String,
    /// The request components: query parameters, headers and body fragments.
    pub components: Vec<String>,
    /// Path to the config file.
    pub config: Option<String>,
    /// Data to send in the request body.
    pub data: Option<String>,
}

/// A request that is ready to be sent.
#[derive(Debug)]
pub struct Request {
    pub url: String,
    pub headers: HeaderMap<HeaderValue>,
    pub body: Option<String>,
}

/// The mathematical model of a [`Request`].
pub ghost struct RequestView {
    pub url: Seq<char>,
    pub headers: Map<Seq<char>, Seq<Seq<u8>>>,
    pub body: Option<Seq<char>>,
}

impl View for Request {
    type V = RequestView;

    open spec fn view(&self) -> RequestView {
        RequestView {
            url: self.url@,
            headers: header_entries(self.headers),
            body: text_of(self.body),
        }
    }
}

/// Why no request could be made of the command line.
#[derive(Debug)]
pub enum CliError {
    /// A token is no request component.
    Component(ComponentError),
    /// The URL cannot be put together.
    Url(UrlError),
    /// A header could not be added.
    Header(HeaderError),
    /// Both a body text and body fragments were given.
    DataAndValues,
    /// The body fragments do not build a document.
    Body(BuildError),
}

/// The mathematical model of [`CliError`]: the kind of the error.
pub ghost enum CliFailure {
    Component,
    Url(UrlFailure),
    Header(HeaderFailure),
    DataAndValues,
    Body(BuildFailure),
}

impl View for CliError {
    type V = CliFailure;

    open spec fn view(&self) -> CliFailure {
        match self {
            CliError::Component(_) => CliFailure::Component,
            CliError::Url(error) => CliFailure::Url(error@),
            CliError::Header(error) => CliFailure::Header(error@),
            CliError::DataAndValues => CliFailure::DataAndValues,
            CliError::Body(error) => CliFailure::Body(error@),
        }
    }
}

impl CliError {
    /// The error in words. For a header, for a text that is no URL and for
    /// a raw value of the body they are those of the crate that refused it.
    pub fn message(&self) -> (text: String)
        ensures
            self is Component ==> text@ == "Invalid request component"@,
            self is DataAndValues ==> text@ == "Cannot specify both body data and body values"@,
            self matches CliError::Body(BuildError::Conflict(conflict)) ==> text@
                == conflict.text(),
            self matches CliError::Url(error) ==> (error@.text() matches Some(words) ==> text@
                == words),
    {
        match self {
            CliError::Component(error) => error.message(),
            CliError::Url(error) => error.message(),
            CliError::Header(error) => error.message(),
            CliError::DataAndValues => "Cannot specify both body data and body values".to_owned(),
            CliError::Body(error) => error.message(),
        }
    }
}

/// The body of the request: the given text, or the JSON text of the
/// document that the fragments build, or none. To give both a text and
/// fragments is an error.
pub open spec fn request_body(values: Seq<Fragment>, data: Option<String>) -> Result<
    Option<Seq<char>>,
    CliFailure,
> {
    if data is Some && values.len() > 0 {
        Err(CliFailure::DataAndValues)
    } else if values.len() > 0 {
        match fold(Json::Null, values) {
            Ok(tree) => Ok(Some(json_text(tree))),
            Err(failure) => Err(CliFailure::Body(failure)),
        }
    } else {
        Ok(text_of(data))
    }
}

/// The request that the parts make, the header map willing: the URL with
/// the query parameters; the headers of the session with those of the
/// command line laid over them; and the body. What fails first decides the
/// error: the URL, a header of the session, a header of the command line,
/// the body.
pub open spec fn request_of(url: UrlView, session: Session, parsed: Parsed, data: Option<String>) -> Result<
    RequestView,
    CliFailure,
> {
    match url_with_query(url, parsed.query).url() {
        Err(failure) => Err(CliFailure::Url(failure)),
        Ok(text) => match with_headers(no_entries(), session_headers(session)) {
            Err(failure) => Err(CliFailure::Header(failure)),
            Ok(saved) => match with_headers(no_entries(), parsed.headers) {
                Err(failure) => Err(CliFailure::Header(failure)),
                Ok(given) => match request_body(parsed.body, data) {
                    Err(failure) => Err(failure),
                    Ok(body) => Ok(
                        RequestView { url: text, headers: replaced(saved, given), body },
                    ),
                },
            },
        },
    }
}

/// What a result holds, in the model.
pub open spec fn made(result: Result<Request, CliError>) -> Result<RequestView, CliFailure> {
    match result {
        Ok(request) => Ok(request@),
        Err(error) => Err(error@),
    }
}

/// Whether an outcome is in order where, the header map willing, `expected`
/// is what comes of the parts: success gives the expected request, and a
/// failure is the expected one or, where there are headers, the map's
/// refusal to grow.
pub open spec fn request_outcome(
    done: Result<RequestView, CliFailure>,
    expected: Result<RequestView, CliFailure>,
    with_headers: bool,
) -> bool {
    match done {
        Ok(request) => expected == Ok::<RequestView, CliFailure>(request),
        Err(failure) => (with_headers && failure == CliFailure::Header(HeaderFailure::TooMany))
            || expected == Err::<RequestView, CliFailure>(failure),
    }
}

/// Makes the request that the command line asks for: reads the components,
/// adds the query parameters to the URL, lays the headers of the command
/// line over those of the session, and builds the body.
///
/// A token that is no request component fails the whole request, and the
/// URL builder stays as it was. Otherwise the URL builder has the query
/// parameters added, whatever comes of the rest.
pub fn build_request(
    url_builder: &mut URLBuilder,
    session: &Session,
    inputs: &[String],
    data: Option<String>,
) -> (built: Result<Request, CliError>)
    ensures
        match parse_all(texts(inputs@)) {
            None => built matches Err(error) && error@ == CliFailure::Component
                && *final(url_builder) == *old(url_builder),
            Some(parsed) => final(url_builder)@ == url_with_query(old(url_builder)@, parsed.query)
                && request_outcome(
                made(built),
                request_of(old(url_builder)@, *session, parsed, data),
                session_headers(*session).len() > 0 || parsed.headers.len() > 0,
            ),
        },
{
    let parsed = match ParsedRequest::from_inputs(inputs) {
        Ok(parsed) => parsed,
        Err(error) => {
            return Err(CliError::Component(error));
        },
    };
    extend_query(url_builder, parsed.query.as_slice());
    let url = match url_builder.build() {
        Ok(url) => url,
        Err(error) => {
            return Err(CliError::Url(error));
        },
    };
    let saved = session_header_pairs(session);
    let mut headers = match header_map_of(saved.as_slice()) {
        Ok(headers) => headers,
        Err(error) => {
            return Err(CliError::Header(error));
        },
    };
    let given = match header_map_of(parsed.headers.as_slice()) {
        Ok(given) => given,
        Err(error) => {
            return Err(CliError::Header(error));
        },
    };
    match replace_headers(&mut headers, given) {
        Ok(()) => {},
        Err(error) => {
            return Err(CliError::Header(error));
        },
    }
    if data.is_some() && parsed.body.len() > 0 {
        return Err(CliError::DataAndValues);
    }
    let body = if parsed.body.len() > 0 {
        match build(parsed.body.as_slice()) {
            Ok(text) => Some(text),
            Err(error) => {
                return Err(CliError::Body(error));
            },
        }
    } else {
        data
    };
    Ok(Request { url, headers, body })
}

/// Gives the URL the scheme for its hostname where it names none.
pub fn fill_scheme(url_builder: &mut URLBuilder, session: &Session, http_hostnames: &[String])
    requires
        old(url_builder).hostname is Some,
    ensures
        final(url_builder)@ == if old(url_builder).scheme is None {
            UrlView {
                scheme: Some(
                    scheme_for(
                        old(url_builder)@.hostname->0,
                        session.scheme,
                        texts(http_hostnames@),
                    ),
                ),
                ..old(url_builder)@
            }
        } else {
            old(url_builder)@
        },
{
    if url_builder.scheme.is_none() {
        let scheme = match &url_builder.hostname {
            Some(hostname) => get_scheme(hostname.as_str(), session, http_hostnames),
            None => String::new(),
        };
        url_builder.scheme = Some(scheme);
    }
}

} // verus!
