//! URLs in parts, so that what the user left out can be filled in before the
//! URL is put together.

use vstd::prelude::*;
use vstd::string::*;
use crate::text::{concat, decimal_string, decimal_text, has_prefix, starts_with};

verus! {

/// Why the `url` crate refused a text.
#[verifier::external_type_specification]
#[verifier::external_body]
pub struct ExParseError(url::ParseError);

/// The parts of a URL that the `url` crate has read.
#[derive(Debug)]
pub struct UrlParts {
    pub scheme: String,
    pub host: Option<String>,
    pub port: Option<u16>,
    pub path: String,
    pub query: Option<String>,
}

/// The mathematical model of [`UrlParts`].
pub ghost struct UrlPartsView {
    pub scheme: Seq<char>,
    pub host: Option<Seq<char>>,
    pub port: Option<u16>,
    pub path: Seq<char>,
    pub query: Option<Seq<char>>,
}

/// The text of an optional string.
pub open spec fn text_of(value: Option<String>) -> Option<Seq<char>> {
    match value {
        Some(text) => Some(text@),
        None => None,
    }
}

impl View for UrlParts {
    type V = UrlPartsView;

    open spec fn view(&self) -> UrlPartsView {
        UrlPartsView {
            scheme: self.scheme@,
            host: text_of(self.host),
            port: self.port,
            path: self.path@,
            query: text_of(self.query),
        }
    }
}

/// The parts of the URL that a text denotes, as `url::Url::parse` reads it:
/// scheme, host, port (none where it is the scheme's own), path and query.
/// Nothing where the text is no absolute URL.
pub uninterp spec fn url_parts(text: Seq<char>) -> Option<UrlPartsView>;

/// Reads a text as an absolute URL with `url::Url::parse`, and takes the
/// parts of the result by its getters `scheme`, `host_str`, `port`, `path`
/// and `query`.
///
/// Trusted: the outcome depends on the text alone, so it is `url_parts` of
/// the text.
#[verifier::external_body]
pub(crate) fn parse_url(text: &str) -> (read: Result<UrlParts, url::ParseError>)
    ensures
        match read {
            Ok(parts) => url_parts(text@) == Some(parts@),
            Err(_) => url_parts(text@) is None,
        },
{
    match url::Url::parse(text) {
        Ok(url) => Ok(
            UrlParts {
                scheme: url.scheme().to_string(),
                host: url.host_str().map(|host| host.to_string()),
                port: url.port(),
                path: url.path().to_string(),
                query: url.query().map(|query| query.to_string()),
            },
        ),
        Err(error) => Err(error),
    }
}

/// The message of an error of the `url` crate, by its `Display`.
#[verifier::external_body]
pub(crate) fn parse_error_text(error: &url::ParseError) -> String {
    error.to_string()
}

/// Why a URL could not be read or put together.
#[derive(Debug)]
pub enum UrlError {
    /// The text is no URL.
    Parse(url::ParseError),
    /// The URL names no host.
    NoHost,
    /// The builder has no hostname.
    MissingHostname,
    /// The builder has no scheme.
    MissingScheme,
    /// The builder has no path.
    MissingPath,
}

/// The mathematical model of [`UrlError`]: the kind of the error.
pub ghost enum UrlFailure {
    Parse,
    NoHost,
    MissingHostname,
    MissingScheme,
    MissingPath,
}

impl View for UrlError {
    type V = UrlFailure;

    open spec fn view(&self) -> UrlFailure {
        match self {
            UrlError::Parse(_) => UrlFailure::Parse,
            UrlError::NoHost => UrlFailure::NoHost,
            UrlError::MissingHostname => UrlFailure::MissingHostname,
            UrlError::MissingScheme => UrlFailure::MissingScheme,
            UrlError::MissingPath => UrlFailure::MissingPath,
        }
    }
}

impl UrlFailure {
    /// The error in words, where the library words it.
    pub open spec fn text(self) -> Option<Seq<char>> {
        match self {
            UrlFailure::Parse => None,
            UrlFailure::NoHost => Some("get host"@),
            UrlFailure::MissingHostname => Some("hostname is required"@),
            UrlFailure::MissingScheme => Some("scheme is required"@),
            UrlFailure::MissingPath => Some("path is required"@),
        }
    }
}

impl UrlError {
    /// The error in words. For a text that is no URL they are `parse URL: `
    /// and what the `url` crate says of the text.
    pub fn message(&self) -> (text: String)
        ensures
            self@.text() matches Some(words) ==> text@ == words,
    {
        match self {
            UrlError::Parse(error) => concat("parse URL: ", parse_error_text(error).as_str()),
            UrlError::NoHost => "get host".to_owned(),
            UrlError::MissingHostname => "hostname is required".to_owned(),
            UrlError::MissingScheme => "scheme is required".to_owned(),
            UrlError::MissingPath => "path is required".to_owned(),
        }
    }
}

/// A builder for URLs that allows for both reading and writing of URL parts.
///
/// A partial URL is built from user input, and the missing portions are
/// added from the session and the configuration.
#[derive(Debug)]
pub struct URLBuilder {
    pub scheme: Option<String>,
    pub hostname: Option<String>,
    pub port: Option<String>,
    pub path: Option<String>,
    pub query: Option<String>,
}

/// The mathematical model of a [`URLBuilder`].
pub ghost struct UrlView {
    pub scheme: Option<Seq<char>>,
    pub hostname: Option<Seq<char>>,
    pub port: Option<Seq<char>>,
    pub path: Option<Seq<char>>,
    pub query: Option<Seq<char>>,
}

impl View for URLBuilder {
    type V = UrlView;

    open spec fn view(&self) -> UrlView {
        UrlView {
            scheme: text_of(self.scheme),
            hostname: text_of(self.hostname),
            port: text_of(self.port),
            path: text_of(self.path),
            query: text_of(self.query),
        }
    }
}

impl UrlView {
    /// The authority: the hostname, and behind a colon the port where there
    /// is one. It takes a hostname.
    pub open spec fn authority(self) -> Result<Seq<char>, UrlFailure> {
        match self.hostname {
            None => Err(UrlFailure::MissingHostname),
            Some(hostname) => match self.port {
                None => Ok(hostname),
                Some(port) => Ok(hostname + seq![':'] + port),
            },
        }
    }

    /// The URL: scheme, `://`, authority and path, and behind a question
    /// mark the query where there is one. It takes a scheme, a hostname and
    /// a path, and says which of them is missing first, in that order.
    pub open spec fn url(self) -> Result<Seq<char>, UrlFailure> {
        if self.scheme is None {
            Err(UrlFailure::MissingScheme)
        } else if self.hostname is None {
            Err(UrlFailure::MissingHostname)
        } else if self.path is None {
            Err(UrlFailure::MissingPath)
        } else {
            Ok(
                self.scheme.unwrap() + seq![':', '/', '/'] + self.authority()->Ok_0
                    + self.path.unwrap() + match self.query {
                    Some(query) => seq!['?'] + query,
                    None => Seq::empty(),
                },
            )
        }
    }
}

/// The forms in which the user may write a URL.
#[derive(Debug, Clone, Copy, PartialEq, Eq)]
pub enum UrlForm {
    /// A complete URL, e.g. "https://example.com/foo?bar".
    Complete,
    /// A port with an optional path and query, e.g. ":8080/foo?bar".
    PortOnly,
    /// A URL with no scheme, e.g. "example.com/foo?bar".
    NoScheme,
}

/// The form of an input: complete where it begins with `http://` or
/// `https://`, a port where it begins with a colon, and without a scheme
/// otherwise.
pub open spec fn url_form(input: Seq<char>) -> UrlForm {
    if has_prefix(input, "http://"@) || has_prefix(input, "https://"@) {
        UrlForm::Complete
    } else if has_prefix(input, ":"@) {
        UrlForm::PortOnly
    } else {
        UrlForm::NoScheme
    }
}

/// The absolute URL that is read for an input: the input itself where it is
/// complete, else the input behind `https://`, with the fallback hostname in
/// between where the input names only a port.
pub open spec fn url_text(input: Seq<char>, fallback_hostname: Seq<char>) -> Seq<char> {
    match url_form(input) {
        UrlForm::Complete => input,
        UrlForm::PortOnly => "https://"@ + fallback_hostname + input,
        UrlForm::NoScheme => "https://"@ + input,
    }
}

/// The port as it stands in a URL.
pub open spec fn port_text(port: Option<u16>) -> Option<Seq<char>> {
    match port {
        Some(port) => Some(decimal_text(port as nat)),
        None => None,
    }
}

/// The builder for an input of the given form whose URL has the given
/// parts. Port, path and query are those of the URL. The scheme is the
/// URL's where the input is complete, and left open otherwise. The hostname
/// is the fallback where the input names only a port, and else the URL's
/// host, which must be there.
pub open spec fn builder_of(form: UrlForm, parts: UrlPartsView, fallback_hostname: Seq<char>) -> Result<
    UrlView,
    UrlFailure,
> {
    if form != UrlForm::PortOnly && parts.host is None {
        Err(UrlFailure::NoHost)
    } else {
        Ok(
            UrlView {
                scheme: if form == UrlForm::Complete {
                    Some(parts.scheme)
                } else {
                    None
                },
                hostname: if form == UrlForm::PortOnly {
                    Some(fallback_hostname)
                } else {
                    parts.host
                },
                port: port_text(parts.port),
                path: Some(parts.path),
                query: parts.query,
            },
        )
    }
}

/// The builder for an input, or why there is none.
pub open spec fn builder_for(input: Seq<char>, fallback_hostname: Seq<char>) -> Result<
    UrlView,
    UrlFailure,
> {
    match url_parts(url_text(input, fallback_hostname)) {
        None => Err(UrlFailure::Parse),
        Some(parts) => builder_of(url_form(input), parts, fallback_hostname),
    }
}

/// What a result holds, in the model.
pub open spec fn built(result: Result<URLBuilder, UrlError>) -> Result<UrlView, UrlFailure> {
    match result {
        Ok(builder) => Ok(builder@),
        Err(error) => Err(error@),
    }
}

/// What a result holds, in the model.
pub open spec fn outcome(result: Result<String, UrlError>) -> Result<Seq<char>, UrlFailure> {
    match result {
        Ok(text) => Ok(text@),
        Err(error) => Err(error@),
    }
}

impl URLBuilder {
    /// Returns the URL authority: the hostname and port, e.g.
    /// "example.com:8080".
    ///
    /// If the hostname is missing, we return an error. If the port is
    /// missing, we return just the hostname.
    pub fn authority(&self) -> (authority: Result<String, UrlError>)
        ensures
            outcome(authority) == self@.authority(),
    {
        let hostname = match &self.hostname {
            Some(hostname) => hostname,
            None => {
                return Err(UrlError::MissingHostname);
            },
        };
        let mut authority = hostname.clone();
        if let Some(port) = &self.port {
            proof {
                reveal_strlit(":");
                assert(":"@ =~= seq![':']);
            }
            authority.append(":");
            authority.append(port.as_str());
        }
        Ok(authority)
    }

    /// Builds the URL from the parts.
    ///
    /// If a required component is missing, we return an error.
    pub fn build(&self) -> (url: Result<String, UrlError>)
        ensures
            outcome(url) == self@.url(),
    {
        let scheme = match &self.scheme {
            Some(scheme) => scheme,
            None => {
                return Err(UrlError::MissingScheme);
            },
        };
        let authority = match self.authority() {
            Ok(authority) => authority,
            Err(error) => {
                return Err(error);
            },
        };
        let path = match &self.path {
            Some(path) => path,
            None => {
                return Err(UrlError::MissingPath);
            },
        };
        proof {
            reveal_strlit("://");
            reveal_strlit("?");
            assert("://"@ =~= seq![':', '/', '/']);
            assert("?"@ =~= seq!['?']);
        }
        let mut url = scheme.clone();
        url.append("://");
        url.append(authority.as_str());
        url.append(path.as_str());
        if let Some(query) = &self.query {
            url.append("?");
            url.append(query.as_str());
            proof {
                assert(url@ =~= self@.url()->Ok_0);
            }
        } else {
            proof {
                assert(url@ =~= self@.url()->Ok_0);
            }
        }
        Ok(url)
    }

    /// The form of an input.
    pub fn form_of(input: &str) -> (form: UrlForm)
        ensures
            form == url_form(input@),
    {
        if starts_with(input, "http://") || starts_with(input, "https://") {
            UrlForm::Complete
        } else if starts_with(input, ":") {
            UrlForm::PortOnly
        } else {
            UrlForm::NoScheme
        }
    }

    /// Creates the URL builder for an input of the given form from the parts
    /// of the URL that was read for it.
    pub fn from_parts(form: UrlForm, parts: UrlParts, fallback_hostname: &str) -> (builder: Result<
        URLBuilder,
        UrlError,
    >)
        ensures
            built(builder) == builder_of(form, parts@, fallback_hostname@),
    {
        let port = match parts.port {
            Some(port) => Some(decimal_string(port)),
            None => None,
        };
        let scheme = match form {
            UrlForm::Complete => Some(parts.scheme),
            _ => None,
        };
        let hostname = match form {
            UrlForm::PortOnly => fallback_hostname.to_owned(),
            _ => match parts.host {
                Some(host) => host,
                None => {
                    return Err(UrlError::NoHost);
                },
            },
        };
        Ok(
            URLBuilder {
                scheme,
                hostname: Some(hostname),
                port,
                path: Some(parts.path),
                query: parts.query,
            },
        )
    }

    /// Creates a new URL builder from user input.
    ///
    /// We expect a few forms of URL input from a user:
    /// - A port with an optional path, etc. e.g. ":8080/foo?bar"
    /// - A URL with no scheme, e.g. "example.com/foo?bar"
    /// - A complete URL, e.g. "https://example.com/foo?bar"
    pub fn from_input(input: &str, fallback_hostname: &str) -> (builder: Result<
        URLBuilder,
        UrlError,
    >)
        ensures
            built(builder) == builder_for(input@, fallback_hostname@),
    {
        let form = URLBuilder::form_of(input);
        let read = match form {
            UrlForm::Complete => parse_url(input),
            UrlForm::PortOnly => {
                let text = concat(concat("https://", fallback_hostname).as_str(), input);
                parse_url(text.as_str())
            },
            UrlForm::NoScheme => parse_url(concat("https://", input).as_str()),
        };
        match read {
            Ok(parts) => URLBuilder::from_parts(form, parts, fallback_hostname),
            Err(error) => Err(UrlError::Parse(error)),
        }
    }

    /// Creates a new empty URL builder.
    pub fn new() -> (builder: URLBuilder)
        ensures
            builder@ == (UrlView {
                scheme: None,
                hostname: None,
                port: None,
                path: None,
                query: None,
            }),
    {
        URLBuilder { scheme: None, hostname: None, port: None, path: None, query: None }
    }
}

} // verus!
