//! The settings of the client.

use vstd::prelude::*;

verus! {

/// The settings of the client.
#[derive(Debug)]
pub struct Config {
    /// The hostname of a URL that names only a port.
    pub fallback_hostname: String,
    /// The hostnames that are reached over plain HTTP where nothing else
    /// decides the scheme.
    pub http_hostnames: Vec<String>,
}

/// The hostname that stands in for one that is not given.
pub open spec fn fallback_hostname() -> Seq<char> {
    "localhost"@
}

impl Config {
    /// The settings where no file sets them: `localhost` is the fallback
    /// hostname and the only hostname reached over plain HTTP.
    pub fn default() -> (config: Config)
        ensures
            config.fallback_hostname@ == fallback_hostname(),
            config.http_hostnames@.len() == 1,
            config.http_hostnames@[0]@ == fallback_hostname(),
    {
        let mut http_hostnames: Vec<String> = Vec::new();
        http_hostnames.push("localhost".to_owned());
        Config { fallback_hostname: "localhost".to_owned(), http_hostnames }
    }

    /// The settings that a file gives: what it sets, and for what it leaves
    /// out the value of [`Config::default`].
    pub fn from_file(fallback_hostname: Option<String>, http_hostnames: Option<Vec<String>>) -> (config:
        Config)
        ensures
            config.fallback_hostname@ == match fallback_hostname {
                Some(name) => name@,
                None => self::fallback_hostname(),
            },
            match http_hostnames {
                Some(names) => config.http_hostnames == names,
                None => config.http_hostnames@.len() == 1 && config.http_hostnames@[0]@
                    == self::fallback_hostname(),
            },
    {
        let defaults = Config::default();
        Config {
            fallback_hostname: match fallback_hostname {
                Some(name) => name,
                None => defaults.fallback_hostname,
            },
            http_hostnames: match http_hostnames {
                Some(names) => names,
                None => defaults.http_hostnames,
            },
        }
    }
}

} // verus!
