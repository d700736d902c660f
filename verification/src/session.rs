//! Saved settings for the requests to one authority.

use vstd::prelude::*;
use crate::text::same_text;

verus! {

/// The scheme of a request.
#[derive(Debug, Clone, Copy, PartialEq, Eq)]
pub enum Scheme {
    HTTP,
    HTTPS,
}

impl Scheme {
    /// The text of the scheme as it stands in a URL.
    pub open spec fn text(self) -> Seq<char> {
        match self {
            Scheme::HTTP => "http"@,
            Scheme::HTTPS => "https"@,
        }
    }

    /// The scheme as it stands in a URL: `http` or `https`.
    pub fn as_str(&self) -> (text: &str)
        ensures
            text@ == self.text(),
    {
        match self {
            Scheme::HTTP => "http",
            Scheme::HTTPS => "https",
        }
    }
}

/// A saved set of configuration for making requests against a given
/// authority.
#[derive(Debug, Clone)]
pub struct Session {
    /// The headers to include in the request: each name with its values, in
    /// the order in which they are to be added.
    pub headers: Option<Vec<(String, Vec<String>)>>,
    /// The scheme to use when the URL names none.
    pub scheme: Option<Scheme>,
}

impl Session {
    /// A session that sets nothing: no headers and no scheme.
    pub fn new() -> (session: Session)
        ensures
            session.headers is None,
            session.scheme is None,
    {
        Session { headers: None, scheme: None }
    }
}

impl Default for Session {
    fn default() -> (session: Session)
        ensures
            session.headers is None,
            session.scheme is None,
    {
        Session::new()
    }
}

/// The sessions that are saved, each under the authority that it is for.
#[derive(Debug, Clone)]
pub struct SessionStore {
    /// Authority and session. Where an authority stands twice, the first
    /// entry is the one that counts.
    pub sessions: Vec<(String, Session)>,
}

/// The position of the first entry for the authority, or the number of
/// entries where there is none.
pub open spec fn session_index(sessions: Seq<(String, Session)>, authority: Seq<char>) -> int
    decreases sessions.len(),
{
    if sessions.len() == 0 {
        0
    } else if sessions[0].0@ == authority {
        0
    } else {
        1 + session_index(sessions.drop_first(), authority)
    }
}

impl SessionStore {
    /// The session that is saved for the authority, if there is one.
    pub fn get(&self, authority: &str) -> (found: Option<&Session>)
        ensures
            match found {
                Some(session) => session_index(self.sessions@, authority@) < self.sessions@.len()
                    && *session == self.sessions@[session_index(self.sessions@, authority@)].1,
                None => session_index(self.sessions@, authority@) == self.sessions@.len(),
            },
    {
        let mut at: usize = 0;
        proof {
            assert(self.sessions@.skip(0) =~= self.sessions@);
        }
        while at < self.sessions.len()
            invariant
                at <= self.sessions@.len(),
                session_index(self.sessions@, authority@) == at + session_index(
                    self.sessions@.skip(at as int),
                    authority@,
                ),
            decreases self.sessions@.len() - at,
        {
            proof {
                let tail = self.sessions@.skip(at as int);
                assert(tail[0] == self.sessions@[at as int]);
                assert(tail.drop_first() =~= self.sessions@.skip(at + 1));
            }
            if same_text(self.sessions[at].0.as_str(), authority) {
                return Some(&self.sessions[at].1);
            }
            at += 1;
        }
        None
    }
}

} // verus!
