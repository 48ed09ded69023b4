//! The redirect-following fetch loop, as a state machine per requested URL.
//! The driver performs the outside work — parse, connect, send, receive —
//! and reports each outcome here; this type makes every decision: whether
//! to proceed, deliver, re-target on a redirect, or stop.

use vstd::prelude::*;

use crate::headers::spec_get;
use crate::protocol::Protocol;
use crate::response::HttpResponse;
use crate::status::{family_of, HttpStatusFamily};
use crate::url::ParsedUrl;

verus! {

/// Where a fetch stands. `Fetching` covers the Parse, Connect, Send and
/// Await steps, which the driver runs in order; the other two are terminal.
#[derive(Debug, Clone, Copy, PartialEq, Eq, Structural)]
pub enum FetchState {
    Fetching,
    Done,
    Failed,
}

/// One URL's fetch, across every redirect hop it takes.
pub struct FetchSession {
    pub current_url: String,
    pub state: FetchState,
}

impl FetchSession {
    pub fn new(url: String) -> (r: FetchSession)
        ensures
            r.current_url == url,
            r.state == FetchState::Fetching,
    {
        FetchSession { current_url: url, state: FetchState::Fetching }
    }

    /// The URL the next request must target.
    pub fn current_url(&self) -> (r: String)
        ensures
            r@ == self.current_url@,
    {
        self.current_url.clone()
    }

    pub fn is_fetching(&self) -> (r: bool)
        ensures
            r == (self.state == FetchState::Fetching),
    {
        match self.state {
            FetchState::Fetching => true,
            _ => false,
        }
    }

    /// Judges a decomposed URL: only HTTP is fetchable; any other protocol
    /// is a terminal failure for this URL.
    pub fn on_parsed(&mut self, url: &ParsedUrl) -> (proceed: bool)
        requires
            old(self).state == FetchState::Fetching,
        ensures
            proceed == (url.protocol == Protocol::Http),
            final(self).current_url == old(self).current_url,
            proceed ==> final(self).state == FetchState::Fetching,
            !proceed ==> final(self).state == FetchState::Failed,
    {
        match url.protocol {
            Protocol::Http => true,
            _ => {
                self.state = FetchState::Failed;
                false
            },
        }
    }

    /// A transport or parse error at any step is terminal for this URL.
    pub fn on_error(&mut self)
        ensures
            final(self).state == FetchState::Failed,
            final(self).current_url == old(self).current_url,
    {
        self.state = FetchState::Failed;
    }

    /// Dispatches on the response's status family. A successful response
    /// finishes the fetch and its body is delivered (the result is true
    /// exactly then). A redirection with a `Location` header re-targets the
    /// session at that URL and keeps fetching — it never terminates the
    /// loop; without `Location` it fails. Informational and error families
    /// are terminal failures, left to the driver to display.
    pub fn on_response(&mut self, response: &HttpResponse) -> (deliver: bool)
        requires
            old(self).state == FetchState::Fetching,
            response.headers.wf(),
        ensures
            ({
                let fam = family_of(response.status_code.spec_code());
                if fam == HttpStatusFamily::Successful {
                    deliver && final(self).state == FetchState::Done && final(self).current_url
                        == old(self).current_url
                } else if fam == HttpStatusFamily::Redirection {
                    match spec_get(response.headers@, "Location"@) {
                        Some(loc) => !deliver && final(self).state == FetchState::Fetching && final(self).current_url@ == loc,
                        None => !deliver && final(self).state == FetchState::Failed && final(self).current_url == old(self).current_url,
                    }
                } else {
                    !deliver && final(self).state == FetchState::Failed && final(self).current_url
                        == old(self).current_url
                }
            }),
    {
        match response.status_family() {
            HttpStatusFamily::Successful => {
                self.state = FetchState::Done;
                true
            },
            HttpStatusFamily::Redirection => {
                match response.get_header("Location") {
                    Some(loc) => {
                        self.current_url = loc;
                        false
                    },
                    None => {
                        self.state = FetchState::Failed;
                        false
                    },
                }
            },
            _ => {
                self.state = FetchState::Failed;
                false
            },
        }
    }
}

} // verus!
