//! The retry policy of a fetch: a request is sent, and after each failure
//! sent again until the retries are used up, with a fixed pause between.

use crate::error::{CrawlError, CrawlErrorView};
use crate::value::Value;
use vstd::prelude::*;

verus! {

/// Seconds to pause after a failed request.
pub const RETRY_DELAY_SECS: u64 = 1;

/// The state of one fetch: the address, how many retries it was given, and
/// how many requests have failed so far.
pub struct Retry {
    url: String,
    retries: usize,
    left: usize,
    exhausted: bool,
}

/// What the fetcher is to do next.
#[derive(Clone, Debug, PartialEq, Eq)]
pub enum RetryStep {
    /// Send the request.
    Send,
    /// Give up with this error.
    Fail(CrawlError),
}

impl Retry {
    /// Whether the state is one that a fetch can reach.
    pub closed spec fn wf(&self) -> bool {
        self.left <= self.retries && (self.exhausted ==> self.left == 0)
    }

    /// The address that is fetched.
    pub closed spec fn url(&self) -> Seq<char> {
        self.url@
    }

    /// How many retries the fetch was given.
    pub closed spec fn retries(&self) -> nat {
        self.retries as nat
    }

    /// How many requests have failed so far.
    pub closed spec fn failures(&self) -> nat {
        if self.exhausted {
            self.retries as nat + 1
        } else {
            (self.retries - self.left) as nat
        }
    }

    /// Whether another request may be sent: as long as no more requests
    /// have failed than there are retries.
    pub open spec fn may_send(&self) -> bool {
        self.failures() <= self.retries()
    }

    /// A fetch of `url` before its first request.
    pub fn new(url: String, retries: usize) -> (r: Retry)
        ensures
            r.wf(),
            r.url() == url@,
            r.retries() == retries,
            r.failures() == 0,
    {
        Retry { url, retries, left: retries, exhausted: false }
    }

    /// What to do next: send while requests may be sent, else fail with the
    /// address.
    pub fn next(&self) -> (r: RetryStep)
        requires
            self.wf(),
        ensures
            self.may_send() ==> r == RetryStep::Send,
            !self.may_send() ==> (r matches RetryStep::Fail(e) && e.deep_view()
                == (CrawlErrorView::FetchExhausted { url: self.url() })),
    {
        if self.exhausted {
            RetryStep::Fail(CrawlError::FetchExhausted { url: self.url.copy() })
        } else {
            RetryStep::Send
        }
    }

    /// Records that the request just sent has failed, and says how many
    /// seconds to pause before asking what to do next.
    pub fn failed(&mut self) -> (pause: u64)
        requires
            old(self).wf(),
            old(self).may_send(),
        ensures
            final(self).wf(),
            final(self).url() == old(self).url(),
            final(self).retries() == old(self).retries(),
            final(self).failures() == old(self).failures() + 1,
            pause == RETRY_DELAY_SECS,
    {
        if self.left == 0 {
            self.exhausted = true;
        } else {
            self.left = self.left - 1;
        }
        RETRY_DELAY_SECS
    }
}

} // verus!
