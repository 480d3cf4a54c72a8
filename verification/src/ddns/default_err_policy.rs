//! The engine's own rule for failed passes: retry them, without end.

use crate::ddns::error::{seconds, Delay, Error, ErrorView};
use crate::ddns::error_policy::{opt_retry, ErrorPolicy, Retry, RetryView};
use crate::resource::{Ddns, DdnsView};
use vstd::prelude::*;

verus! {

/// The retry that a failure calls for: a pass that asked to be run again is
/// retried after the time it named, a pass that failed otherwise after three
/// seconds, and a pass that was given up for a newer one not at all.
pub open spec fn policy(ddns: DdnsView, err: ErrorView) -> Option<RetryView> {
    match err {
        ErrorView::ReRun(delay) => Some(RetryView { after: delay, ddns }),
        ErrorView::Other(_) => Some(RetryView { after: seconds(3), ddns }),
        ErrorView::Aborted => None,
    }
}

/// The engine's rule for failed passes, together with the retry queue that
/// the retries are meant for. The queue is only carried: to wait and to put
/// the snapshot on it is the caller's part.
#[derive(Debug, Clone)]
pub struct DefaultErrPolicy<S> {
    retry_queue: S,
}

impl<S> DefaultErrPolicy<S> {
    /// The rule, with the queue that its retries go to.
    pub fn new(retry_queue: S) -> (policy: DefaultErrPolicy<S>)
        ensures
            policy.queue() == retry_queue,
    {
        Self { retry_queue }
    }

    /// The queue that the retries go to.
    pub closed spec fn queue(&self) -> S {
        self.retry_queue
    }

    /// The queue that the retries go to.
    pub fn retry_queue(&self) -> (queue: &S)
        ensures
            *queue == self.queue(),
    {
        &self.retry_queue
    }

    /// The retry that the failure `err` of the pass over `ddns` calls for.
    pub fn error_policy(&self, ddns: Ddns, err: Error) -> (retry: Option<Retry>)
        ensures
            opt_retry(retry) == policy(ddns@, err@),
    {
        match err {
            Error::ReRun(delay) => Some(Retry { after: delay, ddns }),
            Error::Other(_) => Some(Retry { after: Delay::from_secs(3), ddns }),
            Error::Aborted => None,
        }
    }
}

impl<S> ErrorPolicy for DefaultErrPolicy<S> {
    type Error = Error;

    fn error_policy(&self, ddns: Ddns, err: Error) -> (retry: Option<Retry>)
        ensures
            opt_retry(retry) == policy(ddns@, err@),
    {
        DefaultErrPolicy::error_policy(self, ddns, err)
    }
}

} // verus!
