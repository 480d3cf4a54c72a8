//! What follows a failed pass.

use crate::ddns::error::Delay;
use crate::resource::{Ddns, DdnsView};
use vstd::prelude::*;

verus! {

/// A snapshot to put back on the reconcile input once `after` has passed.
#[derive(Debug, PartialEq, Eq)]
pub struct Retry {
    pub after: Delay,
    pub ddns: Ddns,
}

/// The content of a [`Retry`].
pub struct RetryView {
    pub after: Delay,
    pub ddns: DdnsView,
}

impl View for Retry {
    type V = RetryView;

    open spec fn view(&self) -> RetryView {
        RetryView { after: self.after, ddns: self.ddns@ }
    }
}

/// The content of an optional retry.
pub open spec fn opt_retry(retry: Option<Retry>) -> Option<RetryView> {
    match retry {
        Some(retry) => Some(retry@),
        None => None,
    }
}

/// A rule that says, of a snapshot whose pass failed, whether and when the
/// snapshot is to be reconciled again.
pub trait ErrorPolicy {
    /// The failures that the rule judges.
    type Error;

    /// The retry that the failure `err` of the pass over `ddns` calls for.
    fn error_policy(&self, ddns: Ddns, err: Self::Error) -> Option<Retry>;
}

} // verus!
