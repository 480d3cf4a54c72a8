//! How a reconcile pass can fail.

use crate::text::Text;
use vstd::prelude::*;

verus! {

/// A span of time: whole seconds and the nanoseconds beyond them.
#[derive(Debug, Copy, Clone, Eq, PartialEq, Structural)]
pub struct Delay {
    pub secs: u64,
    pub nanos: u32,
}

/// A span of `secs` whole seconds.
pub open spec fn seconds(secs: u64) -> Delay {
    Delay { secs, nanos: 0 }
}

impl Delay {
    /// A span of `secs` whole seconds.
    pub fn from_secs(secs: u64) -> (delay: Delay)
        ensures
            delay == seconds(secs),
    {
        Delay { secs, nanos: 0 }
    }
}

/// The failure of a reconcile pass.
#[derive(Debug, Clone, PartialEq, Eq)]
pub enum Error {
    /// The pass asks to be run again after the given time.
    ReRun(Delay),
    /// The pass failed, for the given reason.
    Other(String),
    /// The pass was given up for a newer one.
    Aborted,
}

/// The content of an [`Error`].
pub enum ErrorView {
    ReRun(Delay),
    Other(Text),
    Aborted,
}

impl View for Error {
    type V = ErrorView;

    open spec fn view(&self) -> ErrorView {
        match self {
            Error::ReRun(delay) => ErrorView::ReRun(*delay),
            Error::Other(reason) => ErrorView::Other(reason@),
            Error::Aborted => ErrorView::Aborted,
        }
    }
}

impl From<Delay> for Error {
    fn from(delay: Delay) -> (error: Error) {
        Error::ReRun(delay)
    }
}

impl vstd::std_specs::convert::FromSpecImpl<Delay> for Error {
    open spec fn obeys_from_spec() -> bool {
        true
    }

    open spec fn from_spec(delay: Delay) -> Error {
        Error::ReRun(delay)
    }
}

/// The content of the result of a pass.
pub open spec fn outcome_view(result: Result<(), Error>) -> Result<(), ErrorView> {
    match result {
        Ok(_) => Ok(()),
        Err(error) => Err(error@),
    }
}

} // verus!
