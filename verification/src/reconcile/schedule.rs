//! The scheduler's decisions: what to do with a reference to an object, and
//! what to do once the pass over it has ended.

use crate::ddns::controller::pass_for;
use crate::ddns::default_reconciler::{DefaultReconciler, ReconcilerView};
use crate::ddns::error::{seconds, Delay};
use crate::reconcile::{concluded, reconcile, reconcile_failed, Error, ReconcilerAction, Step, StepView};
use crate::resource::{Ddns, DdnsView};
use crate::text::Text;
use vstd::prelude::*;

verus! {

/// What the scheduler does with a reference to an object.
#[derive(Debug, PartialEq, Eq)]
pub enum Scheduled {
    /// The object is not in the store yet: look the reference up again after
    /// the given time.
    Lookup(Delay),
    /// The object is in the store: its pass has started.
    Started(DefaultReconciler, Step),
}

/// The content of a [`Scheduled`].
pub enum ScheduledView {
    Lookup(Delay),
    Started(ReconcilerView, StepView),
}

impl View for Scheduled {
    type V = ScheduledView;

    open spec fn view(&self) -> ScheduledView {
        match self {
            Scheduled::Lookup(delay) => ScheduledView::Lookup(*delay),
            Scheduled::Started(pass, step) => ScheduledView::Started(pass@, step@),
        }
    }
}

/// What the scheduler does with a reference: where the store has no object for
/// it, the reference is looked up again after two seconds; else the pass that
/// the object calls for starts.
pub open spec fn scheduled(found: Option<DdnsView>) -> ScheduledView {
    match found {
        None => ScheduledView::Lookup(seconds(2)),
        Some(ddns) => ScheduledView::Started(pass_for(ddns).0, concluded(pass_for(ddns).1)),
    }
}

/// The content of what the store found.
pub open spec fn opt_ddns(found: Option<Ddns>) -> Option<DdnsView> {
    match found {
        Some(ddns) => Some(ddns@),
        None => None,
    }
}

/// Decides what to do with a reference to an object, given what the store
/// holds for it.
pub fn handle_event(found: Option<Ddns>) -> (out: Scheduled)
    ensures
        out@ == scheduled(opt_ddns(found)),
{
    match found {
        None => Scheduled::Lookup(Delay::from_secs(2)),
        Some(ddns) => {
            let started = reconcile(ddns);
            Scheduled::Started(started.0, started.1)
        },
    }
}

/// The time after which an object is requeued once its pass has ended: what
/// the pass asked for, and three seconds after a failure.
pub open spec fn requeue_after(result: Result<ReconcilerAction, Text>) -> Option<Delay> {
    match result {
        Ok(action) => action.requeue_after,
        Err(_) => Some(seconds(3)),
    }
}

/// The content of the result of a pass.
pub open spec fn result_view(result: Result<ReconcilerAction, Error>) -> Result<
    ReconcilerAction,
    Text,
> {
    match result {
        Ok(action) => Ok(action),
        Err(error) => Err(error@),
    }
}

/// Decides, once a pass has ended, after what time its object is put back on
/// the scheduler's input, if at all.
pub fn schedule(result: Result<ReconcilerAction, Error>) -> (delay: Option<Delay>)
    ensures
        delay == requeue_after(result_view(result)),
{
    match result {
        Ok(action) => action.requeue_after,
        Err(err) => reconcile_failed(&err).requeue_after,
    }
}

} // verus!
