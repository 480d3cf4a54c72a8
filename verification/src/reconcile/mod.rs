//! The engine under a scheduler that requeues by itself: a pass ends with the
//! time after which the object is to be reconciled again, if at all, and a
//! failed pass is always requeued.

pub mod apply;
pub mod delete;
pub mod schedule;
pub mod watch;

use crate::ddns::controller::pass_for;
use crate::ddns::default_reconciler::{resumed, DefaultReconciler};
use crate::ddns::error::{seconds, Delay, ErrorView};
use crate::ddns::reconcile::{Effect, EffectView, Outcome, Progress, ProgressView};
use crate::resource::Ddns;
use crate::text::{owned, Text};
use vstd::prelude::*;

verus! {

/// The failure of a pass, with its reason.
#[derive(Debug, Clone, PartialEq, Eq)]
pub struct Error(pub String);

impl View for Error {
    type V = Text;

    open spec fn view(&self) -> Text {
        self.0@
    }
}

/// What the scheduler is to do with an object after a pass: reconcile it again
/// after the given time, or leave it until it changes.
#[derive(Debug, Copy, Clone, Eq, PartialEq, Structural)]
pub struct ReconcilerAction {
    pub requeue_after: Option<Delay>,
}

/// What a pass does next: one more request, or nothing.
#[derive(Debug, PartialEq, Eq)]
pub enum Step {
    Next(Effect),
    Done(Result<ReconcilerAction, Error>),
}

/// The content of a [`Step`].
pub enum StepView {
    Next(EffectView),
    Done(Result<ReconcilerAction, Text>),
}

impl View for Step {
    type V = StepView;

    open spec fn view(&self) -> StepView {
        match self {
            Step::Next(effect) => StepView::Next(effect@),
            Step::Done(Ok(action)) => StepView::Done(Ok(*action)),
            Step::Done(Err(error)) => StepView::Done(Err(error@)),
        }
    }
}

/// The reason of the failure of a pass that was given up.
pub open spec fn given_up() -> Text {
    "reconcile aborted"@
}

/// The progress of a pass as the scheduler sees it: a pass that succeeded asks
/// for no requeue, a pass that asked to be run again asks for a requeue after
/// the time it named, and any other failure stays a failure.
pub open spec fn concluded(progress: ProgressView) -> StepView {
    match progress {
        ProgressView::Next(effect) => StepView::Next(effect),
        ProgressView::Done(Ok(_)) => StepView::Done(Ok(ReconcilerAction { requeue_after: None })),
        ProgressView::Done(Err(ErrorView::ReRun(delay))) => StepView::Done(
            Ok(ReconcilerAction { requeue_after: Some(delay) }),
        ),
        ProgressView::Done(Err(ErrorView::Other(reason))) => StepView::Done(Err(reason)),
        ProgressView::Done(Err(ErrorView::Aborted)) => StepView::Done(Err(given_up())),
    }
}

/// The progress of a pass as the scheduler sees it.
pub fn conclude(progress: Progress) -> (step: Step)
    ensures
        step@ == concluded(progress@),
{
    match progress {
        Progress::Next(effect) => Step::Next(effect),
        Progress::Done(Ok(_)) => Step::Done(Ok(ReconcilerAction { requeue_after: None })),
        Progress::Done(Err(crate::ddns::error::Error::ReRun(delay))) => Step::Done(
            Ok(ReconcilerAction { requeue_after: Some(delay) }),
        ),
        Progress::Done(Err(crate::ddns::error::Error::Other(reason))) => Step::Done(
            Err(Error(reason)),
        ),
        Progress::Done(Err(crate::ddns::error::Error::Aborted)) => Step::Done(
            Err(Error(owned("reconcile aborted"))),
        ),
    }
}

/// Starts the pass that the snapshot calls for: a delete where the object is
/// marked for deletion, an apply otherwise.
pub fn reconcile(ddns: Ddns) -> (out: (DefaultReconciler, Step))
    ensures
        out.0@ == pass_for(ddns@).0,
        out.1@ == concluded(pass_for(ddns@).1),
{
    if ddns.is_deleting() {
        delete::handle_delete(ddns)
    } else {
        apply::handle_apply(ddns)
    }
}

/// Goes on with the answer to the last request of a pass.
pub fn resume(pass: DefaultReconciler, outcome: Outcome) -> (out: (DefaultReconciler, Step))
    ensures
        out.0@ == resumed(pass@, outcome@).0,
        out.1@ == concluded(resumed(pass@, outcome@).1),
{
    let next = pass.resume(outcome);
    (next.0, conclude(next.1))
}

/// What the scheduler is to do with an object whose pass failed: reconcile it
/// again after three seconds, whatever the failure.
pub fn reconcile_failed(err: &Error) -> (action: ReconcilerAction)
    ensures
        action == (ReconcilerAction { requeue_after: Some(seconds(3)) }),
{
    ReconcilerAction { requeue_after: Some(Delay::from_secs(3)) }
}

/// What the scheduler is to do with an object whose pass failed: reconcile it
/// again after three seconds, whatever the failure.
pub fn async_reconcile_failed(err: Error) -> (action: ReconcilerAction)
    ensures
        action == (ReconcilerAction { requeue_after: Some(seconds(3)) }),
{
    reconcile_failed(&err)
}

} // verus!
