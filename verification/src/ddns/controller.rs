//! The top of the pipeline: every snapshot that arrives goes through the
//! serialiser, is run as the pass it calls for, and, where the pass fails, is
//! judged by the error policy.

use crate::ddns::default_err_policy::{policy, DefaultErrPolicy};
use crate::ddns::default_reconciler::{apply_start, delete_start, DefaultReconciler, ReconcilerView};
use crate::ddns::error::{outcome_view, Error, ErrorView};
use crate::ddns::error_policy::{opt_retry, Retry, RetryView};
use crate::ddns::queue_reconciler::{
    finished, submitted, Finish, JobView, QueueReconciler, SlotView, Submission,
};
use crate::ddns::reconcile::{Progress, ProgressView};
use crate::resource::{Ddns, DdnsView, Identity};
use vstd::prelude::*;

verus! {

/// The pass that a snapshot calls for: a delete where the object is marked for
/// deletion, an apply otherwise.
pub open spec fn pass_for(ddns: DdnsView) -> (ReconcilerView, ProgressView) {
    if ddns.metadata.deletion_timestamp.is_some() {
        delete_start(ddns)
    } else {
        apply_start(ddns)
    }
}

/// The retry that the result of a pass over `ddns` calls for: none after a
/// success, and after a failure what the policy says.
pub open spec fn retry_for(ddns: DdnsView, result: Result<(), ErrorView>) -> Option<RetryView> {
    match result {
        Ok(_) => None,
        Err(err) => policy(ddns, err),
    }
}

/// The pipeline's two parts that decide: the serialiser and the error policy.
/// `T` is the handle to which the result of a pass is delivered, `S` the retry
/// queue.
pub struct Controller<T, S> {
    reconciler: QueueReconciler<T>,
    err_policy: DefaultErrPolicy<S>,
}

impl<T, S> Controller<T, S> {
    /// The serialiser of the pipeline.
    pub closed spec fn serialiser(&self) -> Seq<SlotView<T>> {
        self.reconciler@
    }

    /// The queue that the retries go to.
    pub closed spec fn queue(&self) -> S {
        self.err_policy.queue()
    }

    /// A pipeline without any worker, whose retries go to `retry_queue`.
    pub fn new(retry_queue: S) -> (controller: Controller<T, S>)
        ensures
            controller.serialiser() == Seq::<SlotView<T>>::empty(),
            controller.queue() == retry_queue,
    {
        Controller { reconciler: QueueReconciler::new(), err_policy: DefaultErrPolicy::new(retry_queue) }
    }

    /// The queue that the retries go to.
    pub fn retry_queue(&self) -> (queue: &S)
        ensures
            *queue == self.queue(),
    {
        self.err_policy.retry_queue()
    }

    /// Takes a snapshot from the reconcile input and hands it to the
    /// serialiser.
    pub fn submit(&mut self, ddns: Ddns, reply: T) -> (answer: Submission<T>)
        ensures
            (final(self).serialiser(), answer@) == submitted(
                old(self).serialiser(),
                JobView { ddns: ddns@, reply },
            ),
            final(self).queue() == old(self).queue(),
    {
        self.reconciler.submit(ddns, reply)
    }

    /// Tells the serialiser that the pass which the worker of `id` was running
    /// has ended.
    pub fn finish(&mut self, id: &Identity) -> (answer: Finish<T>)
        ensures
            (final(self).serialiser(), answer@) == finished(old(self).serialiser(), id@),
            final(self).queue() == old(self).queue(),
    {
        self.reconciler.finish(id)
    }

    /// Starts the pass that the snapshot calls for.
    pub fn run(&self, ddns: Ddns) -> (out: (DefaultReconciler, Progress))
        ensures
            (out.0@, out.1@) == pass_for(ddns@),
    {
        if ddns.is_deleting() {
            DefaultReconciler::delete_ddns(ddns)
        } else {
            DefaultReconciler::reconcile_ddns(ddns)
        }
    }

    /// Judges the result of the pass over `ddns`.
    pub fn settle(&self, ddns: Ddns, result: Result<(), Error>) -> (retry: Option<Retry>)
        ensures
            opt_retry(retry) == retry_for(ddns@, outcome_view(result)),
    {
        match result {
            Ok(_) => None,
            Err(err) => self.err_policy.error_policy(ddns, err),
        }
    }
}

} // verus!
