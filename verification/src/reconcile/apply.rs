//! The apply pass under the scheduler.

use crate::ddns::default_reconciler::{apply_start, DefaultReconciler};
use crate::reconcile::{conclude, concluded, Step};
use crate::resource::Ddns;
use vstd::prelude::*;

verus! {

/// Starts the pass that applies `ddns`. A pass that finds no address ends with
/// a requeue after three seconds instead of a failure.
pub fn handle_apply(ddns: Ddns) -> (out: (DefaultReconciler, Step))
    ensures
        out.0@ == apply_start(ddns@).0,
        out.1@ == concluded(apply_start(ddns@).1),
{
    let started = DefaultReconciler::reconcile_ddns(ddns);
    (started.0, conclude(started.1))
}

} // verus!
