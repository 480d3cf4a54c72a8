//! The delete pass under the scheduler.

use crate::ddns::default_reconciler::{delete_start, DefaultReconciler};
use crate::reconcile::{conclude, concluded, Step};
use crate::resource::Ddns;
use vstd::prelude::*;

verus! {

/// Starts the pass that deletes `ddns`.
pub fn handle_delete(ddns: Ddns) -> (out: (DefaultReconciler, Step))
    ensures
        out.0@ == delete_start(ddns@).0,
        out.1@ == concluded(delete_start(ddns@).1),
{
    let started = DefaultReconciler::delete_ddns(ddns);
    (started.0, conclude(started.1))
}

} // verus!
