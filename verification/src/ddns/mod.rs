//! The reconcile pipeline of DDNS objects: the passes themselves, the rule
//! that at most one pass runs per object, and what follows a failed pass.

pub mod error;
pub mod default_reconciler;
pub mod reconcile;
pub mod queue_reconciler;
pub mod controller;
pub mod default_err_policy;
pub mod error_policy;
pub mod de_dup_reconciler;
pub mod course;
pub mod exclusion;
pub mod convergence;
