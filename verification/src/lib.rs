//! Reconciliation engine of a controller that keeps externally hosted DNS
//! records in step with the load-balancer addresses of cluster services.
//!
//! The engine is written as resumable state machines: every function here
//! decides what to ask of the cluster or of the DNS provider next, and what
//! an answer means. Performing the requests is left to the caller.
//!
//! - [`resource`], [`labels`], [`net`], [`text`]: the values the engine works
//!   on.
//! - [`cf_dns`]: the operations on the records of a name, and [`provider`]:
//!   what they achieve against a model of the provider.
//! - [`ddns`]: the apply and delete passes, the serialiser that keeps one pass
//!   per object, the error policy, and what holds of the course of a pass.
//! - [`service`]: which service changes matter and which objects they
//!   concern.
//! - [`reconcile`]: the same passes under a scheduler that requeues by itself.

pub mod cf_dns;
pub mod ddns;
pub mod labels;
pub mod net;
pub mod provider;
pub mod reconcile;
pub mod resource;
pub mod service;
pub mod text;
