//! What a reconcile pass asks of the outside, what it is told in return, and
//! the shape that every kind of pass has.

use crate::cf_dns::{DnsReply, DnsReplyView, DnsRequest, DnsRequestView};
use crate::ddns::error::{outcome_view, Error, ErrorView};
use crate::resource::{Ddns, DdnsStatusView, PatchStatus};
use crate::service::watch::{service_views, Service, ServiceView};
use crate::text::{texts, Text};
use vstd::prelude::*;

verus! {

/// One request of a pass to the outside.
#[derive(Debug, PartialEq, Eq)]
pub enum Effect {
    /// A call on the DNS provider.
    Dns(DnsRequest),
    /// List the services of the namespace that carry the label.
    ListServices { namespace: String, label_selector: String },
    /// Merge-patch the finalizers of the object.
    PatchFinalizers { namespace: String, name: String, finalizers: Vec<String> },
    /// Merge-patch the status of the object.
    PatchStatus { namespace: String, name: String, status: PatchStatus },
}

/// The content of an [`Effect`].
pub enum EffectView {
    Dns(DnsRequestView),
    ListServices { namespace: Text, label_selector: Text },
    PatchFinalizers { namespace: Text, name: Text, finalizers: Seq<Text> },
    PatchStatus { namespace: Text, name: Text, status: DdnsStatusView },
}

impl View for Effect {
    type V = EffectView;

    open spec fn view(&self) -> EffectView {
        match self {
            Effect::Dns(request) => EffectView::Dns(request@),
            Effect::ListServices { namespace, label_selector } => EffectView::ListServices {
                namespace: namespace@,
                label_selector: label_selector@,
            },
            Effect::PatchFinalizers { namespace, name, finalizers } => EffectView::PatchFinalizers {
                namespace: namespace@,
                name: name@,
                finalizers: texts(finalizers@),
            },
            Effect::PatchStatus { namespace, name, status } => EffectView::PatchStatus {
                namespace: namespace@,
                name: name@,
                status: status@,
            },
        }
    }
}

/// What the outside answered to the last request. `Failed` is a request to the
/// cluster that did not succeed, with the status code where the cluster gave
/// one.
#[derive(Debug, PartialEq, Eq)]
pub enum Outcome {
    Dns(DnsReply),
    Services(Vec<Service>),
    Patched,
    Failed { code: Option<u16>, message: String },
}

/// The content of an [`Outcome`].
pub enum OutcomeView {
    Dns(DnsReplyView),
    Services(Seq<ServiceView>),
    Patched,
    Failed { code: Option<u16>, message: Text },
}

impl View for Outcome {
    type V = OutcomeView;

    open spec fn view(&self) -> OutcomeView {
        match self {
            Outcome::Dns(reply) => OutcomeView::Dns(reply@),
            Outcome::Services(list) => OutcomeView::Services(service_views(list@)),
            Outcome::Patched => OutcomeView::Patched,
            Outcome::Failed { code, message } => OutcomeView::Failed {
                code: *code,
                message: message@,
            },
        }
    }
}

/// What a pass does next: one more request, or nothing.
#[derive(Debug, PartialEq, Eq)]
pub enum Progress {
    Next(Effect),
    Done(Result<(), Error>),
}

/// The content of a [`Progress`].
pub enum ProgressView {
    Next(EffectView),
    Done(Result<(), ErrorView>),
}

impl View for Progress {
    type V = ProgressView;

    open spec fn view(&self) -> ProgressView {
        match self {
            Progress::Next(effect) => ProgressView::Next(effect@),
            Progress::Done(result) => ProgressView::Done(outcome_view(*result)),
        }
    }
}

/// A kind of reconcile pass: it starts from a snapshot of an object, either to
/// apply it or to delete it, and is resumed with the answer to each request it
/// makes, until it is done.
pub trait Reconcile: Sized {
    /// Starts a pass that applies `ddns`.
    fn reconcile_ddns(ddns: Ddns) -> (Self, Progress);

    /// Starts a pass that deletes `ddns`.
    fn delete_ddns(ddns: Ddns) -> (Self, Progress);

    /// Goes on with the answer to the last request.
    fn resume(self, outcome: Outcome) -> (Self, Progress);
}

} // verus!
