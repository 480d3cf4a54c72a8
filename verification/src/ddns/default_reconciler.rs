//! The apply pass and the delete pass of a DDNS object.

use crate::cf_dns::{
    dns_start, dns_step, CfDns, CfDnsView, DnsPhase, DnsReply, DnsReplyView, DnsRequestView,
    DnsStep, DnsStepView, DnsTask, RecordKind,
};
use crate::ddns::error::{seconds, Delay, Error, ErrorView};
use crate::ddns::reconcile::{
    Effect, EffectView, Outcome, OutcomeView, Progress, ProgressView, Reconcile,
};
use crate::labels::pair_line;
use crate::net::{absorb, merged, IpAddress};
use crate::resource::{
    attach_finalizer, attached, blank_status, deleted, deleting, release_finalizer, released,
    running, status_of, Ddns, DdnsStatus, DdnsStatusView, DdnsView,
};
use crate::service::watch::{read_selected, selected_ips, service_views, Service};
use crate::text::{copy_texts, opt_texts, owned, texts, Text};
use vstd::prelude::*;

verus! {

/// Where a pass stands: which answer it waits for.
#[derive(Debug, Copy, Clone, Eq, PartialEq, Structural)]
pub enum Stage {
    /// Apply: the records of the last converged domain are being removed.
    Purging,
    /// Apply: the records of the desired domain are being removed before
    /// publishing.
    Clearing,
    /// Apply: the services of selector pair `cursor` were asked for.
    Listing,
    /// Apply: the addresses are being published.
    Publishing,
    /// Apply: the patch that attaches the finalizer was sent.
    Attaching,
    /// Apply: the patch that reports `RUNNING` was sent.
    Reporting,
    /// Delete: the patch that reports `DELETING` was sent.
    Marking,
    /// Delete: the records are being removed.
    Cleaning,
    /// Delete: the patch that reports `DELETED` was sent.
    Sealing,
    /// Delete: the patch that releases the finalizer was sent.
    Releasing,
    /// The pass is over.
    Finished,
}

/// One reconcile pass over one snapshot of a DDNS object, in progress.
///
/// `status` is the status that the pass writes: for an apply the desired state
/// under `RUNNING`, for a delete the last converged state (or, for want of
/// one, the desired state) under `DELETING` and then `DELETED`. Its domain and
/// zone are the ones whose records the pass publishes or removes; the one
/// other record set that a pass touches is the old one of an object whose
/// domain has changed, which an apply removes first and which `dns` names
/// while that removal runs.
#[derive(Debug, PartialEq, Eq)]
pub struct DefaultReconciler {
    pub stage: Stage,
    pub name: String,
    pub namespace: String,
    pub status: DdnsStatus,
    pub finalizers: Option<Vec<String>>,
    pub addresses: Vec<IpAddress>,
    pub cursor: usize,
    pub dns: CfDns,
}

/// The content of a [`DefaultReconciler`].
pub struct ReconcilerView {
    pub stage: Stage,
    pub name: Text,
    pub namespace: Text,
    pub status: DdnsStatusView,
    pub finalizers: Option<Seq<Text>>,
    pub addresses: Seq<IpAddress>,
    pub cursor: nat,
    pub dns: CfDnsView,
}

impl View for DefaultReconciler {
    type V = ReconcilerView;

    open spec fn view(&self) -> ReconcilerView {
        ReconcilerView {
            stage: self.stage,
            name: self.name@,
            namespace: self.namespace@,
            status: self.status@,
            finalizers: opt_texts(self.finalizers),
            addresses: self.addresses@,
            cursor: self.cursor as nat,
            dns: self.dns@,
        }
    }
}

/// The time after which a pass that found no address asks to be run again.
pub open spec fn retry_delay() -> Delay {
    seconds(3)
}

/// The failure of a pass over an object without a name.
pub open spec fn no_name() -> Text {
    "ddns resource doesn't have name"@
}

/// The failure of a pass over an object without a namespace.
pub open spec fn no_namespace() -> Text {
    "ddns resource doesn't have namespace field"@
}

/// The failure of a pass that met an ingress entry that is no address.
pub open spec fn bad_address() -> Text {
    "invalid IP address syntax"@
}

/// The failure of a pass that was handed an answer it did not wait for.
pub open spec fn unexpected_outcome() -> Text {
    "unexpected answer to the last request"@
}

/// A DNS operation that is over before it began.
pub open spec fn idle_dns() -> CfDnsView {
    CfDnsView {
        task: DnsTask::Read,
        phase: DnsPhase::Finished,
        name: Seq::empty(),
        zone: Seq::empty(),
        kind: RecordKind::A,
        desired: Seq::empty(),
        zone_id: Seq::empty(),
        doomed: Seq::empty(),
        cursor: 0,
    }
}

/// A pass over the object `name` of `namespace`, before its first request.
pub open spec fn pass_of(
    name: Text,
    namespace: Text,
    status: DdnsStatusView,
    finalizers: Option<Seq<Text>>,
) -> ReconcilerView {
    ReconcilerView {
        stage: Stage::Finished,
        name,
        namespace,
        status,
        finalizers,
        addresses: Seq::empty(),
        cursor: 0,
        dns: idle_dns(),
    }
}

/// A pass that cannot start.
pub open spec fn refused(reason: Text) -> (ReconcilerView, ProgressView) {
    (
        pass_of(Seq::empty(), Seq::empty(), blank_status(), None),
        ProgressView::Done(Err(ErrorView::Other(reason))),
    )
}

/// The pass `pass`, over, with the result `result`.
pub open spec fn ended(pass: ReconcilerView, result: Result<(), ErrorView>) -> (
    ReconcilerView,
    ProgressView,
) {
    (ReconcilerView { stage: Stage::Finished, ..pass }, ProgressView::Done(result))
}

/// The pass `pass`, failed for the reason `reason`.
pub open spec fn failed(pass: ReconcilerView, reason: Text) -> (ReconcilerView, ProgressView) {
    ended(pass, Err(ErrorView::Other(reason)))
}

/// The pass as it starts a DNS operation on the domain and zone of its status,
/// for records of kind `A`, and enters `stage`.
pub open spec fn begin_dns(
    pass: ReconcilerView,
    stage: Stage,
    task: DnsTask,
    desired: Seq<IpAddress>,
) -> (ReconcilerView, ProgressView) {
    let started = dns_start(task, pass.status.domain, pass.status.zone, RecordKind::A, desired);
    (
        ReconcilerView { stage, dns: started.0, ..pass },
        ProgressView::Next(
            EffectView::Dns(DnsRequestView::ListZones { name: pass.status.zone }),
        ),
    )
}

/// An apply as it starts to remove the records of `domain` in `zone`, the
/// domain and zone that the object last converged to.
pub open spec fn begin_purge(pass: ReconcilerView, domain: Text, zone: Text) -> (
    ReconcilerView,
    ProgressView,
) {
    let started = dns_start(DnsTask::Remove, domain, zone, RecordKind::A, Seq::empty());
    (
        ReconcilerView { stage: Stage::Purging, dns: started.0, ..pass },
        ProgressView::Next(EffectView::Dns(DnsRequestView::ListZones { name: zone })),
    )
}

/// The pass as it sends the patch that writes its status, and enters `stage`.
pub open spec fn write_status(pass: ReconcilerView, stage: Stage) -> (
    ReconcilerView,
    ProgressView,
) {
    (
        ReconcilerView { stage, ..pass },
        ProgressView::Next(
            EffectView::PatchStatus {
                namespace: pass.namespace,
                name: pass.name,
                status: pass.status,
            },
        ),
    )
}

/// The pass as it sends the patch that writes `finalizers`, and enters `stage`.
pub open spec fn write_finalizers(pass: ReconcilerView, stage: Stage, finalizers: Seq<Text>) -> (
    ReconcilerView,
    ProgressView,
) {
    (
        ReconcilerView { stage, ..pass },
        ProgressView::Next(
            EffectView::PatchFinalizers { namespace: pass.namespace, name: pass.name, finalizers },
        ),
    )
}

/// An apply once its addresses are published: the finalizer is attached where
/// it is not yet, then `RUNNING` is reported.
pub open spec fn after_publish(pass: ReconcilerView) -> (ReconcilerView, ProgressView) {
    match attached(pass.finalizers) {
        Some(list) => write_finalizers(pass, Stage::Attaching, list),
        None => write_status(pass, Stage::Reporting),
    }
}

/// An apply as it asks for the services of its selector pairs from position
/// `from` on, one pair per request. Once every pair was asked for, a pass
/// without any address asks to be run again in three seconds, and any other
/// publishes its addresses.
pub open spec fn list_from(pass: ReconcilerView, from: nat) -> (ReconcilerView, ProgressView) {
    if from < pass.status.selector.len() {
        (
            ReconcilerView { stage: Stage::Listing, cursor: from, ..pass },
            ProgressView::Next(
                EffectView::ListServices {
                    namespace: pass.namespace,
                    label_selector: pair_line(pass.status.selector[from as int]),
                },
            ),
        )
    } else if pass.addresses.len() == 0 {
        ended(pass, Err(ErrorView::ReRun(retry_delay())))
    } else {
        begin_dns(pass, Stage::Publishing, DnsTask::Replace, pass.addresses)
    }
}

/// A delete once the records are removed: `DELETED` is reported.
pub open spec fn seal(pass: ReconcilerView) -> (ReconcilerView, ProgressView) {
    write_status(
        ReconcilerView { status: DdnsStatusView { status: deleted(), ..pass.status }, ..pass },
        Stage::Sealing,
    )
}

/// A delete once `DELETED` is reported: the finalizer is released where it is
/// attached.
pub open spec fn release(pass: ReconcilerView) -> (ReconcilerView, ProgressView) {
    match released(pass.finalizers) {
        Some(list) => write_finalizers(pass, Stage::Releasing, list),
        None => ended(pass, Ok(())),
    }
}

/// The start of an apply of `ddns`.
///
/// An object without a name or without a namespace is refused.
///
/// Where the object last converged to another domain than the desired one, the
/// pass first removes the records of that old domain in its old zone, and then
/// the records of the desired domain, before it asks for the services. An
/// object without a status has no old records: there the pass removes the
/// records of the desired domain only. Where the domain has not changed, the
/// pass goes straight to the services.
pub open spec fn apply_start(ddns: DdnsView) -> (ReconcilerView, ProgressView) {
    if ddns.metadata.name is None {
        refused(no_name())
    } else if ddns.metadata.namespace is None {
        refused(no_namespace())
    } else {
        let pass = pass_of(
            ddns.metadata.name.unwrap(),
            ddns.metadata.namespace.unwrap(),
            status_of(running(), ddns.spec),
            ddns.metadata.finalizers,
        );
        match ddns.status {
            Some(status) => if status.domain != ddns.spec.domain {
                begin_purge(pass, status.domain, status.zone)
            } else {
                list_from(pass, 0)
            },
            None => if Seq::<char>::empty() != ddns.spec.domain {
                begin_dns(pass, Stage::Clearing, DnsTask::Remove, Seq::empty())
            } else {
                list_from(pass, 0)
            },
        }
    }
}

/// The start of a delete of `ddns`.
///
/// An object without a name or without a namespace is refused. The records to
/// remove are those of the last converged state, or of the desired state where
/// the object has no status. The pass first reports `DELETING`.
pub open spec fn delete_start(ddns: DdnsView) -> (ReconcilerView, ProgressView) {
    if ddns.metadata.name is None {
        refused(no_name())
    } else if ddns.metadata.namespace is None {
        refused(no_namespace())
    } else {
        let status = match ddns.status {
            Some(status) => DdnsStatusView { status: deleting(), ..status },
            None => status_of(deleting(), ddns.spec),
        };
        write_status(
            pass_of(
                ddns.metadata.name.unwrap(),
                ddns.metadata.namespace.unwrap(),
                status,
                ddns.metadata.finalizers,
            ),
            Stage::Marking,
        )
    }
}

/// The pass on an answer of the DNS provider: the operation in progress takes
/// the answer; where it makes another call, the pass passes it on; where it
/// failed, the pass fails; where it succeeded, the pass goes on with what
/// follows the operation.
pub open spec fn on_dns(pass: ReconcilerView, reply: DnsReplyView) -> (
    ReconcilerView,
    ProgressView,
) {
    let stepped = dns_step(pass.dns, reply);
    let next = ReconcilerView { dns: stepped.0, ..pass };
    match stepped.1 {
        DnsStepView::Call(request) => (next, ProgressView::Next(EffectView::Dns(request))),
        DnsStepView::Done(Err(reason)) => failed(next, reason),
        DnsStepView::Done(Ok(_)) => match pass.stage {
            Stage::Purging => begin_dns(next, Stage::Clearing, DnsTask::Remove, Seq::empty()),
            Stage::Clearing => list_from(next, 0),
            Stage::Publishing => after_publish(next),
            _ => seal(next),
        },
    }
}

/// Whether an answer says that the object is not there any more.
pub open spec fn is_gone(outcome: OutcomeView) -> bool {
    outcome matches OutcomeView::Failed { code, .. } && code == Some(404u16)
}

/// The next state and the next thing to do of the pass `pass` on the answer
/// `outcome`.
///
/// A failed request and an answer of another shape than the one awaited end
/// the pass with a failure. The one exception is a status patch of a delete
/// that fails with code 404: the object is gone already, and the pass ends
/// with success.
///
/// Of the services that a listing returns, the pass takes the addresses of
/// those whose labels hold every pair of its selector, and passes over the
/// others.
pub open spec fn resumed(pass: ReconcilerView, outcome: OutcomeView) -> (
    ReconcilerView,
    ProgressView,
) {
    match pass.stage {
        Stage::Purging | Stage::Clearing | Stage::Publishing | Stage::Cleaning => match outcome {
            OutcomeView::Dns(reply) => on_dns(pass, reply),
            _ => failed(pass, unexpected_outcome()),
        },
        Stage::Listing => match outcome {
            OutcomeView::Services(list) => match selected_ips(list, pass.status.selector) {
                Some(ips) => list_from(
                    ReconcilerView { addresses: merged(pass.addresses, ips), ..pass },
                    pass.cursor + 1,
                ),
                None => failed(pass, bad_address()),
            },
            OutcomeView::Failed { code, message } => failed(pass, message),
            _ => failed(pass, unexpected_outcome()),
        },
        Stage::Attaching => match outcome {
            OutcomeView::Patched => write_status(pass, Stage::Reporting),
            OutcomeView::Failed { code, message } => failed(pass, message),
            _ => failed(pass, unexpected_outcome()),
        },
        Stage::Reporting | Stage::Releasing => match outcome {
            OutcomeView::Patched => ended(pass, Ok(())),
            OutcomeView::Failed { code, message } => failed(pass, message),
            _ => failed(pass, unexpected_outcome()),
        },
        Stage::Marking => match outcome {
            OutcomeView::Patched => begin_dns(pass, Stage::Cleaning, DnsTask::Remove, Seq::empty()),
            OutcomeView::Failed { code, message } => if is_gone(outcome) {
                ended(pass, Ok(()))
            } else {
                failed(pass, message)
            },
            _ => failed(pass, unexpected_outcome()),
        },
        Stage::Sealing => match outcome {
            OutcomeView::Patched => release(pass),
            OutcomeView::Failed { code, message } => if is_gone(outcome) {
                ended(pass, Ok(()))
            } else {
                failed(pass, message)
            },
            _ => failed(pass, unexpected_outcome()),
        },
        Stage::Finished => failed(pass, unexpected_outcome()),
    }
}

/// A copy of an optional list of strings.
fn copy_opt_texts(value: &Option<Vec<String>>) -> (copy: Option<Vec<String>>)
    ensures
        opt_texts(copy) == opt_texts(*value),
{
    match value {
        Some(list) => Some(copy_texts(list)),
        None => None,
    }
}

/// Whether a status code is the one of an object that is not there.
fn is_not_found(code: Option<u16>) -> (gone: bool)
    ensures
        gone == (code == Some(404u16)),
{
    match code {
        Some(code) => code == 404,
        None => false,
    }
}

impl DefaultReconciler {
    fn idle() -> (dns: CfDns)
        ensures
            dns@ == idle_dns(),
    {
        let dns = CfDns {
            task: DnsTask::Read,
            phase: DnsPhase::Finished,
            name: String::new(),
            zone: String::new(),
            kind: RecordKind::A,
            desired: Vec::new(),
            zone_id: String::new(),
            doomed: Vec::new(),
            cursor: 0,
        };
        assert(texts(dns.doomed@) =~= Seq::<Text>::empty());
        dns
    }

    fn pass_of(
        name: String,
        namespace: String,
        status: DdnsStatus,
        finalizers: Option<Vec<String>>,
    ) -> (pass: DefaultReconciler)
        ensures
            pass@ == pass_of(name@, namespace@, status@, opt_texts(finalizers)),
    {
        DefaultReconciler {
            stage: Stage::Finished,
            name,
            namespace,
            status,
            finalizers,
            addresses: Vec::new(),
            cursor: 0,
            dns: DefaultReconciler::idle(),
        }
    }

    fn refused(reason: &str) -> (out: (DefaultReconciler, Progress))
        ensures
            (out.0@, out.1@) == refused(reason@),
    {
        (
            DefaultReconciler::pass_of(String::new(), String::new(), DdnsStatus::default(), None),
            Progress::Done(Err(Error::Other(owned(reason)))),
        )
    }

    fn ended(self, result: Result<(), Error>) -> (out: (DefaultReconciler, Progress))
        ensures
            (out.0@, out.1@) == ended(self@, crate::ddns::error::outcome_view(result)),
    {
        let mut pass = self;
        pass.stage = Stage::Finished;
        (pass, Progress::Done(result))
    }

    fn succeeded(self) -> (out: (DefaultReconciler, Progress))
        ensures
            (out.0@, out.1@) == ended(self@, Ok(())),
    {
        self.ended(Ok(()))
    }

    fn failed(self, reason: String) -> (out: (DefaultReconciler, Progress))
        ensures
            (out.0@, out.1@) == failed(self@, reason@),
    {
        self.ended(Err(Error::Other(reason)))
    }

    fn confused(self) -> (out: (DefaultReconciler, Progress))
        ensures
            (out.0@, out.1@) == failed(self@, unexpected_outcome()),
    {
        self.failed(owned("unexpected answer to the last request"))
    }

    fn begin_purge(self, domain: String, zone: String) -> (out: (DefaultReconciler, Progress))
        ensures
            (out.0@, out.1@) == begin_purge(self@, domain@, zone@),
    {
        let started = CfDns::remove_dns_records(domain.as_str(), zone.as_str(), RecordKind::A);
        let request = crate::cf_dns::DnsRequest::ListZones { name: zone };
        let mut pass = self;
        pass.stage = Stage::Purging;
        pass.dns = started.0;
        (pass, Progress::Next(Effect::Dns(request)))
    }

    fn begin_removal(self, stage: Stage) -> (out: (DefaultReconciler, Progress))
        ensures
            (out.0@, out.1@) == begin_dns(self@, stage, DnsTask::Remove, Seq::empty()),
    {
        let started = CfDns::remove_dns_records(
            self.status.domain.as_str(),
            self.status.zone.as_str(),
            RecordKind::A,
        );
        let request = crate::cf_dns::DnsRequest::ListZones { name: self.status.zone.clone() };
        let mut pass = self;
        pass.stage = stage;
        pass.dns = started.0;
        (pass, Progress::Next(Effect::Dns(request)))
    }

    fn begin_publication(self) -> (out: (DefaultReconciler, Progress))
        ensures
            (out.0@, out.1@) == begin_dns(
                self@,
                Stage::Publishing,
                DnsTask::Replace,
                self@.addresses,
            ),
    {
        let started = CfDns::set_dns_record(
            self.status.domain.as_str(),
            self.status.zone.as_str(),
            RecordKind::A,
            self.addresses.clone(),
        );
        let request = crate::cf_dns::DnsRequest::ListZones { name: self.status.zone.clone() };
        let mut pass = self;
        pass.stage = Stage::Publishing;
        pass.dns = started.0;
        (pass, Progress::Next(Effect::Dns(request)))
    }

    fn write_status(self, stage: Stage) -> (out: (DefaultReconciler, Progress))
        ensures
            (out.0@, out.1@) == write_status(self@, stage),
    {
        let effect = Effect::PatchStatus {
            namespace: self.namespace.clone(),
            name: self.name.clone(),
            status: self.status.to_patch_status(),
        };
        let mut pass = self;
        pass.stage = stage;
        (pass, Progress::Next(effect))
    }

    fn write_finalizers(self, stage: Stage, finalizers: Vec<String>) -> (out: (
        DefaultReconciler,
        Progress,
    ))
        ensures
            (out.0@, out.1@) == write_finalizers(self@, stage, texts(finalizers@)),
    {
        let effect = Effect::PatchFinalizers {
            namespace: self.namespace.clone(),
            name: self.name.clone(),
            finalizers,
        };
        let mut pass = self;
        pass.stage = stage;
        (pass, Progress::Next(effect))
    }

    fn after_publish(self) -> (out: (DefaultReconciler, Progress))
        ensures
            (out.0@, out.1@) == after_publish(self@),
    {
        match attach_finalizer(copy_opt_texts(&self.finalizers)) {
            Some(list) => self.write_finalizers(Stage::Attaching, list),
            None => self.write_status(Stage::Reporting),
        }
    }

    fn list_from(self, from: usize) -> (out: (DefaultReconciler, Progress))
        ensures
            (out.0@, out.1@) == list_from(self@, from as nat),
    {
        if from < self.status.selector.len() {
            let effect = Effect::ListServices {
                namespace: self.namespace.clone(),
                label_selector: self.status.selector.line(from),
            };
            let mut pass = self;
            pass.stage = Stage::Listing;
            pass.cursor = from;
            (pass, Progress::Next(effect))
        } else if self.addresses.len() == 0 {
            self.ended(Err(Error::ReRun(Delay::from_secs(3))))
        } else {
            self.begin_publication()
        }
    }

    fn seal(self) -> (out: (DefaultReconciler, Progress))
        ensures
            (out.0@, out.1@) == seal(self@),
    {
        let mut pass = self;
        pass.status.status = owned("DELETED");
        pass.write_status(Stage::Sealing)
    }

    fn release(self) -> (out: (DefaultReconciler, Progress))
        ensures
            (out.0@, out.1@) == release(self@),
    {
        match release_finalizer(copy_opt_texts(&self.finalizers)) {
            Some(list) => self.write_finalizers(Stage::Releasing, list),
            None => self.succeeded(),
        }
    }

    fn on_dns(self, reply: DnsReply) -> (out: (DefaultReconciler, Progress))
        ensures
            (out.0@, out.1@) == on_dns(self@, reply@),
    {
        let DefaultReconciler { stage, name, namespace, status, finalizers, addresses, cursor, dns } =
            self;
        let stepped = dns.step(reply);
        let next = DefaultReconciler {
            stage,
            name,
            namespace,
            status,
            finalizers,
            addresses,
            cursor,
            dns: stepped.0,
        };
        match stepped.1 {
            DnsStep::Call(request) => (next, Progress::Next(Effect::Dns(request))),
            DnsStep::Done(Err(reason)) => next.failed(reason),
            DnsStep::Done(Ok(_)) => match stage {
                Stage::Purging => next.begin_removal(Stage::Clearing),
                Stage::Clearing => next.list_from(0),
                Stage::Publishing => next.after_publish(),
                _ => next.seal(),
            },
        }
    }

    fn on_services(self, list: Vec<Service>) -> (out: (DefaultReconciler, Progress))
        requires
            self.stage == Stage::Listing,
        ensures
            (out.0@, out.1@) == resumed(self@, OutcomeView::Services(service_views(list@))),
    {
        match read_selected(&list, &self.status.selector) {
            Some(ips) => {
                let count = self.status.selector.len();
                let next = if self.cursor < count {
                    self.cursor + 1
                } else {
                    count
                };
                let mut pass = self;
                absorb(&mut pass.addresses, &ips);
                pass.list_from(next)
            },
            None => self.failed(owned("invalid IP address syntax")),
        }
    }

    /// Starts the pass that applies `ddns`.
    pub fn reconcile_ddns(ddns: Ddns) -> (out: (DefaultReconciler, Progress))
        ensures
            (out.0@, out.1@) == apply_start(ddns@),
    {
        let Ddns { metadata, spec, status } = ddns;
        let name = match metadata.name {
            Some(name) => name,
            None => {
                return DefaultReconciler::refused("ddns resource doesn't have name");
            },
        };
        let namespace = match metadata.namespace {
            Some(namespace) => namespace,
            None => {
                return DefaultReconciler::refused("ddns resource doesn't have namespace field");
            },
        };
        let pass = DefaultReconciler::pass_of(
            name,
            namespace,
            DdnsStatus {
                status: owned("RUNNING"),
                selector: spec.selector,
                domain: spec.domain,
                zone: spec.zone,
            },
            metadata.finalizers,
        );
        match status {
            Some(old) => {
                if !crate::text::same_text(&old.domain, &pass.status.domain) {
                    pass.begin_purge(old.domain, old.zone)
                } else {
                    pass.list_from(0)
                }
            },
            None => {
                let blank = String::new();
                if !crate::text::same_text(&blank, &pass.status.domain) {
                    pass.begin_removal(Stage::Clearing)
                } else {
                    pass.list_from(0)
                }
            },
        }
    }

    /// Starts the pass that deletes `ddns`.
    pub fn delete_ddns(ddns: Ddns) -> (out: (DefaultReconciler, Progress))
        ensures
            (out.0@, out.1@) == delete_start(ddns@),
    {
        let Ddns { metadata, spec, status } = ddns;
        let name = match metadata.name {
            Some(name) => name,
            None => {
                return DefaultReconciler::refused("ddns resource doesn't have name");
            },
        };
        let namespace = match metadata.namespace {
            Some(namespace) => namespace,
            None => {
                return DefaultReconciler::refused("ddns resource doesn't have namespace field");
            },
        };
        let status = match status {
            Some(status) => DdnsStatus {
                status: owned("DELETING"),
                selector: status.selector,
                domain: status.domain,
                zone: status.zone,
            },
            None => DdnsStatus {
                status: owned("DELETING"),
                selector: spec.selector,
                domain: spec.domain,
                zone: spec.zone,
            },
        };
        DefaultReconciler::pass_of(name, namespace, status, metadata.finalizers).write_status(
            Stage::Marking,
        )
    }

    /// Takes the answer to the last request and says what to do next.
    pub fn resume(self, outcome: Outcome) -> (out: (DefaultReconciler, Progress))
        ensures
            (out.0@, out.1@) == resumed(self@, outcome@),
    {
        match self.stage {
            Stage::Purging | Stage::Clearing | Stage::Publishing | Stage::Cleaning => match outcome {
                Outcome::Dns(reply) => self.on_dns(reply),
                _ => self.confused(),
            },
            Stage::Listing => match outcome {
                Outcome::Services(list) => self.on_services(list),
                Outcome::Failed { code, message } => self.failed(message),
                _ => self.confused(),
            },
            Stage::Attaching => match outcome {
                Outcome::Patched => self.write_status(Stage::Reporting),
                Outcome::Failed { code, message } => self.failed(message),
                _ => self.confused(),
            },
            Stage::Reporting | Stage::Releasing => match outcome {
                Outcome::Patched => self.succeeded(),
                Outcome::Failed { code, message } => self.failed(message),
                _ => self.confused(),
            },
            Stage::Marking => match outcome {
                Outcome::Patched => self.begin_removal(Stage::Cleaning),
                Outcome::Failed { code, message } => {
                    if is_not_found(code) {
                        self.succeeded()
                    } else {
                        self.failed(message)
                    }
                },
                _ => self.confused(),
            },
            Stage::Sealing => match outcome {
                Outcome::Patched => self.release(),
                Outcome::Failed { code, message } => {
                    if is_not_found(code) {
                        self.succeeded()
                    } else {
                        self.failed(message)
                    }
                },
                _ => self.confused(),
            },
            Stage::Finished => self.confused(),
        }
    }
}

impl Reconcile for DefaultReconciler {
    fn reconcile_ddns(ddns: Ddns) -> (out: (DefaultReconciler, Progress))
        ensures
            (out.0@, out.1@) == apply_start(ddns@),
    {
        DefaultReconciler::reconcile_ddns(ddns)
    }

    fn delete_ddns(ddns: Ddns) -> (out: (DefaultReconciler, Progress))
        ensures
            (out.0@, out.1@) == delete_start(ddns@),
    {
        DefaultReconciler::delete_ddns(ddns)
    }

    fn resume(self, outcome: Outcome) -> (out: (DefaultReconciler, Progress))
        ensures
            (out.0@, out.1@) == resumed(self@, outcome@),
    {
        DefaultReconciler::resume(self, outcome)
    }
}

} // verus!
