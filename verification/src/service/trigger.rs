//! The fan-out from one service change to the DDNS objects it concerns: those
//! whose selector is a subset of the service's labels.

use crate::labels::{selector_text, selects, LabelMap};
use crate::resource::{Ddns, DdnsView};
use crate::service::watch::{subject, ServiceEvent, ServiceView};
use crate::text::{opt_text, Text};
use vstd::prelude::*;

verus! {

/// The contents of a list of snapshots.
pub open spec fn ddns_views(list: Seq<Ddns>) -> Seq<DdnsView> {
    list.map_values(|ddns: Ddns| ddns@)
}

/// Whether the object selects a service that carries `labels`.
pub open spec fn concerns(ddns: DdnsView, labels: Seq<(Text, Text)>) -> bool {
    selects(ddns.spec.selector, labels)
}

/// The snapshots of `candidates`, in their order, whose selector is a subset
/// of `labels`.
pub open spec fn related(candidates: Seq<DdnsView>, labels: Seq<(Text, Text)>) -> Seq<DdnsView>
    decreases candidates.len(),
{
    if candidates.len() == 0 {
        Seq::empty()
    } else {
        let head = related(candidates.drop_last(), labels);
        if concerns(candidates.last(), labels) {
            head.push(candidates.last())
        } else {
            head
        }
    }
}

/// The objects that a change of `service` concerns: the related ones among
/// `candidates`, and none for a service without labels.
pub open spec fn triggered(service: ServiceView, candidates: Seq<DdnsView>) -> Seq<DdnsView> {
    match service.labels {
        Some(labels) => related(candidates, labels),
        None => Seq::empty(),
    }
}

/// The fan-out misses no object and invents none: a snapshot is among the
/// related ones exactly if it is a candidate whose selector is a subset of
/// the labels.
pub proof fn lemma_related(candidates: Seq<DdnsView>, labels: Seq<(Text, Text)>, ddns: DdnsView)
    ensures
        related(candidates, labels).contains(ddns) <==> candidates.contains(ddns) && concerns(
            ddns,
            labels,
        ),
    decreases candidates.len(),
{
    let out = related(candidates, labels);
    if candidates.len() > 0 {
        let init = candidates.drop_last();
        let head = related(init, labels);
        lemma_related(init, labels, ddns);
        if candidates.contains(ddns) {
            let i = choose|i: int| 0 <= i < candidates.len() && candidates[i] == ddns;
            if i < init.len() {
                assert(init[i] == ddns);
            }
        }
        if init.contains(ddns) {
            let i = choose|i: int| 0 <= i < init.len() && init[i] == ddns;
            assert(candidates[i] == ddns);
        }
        assert(candidates[candidates.len() - 1] == candidates.last());
        if concerns(candidates.last(), labels) {
            if out.contains(ddns) {
                let i = choose|i: int| 0 <= i < out.len() && out[i] == ddns;
                if i < head.len() {
                    assert(head[i] == ddns);
                }
            }
            if head.contains(ddns) {
                let i = choose|i: int| 0 <= i < head.len() && head[i] == ddns;
                assert(out[i] == ddns);
            }
            assert(out[out.len() - 1] == candidates.last());
        }
    }
}

/// What to ask the cluster for on a service change: the DDNS objects of the
/// namespace of the service. `label_selector` is the label set of the service
/// in selector syntax; which of the listed objects select that label set is
/// decided by [`Trigger::trigger_ddns_reconcile`].
#[derive(Debug, Clone, PartialEq, Eq)]
pub struct DdnsQuery {
    pub namespace: Option<String>,
    pub label_selector: String,
}

/// The content of a [`DdnsQuery`].
pub struct DdnsQueryView {
    pub namespace: Option<Text>,
    pub label_selector: Text,
}

impl View for DdnsQuery {
    type V = DdnsQueryView;

    open spec fn view(&self) -> DdnsQueryView {
        DdnsQueryView {
            namespace: opt_text(self.namespace),
            label_selector: self.label_selector@,
        }
    }
}

/// The content of an optional query.
pub open spec fn opt_query(query: Option<DdnsQuery>) -> Option<DdnsQueryView> {
    match query {
        Some(query) => Some(query@),
        None => None,
    }
}

/// The query that a change of `service` calls for: its labels written as
/// `key=value` items separated by commas; none for a service without labels.
pub open spec fn query_for(service: ServiceView) -> Option<DdnsQueryView> {
    match service.labels {
        Some(labels) => Some(
            DdnsQueryView { namespace: service.namespace, label_selector: selector_text(labels) },
        ),
        None => None,
    }
}

/// The snapshots of `candidates` whose selector is a subset of `labels`.
pub fn related_ddns(candidates: &Vec<Ddns>, labels: &LabelMap) -> (out: Vec<Ddns>)
    ensures
        ddns_views(out@) == related(ddns_views(candidates@), labels@),
{
    let ghost all = ddns_views(candidates@);
    let mut out: Vec<Ddns> = Vec::new();
    let mut i: usize = 0;
    assert(ddns_views(out@) =~= related(all.take(0), labels@));
    while i < candidates.len()
        invariant
            i <= candidates.len(),
            all == ddns_views(candidates@),
            ddns_views(out@) == related(all.take(i as int), labels@),
        decreases candidates.len() - i,
    {
        let ghost before = ddns_views(out@);
        proof {
            assert(all.take(i + 1).drop_last() =~= all.take(i as int));
            assert(all.take(i + 1).last() == candidates@[i as int]@);
        }
        if candidates[i].spec.selector.selects(labels) {
            let ddns = candidates[i].clone();
            out.push(ddns);
            assert(ddns_views(out@) =~= before.push(ddns@));
        }
        i += 1;
    }
    proof {
        assert(all.take(i as int) =~= all);
    }
    out
}

/// The trigger: it turns a service change into the reconcile of every DDNS
/// object that the change concerns.
#[derive(Debug, Clone, Copy, PartialEq, Eq, Structural)]
pub struct Trigger {}

impl Trigger {
    /// The trigger.
    pub fn new() -> (trigger: Trigger)
        ensures
            trigger == (Trigger {  }),
    {
        Trigger {  }
    }

    /// The query for the candidates of a service change.
    pub fn candidates(&self, event: &ServiceEvent) -> (query: Option<DdnsQuery>)
        ensures
            opt_query(query) == query_for(subject(event@)),
    {
        let service = match event {
            ServiceEvent::Applied(service) => service,
            ServiceEvent::Deleted(service) => service,
        };
        match &service.labels {
            Some(labels) => Some(
                DdnsQuery {
                    namespace: crate::resource::copy_opt_text(&service.namespace),
                    label_selector: labels.selector_text(),
                },
            ),
            None => None,
        }
    }

    /// The snapshots to reconcile on a service change, given the candidates
    /// that the cluster listed: every candidate whose selector is a subset of
    /// the service's labels, and no other.
    pub fn trigger_ddns_reconcile(&self, event: &ServiceEvent, candidates: Vec<Ddns>) -> (out: Vec<
        Ddns,
    >)
        ensures
            ddns_views(out@) == triggered(subject(event@), ddns_views(candidates@)),
            forall|ddns: DdnsView|
                subject(event@).labels is Some ==> (#[trigger] ddns_views(out@).contains(ddns)
                    <==> ddns_views(candidates@).contains(ddns) && concerns(
                    ddns,
                    subject(event@).labels.unwrap(),
                )),
    {
        let service = match event {
            ServiceEvent::Applied(service) => service,
            ServiceEvent::Deleted(service) => service,
        };
        match &service.labels {
            Some(labels) => {
                proof {
                    assert forall|ddns: DdnsView| #[trigger]
                        related(ddns_views(candidates@), labels@).contains(ddns)
                            <==> ddns_views(candidates@).contains(ddns) && concerns(
                            ddns,
                            labels@,
                        ) by {
                        lemma_related(ddns_views(candidates@), labels@, ddns);
                    }
                }
                related_ddns(&candidates, labels)
            },
            None => {
                let out: Vec<Ddns> = Vec::new();
                assert(ddns_views(out@) =~= Seq::<DdnsView>::empty());
                out
            },
        }
    }
}

} // verus!
