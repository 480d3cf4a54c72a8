//! The scheduler's view of services: which changes it keeps, and which DDNS
//! objects of the namespace a service concerns.

use crate::resource::{Ddns, DdnsView};
use crate::service::trigger::{ddns_views, related, related_ddns};
use crate::service::watch::{service_views, Service, ServiceChange, ServiceChangeView, ServiceView};
use crate::text::{owned, Text};
use vstd::prelude::*;

verus! {

/// Whether a service has a load balancer and labels.
pub open spec fn is_exposed(service: ServiceView) -> bool {
    service.load_balancer.is_some() && service.labels.is_some()
}

/// The services of a list, in their order, that have a load balancer and
/// labels.
pub open spec fn exposed(services: Seq<ServiceView>) -> Seq<ServiceView>
    decreases services.len(),
{
    if services.len() == 0 {
        Seq::empty()
    } else {
        let head = exposed(services.drop_last());
        if is_exposed(services.last()) {
            head.push(services.last())
        } else {
            head
        }
    }
}

/// What is kept of a change: a service that is applied or deleted is kept
/// where it has a load balancer and labels; of a restart, the services that
/// have both are kept.
pub open spec fn kept(change: ServiceChangeView) -> Option<ServiceChangeView> {
    match change {
        ServiceChangeView::Applied(service) => if is_exposed(service) {
            Some(change)
        } else {
            None
        },
        ServiceChangeView::Deleted(service) => if is_exposed(service) {
            Some(change)
        } else {
            None
        },
        ServiceChangeView::Restarted(list) => Some(ServiceChangeView::Restarted(exposed(list))),
    }
}

/// The content of an optional change.
pub open spec fn opt_change(change: Option<ServiceChange>) -> Option<ServiceChangeView> {
    match change {
        Some(change) => Some(change@),
        None => None,
    }
}

fn is_exposed_service(service: &Service) -> (yes: bool)
    ensures
        yes == is_exposed(service@),
{
    service.load_balancer.is_some() && service.labels.is_some()
}

fn keep_exposed(list: Vec<Service>) -> (out: Vec<Service>)
    ensures
        service_views(out@) == exposed(service_views(list@)),
{
    let ghost all = service_views(list@);
    let mut rest = list;
    let mut out: Vec<Service> = Vec::new();
    let ghost mut done: int = 0;
    assert(service_views(out@) =~= exposed(all.take(0)));
    while rest.len() > 0
        invariant
            0 <= done <= all.len(),
            service_views(rest@) == all.skip(done),
            service_views(out@) == exposed(all.take(done)),
        decreases rest.len(),
    {
        let ghost before = service_views(out@);
        let ghost left = service_views(rest@);
        proof {
            assert(left.len() == rest@.len());
            assert(all.skip(done).len() == all.len() - done);
            assert(done < all.len());
        }
        let service = rest.remove(0);
        proof {
            assert(left[0] == all[done]);
            assert(service@ == left[0]);
            assert(service_views(rest@) =~= left.remove(0));
            assert(left.remove(0) =~= all.skip(done + 1));
            assert(all.take(done + 1).drop_last() =~= all.take(done));
            assert(all.take(done + 1).last() == all[done]);
        }
        if is_exposed_service(&service) {
            out.push(service);
            assert(service_views(out@) =~= before.push(service@));
        }
        proof {
            done = done + 1;
        }
    }
    proof {
        assert(all.take(done) =~= all);
    }
    out
}

/// The scheduler's filter on service changes.
pub fn watch_service(change: ServiceChange) -> (out: Option<ServiceChange>)
    ensures
        opt_change(out) == kept(change@),
{
    match change {
        ServiceChange::Applied(service) => {
            if is_exposed_service(&service) {
                Some(ServiceChange::Applied(service))
            } else {
                None
            }
        },
        ServiceChange::Deleted(service) => {
            if is_exposed_service(&service) {
                Some(ServiceChange::Deleted(service))
            } else {
                None
            }
        },
        ServiceChange::Restarted(list) => Some(ServiceChange::Restarted(keep_exposed(list))),
    }
}

/// The failure of the lookup for a service that names no namespace.
pub open spec fn no_service_namespace() -> Text {
    "service doesn't contain namespace field"@
}

/// The DDNS objects that `service` concerns among the objects of its
/// namespace: a service without a namespace is refused, a service without
/// labels concerns none, and any other concerns the objects whose selector is
/// a subset of its labels.
pub open spec fn svc_related(service: ServiceView, candidates: Seq<DdnsView>) -> Result<
    Seq<DdnsView>,
    Text,
> {
    if service.namespace is None {
        Err(no_service_namespace())
    } else {
        match service.labels {
            Some(labels) => Ok(related(candidates, labels)),
            None => Ok(Seq::empty()),
        }
    }
}

/// The DDNS objects that `svc` concerns among `candidates`, the objects of its
/// namespace.
pub fn get_svc_related_ddns(svc: &Service, candidates: &Vec<Ddns>) -> (out: Result<Vec<Ddns>, String>)
    ensures
        match out {
            Ok(list) => svc_related(svc@, ddns_views(candidates@)) == Ok::<Seq<DdnsView>, Text>(
                ddns_views(list@),
            ),
            Err(reason) => svc_related(svc@, ddns_views(candidates@)) == Err::<Seq<DdnsView>, Text>(
                reason@,
            ),
        },
{
    if svc.namespace.is_none() {
        return Err(owned("service doesn't contain namespace field"));
    }
    match &svc.labels {
        Some(labels) => Ok(related_ddns(candidates, labels)),
        None => {
            let list: Vec<Ddns> = Vec::new();
            assert(ddns_views(list@) =~= Seq::<DdnsView>::empty());
            Ok(list)
        },
    }
}

} // verus!
