//! The service watcher's filter and the addresses that a service exposes.

use crate::labels::{selects, LabelMap};
use crate::net::IpAddress;
use crate::text::{opt_text, owned, same_text, Text};
use vstd::prelude::*;

verus! {

/// One entry of a load balancer's ingress list: it may have no address, an
/// address that was read, or a text that is no address.
#[derive(Debug, Clone, PartialEq, Eq)]
pub enum IngressIp {
    Absent,
    Parsed(IpAddress),
    Unparseable(String),
}

/// The content of an [`IngressIp`].
pub enum IngressIpView {
    Absent,
    Parsed(IpAddress),
    Unparseable(Text),
}

impl View for IngressIp {
    type V = IngressIpView;

    open spec fn view(&self) -> IngressIpView {
        match self {
            IngressIp::Absent => IngressIpView::Absent,
            IngressIp::Parsed(ip) => IngressIpView::Parsed(*ip),
            IngressIp::Unparseable(text) => IngressIpView::Unparseable(text@),
        }
    }
}

/// The load-balancer part of a service's status.
#[derive(Debug, Clone, PartialEq, Eq, Default)]
pub struct LoadBalancer {
    pub ingress: Option<Vec<IngressIp>>,
}

/// The content of a [`LoadBalancer`].
pub struct LoadBalancerView {
    pub ingress: Option<Seq<IngressIpView>>,
}

/// The contents of an ingress list.
pub open spec fn ingress_views(list: Seq<IngressIp>) -> Seq<IngressIpView> {
    list.map_values(|entry: IngressIp| entry@)
}

impl View for LoadBalancer {
    type V = LoadBalancerView;

    open spec fn view(&self) -> LoadBalancerView {
        LoadBalancerView {
            ingress: match self.ingress {
                Some(list) => Some(ingress_views(list@)),
                None => None,
            },
        }
    }
}

/// What the engine reads of a cluster service.
#[derive(Debug, PartialEq, Eq, Default)]
pub struct Service {
    pub namespace: Option<String>,
    pub labels: Option<LabelMap>,
    pub service_type: Option<String>,
    pub load_balancer: Option<LoadBalancer>,
}

/// The content of a [`Service`].
pub struct ServiceView {
    pub namespace: Option<Text>,
    pub labels: Option<Seq<(Text, Text)>>,
    pub service_type: Option<Text>,
    pub load_balancer: Option<LoadBalancerView>,
}

impl View for Service {
    type V = ServiceView;

    open spec fn view(&self) -> ServiceView {
        ServiceView {
            namespace: opt_text(self.namespace),
            labels: match self.labels {
                Some(labels) => Some(labels@),
                None => None,
            },
            service_type: opt_text(self.service_type),
            load_balancer: match self.load_balancer {
                Some(lb) => Some(lb@),
                None => None,
            },
        }
    }
}

/// The contents of a list of services.
pub open spec fn service_views(list: Seq<Service>) -> Seq<ServiceView> {
    list.map_values(|service: Service| service@)
}

/// The addresses of an ingress list, in order; `None` where an entry holds a
/// text that is no address.
pub open spec fn ingress_ips(ingress: Seq<IngressIpView>) -> Option<Seq<IpAddress>>
    decreases ingress.len(),
{
    if ingress.len() == 0 {
        Some(Seq::empty())
    } else {
        match ingress_ips(ingress.drop_last()) {
            None => None,
            Some(head) => match ingress.last() {
                IngressIpView::Absent => Some(head),
                IngressIpView::Parsed(ip) => Some(head.push(ip)),
                IngressIpView::Unparseable(_) => None,
            },
        }
    }
}

/// The addresses that a service exposes through its load balancer.
pub open spec fn service_ips(service: ServiceView) -> Option<Seq<IpAddress>> {
    match service.load_balancer {
        Some(lb) => match lb.ingress {
            Some(list) => ingress_ips(list),
            None => Some(Seq::empty()),
        },
        None => Some(Seq::empty()),
    }
}

/// Whether a service is selected: its labels hold every pair of `selector`.
/// A service without labels holds no pair.
pub open spec fn is_selected(selector: Seq<(Text, Text)>, service: ServiceView) -> bool {
    match service.labels {
        Some(labels) => selects(selector, labels),
        None => selects(selector, Seq::empty()),
    }
}

/// The addresses that the selected services of a list expose, service after
/// service; `None` where a selected service holds a text that is no address.
/// Services that are not selected are passed over, whatever they hold.
pub open spec fn selected_ips(services: Seq<ServiceView>, selector: Seq<(Text, Text)>) -> Option<
    Seq<IpAddress>,
>
    decreases services.len(),
{
    if services.len() == 0 {
        Some(Seq::empty())
    } else {
        match selected_ips(services.drop_last(), selector) {
            None => None,
            Some(head) => if is_selected(selector, services.last()) {
                match service_ips(services.last()) {
                    None => None,
                    Some(ips) => Some(head + ips),
                }
            } else {
                Some(head)
            },
        }
    }
}

/// A list with an unreadable entry stays unreadable however it is extended.
pub proof fn lemma_ingress_unreadable(ingress: Seq<IngressIpView>, upto: int)
    requires
        0 <= upto <= ingress.len(),
        ingress_ips(ingress.take(upto)) is None,
    ensures
        ingress_ips(ingress) is None,
    decreases ingress.len() - upto,
{
    if upto < ingress.len() {
        assert(ingress.take(upto + 1).drop_last() =~= ingress.take(upto));
        lemma_ingress_unreadable(ingress, upto + 1);
    } else {
        assert(ingress.take(upto) =~= ingress);
    }
}

/// A list of services with an unreadable selected one stays unreadable however
/// it is extended.
pub proof fn lemma_selected_unreadable(
    services: Seq<ServiceView>,
    selector: Seq<(Text, Text)>,
    upto: int,
)
    requires
        0 <= upto <= services.len(),
        selected_ips(services.take(upto), selector) is None,
    ensures
        selected_ips(services, selector) is None,
    decreases services.len() - upto,
{
    if upto < services.len() {
        assert(services.take(upto + 1).drop_last() =~= services.take(upto));
        lemma_selected_unreadable(services, selector, upto + 1);
    } else {
        assert(services.take(upto) =~= services);
    }
}

/// An address is among the addresses of the selected services of a list exactly
/// if one of those services exposes it.
pub proof fn lemma_selected_ips(
    services: Seq<ServiceView>,
    selector: Seq<(Text, Text)>,
    ip: IpAddress,
)
    requires
        selected_ips(services, selector) is Some,
    ensures
        forall|i: int|
            0 <= i < services.len() && is_selected(selector, #[trigger] services[i])
                ==> service_ips(services[i]) is Some,
        selected_ips(services, selector).unwrap().contains(ip) <==> exists|i: int|
            0 <= i < services.len() && is_selected(selector, #[trigger] services[i])
                && service_ips(services[i]).unwrap().contains(ip),
    decreases services.len(),
{
    if services.len() > 0 {
        let init = services.drop_last();
        let last = services.last();
        let head = selected_ips(init, selector).unwrap();
        let all = selected_ips(services, selector).unwrap();
        lemma_selected_ips(init, selector, ip);
        assert forall|i: int|
            0 <= i < services.len() && is_selected(
                selector,
                #[trigger] services[i],
            ) implies service_ips(services[i]) is Some by {
            if i < init.len() {
                assert(init[i] == services[i]);
            }
        }
        if head.contains(ip) {
            let i = choose|i: int|
                0 <= i < init.len() && is_selected(selector, #[trigger] init[i]) && service_ips(
                    init[i],
                ).unwrap().contains(ip);
            assert(services[i] == init[i]);
            let k = choose|k: int| 0 <= k < head.len() && head[k] == ip;
            assert(all[k] == ip);
        }
        if is_selected(selector, last) {
            let ips = service_ips(last).unwrap();
            if ips.contains(ip) {
                let k = choose|k: int| 0 <= k < ips.len() && ips[k] == ip;
                assert(all[head.len() + k] == ip);
                assert(services[services.len() - 1] == last);
            }
            if all.contains(ip) {
                let k = choose|k: int| 0 <= k < all.len() && all[k] == ip;
                if k < head.len() {
                    assert(head[k] == ip);
                } else {
                    assert(ips[k - head.len()] == ip);
                    assert(services[services.len() - 1] == last);
                }
            }
        }
        if exists|i: int|
            0 <= i < services.len() && is_selected(selector, #[trigger] services[i])
                && service_ips(services[i]).unwrap().contains(ip) {
            let i = choose|i: int|
                0 <= i < services.len() && is_selected(selector, #[trigger] services[i])
                    && service_ips(services[i]).unwrap().contains(ip);
            if i < init.len() {
                assert(init[i] == services[i]);
            }
        }
    }
}

/// The addresses of an ingress list.
pub fn read_ingress(ingress: &Vec<IngressIp>) -> (out: Option<Vec<IpAddress>>)
    ensures
        match out {
            Some(ips) => ingress_ips(ingress_views(ingress@)) == Some(ips@),
            None => ingress_ips(ingress_views(ingress@)) is None,
        },
{
    let mut out: Vec<IpAddress> = Vec::new();
    let mut i: usize = 0;
    while i < ingress.len()
        invariant
            i <= ingress.len(),
            ingress_ips(ingress_views(ingress@).take(i as int)) == Some(out@),
        decreases ingress.len() - i,
    {
        proof {
            let views = ingress_views(ingress@);
            assert(views.take(i + 1).drop_last() =~= views.take(i as int));
            assert(views.take(i + 1).last() == ingress@[i as int]@);
        }
        match &ingress[i] {
            IngressIp::Absent => {},
            IngressIp::Parsed(ip) => {
                out.push(*ip);
            },
            IngressIp::Unparseable(_) => {
                proof {
                    lemma_ingress_unreadable(ingress_views(ingress@), i + 1);
                }
                return None;
            },
        }
        i += 1;
    }
    proof {
        let views = ingress_views(ingress@);
        assert(views.take(i as int) =~= views);
    }
    Some(out)
}

/// The addresses that a service exposes.
pub fn read_service(service: &Service) -> (out: Option<Vec<IpAddress>>)
    ensures
        match out {
            Some(ips) => service_ips(service@) == Some(ips@),
            None => service_ips(service@) is None,
        },
{
    match &service.load_balancer {
        Some(lb) => match &lb.ingress {
            Some(list) => read_ingress(list),
            None => Some(Vec::new()),
        },
        None => Some(Vec::new()),
    }
}

/// The addresses that the services of a list expose which are selected by
/// `selector`.
pub fn read_selected(services: &Vec<Service>, selector: &LabelMap) -> (out: Option<Vec<IpAddress>>)
    ensures
        match out {
            Some(ips) => selected_ips(service_views(services@), selector@) == Some(ips@),
            None => selected_ips(service_views(services@), selector@) is None,
        },
{
    let mut out: Vec<IpAddress> = Vec::new();
    let mut i: usize = 0;
    while i < services.len()
        invariant
            i <= services.len(),
            selected_ips(service_views(services@).take(i as int), selector@) == Some(out@),
        decreases services.len() - i,
    {
        proof {
            let views = service_views(services@);
            assert(views.take(i + 1).drop_last() =~= views.take(i as int));
            assert(views.take(i + 1).last() == services@[i as int]@);
        }
        if services[i].is_selected_by(selector) {
            match read_service(&services[i]) {
                Some(mut ips) => {
                    out.append(&mut ips);
                },
                None => {
                    proof {
                        lemma_selected_unreadable(service_views(services@), selector@, i + 1);
                    }
                    return None;
                },
            }
        }
        i += 1;
    }
    proof {
        let views = service_views(services@);
        assert(views.take(i as int) =~= views);
    }
    Some(out)
}

/// A change of one service that may concern a DDNS object.
#[derive(Debug, PartialEq, Eq)]
pub enum ServiceEvent {
    /// A service is applied: it was created or modified.
    Applied(Service),
    /// A service is deleted.
    Deleted(Service),
}

/// The content of a [`ServiceEvent`].
pub enum ServiceEventView {
    Applied(ServiceView),
    Deleted(ServiceView),
}

impl View for ServiceEvent {
    type V = ServiceEventView;

    open spec fn view(&self) -> ServiceEventView {
        match self {
            ServiceEvent::Applied(service) => ServiceEventView::Applied(service@),
            ServiceEvent::Deleted(service) => ServiceEventView::Deleted(service@),
        }
    }
}

/// The service that an event is about.
pub open spec fn subject(event: ServiceEventView) -> ServiceView {
    match event {
        ServiceEventView::Applied(service) => service,
        ServiceEventView::Deleted(service) => service,
    }
}

/// What the cluster's watch reports of services: one applied, one deleted, or
/// the whole current list after the watch restarted.
#[derive(Debug, PartialEq, Eq)]
pub enum ServiceChange {
    Applied(Service),
    Deleted(Service),
    Restarted(Vec<Service>),
}

/// The content of a [`ServiceChange`].
pub enum ServiceChangeView {
    Applied(ServiceView),
    Deleted(ServiceView),
    Restarted(Seq<ServiceView>),
}

impl View for ServiceChange {
    type V = ServiceChangeView;

    open spec fn view(&self) -> ServiceChangeView {
        match self {
            ServiceChange::Applied(service) => ServiceChangeView::Applied(service@),
            ServiceChange::Deleted(service) => ServiceChangeView::Deleted(service@),
            ServiceChange::Restarted(list) => ServiceChangeView::Restarted(service_views(list@)),
        }
    }
}

/// The service type of a load balancer.
pub open spec fn load_balancer_type() -> Text {
    "LoadBalancer"@
}

/// Whether a service is of type `LoadBalancer`.
pub open spec fn is_load_balancer(service: ServiceView) -> bool {
    service.service_type == Some(load_balancer_type())
}

/// Whether a service carries at least one label.
pub open spec fn is_labelled(service: ServiceView) -> bool {
    service.labels.is_some() && service.labels.unwrap().len() > 0
}

/// The event that a change gives rise to: a service that is applied or deleted
/// is passed on where it is a load balancer and carries labels; everything
/// else is dropped.
pub open spec fn watched(change: ServiceChangeView) -> Option<ServiceEventView> {
    match change {
        ServiceChangeView::Applied(service) => if is_load_balancer(service) && is_labelled(
            service,
        ) {
            Some(ServiceEventView::Applied(service))
        } else {
            None
        },
        ServiceChangeView::Deleted(service) => if is_load_balancer(service) && is_labelled(
            service,
        ) {
            Some(ServiceEventView::Deleted(service))
        } else {
            None
        },
        ServiceChangeView::Restarted(_) => None,
    }
}

/// The content of an optional event.
pub open spec fn opt_event(event: Option<ServiceEvent>) -> Option<ServiceEventView> {
    match event {
        Some(e) => Some(e@),
        None => None,
    }
}

impl Service {
    /// Whether the service is of type `LoadBalancer`.
    pub fn is_load_balancer(&self) -> (yes: bool)
        ensures
            yes == is_load_balancer(self@),
    {
        match &self.service_type {
            Some(kind) => {
                let wanted = owned("LoadBalancer");
                same_text(kind, &wanted)
            },
            None => false,
        }
    }

    /// Whether the labels of the service hold every pair of `selector`.
    pub fn is_selected_by(&self, selector: &LabelMap) -> (yes: bool)
        ensures
            yes == is_selected(selector@, self@),
    {
        match &self.labels {
            Some(labels) => selector.selects(labels),
            None => {
                let none = LabelMap::new();
                selector.selects(&none)
            },
        }
    }

    /// Whether the service carries at least one label.
    pub fn is_labelled(&self) -> (yes: bool)
        ensures
            yes == is_labelled(self@),
    {
        match &self.labels {
            Some(labels) => !labels.is_empty(),
            None => false,
        }
    }
}

/// The service watcher's filter: passes on the changes of load balancers that
/// carry labels, and drops every other change.
pub fn watch_service(change: ServiceChange) -> (event: Option<ServiceEvent>)
    ensures
        opt_event(event) == watched(change@),
{
    match change {
        ServiceChange::Applied(service) => {
            if service.is_load_balancer() && service.is_labelled() {
                Some(ServiceEvent::Applied(service))
            } else {
                None
            }
        },
        ServiceChange::Deleted(service) => {
            if service.is_load_balancer() && service.is_labelled() {
                Some(ServiceEvent::Deleted(service))
            } else {
                None
            }
        },
        ServiceChange::Restarted(_) => None,
    }
}

} // verus!
