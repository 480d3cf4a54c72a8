use ddns::labels::LabelMap;
use ddns::net::IpAddress;
use ddns::resource::{Ddns, DdnsSpec, Metadata};
use ddns::service::trigger::{related_ddns, DdnsQuery, Trigger};
use ddns::service::watch::{
    read_ingress, read_selected, read_service, watch_service, IngressIp, LoadBalancer, Service,
    ServiceChange, ServiceEvent,
};

fn labels(pairs: &[(&str, &str)]) -> LabelMap {
    let mut map = LabelMap::new();
    for (key, value) in pairs {
        map.insert(key.to_string(), value.to_string());
    }
    map
}

fn service(kind: Option<&str>, labels_of: Option<&[(&str, &str)]>) -> Service {
    Service {
        namespace: Some("prod".to_string()),
        labels: labels_of.map(labels),
        service_type: kind.map(|k| k.to_string()),
        load_balancer: None,
    }
}

fn ddns(name: &str, selector: &[(&str, &str)]) -> Ddns {
    Ddns {
        metadata: Metadata {
            name: Some(name.to_string()),
            namespace: Some("prod".to_string()),
            finalizers: None,
            deletion_timestamp: None,
        },
        spec: DdnsSpec {
            selector: labels(selector),
            domain: format!("{}.example.com", name),
            zone: "example.com".to_string(),
        },
        status: None,
    }
}

#[test]
fn watcher_passes_labelled_load_balancers_only() {
    let good = || service(Some("LoadBalancer"), Some(&[("app", "web")]));
    assert_eq!(watch_service(ServiceChange::Applied(good())), Some(ServiceEvent::Applied(good())));
    assert_eq!(watch_service(ServiceChange::Deleted(good())), Some(ServiceEvent::Deleted(good())));
    assert_eq!(
        watch_service(ServiceChange::Applied(service(Some("ClusterIP"), Some(&[("app", "web")])))),
        None
    );
    assert_eq!(watch_service(ServiceChange::Applied(service(None, Some(&[("app", "web")])))), None);
    assert_eq!(watch_service(ServiceChange::Applied(service(Some("LoadBalancer"), None))), None);
    assert_eq!(watch_service(ServiceChange::Deleted(service(Some("LoadBalancer"), Some(&[])))), None);
    assert_eq!(watch_service(ServiceChange::Restarted(vec![good(), good()])), None);
    assert!(good().is_load_balancer());
    assert!(good().is_labelled());
    assert!(!service(Some("loadbalancer"), None).is_load_balancer());
}

#[test]
fn trigger_asks_for_the_candidates_by_the_labels_of_the_service() {
    let trigger = Trigger::new();
    let event = ServiceEvent::Applied(service(
        Some("LoadBalancer"),
        Some(&[("app", "web"), ("tier", "front")]),
    ));
    assert_eq!(
        trigger.candidates(&event),
        Some(DdnsQuery {
            namespace: Some("prod".to_string()),
            label_selector: "app=web,tier=front".to_string()
        })
    );
    let bare = ServiceEvent::Deleted(service(Some("LoadBalancer"), None));
    assert_eq!(trigger.candidates(&bare), None);
}

#[test]
fn trigger_reconciles_every_object_that_selects_the_service() {
    let trigger = Trigger::new();
    let candidates = vec![
        ddns("one", &[("app", "web")]),
        ddns("two", &[("app", "api")]),
        ddns("three", &[("tier", "front"), ("app", "web")]),
        ddns("four", &[("app", "web"), ("tier", "back")]),
        ddns("five", &[("app", "web")]),
    ];
    let event = ServiceEvent::Applied(service(
        Some("LoadBalancer"),
        Some(&[("app", "web"), ("tier", "front")]),
    ));
    let picked = trigger.trigger_ddns_reconcile(&event, candidates.clone());
    assert_eq!(
        picked,
        vec![candidates[0].clone(), candidates[2].clone(), candidates[4].clone()]
    );
    let deleted = ServiceEvent::Deleted(service(Some("LoadBalancer"), Some(&[("app", "api")])));
    assert_eq!(
        trigger.trigger_ddns_reconcile(&deleted, candidates.clone()),
        vec![candidates[1].clone()]
    );
    let bare = ServiceEvent::Applied(service(Some("LoadBalancer"), None));
    assert_eq!(trigger.trigger_ddns_reconcile(&bare, candidates.clone()), vec![]);
    assert_eq!(related_ddns(&vec![], &labels(&[("app", "web")])), vec![]);
}

#[test]
fn addresses_of_services_are_read_in_order() {
    let a = IpAddress::V4(1);
    let b = IpAddress::V6(2);
    assert_eq!(read_ingress(&vec![]), Some(vec![]));
    assert_eq!(
        read_ingress(&vec![IngressIp::Parsed(a), IngressIp::Absent, IngressIp::Parsed(b)]),
        Some(vec![a, b])
    );
    assert_eq!(
        read_ingress(&vec![IngressIp::Parsed(a), IngressIp::Unparseable("x".to_string())]),
        None
    );
    let selector = labels(&[("app", "web"), ("tier", "front")]);
    let chosen: &[(&str, &str)] = &[("tier", "front"), ("app", "web"), ("x", "y")];
    let mut one = service(Some("LoadBalancer"), Some(chosen));
    assert_eq!(read_service(&one), Some(vec![]));
    assert!(one.is_selected_by(&selector));
    one.load_balancer = Some(LoadBalancer { ingress: Some(vec![IngressIp::Parsed(a)]) });
    let mut two = service(Some("LoadBalancer"), Some(chosen));
    two.load_balancer =
        Some(LoadBalancer { ingress: Some(vec![IngressIp::Parsed(b), IngressIp::Parsed(a)]) });
    let mut partial = service(Some("LoadBalancer"), Some(&[("app", "web")]));
    partial.load_balancer =
        Some(LoadBalancer { ingress: Some(vec![IngressIp::Unparseable("?".to_string())]) });
    assert!(!partial.is_selected_by(&selector));
    assert!(partial.is_selected_by(&labels(&[("app", "web")])));
    let mut bare = service(Some("LoadBalancer"), None);
    bare.load_balancer = Some(LoadBalancer { ingress: Some(vec![IngressIp::Parsed(b)]) });
    assert!(!bare.is_selected_by(&selector));
    assert!(bare.is_selected_by(&labels(&[])));
    assert_eq!(read_service(&one), Some(vec![a]));
    assert_eq!(read_selected(&vec![], &selector), Some(vec![]));
    let mut bad = service(Some("LoadBalancer"), Some(chosen));
    bad.load_balancer =
        Some(LoadBalancer { ingress: Some(vec![IngressIp::Unparseable("?".to_string())]) });
    let list = vec![one, partial, two, bare];
    assert_eq!(read_selected(&list, &selector), Some(vec![a, b, a]));
    let mut list = list;
    list.push(bad);
    assert_eq!(read_selected(&list, &selector), None);
}
