use ddns::ddns::default_err_policy::DefaultErrPolicy;
use ddns::ddns::default_reconciler::{DefaultReconciler, Stage};
use ddns::ddns::error::{Delay, Error};
use ddns::ddns::error_policy::{ErrorPolicy, Retry};
use ddns::ddns::reconcile::{Effect, Outcome, Progress, Reconcile};
use ddns::labels::LabelMap;
use ddns::reconcile::apply::handle_apply;
use ddns::reconcile::delete::handle_delete;
use ddns::reconcile::schedule::{handle_event, schedule, Scheduled};
use ddns::reconcile::watch::{get_svc_related_ddns, watch_service};
use ddns::reconcile::{
    async_reconcile_failed, conclude, reconcile, reconcile_failed, resume, ReconcilerAction, Step,
};
use ddns::resource::{Ddns, DdnsSpec, DdnsStatus, Metadata};
use ddns::service::watch::{LoadBalancer, Service, ServiceChange};

fn labels(pairs: &[(&str, &str)]) -> LabelMap {
    let mut map = LabelMap::new();
    for (key, value) in pairs {
        map.insert(key.to_string(), value.to_string());
    }
    map
}

fn ddns(name: &str, selector: &[(&str, &str)]) -> Ddns {
    Ddns {
        metadata: Metadata {
            name: Some(name.to_string()),
            namespace: Some("prod".to_string()),
            finalizers: None,
            deletion_timestamp: None,
        },
        spec: DdnsSpec {
            selector: labels(selector),
            domain: "web.example.com".to_string(),
            zone: "example.com".to_string(),
        },
        status: None,
    }
}

fn converged(name: &str) -> Ddns {
    let mut object = ddns(name, &[("app", "web")]);
    object.status = Some(DdnsStatus {
        status: "RUNNING".to_string(),
        selector: labels(&[("app", "web")]),
        domain: "web.example.com".to_string(),
        zone: "example.com".to_string(),
    });
    object
}

#[test]
fn default_policy_retries_every_failure_but_an_abort() {
    let policy = DefaultErrPolicy::new(17u8);
    assert_eq!(*policy.retry_queue(), 17);
    let object = ddns("web", &[("app", "web")]);
    assert_eq!(
        policy.error_policy(object.clone(), Error::ReRun(Delay::from_secs(9))),
        Some(Retry { after: Delay { secs: 9, nanos: 0 }, ddns: object.clone() })
    );
    assert_eq!(
        policy.error_policy(object.clone(), Error::Other("x".to_string())),
        Some(Retry { after: Delay { secs: 3, nanos: 0 }, ddns: object.clone() })
    );
    assert_eq!(policy.error_policy(object.clone(), Error::Aborted), None);
    assert_eq!(
        <DefaultErrPolicy<u8> as ErrorPolicy>::error_policy(&policy, object.clone(), Error::Aborted),
        None
    );
}

#[test]
fn a_delay_converts_into_a_rerun() {
    assert_eq!(Error::from(Delay::from_secs(3)), Error::ReRun(Delay { secs: 3, nanos: 0 }));
    assert_eq!(Delay::from_secs(0), Delay { secs: 0, nanos: 0 });
}

#[test]
fn the_default_reconciler_is_a_kind_of_pass() {
    fn start<R: Reconcile>(ddns: Ddns) -> (R, Progress) {
        if ddns.is_deleting() {
            R::delete_ddns(ddns)
        } else {
            R::reconcile_ddns(ddns)
        }
    }
    let (pass, progress): (DefaultReconciler, Progress) = start(converged("web"));
    assert_eq!(pass.stage, Stage::Listing);
    assert!(matches!(progress, Progress::Next(Effect::ListServices { .. })));
    let (pass, progress) = Reconcile::resume(pass, Outcome::Services(vec![]));
    assert_eq!(pass.stage, Stage::Finished);
    assert_eq!(progress, Progress::Done(Err(Error::ReRun(Delay::from_secs(3)))));
}

#[test]
fn under_the_scheduler_an_empty_load_balancer_is_a_requeue() {
    let (pass, step) = handle_apply(converged("web"));
    assert!(matches!(step, Step::Next(Effect::ListServices { .. })));
    let (_, step) = resume(pass, Outcome::Services(vec![]));
    assert_eq!(
        step,
        Step::Done(Ok(ReconcilerAction { requeue_after: Some(Delay { secs: 3, nanos: 0 }) }))
    );
}

#[test]
fn under_the_scheduler_a_failure_stays_a_failure() {
    let (pass, _) = handle_apply(converged("web"));
    let (_, step) = resume(pass, Outcome::Failed { code: Some(500), message: "boom".to_string() });
    assert_eq!(step, Step::Done(Err(ddns::reconcile::Error("boom".to_string()))));
    assert_eq!(
        conclude(Progress::Done(Err(Error::Aborted))),
        Step::Done(Err(ddns::reconcile::Error("reconcile aborted".to_string())))
    );
    assert_eq!(
        conclude(Progress::Done(Ok(()))),
        Step::Done(Ok(ReconcilerAction { requeue_after: None }))
    );
}

#[test]
fn under_the_scheduler_a_delete_starts_with_deleting() {
    let mut object = converged("web");
    object.metadata.deletion_timestamp = Some(5);
    let (pass, step) = handle_delete(object.clone());
    assert_eq!(pass.stage, Stage::Marking);
    match step {
        Step::Next(Effect::PatchStatus { status, .. }) => {
            assert_eq!(status.status().status, "DELETING")
        }
        other => panic!("{:?}", other),
    }
    let (pass, _) = reconcile(object);
    assert_eq!(pass.stage, Stage::Marking);
    let (pass, _) = reconcile(converged("web"));
    assert_eq!(pass.stage, Stage::Listing);
}

#[test]
fn a_failed_pass_is_requeued_after_three_seconds() {
    let err = ddns::reconcile::Error("boom".to_string());
    let expected = ReconcilerAction { requeue_after: Some(Delay { secs: 3, nanos: 0 }) };
    assert_eq!(reconcile_failed(&err), expected);
    assert_eq!(async_reconcile_failed(err.clone()), expected);
    assert_eq!(schedule(Err(err)), Some(Delay { secs: 3, nanos: 0 }));
    assert_eq!(schedule(Ok(ReconcilerAction { requeue_after: None })), None);
    assert_eq!(
        schedule(Ok(ReconcilerAction { requeue_after: Some(Delay { secs: 30, nanos: 0 }) })),
        Some(Delay { secs: 30, nanos: 0 })
    );
}

#[test]
fn a_reference_without_an_object_is_looked_up_again_after_two_seconds() {
    assert_eq!(handle_event(None), Scheduled::Lookup(Delay { secs: 2, nanos: 0 }));
    match handle_event(Some(converged("web"))) {
        Scheduled::Started(pass, step) => {
            assert_eq!(pass.stage, Stage::Listing);
            assert!(matches!(step, Step::Next(Effect::ListServices { .. })));
        }
        other => panic!("{:?}", other),
    }
}

fn service(labels_of: Option<&[(&str, &str)]>, load_balancer: bool) -> Service {
    Service {
        namespace: Some("prod".to_string()),
        labels: labels_of.map(labels),
        service_type: Some("LoadBalancer".to_string()),
        load_balancer: if load_balancer { Some(LoadBalancer { ingress: None }) } else { None },
    }
}

#[test]
fn the_scheduler_keeps_services_with_a_load_balancer_and_labels() {
    assert!(watch_service(ServiceChange::Applied(service(Some(&[("a", "b")]), true))).is_some());
    assert!(watch_service(ServiceChange::Applied(service(Some(&[]), true))).is_some());
    assert!(watch_service(ServiceChange::Applied(service(None, true))).is_none());
    assert!(watch_service(ServiceChange::Deleted(service(Some(&[("a", "b")]), false))).is_none());
    assert!(watch_service(ServiceChange::Deleted(service(Some(&[("a", "b")]), true))).is_some());
    let kept = watch_service(ServiceChange::Restarted(vec![
        service(Some(&[("a", "1")]), true),
        service(None, true),
        service(Some(&[("a", "2")]), false),
        service(Some(&[("a", "3")]), true),
    ]));
    assert_eq!(
        kept,
        Some(ServiceChange::Restarted(vec![
            service(Some(&[("a", "1")]), true),
            service(Some(&[("a", "3")]), true),
        ]))
    );
    assert_eq!(
        watch_service(ServiceChange::Restarted(vec![])),
        Some(ServiceChange::Restarted(vec![]))
    );
}

#[test]
fn related_objects_are_those_whose_selector_is_a_subset() {
    let candidates = vec![
        ddns("one", &[("app", "web")]),
        ddns("two", &[("app", "api")]),
        ddns("three", &[("app", "web"), ("tier", "front")]),
        ddns("four", &[("tier", "front")]),
    ];
    let svc = service(Some(&[("tier", "front"), ("app", "web")]), true);
    let related = get_svc_related_ddns(&svc, &candidates).unwrap();
    assert_eq!(
        related.iter().map(|d| d.metadata.name.clone().unwrap()).collect::<Vec<_>>(),
        vec!["one", "three", "four"]
    );
    let mut homeless = service(Some(&[("app", "web")]), true);
    homeless.namespace = None;
    assert_eq!(
        get_svc_related_ddns(&homeless, &candidates),
        Err("service doesn't contain namespace field".to_string())
    );
    assert_eq!(get_svc_related_ddns(&service(None, true), &candidates), Ok(vec![]));
}
