use ddns::cf_dns::{DnsRecord, DnsReply, DnsRequest, RecordContent, Zone};
use ddns::ddns::default_reconciler::{DefaultReconciler, Stage};
use ddns::ddns::error::{Delay, Error};
use ddns::ddns::reconcile::{Effect, Outcome, Progress};
use ddns::labels::LabelMap;
use ddns::net::IpAddress;
use ddns::resource::{Ddns, DdnsSpec, DdnsStatus, Metadata};
use ddns::service::watch::{IngressIp, LoadBalancer, Service};

const FINALIZER: &str = "ddns.finalizer.api.sherlockholo.xyz";

fn labels(pairs: &[(&str, &str)]) -> LabelMap {
    let mut map = LabelMap::new();
    for (key, value) in pairs {
        map.insert(key.to_string(), value.to_string());
    }
    map
}

fn v4(a: u8, b: u8, c: u8, d: u8) -> IpAddress {
    IpAddress::V4(u32::from_be_bytes([a, b, c, d]))
}

/// The outside of a pass, in memory: a DNS provider with one zone, the
/// services of the cluster, and the object as the cluster holds it.
struct World {
    records: Vec<DnsRecord>,
    minted: u32,
    services: Vec<Service>,
    object: Option<Ddns>,
    log: Vec<String>,
}

impl World {
    fn new(object: &Ddns) -> World {
        World { records: vec![], minted: 0, services: vec![], object: Some(object.clone()), log: vec![] }
    }

    fn a_records(&self, name: &str) -> Vec<IpAddress> {
        self.records
            .iter()
            .filter(|r| r.name == name)
            .filter_map(|r| match r.content {
                RecordContent::Address(ip @ IpAddress::V4(_)) => Some(ip),
                _ => None,
            })
            .collect()
    }

    fn dns(&mut self, request: DnsRequest) -> DnsReply {
        match request {
            DnsRequest::ListZones { name } => {
                self.log.push(format!("zones {}", name));
                DnsReply::Zones {
                    zones: vec![Zone { id: "z1".to_string(), name: "example.com".to_string() }]
                        .into_iter()
                        .filter(|z| z.name == name)
                        .collect(),
                    errors: vec![],
                }
            }
            DnsRequest::ListRecords { zone_id, name } => {
                assert_eq!(zone_id, "z1");
                self.log.push(format!("records {}", name));
                DnsReply::Records {
                    records: self.records.iter().filter(|r| r.name == name).cloned().collect(),
                    errors: vec![],
                }
            }
            DnsRequest::DeleteRecord { zone_id, record_id } => {
                assert_eq!(zone_id, "z1");
                let name = self
                    .records
                    .iter()
                    .find(|r| r.id == record_id)
                    .map(|r| r.name.clone())
                    .unwrap_or_default();
                self.log.push(format!("delete {}", name));
                self.records.retain(|r| r.id != record_id);
                DnsReply::Deleted { errors: vec![] }
            }
            DnsRequest::CreateRecord { zone_id, name, content, ttl } => {
                assert_eq!(zone_id, "z1");
                assert_eq!(ttl, 120);
                self.log.push(format!("create {}", name));
                self.minted += 1;
                self.records.push(DnsRecord {
                    id: format!("r{}", self.minted),
                    name,
                    content: RecordContent::Address(content),
                });
                DnsReply::Created { errors: vec![] }
            }
        }
    }

    fn answer(&mut self, effect: Effect) -> Outcome {
        match effect {
            Effect::Dns(request) => Outcome::Dns(self.dns(request)),
            Effect::ListServices { namespace, label_selector } => {
                self.log.push(format!("services {}", label_selector));
                let (key, value) = label_selector.split_once('=').unwrap();
                Outcome::Services(
                    self.services
                        .iter()
                        .filter(|s| s.namespace.as_deref() == Some(namespace.as_str()))
                        .filter(|s| match &s.labels {
                            Some(l) => l.has(&key.to_string(), &value.to_string()),
                            None => false,
                        })
                        .map(copy_service)
                        .collect(),
                )
            }
            Effect::PatchFinalizers { namespace, name, finalizers } => match &mut self.object {
                Some(object) => {
                    assert_eq!(object.metadata.namespace.as_deref(), Some(namespace.as_str()));
                    assert_eq!(object.metadata.name.as_deref(), Some(name.as_str()));
                    self.log.push(format!("finalizers {:?}", finalizers));
                    if finalizers.is_empty() && object.metadata.deletion_timestamp.is_some() {
                        self.object = None;
                    } else {
                        object.metadata.finalizers = Some(finalizers);
                    }
                    Outcome::Patched
                }
                None => Outcome::Failed { code: Some(404), message: "not found".to_string() },
            },
            Effect::PatchStatus { namespace, name, status } => match &mut self.object {
                Some(object) => {
                    assert_eq!(object.metadata.namespace.as_deref(), Some(namespace.as_str()));
                    assert_eq!(object.metadata.name.as_deref(), Some(name.as_str()));
                    let status = status.into_status();
                    self.log.push(format!("status {}", status.status));
                    object.status = Some(status);
                    Outcome::Patched
                }
                None => Outcome::Failed { code: Some(404), message: "not found".to_string() },
            },
        }
    }

    fn run(&mut self, started: (DefaultReconciler, Progress)) -> Result<(), Error> {
        let (mut pass, mut progress) = started;
        loop {
            match progress {
                Progress::Done(result) => {
                    assert_eq!(pass.stage, Stage::Finished);
                    return result;
                }
                Progress::Next(effect) => {
                    let outcome = self.answer(effect);
                    let next = pass.resume(outcome);
                    pass = next.0;
                    progress = next.1;
                }
            }
        }
    }

    fn apply(&mut self) -> Result<(), Error> {
        let snapshot = self.object.clone().unwrap();
        self.log.clear();
        self.run(DefaultReconciler::reconcile_ddns(snapshot))
    }

    fn delete(&mut self) -> Result<(), Error> {
        let snapshot = self.object.clone().unwrap();
        self.log.clear();
        self.run(DefaultReconciler::delete_ddns(snapshot))
    }
}

fn copy_service(service: &Service) -> Service {
    Service {
        namespace: service.namespace.clone(),
        labels: service.labels.clone(),
        service_type: service.service_type.clone(),
        load_balancer: service.load_balancer.clone(),
    }
}

fn web_object() -> Ddns {
    Ddns {
        metadata: Metadata {
            name: Some("web".to_string()),
            namespace: Some("prod".to_string()),
            finalizers: None,
            deletion_timestamp: None,
        },
        spec: DdnsSpec {
            selector: labels(&[("app", "web")]),
            domain: "web.example.com".to_string(),
            zone: "example.com".to_string(),
        },
        status: None,
    }
}

fn web_service(ips: &[IpAddress]) -> Service {
    Service {
        namespace: Some("prod".to_string()),
        labels: Some(labels(&[("app", "web")])),
        service_type: Some("LoadBalancer".to_string()),
        load_balancer: Some(LoadBalancer {
            ingress: Some(ips.iter().map(|ip| IngressIp::Parsed(*ip)).collect()),
        }),
    }
}

fn running_status(domain: &str) -> DdnsStatus {
    DdnsStatus {
        status: "RUNNING".to_string(),
        selector: labels(&[("app", "web")]),
        domain: domain.to_string(),
        zone: "example.com".to_string(),
    }
}

#[test]
fn cold_apply() {
    let mut world = World::new(&web_object());
    world.services.push(web_service(&[v4(203, 0, 113, 10)]));
    assert_eq!(world.apply(), Ok(()));
    assert_eq!(world.a_records("web.example.com"), vec![v4(203, 0, 113, 10)]);
    assert_eq!(world.records.len(), 1);
    let object = world.object.as_ref().unwrap();
    assert_eq!(object.status, Some(running_status("web.example.com")));
    assert_eq!(object.metadata.finalizers, Some(vec![FINALIZER.to_string()]));
    assert_eq!(
        world.log,
        vec![
            "zones example.com",
            "records web.example.com",
            "services app=web",
            "zones example.com",
            "records web.example.com",
            "create web.example.com",
            "finalizers [\"ddns.finalizer.api.sherlockholo.xyz\"]",
            "status RUNNING",
        ]
    );
}

#[test]
fn ip_added() {
    let mut world = World::new(&web_object());
    world.services.push(web_service(&[v4(203, 0, 113, 10)]));
    assert_eq!(world.apply(), Ok(()));
    world.services[0] = web_service(&[v4(203, 0, 113, 10), v4(198, 51, 100, 5)]);
    assert_eq!(world.apply(), Ok(()));
    assert_eq!(
        world.a_records("web.example.com"),
        vec![v4(203, 0, 113, 10), v4(198, 51, 100, 5)]
    );
    assert_eq!(world.records.len(), 2);
    let object = world.object.as_ref().unwrap();
    assert_eq!(object.status, Some(running_status("web.example.com")));
    assert_eq!(object.metadata.finalizers, Some(vec![FINALIZER.to_string()]));
    assert_eq!(
        world.log,
        vec![
            "services app=web",
            "zones example.com",
            "records web.example.com",
            "delete web.example.com",
            "create web.example.com",
            "create web.example.com",
            "status RUNNING",
        ]
    );
}

#[test]
fn empty_lb() {
    let mut world = World::new(&web_object());
    world.services.push(web_service(&[]));
    assert_eq!(world.apply(), Err(Error::ReRun(Delay { secs: 3, nanos: 0 })));
    assert!(world.records.is_empty());
    assert!(!world.log.iter().any(|l| l.starts_with("create") || l.starts_with("delete")));
    assert_eq!(world.object.as_ref().unwrap().status, None);
    assert_eq!(world.object.as_ref().unwrap().metadata.finalizers, None);

    world.services[0] = web_service(&[v4(192, 0, 2, 1)]);
    assert_eq!(world.apply(), Ok(()));
    assert_eq!(world.a_records("web.example.com"), vec![v4(192, 0, 2, 1)]);
}

#[test]
fn service_without_load_balancer_counts_as_empty() {
    let mut world = World::new(&web_object());
    let mut service = web_service(&[]);
    service.load_balancer = None;
    world.services.push(service);
    assert_eq!(world.apply(), Err(Error::ReRun(Delay::from_secs(3))));
    world.services[0].load_balancer = Some(LoadBalancer { ingress: None });
    assert_eq!(world.apply(), Err(Error::ReRun(Delay::from_secs(3))));
    world.services[0].load_balancer = Some(LoadBalancer { ingress: Some(vec![IngressIp::Absent]) });
    assert_eq!(world.apply(), Err(Error::ReRun(Delay::from_secs(3))));
}

#[test]
fn domain_rename() {
    let mut object = web_object();
    object.spec.domain = "old.example.com".to_string();
    let mut world = World::new(&object);
    world.services.push(web_service(&[v4(203, 0, 113, 10)]));
    assert_eq!(world.apply(), Ok(()));
    assert_eq!(world.a_records("old.example.com"), vec![v4(203, 0, 113, 10)]);

    world.object.as_mut().unwrap().spec.domain = "new.example.com".to_string();
    assert_eq!(world.apply(), Ok(()));
    assert_eq!(world.a_records("old.example.com"), vec![]);
    assert_eq!(world.a_records("new.example.com"), vec![v4(203, 0, 113, 10)]);
    assert_eq!(world.records.len(), 1);
    assert_eq!(world.object.as_ref().unwrap().status, Some(running_status("new.example.com")));
    assert_eq!(
        world.log,
        vec![
            "zones example.com",
            "records old.example.com",
            "delete old.example.com",
            "zones example.com",
            "records new.example.com",
            "services app=web",
            "zones example.com",
            "records new.example.com",
            "create new.example.com",
            "status RUNNING",
        ]
    );
}

#[test]
fn rename_removes_the_old_records_in_the_old_zone() {
    let mut object = web_object();
    object.status = Some(DdnsStatus {
        status: "RUNNING".to_string(),
        selector: labels(&[("app", "web")]),
        domain: "old.example.org".to_string(),
        zone: "example.org".to_string(),
    });
    let (pass, progress) = DefaultReconciler::reconcile_ddns(object);
    assert_eq!(pass.stage, Stage::Purging);
    assert_eq!(pass.dns.name, "old.example.org");
    assert_eq!(pass.dns.zone, "example.org");
    assert_eq!(
        progress,
        Progress::Next(Effect::Dns(DnsRequest::ListZones { name: "example.org".to_string() }))
    );
    let (pass, progress) = pass.resume(Outcome::Dns(DnsReply::Zones {
        zones: vec![Zone { id: "z9".to_string(), name: "example.org".to_string() }],
        errors: vec![],
    }));
    assert_eq!(
        progress,
        Progress::Next(Effect::Dns(DnsRequest::ListRecords {
            zone_id: "z9".to_string(),
            name: "old.example.org".to_string()
        }))
    );
    let (pass, progress) = pass.resume(Outcome::Dns(DnsReply::Records {
        records: vec![DnsRecord {
            id: "r7".to_string(),
            name: "old.example.org".to_string(),
            content: RecordContent::Address(v4(203, 0, 113, 10)),
        }],
        errors: vec![],
    }));
    assert_eq!(
        progress,
        Progress::Next(Effect::Dns(DnsRequest::DeleteRecord {
            zone_id: "z9".to_string(),
            record_id: "r7".to_string()
        }))
    );
    let (pass, progress) = pass.resume(Outcome::Dns(DnsReply::Deleted { errors: vec![] }));
    assert_eq!(pass.stage, Stage::Clearing);
    assert_eq!(pass.dns.name, "web.example.com");
    assert_eq!(
        progress,
        Progress::Next(Effect::Dns(DnsRequest::ListZones { name: "example.com".to_string() }))
    );
}

#[test]
fn a_failed_removal_of_the_old_records_fails_the_pass() {
    let mut object = web_object();
    object.status = Some(running_status("old.example.com"));
    let (pass, _) = DefaultReconciler::reconcile_ddns(object);
    let (pass, progress) = pass.resume(Outcome::Dns(DnsReply::Failed {
        status: Some(500),
        message: "provider down".to_string(),
    }));
    assert_eq!(pass.stage, Stage::Finished);
    assert_eq!(progress, Progress::Done(Err(Error::Other("provider down".to_string()))));
}

#[test]
fn rename_clears_what_the_new_name_held() {
    let mut object = web_object();
    object.status = Some(running_status("old.example.com"));
    object.metadata.finalizers = Some(vec![FINALIZER.to_string()]);
    let mut world = World::new(&object);
    world.records.push(DnsRecord {
        id: "x1".to_string(),
        name: "web.example.com".to_string(),
        content: RecordContent::Other,
    });
    world.records.push(DnsRecord {
        id: "x2".to_string(),
        name: "old.example.com".to_string(),
        content: RecordContent::Address(v4(203, 0, 113, 10)),
    });
    world.records.push(DnsRecord {
        id: "x3".to_string(),
        name: "other.example.com".to_string(),
        content: RecordContent::Address(v4(203, 0, 113, 99)),
    });
    world.services.push(web_service(&[v4(203, 0, 113, 10)]));
    assert_eq!(world.apply(), Ok(()));
    assert_eq!(
        world.log,
        vec![
            "zones example.com",
            "records old.example.com",
            "delete old.example.com",
            "zones example.com",
            "records web.example.com",
            "delete web.example.com",
            "services app=web",
            "zones example.com",
            "records web.example.com",
            "create web.example.com",
            "status RUNNING",
        ]
    );
    assert_eq!(world.a_records("old.example.com"), vec![]);
    assert_eq!(world.a_records("web.example.com"), vec![v4(203, 0, 113, 10)]);
    assert_eq!(world.a_records("other.example.com"), vec![v4(203, 0, 113, 99)]);
    assert_eq!(world.records.len(), 2);
}

#[test]
fn deletion() {
    let mut world = World::new(&web_object());
    world.services.push(web_service(&[v4(203, 0, 113, 10), v4(198, 51, 100, 5)]));
    assert_eq!(world.apply(), Ok(()));
    world.object.as_mut().unwrap().metadata.deletion_timestamp = Some(1_700_000_000);
    assert_eq!(world.delete(), Ok(()));
    assert_eq!(
        world.log,
        vec![
            "status DELETING",
            "zones example.com",
            "records web.example.com",
            "delete web.example.com",
            "delete web.example.com",
            "status DELETED",
            "finalizers []",
        ]
    );
    assert!(world.records.is_empty());
    assert!(world.object.is_none());
}

#[test]
fn deletion_cleans_the_converged_name_not_the_edited_one() {
    let mut world = World::new(&web_object());
    world.services.push(web_service(&[v4(203, 0, 113, 10)]));
    assert_eq!(world.apply(), Ok(()));
    {
        let object = world.object.as_mut().unwrap();
        object.spec.domain = "edited.example.com".to_string();
        object.metadata.deletion_timestamp = Some(1_700_000_000);
    }
    assert_eq!(world.delete(), Ok(()));
    assert!(world.a_records("web.example.com").is_empty());
    assert!(world.log.contains(&"records web.example.com".to_string()));
    assert!(!world.log.contains(&"records edited.example.com".to_string()));
}

#[test]
fn deletion_without_status_falls_back_to_the_desired_state() {
    let mut object = web_object();
    object.metadata.deletion_timestamp = Some(1);
    let (pass, progress) = DefaultReconciler::delete_ddns(object);
    assert_eq!(pass.stage, Stage::Marking);
    match progress {
        Progress::Next(Effect::PatchStatus { namespace, name, status }) => {
            assert_eq!(namespace, "prod");
            assert_eq!(name, "web");
            let mut expected = running_status("web.example.com");
            expected.status = "DELETING".to_string();
            assert_eq!(status.into_status(), expected);
        }
        other => panic!("{:?}", other),
    }
}

#[test]
fn deletion_of_an_object_that_is_gone_succeeds() {
    let mut object = web_object();
    object.metadata.deletion_timestamp = Some(1);
    let (pass, _) = DefaultReconciler::delete_ddns(object.clone());
    let (pass, progress) =
        pass.resume(Outcome::Failed { code: Some(404), message: "not found".to_string() });
    assert_eq!(progress, Progress::Done(Ok(())));
    assert_eq!(pass.stage, Stage::Finished);

    let mut world = World::new(&object);
    let (pass, progress) = DefaultReconciler::delete_ddns(object);
    let mut pass = pass;
    let mut progress = progress;
    loop {
        match progress {
            Progress::Next(Effect::PatchStatus { status, .. })
                if status.status().status == "DELETED" =>
            {
                let next =
                    pass.resume(Outcome::Failed { code: Some(404), message: "gone".to_string() });
                assert_eq!(next.1, Progress::Done(Ok(())));
                break;
            }
            Progress::Next(effect) => {
                let outcome = world.answer(effect);
                let next = pass.resume(outcome);
                pass = next.0;
                progress = next.1;
            }
            Progress::Done(result) => panic!("{:?}", result),
        }
    }
}

#[test]
fn failures_of_the_cluster_fail_the_pass() {
    let mut object = web_object();
    object.metadata.deletion_timestamp = Some(1);
    let (pass, _) = DefaultReconciler::delete_ddns(object);
    let (_, progress) =
        pass.resume(Outcome::Failed { code: Some(500), message: "boom".to_string() });
    assert_eq!(progress, Progress::Done(Err(Error::Other("boom".to_string()))));

    let mut same = web_object();
    same.status = Some(running_status("web.example.com"));
    let (pass, progress) = DefaultReconciler::reconcile_ddns(same);
    assert_eq!(
        progress,
        Progress::Next(Effect::ListServices {
            namespace: "prod".to_string(),
            label_selector: "app=web".to_string()
        })
    );
    let (_, progress) = pass.resume(Outcome::Failed { code: None, message: "timeout".to_string() });
    assert_eq!(progress, Progress::Done(Err(Error::Other("timeout".to_string()))));
}

#[test]
fn unparseable_address_fails_the_pass() {
    let mut world = World::new(&web_object());
    let mut service = web_service(&[v4(203, 0, 113, 10)]);
    service.load_balancer = Some(LoadBalancer {
        ingress: Some(vec![
            IngressIp::Parsed(v4(203, 0, 113, 10)),
            IngressIp::Unparseable("not-an-ip".to_string()),
        ]),
    });
    world.services.push(service);
    assert_eq!(world.apply(), Err(Error::Other("invalid IP address syntax".to_string())));
    assert!(world.records.is_empty());
}

#[test]
fn objects_without_name_or_namespace_are_refused() {
    let mut nameless = web_object();
    nameless.metadata.name = None;
    let (pass, progress) = DefaultReconciler::reconcile_ddns(nameless.clone());
    assert_eq!(pass.stage, Stage::Finished);
    assert_eq!(
        progress,
        Progress::Done(Err(Error::Other("ddns resource doesn't have name".to_string())))
    );
    let (_, progress) = DefaultReconciler::delete_ddns(nameless);
    assert_eq!(
        progress,
        Progress::Done(Err(Error::Other("ddns resource doesn't have name".to_string())))
    );
    let mut homeless = web_object();
    homeless.metadata.namespace = None;
    let (_, progress) = DefaultReconciler::reconcile_ddns(homeless.clone());
    assert_eq!(
        progress,
        Progress::Done(Err(Error::Other("ddns resource doesn't have namespace field".to_string())))
    );
    let (_, progress) = DefaultReconciler::delete_ddns(homeless);
    assert_eq!(
        progress,
        Progress::Done(Err(Error::Other("ddns resource doesn't have namespace field".to_string())))
    );
}

#[test]
fn services_are_listed_once_per_selector_pair_and_addresses_are_united() {
    let mut object = web_object();
    object.spec.selector = labels(&[("app", "web"), ("tier", "front")]);
    let mut world = World::new(&object);
    let mut both = web_service(&[v4(10, 0, 0, 1), v4(10, 0, 0, 2)]);
    both.labels = Some(labels(&[("app", "web"), ("tier", "front")]));
    let mut more = web_service(&[v4(10, 0, 0, 3), v4(10, 0, 0, 1)]);
    more.labels = Some(labels(&[("tier", "front"), ("env", "prod"), ("app", "web")]));
    world.services.push(both);
    world.services.push(more);
    assert_eq!(world.apply(), Ok(()));
    assert_eq!(
        world.log.iter().filter(|l| l.starts_with("services")).collect::<Vec<_>>(),
        vec!["services app=web", "services tier=front"]
    );
    assert_eq!(
        world.a_records("web.example.com"),
        vec![v4(10, 0, 0, 1), v4(10, 0, 0, 2), v4(10, 0, 0, 3)]
    );
}

#[test]
fn a_service_that_matches_only_one_selector_pair_is_not_selected() {
    let mut object = web_object();
    object.spec.selector = labels(&[("app", "web"), ("tier", "front")]);
    let mut world = World::new(&object);
    let mut both = web_service(&[v4(10, 0, 0, 1)]);
    both.labels = Some(labels(&[("app", "web"), ("tier", "front")]));
    let mut front = web_service(&[v4(10, 0, 0, 3)]);
    front.labels = Some(labels(&[("tier", "front")]));
    let mut web = web_service(&[v4(10, 0, 0, 4)]);
    web.load_balancer = Some(LoadBalancer {
        ingress: Some(vec![IngressIp::Unparseable("not-an-ip".to_string())]),
    });
    world.services.push(front);
    world.services.push(both);
    world.services.push(web);
    assert_eq!(world.apply(), Ok(()));
    assert_eq!(world.a_records("web.example.com"), vec![v4(10, 0, 0, 1)]);

    let mut alone = World::new(&object);
    let mut front = web_service(&[v4(10, 0, 0, 3)]);
    front.labels = Some(labels(&[("tier", "front")]));
    alone.services.push(front);
    assert_eq!(alone.apply(), Err(Error::ReRun(Delay::from_secs(3))));
    assert!(alone.records.is_empty());
}

#[test]
fn apply_keeps_a_finalizer_that_is_attached() {
    let mut object = web_object();
    object.metadata.finalizers = Some(vec!["other".to_string(), FINALIZER.to_string()]);
    let mut world = World::new(&object);
    world.services.push(web_service(&[v4(203, 0, 113, 10)]));
    assert_eq!(world.apply(), Ok(()));
    assert!(!world.log.iter().any(|l| l.starts_with("finalizers")));
    let mut object = web_object();
    object.metadata.finalizers = Some(vec!["other".to_string()]);
    let mut world = World::new(&object);
    world.services.push(web_service(&[v4(203, 0, 113, 10)]));
    assert_eq!(world.apply(), Ok(()));
    assert_eq!(
        world.object.unwrap().metadata.finalizers,
        Some(vec!["other".to_string(), FINALIZER.to_string()])
    );
}

#[test]
fn a_finished_pass_takes_no_more_answers() {
    let mut nameless = web_object();
    nameless.metadata.name = None;
    let (pass, _) = DefaultReconciler::reconcile_ddns(nameless);
    let (pass, progress) = pass.resume(Outcome::Patched);
    assert_eq!(pass.stage, Stage::Finished);
    assert_eq!(
        progress,
        Progress::Done(Err(Error::Other("unexpected answer to the last request".to_string())))
    );
    let (pass, _) = DefaultReconciler::delete_ddns(web_object());
    let (_, progress) = pass.resume(Outcome::Services(vec![]));
    assert_eq!(
        progress,
        Progress::Done(Err(Error::Other("unexpected answer to the last request".to_string())))
    );
}
