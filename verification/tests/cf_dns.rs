use ddns::cf_dns::{
    addresses, create_credentials, find_zone_id, named_ids, CfDns, Credentials, DnsPhase,
    DnsRecord, DnsReply, DnsRequest, DnsStep, RecordContent, RecordKind, Zone, DEFAULT_TTL,
};
use ddns::net::IpAddress;

const ZONE: &str = "example.com";
const ZONE_ID: &str = "z1";

/// A provider in memory: answers the four calls as the real one would.
struct Provider {
    zones: Vec<Zone>,
    records: Vec<(String, DnsRecord)>,
    minted: u32,
    writes: usize,
    calls: Vec<DnsRequest>,
}

impl Provider {
    fn new() -> Provider {
        Provider {
            zones: vec![
                Zone { id: "z0".to_string(), name: "example.org".to_string() },
                Zone { id: ZONE_ID.to_string(), name: ZONE.to_string() },
            ],
            records: vec![],
            minted: 0,
            writes: 0,
            calls: vec![],
        }
    }

    fn add(&mut self, zone_id: &str, name: &str, content: RecordContent) -> String {
        self.minted += 1;
        let id = format!("r{}", self.minted);
        self.records.push((
            zone_id.to_string(),
            DnsRecord { id: id.clone(), name: name.to_string(), content },
        ));
        id
    }

    fn answer(&mut self, request: &DnsRequest) -> DnsReply {
        self.calls.push(request.clone());
        match request {
            DnsRequest::ListZones { name } => DnsReply::Zones {
                zones: self.zones.iter().filter(|z| &z.name == name).cloned().collect(),
                errors: vec![],
            },
            DnsRequest::ListRecords { zone_id, name } => DnsReply::Records {
                records: self
                    .records
                    .iter()
                    .filter(|(z, r)| z == zone_id && &r.name == name)
                    .map(|(_, r)| r.clone())
                    .collect(),
                errors: vec![],
            },
            DnsRequest::DeleteRecord { zone_id, record_id } => {
                let before = self.records.len();
                self.records.retain(|(z, r)| !(z == zone_id && &r.id == record_id));
                if self.records.len() == before {
                    DnsReply::Failed { status: Some(404), message: "not found".to_string() }
                } else {
                    self.writes += 1;
                    DnsReply::Deleted { errors: vec![] }
                }
            }
            DnsRequest::CreateRecord { zone_id, name, content, ttl } => {
                assert_eq!(*ttl, 120);
                self.writes += 1;
                self.add(zone_id, name, RecordContent::Address(*content));
                DnsReply::Created { errors: vec![] }
            }
        }
    }

    fn run(&mut self, started: (CfDns, DnsStep)) -> Result<Vec<IpAddress>, String> {
        let (mut op, mut step) = started;
        loop {
            match step {
                DnsStep::Done(result) => {
                    assert_eq!(op.phase, DnsPhase::Finished);
                    return result;
                }
                DnsStep::Call(request) => {
                    let reply = self.answer(&request);
                    let next = op.step(reply);
                    op = next.0;
                    step = next.1;
                }
            }
        }
    }

    fn ips(&self, name: &str) -> Vec<IpAddress> {
        self.records
            .iter()
            .filter(|(z, r)| z == ZONE_ID && r.name == name)
            .filter_map(|(_, r)| match r.content {
                RecordContent::Address(ip) => Some(ip),
                RecordContent::Other => None,
            })
            .collect()
    }
}

fn v4(a: u8, b: u8, c: u8, d: u8) -> IpAddress {
    IpAddress::V4(u32::from_be_bytes([a, b, c, d]))
}

#[test]
fn get_dns_record() {
    let mut provider = Provider::new();
    let domain = format!("test-get.{}", ZONE);
    provider.add(ZONE_ID, &domain, RecordContent::Address(v4(127, 0, 0, 1)));
    provider.add(ZONE_ID, &domain, RecordContent::Address(IpAddress::V6(1)));
    provider.add(ZONE_ID, &domain, RecordContent::Other);
    provider.add(ZONE_ID, "other.example.com", RecordContent::Address(v4(10, 0, 0, 1)));
    let records = provider.run(CfDns::get_dns_record(&domain, ZONE, RecordKind::A)).unwrap();
    assert_eq!(records, vec![v4(127, 0, 0, 1)]);
    let records = provider.run(CfDns::get_dns_record(&domain, ZONE, RecordKind::AAAA)).unwrap();
    assert_eq!(records, vec![IpAddress::V6(1)]);
    assert_eq!(provider.writes, 0);
}

#[test]
fn set_dns_record() {
    let mut provider = Provider::new();
    let domain = format!("test-set.{}", ZONE);
    let ips = vec![v4(127, 0, 0, 1), v4(127, 0, 0, 2)];

    provider.run(CfDns::set_dns_record(&domain, ZONE, RecordKind::A, ips.clone())).unwrap();

    let dns_records = provider.run(CfDns::get_dns_record(&domain, ZONE, RecordKind::A)).unwrap();
    assert_eq!(dns_records.len(), 2);
    for ip in &ips {
        if !dns_records.contains(ip) {
            panic!("ip {:?} not exist", ip);
        }
    }
}

#[test]
fn remove_dns_record() {
    let mut provider = Provider::new();
    let domain = format!("test-remove.{}", ZONE);
    let ips = vec![v4(127, 0, 0, 1), v4(127, 0, 0, 2)];

    provider.run(CfDns::set_dns_record(&domain, ZONE, RecordKind::A, ips.clone())).unwrap();

    let dns_records = provider.run(CfDns::get_dns_record(&domain, ZONE, RecordKind::A)).unwrap();
    assert_eq!(dns_records.len(), 2);
    for ip in &ips {
        if !dns_records.contains(ip) {
            panic!("ip {:?} not exist", ip);
        }
    }

    provider.run(CfDns::remove_dns_records(&domain, ZONE, RecordKind::A)).unwrap();

    let dns_records = provider.run(CfDns::get_dns_record(&domain, ZONE, RecordKind::A)).unwrap();
    assert_eq!(dns_records.len(), 0);
}

#[test]
fn set_twice_writes_nothing_the_second_time() {
    let mut provider = Provider::new();
    let ips = vec![v4(203, 0, 113, 10), v4(198, 51, 100, 5)];
    provider.run(CfDns::set_dns_record("web.example.com", ZONE, RecordKind::A, ips.clone())).unwrap();
    assert_eq!(provider.writes, 2);
    let held: Vec<_> = provider.records.clone();
    let reordered = vec![v4(198, 51, 100, 5), v4(203, 0, 113, 10), v4(198, 51, 100, 5)];
    provider.run(CfDns::set_dns_record("web.example.com", ZONE, RecordKind::A, reordered)).unwrap();
    assert_eq!(provider.writes, 2);
    assert_eq!(provider.records, held);
}

#[test]
fn set_replaces_records_of_any_kind_when_the_set_differs() {
    let mut provider = Provider::new();
    let old_a = provider.add(ZONE_ID, "web.example.com", RecordContent::Address(v4(10, 0, 0, 1)));
    let old_other = provider.add(ZONE_ID, "web.example.com", RecordContent::Other);
    provider.add(ZONE_ID, "keep.example.com", RecordContent::Address(v4(10, 0, 0, 9)));
    let wanted = vec![v4(10, 0, 0, 1), v4(10, 0, 0, 2)];
    provider.run(CfDns::set_dns_record("web.example.com", ZONE, RecordKind::A, wanted.clone())).unwrap();
    assert_eq!(provider.ips("web.example.com"), wanted);
    assert_eq!(provider.ips("keep.example.com"), vec![v4(10, 0, 0, 9)]);
    let calls: Vec<_> = provider
        .calls
        .iter()
        .filter(|c| matches!(c, DnsRequest::DeleteRecord { .. } | DnsRequest::CreateRecord { .. }))
        .cloned()
        .collect();
    assert_eq!(
        calls,
        vec![
            DnsRequest::DeleteRecord { zone_id: ZONE_ID.to_string(), record_id: old_a },
            DnsRequest::DeleteRecord { zone_id: ZONE_ID.to_string(), record_id: old_other },
            DnsRequest::CreateRecord {
                zone_id: ZONE_ID.to_string(),
                name: "web.example.com".to_string(),
                content: v4(10, 0, 0, 1),
                ttl: DEFAULT_TTL,
            },
            DnsRequest::CreateRecord {
                zone_id: ZONE_ID.to_string(),
                name: "web.example.com".to_string(),
                content: v4(10, 0, 0, 2),
                ttl: DEFAULT_TTL,
            },
        ]
    );
}

#[test]
fn set_with_a_v6_address_under_kind_a_rewrites_every_time() {
    let mut provider = Provider::new();
    let wanted = vec![v4(10, 0, 0, 1), IpAddress::V6(7)];
    provider.run(CfDns::set_dns_record("web.example.com", ZONE, RecordKind::A, wanted.clone())).unwrap();
    assert_eq!(provider.writes, 2);
    provider.run(CfDns::set_dns_record("web.example.com", ZONE, RecordKind::A, wanted.clone())).unwrap();
    assert_eq!(provider.writes, 6);
    assert_eq!(provider.ips("web.example.com"), wanted);
}

#[test]
fn operation_starts_by_listing_the_zone() {
    let (op, step) = CfDns::remove_dns_records("web.example.com", ZONE, RecordKind::A);
    assert_eq!(op.phase, DnsPhase::Zones);
    assert_eq!(step, DnsStep::Call(DnsRequest::ListZones { name: ZONE.to_string() }));
    let (op, step) = op.step(DnsReply::Zones {
        zones: vec![Zone { id: ZONE_ID.to_string(), name: ZONE.to_string() }],
        errors: vec![],
    });
    assert_eq!(op.phase, DnsPhase::Records);
    assert_eq!(
        step,
        DnsStep::Call(DnsRequest::ListRecords {
            zone_id: ZONE_ID.to_string(),
            name: "web.example.com".to_string()
        })
    );
}

#[test]
fn unknown_zone_fails() {
    let (op, _) = CfDns::get_dns_record("web.example.com", "nowhere.test", RecordKind::A);
    let (op, step) = op.step(DnsReply::Zones {
        zones: vec![Zone { id: ZONE_ID.to_string(), name: ZONE.to_string() }],
        errors: vec![],
    });
    assert_eq!(op.phase, DnsPhase::Finished);
    assert_eq!(step, DnsStep::Done(Err("zone nowhere.test is not exist".to_string())));
}

#[test]
fn reported_errors_fail_the_operation() {
    let (op, _) = CfDns::get_dns_record("web.example.com", ZONE, RecordKind::A);
    let (_, step) = op.step(DnsReply::Zones {
        zones: vec![Zone { id: ZONE_ID.to_string(), name: ZONE.to_string() }],
        errors: vec!["bad token".to_string(), "second".to_string()],
    });
    assert_eq!(step, DnsStep::Done(Err("api error bad token".to_string())));

    let (op, _) = CfDns::get_dns_record("web.example.com", ZONE, RecordKind::A);
    let (op, _) = op.step(DnsReply::Zones {
        zones: vec![Zone { id: ZONE_ID.to_string(), name: ZONE.to_string() }],
        errors: vec![],
    });
    let (_, step) =
        op.step(DnsReply::Records { records: vec![], errors: vec!["rate limited".to_string()] });
    assert_eq!(step, DnsStep::Done(Err("rate limited".to_string())));
}

#[test]
fn failed_calls_fail_the_operation() {
    let (op, _) = CfDns::get_dns_record("web.example.com", ZONE, RecordKind::A);
    let (_, step) =
        op.step(DnsReply::Failed { status: Some(500), message: "server error".to_string() });
    assert_eq!(step, DnsStep::Done(Err("server error".to_string())));

    let (op, _) = CfDns::get_dns_record("web.example.com", ZONE, RecordKind::A);
    let (_, step) = op.step(DnsReply::Created { errors: vec![] });
    assert_eq!(step, DnsStep::Done(Err("unexpected reply from the dns provider".to_string())));
}

fn deleting(ids: &[&str]) -> (CfDns, DnsStep) {
    let (op, _) = CfDns::remove_dns_records("web.example.com", ZONE, RecordKind::A);
    let (op, _) = op.step(DnsReply::Zones {
        zones: vec![Zone { id: ZONE_ID.to_string(), name: ZONE.to_string() }],
        errors: vec![],
    });
    op.step(DnsReply::Records {
        records: ids
            .iter()
            .map(|id| DnsRecord {
                id: id.to_string(),
                name: "web.example.com".to_string(),
                content: RecordContent::Other,
            })
            .collect(),
        errors: vec![],
    })
}

#[test]
fn delete_answered_404_counts_as_done() {
    let (op, step) = deleting(&["r1", "r2"]);
    assert_eq!(
        step,
        DnsStep::Call(DnsRequest::DeleteRecord {
            zone_id: ZONE_ID.to_string(),
            record_id: "r1".to_string()
        })
    );
    let (op, step) = op.step(DnsReply::Failed { status: Some(404), message: "gone".to_string() });
    assert_eq!(
        step,
        DnsStep::Call(DnsRequest::DeleteRecord {
            zone_id: ZONE_ID.to_string(),
            record_id: "r2".to_string()
        })
    );
    let (op, step) = op.step(DnsReply::Failed { status: Some(404), message: "gone".to_string() });
    assert_eq!(step, DnsStep::Done(Ok(vec![])));
    assert_eq!(op.phase, DnsPhase::Finished);
}

#[test]
fn delete_answered_with_another_failure_fails() {
    let (op, _) = deleting(&["r1", "r2"]);
    let (_, step) = op.step(DnsReply::Failed { status: Some(403), message: "denied".to_string() });
    assert_eq!(step, DnsStep::Done(Err("denied".to_string())));
    let (op, _) = deleting(&["r1"]);
    let (_, step) = op.step(DnsReply::Failed { status: None, message: "timeout".to_string() });
    assert_eq!(step, DnsStep::Done(Err("timeout".to_string())));
    let (op, _) = deleting(&["r1"]);
    let (_, step) = op.step(DnsReply::Deleted { errors: vec!["locked".to_string()] });
    assert_eq!(step, DnsStep::Done(Err("locked".to_string())));
}

#[test]
fn remove_without_records_ends_at_once() {
    let (op, step) = deleting(&[]);
    assert_eq!(step, DnsStep::Done(Ok(vec![])));
    let (_, step) = op.step(DnsReply::Deleted { errors: vec![] });
    assert_eq!(step, DnsStep::Done(Err("unexpected reply from the dns provider".to_string())));
}

#[test]
fn helpers_read_listings() {
    let zones = vec![
        Zone { id: "a".to_string(), name: "x.test".to_string() },
        Zone { id: "b".to_string(), name: "y.test".to_string() },
        Zone { id: "c".to_string(), name: "y.test".to_string() },
    ];
    assert_eq!(find_zone_id(&zones, &"y.test".to_string()), Some("b".to_string()));
    assert_eq!(find_zone_id(&zones, &"z.test".to_string()), None);
    let records = vec![
        DnsRecord { id: "1".to_string(), name: "n".to_string(), content: RecordContent::Address(v4(1, 1, 1, 1)) },
        DnsRecord { id: "2".to_string(), name: "m".to_string(), content: RecordContent::Address(v4(2, 2, 2, 2)) },
        DnsRecord { id: "3".to_string(), name: "n".to_string(), content: RecordContent::Address(IpAddress::V6(3)) },
        DnsRecord { id: "4".to_string(), name: "n".to_string(), content: RecordContent::Other },
    ];
    assert_eq!(addresses(&records, &"n".to_string(), RecordKind::A), vec![v4(1, 1, 1, 1)]);
    assert_eq!(addresses(&records, &"n".to_string(), RecordKind::AAAA), vec![IpAddress::V6(3)]);
    assert_eq!(named_ids(&records, &"n".to_string()), vec!["1", "3", "4"]);
    assert_eq!(named_ids(&records, &"q".to_string()), Vec::<String>::new());
}

#[test]
fn record_kinds() {
    assert_eq!(RecordKind::A.name(), "A");
    assert_eq!(RecordKind::AAAA.name(), "AAAA");
    assert_eq!(RecordKind::of(v4(1, 2, 3, 4)), RecordKind::A);
    assert_eq!(RecordKind::of(IpAddress::V6(1)), RecordKind::AAAA);
}

#[test]
fn email_and_key_are_preferred_to_the_token() {
    let s = |t: &str| Some(t.to_string());
    assert_eq!(
        create_credentials(s("me@example.com"), s("k"), s("t")),
        Some(Credentials::UserAuthKey { email: "me@example.com".to_string(), key: "k".to_string() })
    );
    assert_eq!(
        create_credentials(s("me@example.com"), None, s("t")),
        Some(Credentials::UserAuthToken { token: "t".to_string() })
    );
    assert_eq!(
        create_credentials(None, s("k"), s("t")),
        Some(Credentials::UserAuthToken { token: "t".to_string() })
    );
    assert_eq!(create_credentials(s("me@example.com"), None, None), None);
    assert_eq!(create_credentials(None, None, None), None);
}
