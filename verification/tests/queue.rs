use ddns::ddns::controller::Controller;
use ddns::ddns::de_dup_reconciler::DeDupReconciler;
use ddns::ddns::default_reconciler::Stage;
use ddns::ddns::error::{Delay, Error};
use ddns::ddns::error_policy::Retry;
use ddns::ddns::queue_reconciler::{stopped_error, Finish, Job, QueueReconciler, Submission, QUEUE_CAPACITY};
use ddns::ddns::reconcile::{Effect, Progress};
use ddns::labels::LabelMap;
use ddns::resource::{Ddns, DdnsSpec, Identity, Metadata};

fn ddns(namespace: &str, name: &str) -> Ddns {
    let mut selector = LabelMap::new();
    selector.insert("app".to_string(), "web".to_string());
    Ddns {
        metadata: Metadata {
            name: Some(name.to_string()),
            namespace: Some(namespace.to_string()),
            finalizers: None,
            deletion_timestamp: None,
        },
        spec: DdnsSpec {
            selector,
            domain: "web.example.com".to_string(),
            zone: "example.com".to_string(),
        },
        status: None,
    }
}

fn doomed(namespace: &str, name: &str) -> Ddns {
    let mut object = ddns(namespace, name);
    object.metadata.deletion_timestamp = Some(1_700_000_000);
    object
}

#[test]
fn test_reconcile() {
    let mut reconciler: QueueReconciler<u8> = QueueReconciler::new();
    let ddns = ddns("123", "123");
    let obj_ref = ddns.identity();
    let mut n = 0;

    let first = reconciler.submit(ddns.clone(), 1);
    assert_eq!(first, Submission::Run(Job { ddns: ddns.clone(), reply: 1 }));
    let second = reconciler.submit(ddns.clone(), 2);
    assert_eq!(second, Submission::Queued);

    n += 1;
    match reconciler.finish(&obj_ref) {
        Finish::Run(job) => {
            assert_eq!(job.reply, 2);
            n += 1;
        }
        other => panic!("{:?}", other),
    }
    assert_eq!(reconciler.finish(&obj_ref), Finish::Idle);

    assert_eq!(n, 2);
    assert!(reconciler.is_online(&obj_ref));
}

#[test]
fn test_delete() {
    let mut reconciler: QueueReconciler<u8> = QueueReconciler::new();
    let ddns = ddns("123", "123");
    let obj_ref = ddns.identity();
    let mut n = 0;

    assert_eq!(
        reconciler.submit(ddns.clone(), 1),
        Submission::Run(Job { ddns: ddns.clone(), reply: 1 })
    );
    n += 1;
    let deleted = doomed("123", "123");
    assert_eq!(reconciler.submit(deleted.clone(), 2), Submission::Queued);
    match reconciler.finish(&obj_ref) {
        Finish::RunLast { job, abandoned } => {
            assert_eq!(job, Job { ddns: deleted, reply: 2 });
            assert!(abandoned.is_empty());
            n += 1;
        }
        other => panic!("{:?}", other),
    }

    assert_eq!(n, 2);
    assert!(!reconciler.is_online(&obj_ref));
    assert_eq!(reconciler.finish(&obj_ref), Finish::Unknown);
}

#[test]
fn burst_coalescing() {
    let mut reconciler: QueueReconciler<usize> = QueueReconciler::new();
    let id = ddns("prod", "web").identity();
    let mut waiting: Vec<usize> = vec![];
    let mut completed: Vec<usize> = vec![];
    let mut in_flight: Option<usize> = None;
    for ticket in 0..10 {
        match reconciler.submit(ddns("prod", "web"), ticket) {
            Submission::Run(job) => {
                assert!(in_flight.is_none());
                in_flight = Some(job.reply);
            }
            Submission::Queued => assert!(reconciler.waiting(&id) <= 3),
            Submission::Full(job) => waiting.push(job.reply),
        }
    }
    assert_eq!(in_flight, Some(0));
    assert_eq!(reconciler.waiting(&id), 3);
    assert_eq!(QUEUE_CAPACITY, 3);
    assert_eq!(waiting, vec![4, 5, 6, 7, 8, 9]);
    assert!(reconciler.is_busy(&id));
    assert_eq!(reconciler.workers(), 1);

    while let Some(ticket) = in_flight.take() {
        completed.push(ticket);
        match reconciler.finish(&id) {
            Finish::Run(job) => in_flight = Some(job.reply),
            Finish::Idle => {}
            other => panic!("{:?}", other),
        }
        let blocked = std::mem::take(&mut waiting);
        for ticket in blocked {
            match reconciler.submit(ddns("prod", "web"), ticket) {
                Submission::Run(job) => {
                    assert!(in_flight.is_none());
                    in_flight = Some(job.reply);
                }
                Submission::Queued => assert!(reconciler.waiting(&id) <= 3),
                Submission::Full(job) => waiting.push(job.reply),
            }
        }
    }
    assert_eq!(completed, vec![0, 1, 2, 3, 4, 5, 6, 7, 8, 9]);
    assert!(!reconciler.is_busy(&id));
    assert!(reconciler.is_online(&id));
}

#[test]
fn objects_do_not_wait_for_each_other() {
    let mut reconciler: QueueReconciler<&str> = QueueReconciler::new();
    assert!(matches!(reconciler.submit(ddns("prod", "web"), "a"), Submission::Run(_)));
    assert!(matches!(reconciler.submit(ddns("prod", "api"), "b"), Submission::Run(_)));
    assert!(matches!(reconciler.submit(ddns("dev", "web"), "c"), Submission::Run(_)));
    assert_eq!(reconciler.workers(), 3);
    assert_eq!(reconciler.submit(ddns("prod", "api"), "d"), Submission::Queued);
    assert_eq!(reconciler.waiting(&ddns("prod", "api").identity()), 1);
    assert_eq!(reconciler.waiting(&ddns("prod", "web").identity()), 0);
    assert_eq!(reconciler.waiting(&ddns("x", "y").identity()), 0);
    assert!(!reconciler.is_busy(&ddns("x", "y").identity()));
}

#[test]
fn a_delete_ends_the_worker_and_gives_up_what_waits_behind_it() {
    let mut reconciler: QueueReconciler<u8> = QueueReconciler::new();
    let id = ddns("prod", "web").identity();
    assert!(matches!(reconciler.submit(ddns("prod", "web"), 1), Submission::Run(_)));
    assert_eq!(reconciler.submit(doomed("prod", "web"), 2), Submission::Queued);
    assert_eq!(reconciler.submit(ddns("prod", "web"), 3), Submission::Queued);
    assert_eq!(reconciler.submit(ddns("prod", "web"), 4), Submission::Queued);
    match reconciler.finish(&id) {
        Finish::RunLast { job, abandoned } => {
            assert_eq!(job.reply, 2);
            assert_eq!(abandoned.iter().map(|j| j.reply).collect::<Vec<_>>(), vec![3, 4]);
        }
        other => panic!("{:?}", other),
    }
    assert_eq!(reconciler.workers(), 0);
    assert_eq!(stopped_error(), Error::Other("ddns handle task is stopped".to_string()));
    // the object reappears: a new lifetime, a new worker
    assert!(matches!(reconciler.submit(ddns("prod", "web"), 5), Submission::Run(_)));
    assert_eq!(reconciler.workers(), 1);
}

#[test]
fn a_delete_for_an_idle_or_unknown_object_runs_at_once_without_a_slot() {
    let mut reconciler: QueueReconciler<u8> = QueueReconciler::new();
    let id = ddns("prod", "web").identity();
    let answer = reconciler.submit(doomed("prod", "web"), 1);
    assert_eq!(answer, Submission::Run(Job { ddns: doomed("prod", "web"), reply: 1 }));
    assert_eq!(reconciler.workers(), 0);

    assert!(matches!(reconciler.submit(ddns("prod", "web"), 2), Submission::Run(_)));
    assert_eq!(reconciler.finish(&id), Finish::Idle);
    assert!(reconciler.is_online(&id));
    assert!(matches!(reconciler.submit(doomed("prod", "web"), 3), Submission::Run(_)));
    assert!(!reconciler.is_online(&id));
}

#[test]
fn an_idle_worker_runs_the_next_job_at_once() {
    let mut reconciler: QueueReconciler<u8> = QueueReconciler::new();
    let id = ddns("prod", "web").identity();
    assert!(matches!(reconciler.submit(ddns("prod", "web"), 1), Submission::Run(_)));
    assert_eq!(reconciler.finish(&id), Finish::Idle);
    assert_eq!(reconciler.finish(&id), Finish::Unknown);
    assert!(matches!(reconciler.submit(ddns("prod", "web"), 2), Submission::Run(_)));
    assert!(reconciler.is_busy(&id));
    assert_eq!(reconciler.workers(), 1);
}

#[test]
fn reconcile_ddns() {
    let mut de_dup_reconciler: DeDupReconciler<u8> = DeDupReconciler::new();
    let ddns = ddns("123", "123");
    let (replaced, pass, progress) = de_dup_reconciler.reconcile_ddns(ddns, 1);
    assert_eq!(replaced, None);
    assert_eq!(pass.stage, Stage::Clearing);
    assert!(matches!(progress, Progress::Next(Effect::Dns(_))));
    assert_eq!(de_dup_reconciler.len(), 1);
}

#[test]
fn delete_ddns() {
    let mut de_dup_reconciler: DeDupReconciler<u8> = DeDupReconciler::new();
    let ddns = ddns("123", "123");
    let (replaced, pass, progress) = de_dup_reconciler.delete_ddns(ddns, 1);
    assert_eq!(replaced, None);
    assert_eq!(pass.stage, Stage::Marking);
    assert!(matches!(progress, Progress::Next(Effect::PatchStatus { .. })));
    assert_eq!(de_dup_reconciler.len(), 1);
}

#[test]
fn a_new_pass_takes_the_place_of_the_running_one() {
    let mut register: DeDupReconciler<&str> = DeDupReconciler::new();
    assert_eq!(register.reconcile_ddns(ddns("prod", "web"), "first").0, None);
    assert_eq!(register.reconcile_ddns(ddns("prod", "api"), "other").0, None);
    assert_eq!(register.reconcile_ddns(ddns("prod", "web"), "second").0, Some("first"));
    assert_eq!(register.delete_ddns(doomed("prod", "web"), "third").0, Some("second"));
    assert_eq!(register.len(), 2);
    register.complete(&Identity { namespace: Some("prod".to_string()), name: Some("web".to_string()) });
    assert_eq!(register.len(), 1);
    register.complete(&Identity { namespace: Some("prod".to_string()), name: Some("web".to_string()) });
    assert_eq!(register.len(), 1);
    assert_eq!(register.reconcile_ddns(ddns("prod", "web"), "fourth").0, None);
    assert_eq!(DeDupReconciler::<u8>::aborted(), Err(Error::Aborted));
}

#[test]
fn controller_runs_the_pass_that_the_snapshot_calls_for() {
    let mut controller: Controller<u8, &str> = Controller::new("retry queue");
    assert_eq!(*controller.retry_queue(), "retry queue");
    let (pass, _) = controller.run(ddns("prod", "web"));
    assert_eq!(pass.stage, Stage::Clearing);
    let (pass, _) = controller.run(doomed("prod", "web"));
    assert_eq!(pass.stage, Stage::Marking);

    assert!(matches!(controller.submit(ddns("prod", "web"), 1), Submission::Run(_)));
    assert_eq!(controller.submit(ddns("prod", "web"), 2), Submission::Queued);
    assert!(matches!(controller.finish(&ddns("prod", "web").identity()), Finish::Run(_)));

    assert_eq!(controller.settle(ddns("prod", "web"), Ok(())), None);
    assert_eq!(
        controller.settle(ddns("prod", "web"), Err(Error::Other("boom".to_string()))),
        Some(Retry { after: Delay { secs: 3, nanos: 0 }, ddns: ddns("prod", "web") })
    );
    assert_eq!(
        controller.settle(ddns("prod", "web"), Err(Error::ReRun(Delay { secs: 7, nanos: 5 }))),
        Some(Retry { after: Delay { secs: 7, nanos: 5 }, ddns: ddns("prod", "web") })
    );
    assert_eq!(controller.settle(ddns("prod", "web"), Err(Error::Aborted)), None);
}
