use ddns::labels::LabelMap;
use ddns::resource::{
    attach_finalizer, finalizer_name, release_finalizer, Ddns, DdnsSpec, DdnsStatus, Identity,
    Metadata, PatchStatus,
};

const FINALIZER: &str = "ddns.finalizer.api.sherlockholo.xyz";

fn selector() -> LabelMap {
    let mut map = LabelMap::new();
    map.insert("app".to_string(), "web".to_string());
    map
}

#[test]
fn finalizer_has_its_fixed_name() {
    assert_eq!(finalizer_name(), FINALIZER);
}

#[test]
fn attach_adds_the_finalizer_once() {
    assert_eq!(attach_finalizer(None), Some(vec![FINALIZER.to_string()]));
    assert_eq!(attach_finalizer(Some(vec![])), Some(vec![FINALIZER.to_string()]));
    assert_eq!(
        attach_finalizer(Some(vec!["other".to_string()])),
        Some(vec!["other".to_string(), FINALIZER.to_string()])
    );
    assert_eq!(attach_finalizer(Some(vec![FINALIZER.to_string(), "other".to_string()])), None);
}

#[test]
fn release_removes_the_first_occurrence() {
    assert_eq!(release_finalizer(None), None);
    assert_eq!(release_finalizer(Some(vec!["other".to_string()])), None);
    assert_eq!(release_finalizer(Some(vec![FINALIZER.to_string()])), Some(vec![]));
    assert_eq!(
        release_finalizer(Some(vec![
            "a".to_string(),
            FINALIZER.to_string(),
            "b".to_string(),
            FINALIZER.to_string()
        ])),
        Some(vec!["a".to_string(), "b".to_string(), FINALIZER.to_string()])
    );
}

#[test]
fn patch_status_wraps_a_copy_of_the_status() {
    let status = DdnsStatus {
        status: "RUNNING".to_string(),
        selector: selector(),
        domain: "web.example.com".to_string(),
        zone: "example.com".to_string(),
    };
    let patch = status.to_patch_status();
    assert_eq!(patch.status(), &status);
    assert_eq!(patch, PatchStatus::new(status.clone()));
    assert_eq!(patch.into_status(), status);
}

#[test]
fn default_status_is_blank() {
    let status = DdnsStatus::default();
    assert_eq!(status.status, "");
    assert_eq!(status.domain, "");
    assert_eq!(status.zone, "");
    assert!(status.selector.is_empty());
}

#[test]
fn identity_is_namespace_and_name() {
    let ddns = Ddns {
        metadata: Metadata {
            name: Some("web".to_string()),
            namespace: Some("prod".to_string()),
            finalizers: None,
            deletion_timestamp: None,
        },
        spec: DdnsSpec {
            selector: selector(),
            domain: "web.example.com".to_string(),
            zone: "example.com".to_string(),
        },
        status: None,
    };
    let id = ddns.identity();
    assert_eq!(id, Identity { namespace: Some("prod".to_string()), name: Some("web".to_string()) });
    assert!(id.same(&id.clone()));
    assert!(!id.same(&Identity { namespace: Some("dev".to_string()), name: Some("web".to_string()) }));
    assert!(!id.same(&Identity { namespace: None, name: Some("web".to_string()) }));
    assert!(!ddns.is_deleting());
    let mut marked = ddns.clone();
    assert_eq!(marked, ddns);
    marked.metadata.deletion_timestamp = Some(1_700_000_000);
    assert!(marked.is_deleting());
}
