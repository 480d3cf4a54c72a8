use ddns::labels::LabelMap;
use ddns::text::{concat_all, join, owned, position, same_text};

fn labels(pairs: &[(&str, &str)]) -> LabelMap {
    let mut map = LabelMap::new();
    for (key, value) in pairs {
        map.insert(key.to_string(), value.to_string());
    }
    map
}

#[test]
fn insert_binds_and_rebinds() {
    let mut map = LabelMap::new();
    assert!(map.is_empty());
    map.insert("app".to_string(), "web".to_string());
    map.insert("tier".to_string(), "front".to_string());
    assert_eq!(map.len(), 2);
    assert_eq!(map.get(&"app".to_string()), Some("web".to_string()));
    map.insert("app".to_string(), "api".to_string());
    assert_eq!(map.len(), 2);
    assert_eq!(map.key(0), "app");
    assert_eq!(map.value(0), "api");
    assert_eq!(map.key(1), "tier");
    assert_eq!(map.get(&"missing".to_string()), None);
    assert!(map.has(&"tier".to_string(), &"front".to_string()));
    assert!(!map.has(&"tier".to_string(), &"back".to_string()));
}

#[test]
fn selector_is_subset_of_labels() {
    let selector = labels(&[("app", "web")]);
    assert!(selector.selects(&labels(&[("tier", "front"), ("app", "web")])));
    assert!(!selector.selects(&labels(&[("app", "api")])));
    assert!(!selector.selects(&labels(&[("tier", "front")])));
    assert!(!selector.selects(&LabelMap::new()));
    assert!(LabelMap::new().selects(&labels(&[("app", "web")])));
    let both = labels(&[("app", "web"), ("tier", "front")]);
    assert!(!both.selects(&labels(&[("app", "web")])));
    assert!(both.selects(&labels(&[("tier", "front"), ("app", "web"), ("x", "y")])));
}

#[test]
fn selector_text_joins_pairs_with_commas() {
    assert_eq!(labels(&[]).selector_text(), "");
    assert_eq!(labels(&[("app", "web")]).selector_text(), "app=web");
    assert_eq!(
        labels(&[("app", "web"), ("tier", "front"), ("zone", "eu")]).selector_text(),
        "app=web,tier=front,zone=eu"
    );
    assert_eq!(labels(&[("app", "web"), ("tier", "front")]).line(1), "tier=front");
}

#[test]
fn join_puts_the_separator_between_neighbours() {
    assert_eq!(join(vec![], ","), "");
    assert_eq!(join(vec!["a".to_string()], ","), "a");
    assert_eq!(join(vec!["a".to_string(), "b".to_string()], ","), "a,b");
    assert_eq!(
        join(vec!["a".to_string(), "b".to_string(), "c".to_string()], ", "),
        "a, b, c"
    );
}

#[test]
fn text_helpers() {
    assert_eq!(owned("abc"), "abc");
    assert!(same_text(&"abc".to_string(), &"abc".to_string()));
    assert!(!same_text(&"abc".to_string(), &"abd".to_string()));
    let list = vec!["x".to_string(), "y".to_string(), "x".to_string()];
    assert_eq!(position(&list, &"x".to_string()), Some(0));
    assert_eq!(position(&list, &"y".to_string()), Some(1));
    assert_eq!(position(&list, &"z".to_string()), None);
    assert_eq!(concat_all(&list), "xyx");
}

#[test]
fn clone_keeps_the_pairs() {
    let map = labels(&[("app", "web"), ("tier", "front")]);
    assert_eq!(map.clone(), map);
    assert_eq!(map.duplicate(), map);
}
