use chhoto_url::link::Link;
use chhoto_url::store::{Conflict, Store};

fn link(shortlink: &str, longlink: &str, hits: u64) -> Link {
    Link { shortlink: shortlink.to_string(), longlink: longlink.to_string(), hits }
}

fn filled() -> Store {
    let mut store = Store::new();
    assert_eq!(store.insert("one".to_string(), "https://one.example".to_string()), Ok(()));
    assert_eq!(store.insert("two".to_string(), "https://two.example".to_string()), Ok(()));
    assert_eq!(store.insert("three".to_string(), "https://three.example".to_string()), Ok(()));
    store
}

#[test]
fn new_store_is_empty() {
    let store = Store::new();
    assert_eq!(store.len(), 0);
    assert_eq!(store.list_all(), Vec::<Link>::new());
    assert_eq!(store.find("one"), None);
    assert!(!store.contains("one"));
}

#[test]
fn new_link_has_no_hits() {
    assert_eq!(Link::new("a".to_string(), "https://a.example".to_string()), link("a", "https://a.example", 0));
}

#[test]
fn cloned_link_is_equal() {
    let original = link("a", "https://a.example", 5);
    assert_eq!(original.clone(), original);
}

#[test]
fn insert_then_find_returns_the_link() {
    let store = filled();
    assert_eq!(store.len(), 3);
    assert_eq!(store.find("two"), Some(link("two", "https://two.example", 0)));
    assert!(store.contains("two"));
    assert_eq!(store.find("four"), None);
}

#[test]
fn insert_of_taken_token_conflicts_and_changes_nothing() {
    let mut store = filled();
    let before = store.list_all();
    assert_eq!(store.insert("two".to_string(), "https://other.example".to_string()), Err(Conflict));
    assert_eq!(store.list_all(), before);
    assert_eq!(store.find("two"), Some(link("two", "https://two.example", 0)));
}

#[test]
fn tokens_are_case_sensitive_in_the_store() {
    let mut store = filled();
    assert_eq!(store.insert("TWO".to_string(), "https://upper.example".to_string()), Ok(()));
    assert_eq!(store.find("two"), Some(link("two", "https://two.example", 0)));
    assert_eq!(store.find("TWO"), Some(link("TWO", "https://upper.example", 0)));
}

#[test]
fn list_all_is_in_creation_order() {
    let store = filled();
    assert_eq!(
        store.list_all(),
        vec![
            link("one", "https://one.example", 0),
            link("two", "https://two.example", 0),
            link("three", "https://three.example", 0),
        ]
    );
}

#[test]
fn delete_removes_only_the_named_link() {
    let mut store = filled();
    assert!(store.delete("two"));
    assert_eq!(
        store.list_all(),
        vec![link("one", "https://one.example", 0), link("three", "https://three.example", 0)]
    );
    assert_eq!(store.find("two"), None);
}

#[test]
fn delete_of_missing_token_is_false_and_changes_nothing() {
    let mut store = filled();
    let before = store.list_all();
    assert!(!store.delete("four"));
    assert_eq!(store.list_all(), before);
    assert!(store.delete("one"));
    assert!(!store.delete("one"));
}

#[test]
fn record_hit_counts_one_per_call() {
    let mut store = filled();
    store.record_hit("two");
    assert_eq!(store.find("two"), Some(link("two", "https://two.example", 1)));
    store.record_hit("two");
    store.record_hit("two");
    assert_eq!(store.find("two"), Some(link("two", "https://two.example", 3)));
    assert_eq!(store.find("one"), Some(link("one", "https://one.example", 0)));
    assert_eq!(store.find("three"), Some(link("three", "https://three.example", 0)));
}

#[test]
fn record_hit_on_missing_token_does_nothing() {
    let mut store = filled();
    let before = store.list_all();
    store.record_hit("four");
    assert_eq!(store.list_all(), before);
}

#[test]
fn hit_counter_stops_at_the_largest_value() {
    let mut store = Store::from_links(vec![link("a", "https://a.example", u64::MAX - 1)]).unwrap();
    store.record_hit("a");
    assert_eq!(store.find("a"), Some(link("a", "https://a.example", u64::MAX)));
    store.record_hit("a");
    assert_eq!(store.find("a"), Some(link("a", "https://a.example", u64::MAX)));
}

#[test]
fn update_retargets_and_keeps_place_and_hits() {
    let mut store = filled();
    store.record_hit("two");
    store.record_hit("two");
    assert_eq!(store.update("two", "two".to_string(), "https://new.example".to_string()), Ok(true));
    assert_eq!(
        store.list_all(),
        vec![
            link("one", "https://one.example", 0),
            link("two", "https://new.example", 2),
            link("three", "https://three.example", 0),
        ]
    );
}

#[test]
fn update_renames_and_frees_the_old_token() {
    let mut store = filled();
    store.record_hit("two");
    assert_eq!(store.update("two", "zwei".to_string(), "https://two.example".to_string()), Ok(true));
    assert_eq!(store.find("two"), None);
    assert_eq!(store.find("zwei"), Some(link("zwei", "https://two.example", 1)));
    assert_eq!(store.len(), 3);
    assert_eq!(store.list_all()[1], link("zwei", "https://two.example", 1));
}

#[test]
fn update_of_missing_token_is_false() {
    let mut store = filled();
    let before = store.list_all();
    assert_eq!(store.update("four", "five".to_string(), "https://x.example".to_string()), Ok(false));
    assert_eq!(store.update("four", "one".to_string(), "https://x.example".to_string()), Ok(false));
    assert_eq!(store.list_all(), before);
}

#[test]
fn update_to_taken_token_conflicts_and_changes_nothing() {
    let mut store = filled();
    store.record_hit("two");
    let before = store.list_all();
    assert_eq!(store.update("two", "one".to_string(), "https://x.example".to_string()), Err(Conflict));
    assert_eq!(store.list_all(), before);
    assert_eq!(store.find("two"), Some(link("two", "https://two.example", 1)));
}

#[test]
fn from_links_keeps_order_and_hits() {
    let rows = vec![link("b", "https://b.example", 4), link("a", "https://a.example", 9)];
    let store = Store::from_links(rows.clone()).unwrap();
    assert_eq!(store.list_all(), rows);
    assert_eq!(store.len(), 2);
}

#[test]
fn from_links_refuses_a_repeated_token() {
    let rows = vec![
        link("a", "https://a.example", 0),
        link("b", "https://b.example", 0),
        link("a", "https://c.example", 0),
    ];
    assert!(Store::from_links(rows).is_none());
    assert!(Store::from_links(vec![link("a", "x", 0), link("a", "x", 0)]).is_none());
    assert!(Store::from_links(Vec::new()).is_some());
}
