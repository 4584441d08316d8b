use wikisearch::store::{all_endpoints, delete_endpoint, set_endpoint, EndpointStore};

#[test]
fn upsert_then_get_round_trip() {
    let mut store = EndpointStore::new();
    store.upsert("t1", "wiki", "https://example.org/w/api.php");
    let got = store.get("t1", "wiki");
    assert_eq!(got.as_deref(), Some("https://example.org/w/api.php"));
}

#[test]
fn upsert_overwrites_existing_key() {
    let mut store = EndpointStore::new();
    store.upsert("t1", "wiki", "https://old.example.org");
    store.upsert("t1", "wiki", "https://new.example.org");
    assert_eq!(store.len(), 1);
    assert_eq!(store.get("t1", "wiki").as_deref(), Some("https://new.example.org"));
}

#[test]
fn upsert_keeps_other_keys() {
    let mut store = EndpointStore::new();
    store.upsert("t1", "a", "https://a.example.org");
    store.upsert("t1", "b", "https://b.example.org");
    store.upsert("t2", "a", "https://c.example.org");
    store.upsert("t1", "a", "https://d.example.org");
    assert_eq!(store.get("t1", "b").as_deref(), Some("https://b.example.org"));
    assert_eq!(store.get("t2", "a").as_deref(), Some("https://c.example.org"));
    assert_eq!(store.get("t1", "a").as_deref(), Some("https://d.example.org"));
}

#[test]
fn get_missing_key_is_none() {
    let store = EndpointStore::new();
    assert!(store.get("t1", "wiki").is_none());
}

#[test]
fn seeding_twice_leaves_one_record_per_alias() {
    let mut store = EndpointStore::new();
    store.seed_defaults("t1");
    let once = store.len();
    store.seed_defaults("t1");
    assert_eq!(store.len(), once);
    assert_eq!(once, 11);
    let listed = store.list_by_tenant("t1");
    assert_eq!(listed.len(), 11);
    let defaults: Vec<&str> = listed.iter().map(|p| p.0.as_str()).collect();
    for alias in ["default", "en", "de", "fr", "ja", "es", "ru", "pt", "zh", "it", "ar"] {
        assert_eq!(defaults.iter().filter(|a| **a == alias).count(), 1);
    }
}

#[test]
fn seeding_leaves_existing_tenant_untouched() {
    let mut store = EndpointStore::new();
    store.upsert("t1", "wiki", "https://example.org");
    store.seed_defaults("t1");
    assert_eq!(store.len(), 1);
    assert_eq!(store.get("t1", "wiki").as_deref(), Some("https://example.org"));
}

#[test]
fn seeding_is_per_tenant() {
    let mut store = EndpointStore::new();
    store.seed_defaults("t1");
    store.seed_defaults("t2");
    assert_eq!(store.len(), 22);
    assert_eq!(
        store.get("t2", "de").as_deref(),
        Some("https://de.wikipedia.org/w/api.php")
    );
}

#[test]
fn set_endpoint_reports_the_change() {
    let mut store = EndpointStore::new();
    let msg = set_endpoint(&mut store, "wiki", "https://example.org", "t1");
    assert_eq!(msg, "Set alias wiki as endpoint https://example.org");
    assert_eq!(store.get("t1", "wiki").as_deref(), Some("https://example.org"));
}

#[test]
fn delete_endpoint_removes_the_alias() {
    let mut store = EndpointStore::new();
    store.upsert("t1", "wiki", "https://example.org");
    let msg = delete_endpoint(&mut store, "wiki", "t1");
    assert_eq!(msg, "Deleted alias wiki");
    assert!(store.get("t1", "wiki").is_none());
}

#[test]
fn delete_endpoint_protects_the_default_alias() {
    let mut store = EndpointStore::new();
    store.seed_defaults("t1");
    let msg = delete_endpoint(&mut store, "default", "t1");
    assert_eq!(msg, "Can't delete the default endpoint");
    assert!(store.get("t1", "default").is_some());
    assert_eq!(store.len(), 11);
}

#[test]
fn delete_tenant_removes_only_that_tenant() {
    let mut store = EndpointStore::new();
    store.seed_defaults("t1");
    store.seed_defaults("t2");
    store.delete_tenant("t1");
    assert_eq!(store.len(), 11);
    assert!(store.get("t1", "default").is_none());
    assert!(store.get("t2", "default").is_some());
}

#[test]
fn all_endpoints_renders_a_fenced_listing() {
    let mut store = EndpointStore::new();
    store.upsert("t1", "a", "https://a.example.org");
    store.upsert("t2", "x", "https://x.example.org");
    store.upsert("t1", "b", "https://b.example.org");
    let listing = all_endpoints(&store, "t1");
    assert_eq!(
        listing,
        "```\na | https://a.example.org\nb | https://b.example.org\n```"
    );
}

#[test]
fn all_endpoints_of_an_empty_tenant_is_an_empty_fence() {
    let store = EndpointStore::new();
    assert_eq!(all_endpoints(&store, "t1"), "```\n```");
}
