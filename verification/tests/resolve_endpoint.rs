use wikisearch::resolve::resolve;
use wikisearch::store::EndpointStore;

#[test]
fn missing_alias_falls_back_to_the_tenant_default() {
    let mut store = EndpointStore::new();
    store.upsert("t1", "default", "https://fallback.example.org");
    let endpoint = resolve(&store, "t1", &Some("missing-alias".to_string()));
    assert_eq!(endpoint, "https://fallback.example.org");
}

#[test]
fn absent_alias_uses_the_tenant_default() {
    let mut store = EndpointStore::new();
    store.seed_defaults("t1");
    let endpoint = resolve(&store, "t1", &None);
    assert_eq!(endpoint, "https://en.wikipedia.org/w/api.php");
}

#[test]
fn known_alias_resolves_to_its_endpoint() {
    let mut store = EndpointStore::new();
    store.seed_defaults("t1");
    let endpoint = resolve(&store, "t1", &Some("ja".to_string()));
    assert_eq!(endpoint, "https://ja.wikipedia.org/w/api.php");
}

#[test]
fn uninitialized_tenant_degrades_to_the_global_default() {
    let store = EndpointStore::new();
    let endpoint = resolve(&store, "t1", &Some("en".to_string()));
    assert_eq!(endpoint, "https://en.wikipedia.org");
    let endpoint2 = resolve(&store, "t1", &None);
    assert_eq!(endpoint2, "https://en.wikipedia.org");
}

#[test]
fn aliases_of_another_tenant_do_not_leak() {
    let mut store = EndpointStore::new();
    store.upsert("t2", "wiki", "https://other.example.org");
    store.upsert("t1", "default", "https://t1.example.org");
    let endpoint = resolve(&store, "t1", &Some("wiki".to_string()));
    assert_eq!(endpoint, "https://t1.example.org");
}
