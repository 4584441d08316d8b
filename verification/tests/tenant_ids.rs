use wikisearch::tenant::tenant_id;

#[test]
fn community_messages_are_scoped_by_their_id() {
    assert_eq!(tenant_id(Some(123456789)), "s123456789");
    assert_eq!(tenant_id(Some(0)), "s0");
    assert_eq!(tenant_id(Some(10)), "s10");
    assert_eq!(tenant_id(Some(u64::MAX)), "s18446744073709551615");
}

#[test]
fn direct_messages_fall_under_the_default_tenant() {
    assert_eq!(tenant_id(None), "default");
}
