use wikisearch::query::parse;

#[test]
fn parse_no_brackets() {
    let r = parse("no brackets here");
    assert_eq!(r.len(), 0);
}

#[test]
fn parse_plain_query() {
    let r = parse("[[Rust]]");
    assert_eq!(r.len(), 1);
    assert!(r[0].alias.is_none());
    assert_eq!(r[0].query, "Rust");
}

#[test]
fn parse_alias_query() {
    let r = parse("[[wiki|Rust]]");
    assert_eq!(r.len(), 1);
    assert_eq!(r[0].alias.as_deref(), Some("wiki"));
    assert_eq!(r[0].query, "Rust");
}

#[test]
fn parse_trailing_pipe_tolerated() {
    let r = parse("[[wiki|Rust|]]");
    assert_eq!(r.len(), 1);
    assert_eq!(r[0].alias.as_deref(), Some("wiki"));
    assert_eq!(r[0].query, "Rust");
}

#[test]
fn parse_trailing_pipe_without_alias() {
    let r = parse("[[Rust|]]");
    assert_eq!(r.len(), 1);
    assert!(r[0].alias.is_none());
    assert_eq!(r[0].query, "Rust");
}

#[test]
fn parse_matches_in_text_order() {
    let r = parse("see [[en|Foo]] and [[Bar]] thanks");
    assert_eq!(r.len(), 2);
    assert_eq!(r[0].alias.as_deref(), Some("en"));
    assert_eq!(r[0].query, "Foo");
    assert!(r[1].alias.is_none());
    assert_eq!(r[1].query, "Bar");
}

#[test]
fn parse_unclosed_brackets_do_not_match() {
    assert_eq!(parse("[[oops").len(), 0);
    assert_eq!(parse("[[oops]").len(), 0);
    assert_eq!(parse("oops]]").len(), 0);
}

#[test]
fn parse_empty_body_does_not_match() {
    assert_eq!(parse("[[]]").len(), 0);
}

#[test]
fn parse_inner_brackets_belong_to_query() {
    let r = parse("[[a[[b]]");
    assert_eq!(r.len(), 1);
    assert!(r[0].alias.is_none());
    assert_eq!(r[0].query, "a[[b");
}

#[test]
fn parse_alias_takes_extra_pipes_greedily() {
    let r = parse("[[a|b|c]]");
    assert_eq!(r.len(), 1);
    assert_eq!(r[0].alias.as_deref(), Some("a|b"));
    assert_eq!(r[0].query, "c");
}

#[test]
fn parse_alias_may_contain_brackets() {
    let r = parse("[[a]]|b]]");
    assert_eq!(r.len(), 1);
    assert_eq!(r[0].alias.as_deref(), Some("a]]"));
    assert_eq!(r[0].query, "b");
}

#[test]
fn parse_empty_alias_is_not_an_alias() {
    let r = parse("[[|x]]");
    assert_eq!(r.len(), 1);
    assert!(r[0].alias.is_none());
    assert_eq!(r[0].query, "|x");
}

#[test]
fn parse_body_never_spans_a_line_break() {
    assert_eq!(parse("[[Ru\nst]]").len(), 0);
}

#[test]
fn parse_resumes_after_a_match() {
    let r = parse("[[x]]]][[y]]");
    assert_eq!(r.len(), 2);
    assert_eq!(r[0].query, "x");
    assert_eq!(r[1].query, "y");
}
