use wikisearch::extract::{extract_summary, extract_thumbnail, extract_title};

#[test]
fn title_is_extracted_from_a_search_body() {
    let body = r#"{"batchcomplete":true,"query":{"search":[{"title":"Rust (programming language)"}]}}"#;
    assert_eq!(extract_title(body).as_deref(), Some("Rust (programming language)"));
}

#[test]
fn title_absent_yields_none() {
    let body = r#"{"batchcomplete":true,"query":{"search":[]}}"#;
    assert!(extract_title(body).is_none());
}

#[test]
fn title_capture_is_the_shortest_one() {
    let body = r#""title":"A","title":"B""#;
    assert_eq!(extract_title(body).as_deref(), Some("A"));
}

#[test]
fn summary_is_extracted_and_decoded() {
    let body = r#"{"query":{"pages":[{"extract":"Line one.\nLine two."}]}}"#;
    assert_eq!(extract_summary(body).as_deref(), Some("Line one.\nLine two."));
}

#[test]
fn summary_unicode_escapes_are_decoded() {
    let body = "{\"extract\":\"caf\\u00e9\"}";
    assert_eq!(extract_summary(body).as_deref(), Some("caf\u{00e9}"));
}

#[test]
fn summary_trailing_backslash_is_absorbed_before_the_close() {
    let body = r#"{"extract":"cut off\"}"#;
    assert_eq!(extract_summary(body).as_deref(), Some("cut off"));
}

#[test]
fn summary_absent_yields_none() {
    let body = r#"{"query":{"pages":[{}]}}"#;
    assert!(extract_summary(body).is_none());
}

#[test]
fn summary_that_cannot_be_decoded_yields_none() {
    let body = r#"{"extract":"bad \q escape"}"#;
    assert!(extract_summary(body).is_none());
}

#[test]
fn thumbnail_is_extracted_from_a_page_body() {
    let body = r#"<html><head><meta property="og:image" content="https://img.example.org/x.png"></head></html>"#;
    assert_eq!(
        extract_thumbnail(body).as_deref(),
        Some("https://img.example.org/x.png")
    );
}

#[test]
fn thumbnail_absent_yields_none() {
    let body = "<html><head></head></html>";
    assert!(extract_thumbnail(body).is_none());
}

#[test]
fn thumbnail_that_cannot_be_decoded_yields_none() {
    let body = r#"<meta property="og:image" content="x\q">"#;
    assert!(extract_thumbnail(body).is_none());
}
