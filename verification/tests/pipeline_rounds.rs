use wikisearch::card::CardState;
use wikisearch::pipeline::{info_url, page_url, search_url, start, FetchOutcome, PipelineStep};
use wikisearch::query::Search;
use wikisearch::store::EndpointStore;

fn seeded() -> EndpointStore {
    let mut store = EndpointStore::new();
    store.seed_defaults("t1");
    store
}

#[test]
fn search_url_percent_encodes_the_query() {
    let url = search_url("https://en.wikipedia.org/w/api.php", "foo bar?");
    assert_eq!(
        url,
        "https://en.wikipedia.org/w/api.php?action=query&format=json&list=search&formatversion=2&srwhat=text&srinfo=&srprop=&srlimit=1&srsearch=foo%20bar%3F"
    );
}

#[test]
fn page_and_info_urls_percent_encode_the_title() {
    assert_eq!(
        page_url("https://en.wikipedia.org/w/api.php", "Rust (language)"),
        "https://en.wikipedia.org/w/api.php/wiki/Rust%20%28language%29"
    );
    assert_eq!(
        info_url("https://e.org", "A&B"),
        "https://e.org/w/api.php?format=json&action=query&prop=extracts&exchars=500&explaintext&redirects=1&titles=A%26B"
    );
}

#[test]
fn start_resolves_the_endpoint_and_builds_the_search_url() {
    let store = seeded();
    let request = Search { alias: Some("de".to_string()), query: "Rust".to_string() };
    let (_p, url) = start(&store, "t1", &request);
    assert_eq!(
        url,
        "https://de.wikipedia.org/w/api.php?action=query&format=json&list=search&formatversion=2&srwhat=text&srinfo=&srprop=&srlimit=1&srsearch=Rust"
    );
}

#[test]
fn three_rounds_build_a_found_card() {
    let store = seeded();
    let request = Search { alias: None, query: "Rust".to_string() };
    let (mut p, _url) = start(&store, "t1", &request);

    let search_body = r#"{"query":{"search":[{"title":"Rust"}]}}"#.to_string();
    let step = p.on_response(FetchOutcome::Success(search_body));
    let page_target = match step {
        PipelineStep::Fetch(u) => u,
        PipelineStep::Done(_) => panic!("expected a page fetch"),
    };
    assert_eq!(page_target, "https://en.wikipedia.org/w/api.php/wiki/Rust");

    let page_body =
        r#"<html><meta property="og:image" content="https://img.example.org/rust.png"></html>"#
            .to_string();
    let step = p.on_response(FetchOutcome::Success(page_body));
    let info_target = match step {
        PipelineStep::Fetch(u) => u,
        PipelineStep::Done(_) => panic!("expected an extract fetch"),
    };
    assert_eq!(
        info_target,
        "https://en.wikipedia.org/w/api.php/w/api.php?format=json&action=query&prop=extracts&exchars=500&explaintext&redirects=1&titles=Rust"
    );

    let info_body = r#"{"query":{"pages":[{"extract":"Rust is a language."}]}}"#.to_string();
    let step = p.on_response(FetchOutcome::Success(info_body));
    let card = match step {
        PipelineStep::Done(c) => c,
        PipelineStep::Fetch(_) => panic!("expected a finished card"),
    };
    assert_eq!(card.state, CardState::Found);
    assert_eq!(card.title, "Rust");
    assert_eq!(
        card.url.as_deref(),
        Some("https://en.wikipedia.org/w/api.php/wiki/Rust")
    );
    assert_eq!(card.summary, "Rust is a language.");
    assert_eq!(card.thumbnail.as_deref(), Some("https://img.example.org/rust.png"));
}

#[test]
fn missing_title_ends_in_a_not_found_card() {
    let store = seeded();
    let request = Search { alias: None, query: "Nothing".to_string() };
    let (mut p, _url) = start(&store, "t1", &request);
    let step = p.on_response(FetchOutcome::Success(r#"{"query":{"search":[]}}"#.to_string()));
    let card = match step {
        PipelineStep::Done(c) => c,
        PipelineStep::Fetch(_) => panic!("expected a finished card"),
    };
    assert_eq!(card.state, CardState::NotFound);
    assert_eq!(card.title, "No results found for Nothing");
    assert!(card.url.is_none());
    assert!(card.thumbnail.is_none());
}

#[test]
fn transport_error_on_the_first_round_fails_the_request() {
    let store = seeded();
    let request = Search { alias: None, query: "Rust".to_string() };
    let (mut p, _url) = start(&store, "t1", &request);
    let step = p.on_response(FetchOutcome::TransportError);
    let card = match step {
        PipelineStep::Done(c) => c,
        PipelineStep::Fetch(_) => panic!("expected a finished card"),
    };
    assert_eq!(card.state, CardState::Failed);
    assert_eq!(card.title, "No results found for Rust");
}

#[test]
fn transport_error_on_a_later_round_fails_the_request() {
    let store = seeded();
    let request = Search { alias: None, query: "Rust".to_string() };
    let (mut p, _url) = start(&store, "t1", &request);
    let step = p.on_response(FetchOutcome::Success(r#"{"title":"Rust"}"#.to_string()));
    assert!(matches!(step, PipelineStep::Fetch(_)));
    let step = p.on_response(FetchOutcome::TransportError);
    let card = match step {
        PipelineStep::Done(c) => c,
        PipelineStep::Fetch(_) => panic!("expected a finished card"),
    };
    assert_eq!(card.state, CardState::Failed);
}

#[test]
fn missing_summary_degrades_to_the_placeholder_text() {
    let store = seeded();
    let request = Search { alias: None, query: "Rust".to_string() };
    let (mut p, _url) = start(&store, "t1", &request);
    p.on_response(FetchOutcome::Success(r#"{"title":"Rust"}"#.to_string()));
    p.on_response(FetchOutcome::Success("<html></html>".to_string()));
    let step = p.on_response(FetchOutcome::Success("{}".to_string()));
    let card = match step {
        PipelineStep::Done(c) => c,
        PipelineStep::Fetch(_) => panic!("expected a finished card"),
    };
    assert_eq!(card.state, CardState::Found);
    assert_eq!(card.summary, "No summary could be found");
    assert!(card.thumbnail.is_none());
}
