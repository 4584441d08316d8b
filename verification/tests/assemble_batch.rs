use wikisearch::assemble::ResultAssembler;
use wikisearch::card::CardState;
use wikisearch::pipeline::{start, FetchOutcome, PipelineStep};
use wikisearch::query::parse;
use wikisearch::store::EndpointStore;

fn seeded() -> EndpointStore {
    let mut store = EndpointStore::new();
    store.seed_defaults("t1");
    store
}

#[test]
fn placeholders_are_aligned_with_the_requests() {
    let requests = parse("[[en|Foo]] then [[Bar]]");
    let batch = ResultAssembler::new(requests);
    let cards = batch.placeholders();
    assert_eq!(cards.len(), 2);
    assert_eq!(cards[0].title, "Searching for Foo...");
    assert_eq!(cards[1].title, "Searching for Bar...");
    assert!(cards.iter().all(|c| c.state == CardState::Pending));
}

#[test]
fn final_list_keeps_length_and_order() {
    let store = seeded();
    let requests = parse("[[First]] and [[Second]] and [[Third]]");
    let mut batch = ResultAssembler::new(requests);
    assert_eq!(batch.placeholders().len(), 3);
    let n = batch.request_count();
    for i in 0..n {
        let request = batch.request_at(i);
        let (mut p, _url) = start(&store, "t1", request);
        let step = p.on_response(FetchOutcome::Success("{}".to_string()));
        let card = match step {
            PipelineStep::Done(c) => c,
            PipelineStep::Fetch(_) => panic!("expected a finished card"),
        };
        batch.push_result(card);
    }
    assert!(batch.is_complete());
    let cards = batch.into_final();
    assert_eq!(cards.len(), 3);
    assert_eq!(cards[0].title, "No results found for First");
    assert_eq!(cards[1].title, "No results found for Second");
    assert_eq!(cards[2].title, "No results found for Third");
}

#[test]
fn one_failing_request_does_not_stop_a_sibling() {
    let store = seeded();
    let requests = parse("[[Broken]] and [[Rust]]");
    let mut batch = ResultAssembler::new(requests);

    // First request: the transport fails on round one.
    {
        let request = batch.request_at(0);
        let (mut p, _url) = start(&store, "t1", request);
        let step = p.on_response(FetchOutcome::TransportError);
        let card = match step {
            PipelineStep::Done(c) => c,
            PipelineStep::Fetch(_) => panic!("expected a finished card"),
        };
        batch.push_result(card);
    }

    // Second request: all three rounds succeed.
    {
        let request = batch.request_at(1);
        let (mut p, _url) = start(&store, "t1", request);
        let step = p.on_response(FetchOutcome::Success(r#"{"title":"Rust"}"#.to_string()));
        assert!(matches!(step, PipelineStep::Fetch(_)));
        let step = p.on_response(FetchOutcome::Success(
            r#"<meta property="og:image" content="https://img.example.org/r.png">"#.to_string(),
        ));
        assert!(matches!(step, PipelineStep::Fetch(_)));
        let step = p.on_response(FetchOutcome::Success(
            r#"{"extract":"Rust is a language."}"#.to_string(),
        ));
        let card = match step {
            PipelineStep::Done(c) => c,
            PipelineStep::Fetch(_) => panic!("expected a finished card"),
        };
        batch.push_result(card);
    }

    assert!(batch.is_complete());
    let cards = batch.into_final();
    assert_eq!(cards.len(), 2);
    assert_eq!(cards[0].state, CardState::Failed);
    assert_eq!(cards[1].state, CardState::Found);
    assert_eq!(cards[1].title, "Rust");
    assert_eq!(cards[1].summary, "Rust is a language.");
}

#[test]
fn scripted_batch_isolates_failures_and_keeps_order() {
    let store = seeded();
    let requests = parse("[[Broken]] then [[Rust]] then [[Gone]]");
    let scripts = vec![
        vec![FetchOutcome::TransportError],
        vec![
            FetchOutcome::Success(r#"{"title":"Rust"}"#.to_string()),
            FetchOutcome::Success(
                r#"<meta property="og:image" content="https://img.example.org/r.png">"#
                    .to_string(),
            ),
            FetchOutcome::Success(r#"{"extract":"Rust is a language."}"#.to_string()),
        ],
        vec![FetchOutcome::Success("{}".to_string())],
    ];
    let cards = wikisearch::assemble::run_batch(&store, "t1", requests, scripts);
    assert_eq!(cards.len(), 3);
    assert_eq!(cards[0].state, CardState::Failed);
    assert_eq!(cards[1].state, CardState::Found);
    assert_eq!(cards[1].title, "Rust");
    assert_eq!(cards[1].thumbnail.as_deref(), Some("https://img.example.org/r.png"));
    assert_eq!(cards[2].state, CardState::NotFound);
    assert_eq!(cards[2].title, "No results found for Gone");
}

#[test]
fn scripted_batch_treats_an_exhausted_script_as_failure() {
    let store = seeded();
    let requests = parse("[[HalfWay]]");
    let scripts = vec![vec![FetchOutcome::Success(r#"{"title":"HalfWay"}"#.to_string())]];
    let cards = wikisearch::assemble::run_batch(&store, "t1", requests, scripts);
    assert_eq!(cards.len(), 1);
    assert_eq!(cards[0].state, CardState::Failed);
}

#[test]
fn empty_batch_completes_immediately() {
    let requests = parse("no queries in here");
    let batch = ResultAssembler::new(requests);
    assert_eq!(batch.request_count(), 0);
    assert!(batch.is_complete());
    assert_eq!(batch.placeholders().len(), 0);
    assert_eq!(batch.into_final().len(), 0);
}
