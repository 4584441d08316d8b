//! The per-request search pipeline: resolve the endpoint, then drive three
//! round trips — full-text search, canonical page fetch, extract fetch —
//! deciding after each response what to fetch next or which terminal card
//! to accept.  The pipeline itself performs no I/O: the caller carries each
//! returned URL to the transport and hands the outcome back.  A transport
//! failure at any round ends that request alone with a failed card; no
//! round trip is retried.

use vstd::prelude::*;
use vstd::string::StringExecFns;
use crate::card::{
    failed_card, found_card, not_found_card, spec_failed_card, spec_found_card,
    spec_not_found_card, ResultCard, SpecCard,
};
use crate::extract::{
    extract_summary, extract_thumbnail, extract_title, spec_extract_summary,
    spec_extract_thumbnail, spec_extract_title,
};
use crate::query::Search;
use crate::resolve::{resolve, spec_resolve};
use crate::store::EndpointStore;

verus! {

/// What `percent_encoding::utf8_percent_encode` yields with the
/// `NON_ALPHANUMERIC` set: every byte of the UTF-8 form that is not an
/// ASCII letter or digit written as a `%XX` escape.  The result is a
/// function of the input characters alone.
pub uninterp spec fn percent_encoded(s: Seq<char>) -> Seq<char>;

/// Relies on `percent_encoding::utf8_percent_encode` with the
/// `NON_ALPHANUMERIC` set: percent-encodes every byte that is not an ASCII
/// letter or digit.
#[verifier::external_body]
fn percent_encode_part(s: &str) -> (r: String)
    ensures
        r@ == percent_encoded(s@),
{
    percent_encoding::utf8_percent_encode(s, percent_encoding::NON_ALPHANUMERIC).collect()
}

/// The full-text search URL for a query: the endpoint's search action,
/// limited to the single best candidate.
pub open spec fn spec_search_url(endpoint: Seq<char>, query: Seq<char>) -> Seq<char> {
    endpoint
        + "?action=query&format=json&list=search&formatversion=2&srwhat=text&srinfo=&srprop=&srlimit=1&srsearch="@
        + percent_encoded(query)
}

/// The canonical page URL of a discovered title.
pub open spec fn spec_page_url(endpoint: Seq<char>, title: Seq<char>) -> Seq<char> {
    endpoint + "/wiki/"@ + percent_encoded(title)
}

/// The extract URL of a discovered title: the endpoint's extract action for
/// a plain-text excerpt.
pub open spec fn spec_info_url(endpoint: Seq<char>, title: Seq<char>) -> Seq<char> {
    endpoint
        + "/w/api.php?format=json&action=query&prop=extracts&exchars=500&explaintext&redirects=1&titles="@
        + percent_encoded(title)
}

/// Build the full-text search URL for a query.
pub fn search_url(endpoint: &str, query: &str) -> (r: String)
    ensures
        r@ == spec_search_url(endpoint@, query@),
{
    let mut u = endpoint.to_owned();
    u.append(
        "?action=query&format=json&list=search&formatversion=2&srwhat=text&srinfo=&srprop=&srlimit=1&srsearch=",
    );
    let e = percent_encode_part(query);
    u.append(e.as_str());
    proof {
        assert(u@ =~= spec_search_url(endpoint@, query@));
    }
    u
}

/// Build the canonical page URL of a discovered title.
pub fn page_url(endpoint: &str, title: &str) -> (r: String)
    ensures
        r@ == spec_page_url(endpoint@, title@),
{
    let mut u = endpoint.to_owned();
    u.append("/wiki/");
    let e = percent_encode_part(title);
    u.append(e.as_str());
    proof {
        assert(u@ =~= spec_page_url(endpoint@, title@));
    }
    u
}

/// Build the extract URL of a discovered title.
pub fn info_url(endpoint: &str, title: &str) -> (r: String)
    ensures
        r@ == spec_info_url(endpoint@, title@),
{
    let mut u = endpoint.to_owned();
    u.append(
        "/w/api.php?format=json&action=query&prop=extracts&exchars=500&explaintext&redirects=1&titles=",
    );
    let e = percent_encode_part(title);
    u.append(e.as_str());
    proof {
        assert(u@ =~= spec_info_url(endpoint@, title@));
    }
    u
}

/// The outcome of one round trip, as the transport hands it back: the
/// response body, or a transport-level failure (connection error,
/// non-success status, undecodable body).
pub enum FetchOutcome {
    Success(String),
    TransportError,
}

/// What the pipeline asks of its caller next: perform the round trip to a
/// URL and report back, or accept the finished card.
pub enum PipelineStep {
    Fetch(String),
    Done(ResultCard),
}

/// Where the pipeline stands: which round trip is in flight, and what has
/// been discovered so far.
pub enum Phase {
    Searching,
    FetchingPage { title: String, page_url: String },
    FetchingExtract { title: String, page_url: String, thumbnail: Option<String> },
    Finished,
}

/// The state of one request's pipeline between round trips.
pub struct SearchPipeline {
    pub endpoint: String,
    pub query: String,
    pub phase: Phase,
}

impl SearchPipeline {
    /// The carried page URL always belongs to the carried title.
    pub open spec fn wf(self) -> bool {
        match self.phase {
            Phase::FetchingPage { title, page_url } => page_url@ == spec_page_url(
                self.endpoint@,
                title@,
            ),
            Phase::FetchingExtract { title, page_url, thumbnail } => page_url@ == spec_page_url(
                self.endpoint@,
                title@,
            ),
            _ => true,
        }
    }
}

/// How one response moves the pipeline forward: the relation between the
/// state before, the outcome handed in, the state after, and the step
/// handed back.
pub open spec fn spec_step(
    pre: SearchPipeline,
    outcome: FetchOutcome,
    post: SearchPipeline,
    step: PipelineStep,
) -> bool {
    &&& post.endpoint@ == pre.endpoint@
    &&& post.query@ == pre.query@
    &&& match outcome {
        FetchOutcome::TransportError => {
            &&& post.phase is Finished
            &&& step matches PipelineStep::Done(c) && c@ == spec_failed_card(pre.query@)
        },
        FetchOutcome::Success(body) => match pre.phase {
            Phase::Searching => match spec_extract_title(body@) {
                None => {
                    &&& post.phase is Finished
                    &&& step matches PipelineStep::Done(c) && c@ == spec_not_found_card(
                        pre.query@,
                    )
                },
                Some(t) => {
                    &&& post.phase matches Phase::FetchingPage { title, page_url } && title@ == t
                        && page_url@ == spec_page_url(pre.endpoint@, t)
                    &&& step matches PipelineStep::Fetch(u) && u@ == spec_page_url(
                        pre.endpoint@,
                        t,
                    )
                },
            },
            Phase::FetchingPage { title, page_url } => {
                &&& post.phase matches Phase::FetchingExtract {
                    title: t2,
                    page_url: p2,
                    thumbnail,
                } && t2@ == title@ && p2@ == page_url@ && thumbnail.deep_view()
                    == spec_extract_thumbnail(body@)
                &&& step matches PipelineStep::Fetch(u) && u@ == spec_info_url(
                    pre.endpoint@,
                    title@,
                )
            },
            Phase::FetchingExtract { title, page_url, thumbnail } => {
                &&& post.phase is Finished
                &&& step matches PipelineStep::Done(c) && c@ == spec_found_card(
                    title@,
                    page_url@,
                    spec_extract_summary(body@),
                    thumbnail.deep_view(),
                )
            },
            Phase::Finished => false,
        },
    }
}

/// Start the pipeline for one request: resolve its endpoint and hand back
/// the search URL of the first round trip.
pub fn start(store: &EndpointStore, tenant: &str, request: &Search) -> (r: (
    SearchPipeline,
    String,
))
    ensures
        ({
            let endpoint = spec_resolve(store@, tenant@, request@.alias);
            &&& r.0.endpoint@ == endpoint
            &&& r.0.query@ == request@.query
            &&& r.0.phase is Searching
            &&& r.0.wf()
            &&& r.1@ == spec_search_url(endpoint, request@.query)
        }),
{
    proof {
        assert(request.alias.deep_view() == request@.alias);
    }
    let endpoint = resolve(store, tenant, &request.alias);
    let url = search_url(endpoint.as_str(), request.query.as_str());
    let query = request.query.clone();
    (SearchPipeline { endpoint, query, phase: Phase::Searching }, url)
}

impl SearchPipeline {
    /// Feed one round trip's outcome in; learn what to do next.  A
    /// transport failure ends this request with a failed card, whatever
    /// round it struck.
    pub fn on_response(&mut self, outcome: FetchOutcome) -> (step: PipelineStep)
        requires
            !(old(self).phase is Finished),
            old(self).wf(),
        ensures
            spec_step(*old(self), outcome, *final(self), step),
            final(self).wf(),
    {
        match outcome {
            FetchOutcome::TransportError => {
                self.phase = Phase::Finished;
                PipelineStep::Done(failed_card(self.query.as_str()))
            },
            FetchOutcome::Success(body) => match &self.phase {
                Phase::Searching => match extract_title(body.as_str()) {
                    Some(title) => {
                        let purl = page_url(self.endpoint.as_str(), title.as_str());
                        let step_url = purl.clone();
                        self.phase = Phase::FetchingPage { title, page_url: purl };
                        PipelineStep::Fetch(step_url)
                    },
                    None => {
                        self.phase = Phase::Finished;
                        PipelineStep::Done(not_found_card(self.query.as_str()))
                    },
                },
                Phase::FetchingPage { title, page_url } => {
                    let t = title.clone();
                    let pu = page_url.clone();
                    let thumb = extract_thumbnail(body.as_str());
                    let iurl = info_url(self.endpoint.as_str(), t.as_str());
                    self.phase = Phase::FetchingExtract { title: t, page_url: pu, thumbnail: thumb };
                    PipelineStep::Fetch(iurl)
                },
                Phase::FetchingExtract { title, page_url, thumbnail } => {
                    let t = title.clone();
                    let pu = page_url.clone();
                    let th = match thumbnail {
                        Some(s) => Some(s.clone()),
                        None => None,
                    };
                    let summary = extract_summary(body.as_str());
                    let card = found_card(t, pu, summary, th);
                    self.phase = Phase::Finished;
                    PipelineStep::Done(card)
                },
                Phase::Finished => {
                    PipelineStep::Done(failed_card(self.query.as_str()))
                },
            },
        }
    }
}

/// The terminal card that a request ends in when its round trips are
/// answered by `outcomes`, in order: outcome `k` answers round trip `k`.
/// An exhausted script counts as a transport failure; outcomes past the
/// terminal card are never consumed.
pub open spec fn spec_run(
    endpoint: Seq<char>,
    query: Seq<char>,
    outcomes: Seq<FetchOutcome>,
) -> SpecCard {
    if outcomes.len() == 0 {
        spec_failed_card(query)
    } else {
        match outcomes[0] {
            FetchOutcome::TransportError => spec_failed_card(query),
            FetchOutcome::Success(b0) => match spec_extract_title(b0@) {
                None => spec_not_found_card(query),
                Some(t) => if outcomes.len() == 1 {
                    spec_failed_card(query)
                } else {
                    match outcomes[1] {
                        FetchOutcome::TransportError => spec_failed_card(query),
                        FetchOutcome::Success(b1) => if outcomes.len() == 2 {
                            spec_failed_card(query)
                        } else {
                            match outcomes[2] {
                                FetchOutcome::TransportError => spec_failed_card(query),
                                FetchOutcome::Success(b2) => spec_found_card(
                                    t,
                                    spec_page_url(endpoint, t),
                                    spec_extract_summary(b2@),
                                    spec_extract_thumbnail(b1@),
                                ),
                            }
                        },
                    }
                },
            },
        }
    }
}

/// The front of the script, or a transport failure once it is exhausted.
fn next_outcome(script: &mut Vec<FetchOutcome>) -> (r: FetchOutcome)
    ensures
        old(script)@.len() == 0 ==> r is TransportError && final(script)@ == old(script)@,
        old(script)@.len() > 0 ==> r == old(script)@[0] && final(script)@ == old(
            script,
        )@.drop_first(),
{
    if script.len() > 0 {
        let r = script.remove(0);
        proof {
            assert(old(script)@.remove(0) =~= old(script)@.drop_first());
        }
        r
    } else {
        FetchOutcome::TransportError
    }
}

/// Drive one request's pipeline to its terminal card against a pre-recorded
/// outcome script.  The card is a function of the endpoint table, the
/// request, and that script alone.
pub fn run_scripted(
    store: &EndpointStore,
    tenant: &str,
    request: &Search,
    script: Vec<FetchOutcome>,
) -> (r: ResultCard)
    ensures
        r@ == spec_run(
            spec_resolve(store@, tenant@, request@.alias),
            request@.query,
            script@,
        ),
{
    let ghost outcomes = script@;
    let mut rest = script;
    let (mut p, _url) = start(store, tenant, request);
    let o0 = next_outcome(&mut rest);
    let step = p.on_response(o0);
    let step = match step {
        PipelineStep::Done(c) => {
            return c;
        },
        PipelineStep::Fetch(_u) => {
            proof {
                assert(outcomes.len() > 0 && o0 == outcomes[0]);
            }
            let o1 = next_outcome(&mut rest);
            proof {
                if outcomes.len() > 1 {
                    assert(o1 == outcomes.drop_first()[0]);
                    assert(outcomes.drop_first()[0] == outcomes[1]);
                }
            }
            p.on_response(o1)
        },
    };
    let step = match step {
        PipelineStep::Done(c) => {
            return c;
        },
        PipelineStep::Fetch(_u) => {
            proof {
                assert(outcomes.len() > 1);
            }
            let o2 = next_outcome(&mut rest);
            proof {
                if outcomes.len() > 2 {
                    assert(o2 == outcomes.drop_first().drop_first()[0]);
                    assert(outcomes.drop_first().drop_first()[0] == outcomes[2]);
                }
            }
            p.on_response(o2)
        },
    };
    match step {
        PipelineStep::Done(c) => c,
        PipelineStep::Fetch(_u) => {
            // The third round trip always finishes the pipeline.
            proof {
                assert(false);
            }
            failed_card("")
        },
    }
}

} // verus!
