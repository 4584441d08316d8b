//! The result assembler: turns a batch of query requests into an ordered
//! placeholder list for immediate display, collects one terminal card per
//! request in request order, and yields the final ordered card list.  A
//! failed request contributes its failed card and never shortens the list:
//! the final list always has the same length and order as the requests.

use vstd::prelude::*;
use crate::card::{pending_card, spec_is_terminal, spec_pending_card, ResultCard, SpecCard};
use crate::pipeline::{run_scripted, spec_run, FetchOutcome};
use crate::query::{views_of, Search, SpecSearch};
use crate::resolve::spec_resolve;
use crate::store::EndpointStore;

verus! {

/// The mathematical content of a `ResultAssembler`.
pub struct SpecAssembler {
    pub requests: Seq<SpecSearch>,
    pub done: Seq<SpecCard>,
}

/// The views of a sequence of cards, in order.
pub open spec fn card_views(s: Seq<ResultCard>) -> Seq<SpecCard> {
    s.map_values(|c: ResultCard| c@)
}

/// The placeholder card list of a batch: one pending card per request, in
/// request order.
pub open spec fn spec_placeholders(reqs: Seq<SpecSearch>) -> Seq<SpecCard> {
    reqs.map_values(|r: SpecSearch| spec_pending_card(r.query))
}

/// Every collected card is terminal, and no more cards were collected than
/// requests exist.
pub open spec fn spec_assembler_wf(a: SpecAssembler) -> bool {
    &&& a.done.len() <= a.requests.len()
    &&& forall|i: int| 0 <= i < a.done.len() ==> spec_is_terminal(#[trigger] a.done[i])
}

/// The batch is complete: one terminal card stands for every request.
pub open spec fn spec_complete(a: SpecAssembler) -> bool {
    a.done.len() == a.requests.len()
}

/// One message's batch of requests and the terminal cards collected for
/// them so far, in request order.
pub struct ResultAssembler {
    requests: Vec<Search>,
    done: Vec<ResultCard>,
}

impl View for ResultAssembler {
    type V = SpecAssembler;

    closed spec fn view(&self) -> SpecAssembler {
        SpecAssembler { requests: views_of(self.requests@), done: card_views(self.done@) }
    }
}

impl ResultAssembler {
    /// Take charge of a batch of requests.
    pub fn new(requests: Vec<Search>) -> (r: ResultAssembler)
        ensures
            r@.requests == views_of(requests@),
            r@.done =~= Seq::<SpecCard>::empty(),
            spec_assembler_wf(r@),
    {
        let r = ResultAssembler { requests, done: Vec::new() };
        proof {
            assert(card_views(r.done@) =~= Seq::<SpecCard>::empty());
        }
        r
    }

    /// How many requests the batch holds.
    pub fn request_count(&self) -> (r: usize)
        ensures
            r == self@.requests.len(),
    {
        self.requests.len()
    }

    /// How many terminal cards have been collected.
    pub fn done_count(&self) -> (r: usize)
        ensures
            r == self@.done.len(),
    {
        self.done.len()
    }

    /// The request at a position of the batch.
    pub fn request_at(&self, i: usize) -> (r: &Search)
        requires
            i < self@.requests.len(),
        ensures
            r@ == self@.requests[i as int],
    {
        &self.requests[i]
    }

    /// The ordered placeholder list: one pending card per request, for
    /// immediate display.
    pub fn placeholders(&self) -> (r: Vec<ResultCard>)
        ensures
            card_views(r@) == spec_placeholders(self@.requests),
            r@.len() == self@.requests.len(),
    {
        let n = self.requests.len();
        let mut out: Vec<ResultCard> = Vec::new();
        let mut i: usize = 0;
        proof {
            assert(card_views(out@) =~= spec_placeholders(self@.requests).subrange(0, 0));
        }
        while i < n
            invariant
                n == self.requests@.len(),
                i <= n,
                out@.len() == i,
                card_views(out@) =~= spec_placeholders(self@.requests).subrange(0, i as int),
            decreases n - i,
        {
            let card = pending_card(self.requests[i].query.as_str());
            proof {
                assert(card_views(out@.push(card)) =~= card_views(out@).push(card@));
                assert(card_views(out@).push(card@) =~= spec_placeholders(
                    self@.requests,
                ).subrange(0, i + 1));
            }
            out.push(card);
            i = i + 1;
        }
        proof {
            assert(spec_placeholders(self@.requests).subrange(0, n as int) =~= spec_placeholders(
                self@.requests,
            ));
        }
        out
    }

    /// Collect the terminal card of the next request in order.  A failed
    /// request's card is collected like any other: completion of the batch
    /// never depends on individual outcomes.
    pub fn push_result(&mut self, card: ResultCard)
        requires
            !spec_complete(old(self)@),
            spec_assembler_wf(old(self)@),
            spec_is_terminal(card@),
        ensures
            final(self)@.requests == old(self)@.requests,
            final(self)@.done =~= old(self)@.done.push(card@),
            spec_assembler_wf(final(self)@),
    {
        proof {
            assert(card_views(self.done@.push(card)) =~= card_views(self.done@).push(card@));
        }
        self.done.push(card);
    }

    /// Whether every request has its terminal card.
    pub fn is_complete(&self) -> (r: bool)
        ensures
            r == spec_complete(self@),
    {
        self.done.len() == self.requests.len()
    }

    /// Yield the final ordered card list, positionally aligned with the
    /// placeholder list: exactly one terminal card per request.
    pub fn into_final(self) -> (r: Vec<ResultCard>)
        requires
            spec_complete(self@),
        ensures
            card_views(r@) == self@.done,
            r@.len() == self@.requests.len(),
    {
        self.done
    }
}

/// Run a whole batch against pre-recorded outcome scripts, one script per
/// request, collecting the cards through an assembler.  The final list has
/// exactly one card per request, in request order, and each card is a
/// function of its own request and script alone: a failing script never
/// disturbs a sibling request's card.
pub fn run_batch(
    store: &EndpointStore,
    tenant: &str,
    requests: Vec<Search>,
    scripts: Vec<Vec<FetchOutcome>>,
) -> (r: Vec<ResultCard>)
    requires
        scripts@.len() == requests@.len(),
    ensures
        r@.len() == requests@.len(),
        forall|i: int|
            0 <= i < requests@.len() ==> (#[trigger] card_views(r@)[i]) == spec_run(
                spec_resolve(store@, tenant@, views_of(requests@)[i].alias),
                views_of(requests@)[i].query,
                scripts@[i]@,
            ),
{
    let ghost req_views = views_of(requests@);
    let ghost orig = scripts@;
    let mut batch = ResultAssembler::new(requests);
    let mut rest = scripts;
    let n = batch.request_count();
    let mut i: usize = 0;
    proof {
        assert(rest@ =~= orig.subrange(0, n as int));
    }
    while i < n
        invariant
            n == batch@.requests.len(),
            batch@.requests == req_views,
            orig.len() == n,
            i <= n,
            batch@.done.len() == i,
            spec_assembler_wf(batch@),
            rest@ =~= orig.subrange(i as int, n as int),
            forall|j: int|
                0 <= j < i ==> (#[trigger] batch@.done[j]) == spec_run(
                    spec_resolve(store@, tenant@, req_views[j].alias),
                    req_views[j].query,
                    orig[j]@,
                ),
        decreases n - i,
    {
        let script = rest.remove(0);
        proof {
            assert(script == orig[i as int]);
            assert(orig.subrange(i as int, n as int).remove(0) =~= orig.subrange(
                i + 1,
                n as int,
            ));
        }
        let card = run_scripted(store, tenant, batch.request_at(i), script);
        batch.push_result(card);
        i = i + 1;
    }
    batch.into_final()
}

/// Law: for any message text, a completed batch over the parsed requests
/// holds exactly one final card per bracket match, and the placeholder list
/// is aligned with the same matches in the same left-to-right order.
pub proof fn lemma_batch_arity(text: Seq<char>, a: SpecAssembler)
    requires
        a.requests == crate::query::spec_parse(text),
        spec_complete(a),
    ensures
        a.done.len() == crate::query::spec_parse(text).len(),
        spec_placeholders(a.requests).len() == a.requests.len(),
        forall|i: int|
            0 <= i < a.requests.len() ==> spec_placeholders(a.requests)[i] == spec_pending_card(
                a.requests[i].query,
            ),
{
}

} // verus!
