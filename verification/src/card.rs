//! Result cards: the rendered unit of one query's outcome.  A card starts
//! as a pending placeholder and ends in exactly one terminal state: found,
//! not found, or failed (a transport failure, rendered like a no-result
//! card but distinguishable by state).

use vstd::prelude::*;
use vstd::string::StringExecFns;

verus! {

/// The lifecycle state of a card.
#[derive(Clone, Copy, PartialEq, Eq, Structural, Debug)]
pub enum CardState {
    Pending,
    Found,
    NotFound,
    Failed,
}

/// One query's outcome as rendered: title, canonical page URL, summary text
/// and thumbnail URL, together with the lifecycle state.
pub struct ResultCard {
    pub title: String,
    pub url: Option<String>,
    pub summary: String,
    pub thumbnail: Option<String>,
    pub state: CardState,
}

/// The mathematical content of a `ResultCard`.
pub struct SpecCard {
    pub title: Seq<char>,
    pub url: Option<Seq<char>>,
    pub summary: Seq<char>,
    pub thumbnail: Option<Seq<char>>,
    pub state: CardState,
}

impl View for ResultCard {
    type V = SpecCard;

    open spec fn view(&self) -> SpecCard {
        SpecCard {
            title: self.title@,
            url: match self.url {
                Some(u) => Some(u@),
                None => None,
            },
            summary: self.summary@,
            thumbnail: match self.thumbnail {
                Some(t) => Some(t@),
                None => None,
            },
            state: self.state,
        }
    }
}

/// A card is terminal when it is past the placeholder state.
pub open spec fn spec_is_terminal(c: SpecCard) -> bool {
    c.state != CardState::Pending
}

/// The placeholder card shown while a query is searched.
pub open spec fn spec_pending_card(query: Seq<char>) -> SpecCard {
    SpecCard {
        title: "Searching for "@ + query + "..."@,
        url: None,
        summary: Seq::empty(),
        thumbnail: None,
        state: CardState::Pending,
    }
}

/// The card of a query whose search yielded no candidate.
pub open spec fn spec_not_found_card(query: Seq<char>) -> SpecCard {
    SpecCard {
        title: "No results found for "@ + query,
        url: None,
        summary: Seq::empty(),
        thumbnail: None,
        state: CardState::NotFound,
    }
}

/// The card of a query whose pipeline was cut short by a transport failure:
/// rendered like a no-result card, marked failed.
pub open spec fn spec_failed_card(query: Seq<char>) -> SpecCard {
    SpecCard {
        title: "No results found for "@ + query,
        url: None,
        summary: Seq::empty(),
        thumbnail: None,
        state: CardState::Failed,
    }
}

/// The card of a successful search: a missing summary degrades to an
/// explicit placeholder text, a missing thumbnail stays absent.
pub open spec fn spec_found_card(
    title: Seq<char>,
    url: Seq<char>,
    summary: Option<Seq<char>>,
    thumbnail: Option<Seq<char>>,
) -> SpecCard {
    SpecCard {
        title: title,
        url: Some(url),
        summary: match summary {
            Some(s) => s,
            None => "No summary could be found"@,
        },
        thumbnail: thumbnail,
        state: CardState::Found,
    }
}

/// Build the placeholder card for a query.
pub fn pending_card(query: &str) -> (r: ResultCard)
    ensures
        r@ == spec_pending_card(query@),
{
    let mut t = "Searching for ".to_owned();
    t.append(query);
    t.append("...");
    proof {
        assert(t@ =~= "Searching for "@ + query@ + "..."@);
    }
    ResultCard { title: t, url: None, summary: String::new(), thumbnail: None, state: CardState::Pending }
}

/// Build the no-result card for a query.
pub fn not_found_card(query: &str) -> (r: ResultCard)
    ensures
        r@ == spec_not_found_card(query@),
{
    let mut t = "No results found for ".to_owned();
    t.append(query);
    proof {
        assert(t@ =~= "No results found for "@ + query@);
    }
    ResultCard { title: t, url: None, summary: String::new(), thumbnail: None, state: CardState::NotFound }
}

/// Build the card of a query cut short by a transport failure.
pub fn failed_card(query: &str) -> (r: ResultCard)
    ensures
        r@ == spec_failed_card(query@),
{
    let mut t = "No results found for ".to_owned();
    t.append(query);
    proof {
        assert(t@ =~= "No results found for "@ + query@);
    }
    ResultCard { title: t, url: None, summary: String::new(), thumbnail: None, state: CardState::Failed }
}

/// Build the card of a successful search.
pub fn found_card(
    title: String,
    url: String,
    summary: Option<String>,
    thumbnail: Option<String>,
) -> (r: ResultCard)
    ensures
        r@ == spec_found_card(title@, url@, summary.deep_view(), thumbnail.deep_view()),
{
    let s = match summary {
        Some(s) => s,
        None => "No summary could be found".to_owned(),
    };
    ResultCard { title, url: Some(url), summary: s, thumbnail, state: CardState::Found }
}

/// Whether a card is past the placeholder state.
pub fn is_terminal(card: &ResultCard) -> (r: bool)
    ensures
        r == spec_is_terminal(card@),
{
    match card.state {
        CardState::Pending => false,
        CardState::Found => true,
        CardState::NotFound => true,
        CardState::Failed => true,
    }
}

} // verus!
