//! Scanning free text for inline bracketed queries of the form
//! `[[query]]` or `[[alias|query]]`, producing query requests in
//! left-to-right order of first appearance.
//!
//! A match is `[[`, then optionally an alias followed by `|`, then a
//! non-empty query body, then an optional trailing `|`, then `]]`.  The
//! query body is matched non-greedily: the first well-formed close after
//! the shortest valid body wins.  The alias, when one is tried, is matched
//! greedily: the rightmost `|` that still leaves a well-formed remainder
//! splits alias from body.  No component may span a line break.  Text that
//! never closes a bracket is simply not matched.

use vstd::prelude::*;
use vstd::string::StrSliceExecFns;

verus! {

/// One bracketed query taken from a message: an optional endpoint alias
/// and the literal search text.
pub struct Search {
    pub alias: Option<String>,
    pub query: String,
}

/// The mathematical content of a `Search`.
pub struct SpecSearch {
    pub alias: Option<Seq<char>>,
    pub query: Seq<char>,
}

impl View for Search {
    type V = SpecSearch;

    open spec fn view(&self) -> SpecSearch {
        SpecSearch {
            alias: match self.alias {
                Some(a) => Some(a@),
                None => None,
            },
            query: self.query@,
        }
    }
}

/// Characters a query body or alias may contain: anything but a line break.
pub open spec fn is_body_char(c: char) -> bool {
    c != '\n'
}

/// The bracket closes at `m` with no trailing pipe: `]]` stands there.
pub open spec fn closes_plain(text: Seq<char>, m: int) -> bool {
    &&& 0 <= m
    &&& m + 2 <= text.len()
    &&& text[m] == ']'
    &&& text[m + 1] == ']'
}

/// The bracket closes at `m` with a trailing pipe absorbed: `|]]` stands there.
pub open spec fn closes_piped(text: Seq<char>, m: int) -> bool {
    &&& 0 <= m
    &&& m + 3 <= text.len()
    &&& text[m] == '|'
    &&& text[m + 1] == ']'
    &&& text[m + 2] == ']'
}

/// Scanning upward from `m` for the earliest close of a query body that began
/// before `m`: returns the position of the close and the position just past
/// the final `]]`.  Scanning stops at a line break or at the end of the text.
pub open spec fn body_close_from(text: Seq<char>, m: int) -> Option<(int, int)>
    decreases text.len() - m,
{
    if closes_piped(text, m) {
        Some((m, m + 3))
    } else if closes_plain(text, m) {
        Some((m, m + 2))
    } else if 0 <= m < text.len() && is_body_char(text[m]) {
        body_close_from(text, m + 1)
    } else {
        None
    }
}

/// The earliest close of a non-empty query body starting at `q`: the body is
/// `text[q..close]`, and the match ends just past the `]]`.
pub open spec fn body_close(text: Seq<char>, q: int) -> Option<(int, int)> {
    if 0 <= q < text.len() && is_body_char(text[q]) {
        body_close_from(text, q + 1)
    } else {
        None
    }
}

/// The first position at or past `p` that no body may cross: a line break or
/// the end of the text.
pub open spec fn body_stop(text: Seq<char>, p: int) -> int
    decreases text.len() - p,
{
    if 0 <= p < text.len() && is_body_char(text[p]) {
        body_stop(text, p + 1)
    } else {
        p
    }
}

/// Greedy alias split: among candidate pipes at positions in `(p, k]`, the
/// rightmost one after which a query body still closes.  Returns the pipe
/// position, the body close position, and the end of the whole match.
pub open spec fn alias_split(text: Seq<char>, p: int, k: int) -> Option<(int, int, int)>
    decreases k - p,
{
    if k <= p {
        None
    } else if text[k] == '|' && body_close(text, k + 1) is Some {
        match body_close(text, k + 1) {
            Some((m, e)) => Some((k, m, e)),
            None => None,
        }
    } else {
        alias_split(text, p, k - 1)
    }
}

/// One bracket match: the alias (if an alias prefix was recognized), the
/// query body, and the position just past the closing `]]`.
pub struct SpecMatch {
    pub alias: Option<Seq<char>>,
    pub query: Seq<char>,
    pub end: int,
}

/// The match of the bracket pattern starting exactly at `s`, if any.  An
/// alias prefix is preferred when some pipe admits one; otherwise the whole
/// interior up to the earliest close is the query.
pub open spec fn match_at(text: Seq<char>, s: int) -> Option<SpecMatch> {
    if 0 <= s && s + 2 <= text.len() && text[s] == '[' && text[s + 1] == '[' {
        let p = s + 2;
        match alias_split(text, p, body_stop(text, p) - 1) {
            Some((k, m, e)) => Some(
                SpecMatch {
                    alias: Some(text.subrange(p, k)),
                    query: text.subrange(k + 1, m),
                    end: e,
                },
            ),
            None => match body_close(text, p) {
                Some((m, e)) => Some(
                    SpecMatch { alias: None, query: text.subrange(p, m), end: e },
                ),
                None => None,
            },
        }
    } else {
        None
    }
}

pub proof fn lemma_body_close_from_bounds(text: Seq<char>, m0: int)
    ensures
        body_close_from(text, m0) matches Some(r) ==> m0 <= r.0 && r.0 + 2 <= r.1
            && r.1 <= text.len(),
    decreases text.len() - m0,
{
    if closes_piped(text, m0) || closes_plain(text, m0) {
    } else if 0 <= m0 < text.len() && is_body_char(text[m0]) {
        lemma_body_close_from_bounds(text, m0 + 1);
    }
}

pub proof fn lemma_body_close_bounds(text: Seq<char>, q: int)
    ensures
        body_close(text, q) matches Some(r) ==> q < r.0 && r.0 + 2 <= r.1 && r.1 <= text.len(),
{
    if 0 <= q < text.len() && is_body_char(text[q]) {
        lemma_body_close_from_bounds(text, q + 1);
    }
}

pub proof fn lemma_alias_split_bounds(text: Seq<char>, p: int, k: int)
    ensures
        alias_split(text, p, k) matches Some(r) ==> p < r.0 && r.0 < r.1 && r.1 + 2 <= r.2
            && r.2 <= text.len(),
    decreases k - p,
{
    if k <= p {
    } else if text[k] == '|' && body_close(text, k + 1) is Some {
        lemma_body_close_bounds(text, k + 1);
    } else {
        lemma_alias_split_bounds(text, p, k - 1);
    }
}

pub proof fn lemma_match_at_bounds(text: Seq<char>, s: int)
    ensures
        match_at(text, s) matches Some(mm) ==> s + 5 <= mm.end && mm.end <= text.len(),
{
    if 0 <= s && s + 2 <= text.len() && text[s] == '[' && text[s + 1] == '[' {
        lemma_alias_split_bounds(text, s + 2, body_stop(text, s + 2) - 1);
        lemma_body_close_bounds(text, s + 2);
    }
}

/// All matches from position `i` on, in left-to-right order; after a match
/// the scan resumes just past its closing `]]`, so matches never overlap.
pub open spec fn spec_parse_from(text: Seq<char>, i: int) -> Seq<SpecSearch>
    decreases text.len() - i,
    when 0 <= i
    via spec_parse_from_decreases
{
    if i >= text.len() {
        Seq::empty()
    } else {
        match match_at(text, i) {
            Some(mm) => Seq::empty().push(
                SpecSearch { alias: mm.alias, query: mm.query },
            ) + spec_parse_from(text, mm.end),
            None => spec_parse_from(text, i + 1),
        }
    }
}

#[via_fn]
proof fn spec_parse_from_decreases(text: Seq<char>, i: int) {
    lemma_match_at_bounds(text, i);
}

/// The ordered sequence of query requests that the bracket pattern yields on
/// `text`.
pub open spec fn spec_parse(text: Seq<char>) -> Seq<SpecSearch> {
    spec_parse_from(text, 0)
}

/// The views of a sequence of requests, in order.
pub open spec fn views_of(s: Seq<Search>) -> Seq<SpecSearch> {
    s.map_values(|x: Search| x@)
}

fn close_body(text: &str, q: usize) -> (r: Option<(usize, usize)>)
    requires
        q <= text@.len(),
    ensures
        match r {
            Some(me) => body_close(text@, q as int) == Some((me.0 as int, me.1 as int)) && q
                < me.0 && me.0 + 2 <= me.1 && me.1 <= text@.len(),
            None => body_close(text@, q as int) is None,
        },
{
    let n = text.unicode_len();
    if q >= n {
        return None;
    }
    if text.get_char(q) == '\n' {
        return None;
    }
    let mut m: usize = q + 1;
    loop
        invariant
            n == text@.len(),
            q < n,
            is_body_char(text@[q as int]),
            q + 1 <= m <= n,
            body_close_from(text@, q + 1) == body_close_from(text@, m as int),
        ensures
            body_close_from(text@, q as int + 1) is None,
        decreases n - m,
    {
        if n - m >= 3 {
            if text.get_char(m) == '|' && text.get_char(m + 1) == ']' && text.get_char(m + 2)
                == ']' {
                return Some((m, m + 3));
            }
        }
        if n - m >= 2 {
            if text.get_char(m) == ']' && text.get_char(m + 1) == ']' {
                return Some((m, m + 2));
            }
        }
        if m < n {
            if text.get_char(m) != '\n' {
                m = m + 1;
                continue ;
            }
        }
        break ;
    }
    None
}

fn find_stop(text: &str, p: usize) -> (r: usize)
    requires
        p <= text@.len(),
    ensures
        r as int == body_stop(text@, p as int),
        p <= r <= text@.len(),
{
    let n = text.unicode_len();
    let mut i: usize = p;
    loop
        invariant
            n == text@.len(),
            p <= i <= n,
            body_stop(text@, p as int) == body_stop(text@, i as int),
        ensures
            p <= i <= n,
            i as int == body_stop(text@, p as int),
        decreases n - i,
    {
        if i < n {
            if text.get_char(i) != '\n' {
                i = i + 1;
                continue ;
            }
        }
        break ;
    }
    i
}

fn try_alias(text: &str, p: usize) -> (r: Option<(usize, usize, usize)>)
    requires
        p <= text@.len(),
    ensures
        match r {
            Some(t3) => alias_split(text@, p as int, body_stop(text@, p as int) - 1) == Some(
                (t3.0 as int, t3.1 as int, t3.2 as int),
            ) && p < t3.0 && t3.0 < t3.1 && t3.1 + 2 <= t3.2 && t3.2 <= text@.len(),
            None => alias_split(text@, p as int, body_stop(text@, p as int) - 1) is None,
        },
{
    let stop = find_stop(text, p);
    if stop <= p {
        return None;
    }
    let mut k: usize = stop - 1;
    loop
        invariant
            p <= k,
            k <= stop - 1,
            p < stop <= text@.len(),
            stop as int == body_stop(text@, p as int),
            alias_split(text@, p as int, body_stop(text@, p as int) - 1) == alias_split(
                text@,
                p as int,
                k as int,
            ),
        ensures
            alias_split(text@, p as int, body_stop(text@, p as int) - 1) is None,
        decreases k,
    {
        if k <= p {
            break ;
        }
        if text.get_char(k) == '|' {
            match close_body(text, k + 1) {
                Some((m, e)) => {
                    return Some((k, m, e));
                },
                None => {},
            }
        }
        k = k - 1;
    }
    None
}

fn try_match(text: &str, s: usize) -> (r: Option<(Search, usize)>)
    requires
        s < text@.len(),
    ensures
        match r {
            Some(p2) => match_at(text@, s as int) == Some(
                SpecMatch { alias: p2.0@.alias, query: p2.0@.query, end: p2.1 as int },
            ) && s < p2.1 <= text@.len(),
            None => match_at(text@, s as int) is None,
        },
{
    let n = text.unicode_len();
    if n - s < 2 {
        return None;
    }
    if text.get_char(s) != '[' {
        return None;
    }
    if text.get_char(s + 1) != '[' {
        return None;
    }
    let p = s + 2;
    proof {
        lemma_alias_split_bounds(text@, p as int, body_stop(text@, p as int) - 1);
        lemma_body_close_bounds(text@, p as int);
    }
    match try_alias(text, p) {
        Some((k, m, e)) => {
            let alias = text.substring_char(p, k).to_owned();
            let q = text.substring_char(k + 1, m).to_owned();
            Some((Search { alias: Some(alias), query: q }, e))
        },
        None => match close_body(text, p) {
            Some((m, e)) => {
                let q = text.substring_char(p, m).to_owned();
                Some((Search { alias: None, query: q }, e))
            },
            None => None,
        },
    }
}

/// Scan `text` for bracketed queries and return them in left-to-right order
/// of first appearance.  Malformed or never-closed brackets are simply not
/// matched; a text with no well-formed match yields the empty list.
pub fn parse(text: &str) -> (r: Vec<Search>)
    ensures
        views_of(r@) == spec_parse(text@),
{
    let n = text.unicode_len();
    let mut out: Vec<Search> = Vec::new();
    let mut i: usize = 0;
    proof {
        assert(views_of(out@) =~= Seq::<SpecSearch>::empty());
        assert(views_of(out@) + spec_parse_from(text@, 0) =~= spec_parse_from(text@, 0));
    }
    while i < n
        invariant
            n == text@.len(),
            i <= n,
            spec_parse(text@) == views_of(out@) + spec_parse_from(text@, i as int),
        decreases n - i,
    {
        match try_match(text, i) {
            Some((srch, e)) => {
                proof {
                    let mm = match_at(text@, i as int)->Some_0;
                    assert(views_of(out@.push(srch)) =~= views_of(out@).push(srch@));
                    assert(views_of(out@).push(srch@) + spec_parse_from(text@, e as int)
                        =~= views_of(out@) + (Seq::empty().push(
                        SpecSearch { alias: mm.alias, query: mm.query },
                    ) + spec_parse_from(text@, e as int)));
                }
                out.push(srch);
                i = e;
            },
            None => {
                i = i + 1;
            },
        }
    }
    proof {
        assert(views_of(out@) + spec_parse_from(text@, n as int) =~= views_of(out@));
    }
    out
}

} // verus!
