//! Pattern-based field extraction from raw response bodies: the search
//! response's `"title":"…"` value, the extract response's `"extract":"…"`
//! value, and a page's Open-Graph `<meta property="og:image" content="…">`
//! thumbnail URL.  Each pattern captures the shortest value up to the next
//! structurally significant delimiter; for the extract value a closing quote
//! may be preceded by a literal backslash, which is absorbed so that a
//! trailing half-written escape never reaches the decoder.  A missing
//! pattern yields nothing — never an error.

use vstd::prelude::*;
use vstd::string::StrSliceExecFns;

verus! {

/// What `unescape::unescape` returns on `s`: the escape-decoded form, or
/// nothing when `s` holds a malformed or dangling escape.  The result is a
/// function of the input characters alone.
pub uninterp spec fn unescaped(s: Seq<char>) -> Option<Seq<char>>;

/// Relies on `unescape::unescape`: decodes literal escape sequences (`\n`,
/// `\t`, `\uXXXX`, hex and octal forms) into their characters, returning
/// `None` on a malformed or dangling escape.
#[verifier::external_body]
fn unescape_text(s: &str) -> (r: Option<String>)
    ensures
        match r {
            Some(v) => unescaped(s@) == Some(v@),
            None => unescaped(s@) is None,
        },
{
    unescape::unescape(s)
}

/// `pat` stands at position `i` of `text`.
pub open spec fn starts_at(text: Seq<char>, i: int, pat: Seq<char>) -> bool {
    &&& 0 <= i
    &&& i + pat.len() <= text.len()
    &&& text.subrange(i, i + pat.len()) == pat
}

/// The earliest position at or past `m` where a plain closing quote stands,
/// scanning over value characters only (a line break ends the scan).
pub open spec fn quote_close_from(text: Seq<char>, m: int) -> Option<int>
    decreases text.len() - m,
{
    if 0 <= m < text.len() {
        if text[m] == '"' {
            Some(m)
        } else if text[m] != '\n' {
            quote_close_from(text, m + 1)
        } else {
            None
        }
    } else {
        None
    }
}

/// The earliest position at or past `m` where the extract value closes:
/// either a quote, or a backslash directly before a quote (the backslash is
/// absorbed, not captured).
pub open spec fn esc_close_from(text: Seq<char>, m: int) -> Option<int>
    decreases text.len() - m,
{
    if 0 <= m < text.len() {
        if text[m] == '\\' && m + 1 < text.len() && text[m + 1] == '"' {
            Some(m)
        } else if text[m] == '"' {
            Some(m)
        } else if text[m] != '\n' {
            esc_close_from(text, m + 1)
        } else {
            None
        }
    } else {
        None
    }
}

/// The shortest non-empty value starting at `q` and ending at the next
/// plain closing quote.
pub open spec fn quoted_capture(text: Seq<char>, q: int) -> Option<Seq<char>> {
    if 0 <= q < text.len() && text[q] != '\n' {
        match quote_close_from(text, q + 1) {
            Some(m) => Some(text.subrange(q, m)),
            None => None,
        }
    } else {
        None
    }
}

/// The shortest non-empty value starting at `q` and ending at the next
/// closing quote, a backslash before the quote absorbed.
pub open spec fn esc_capture(text: Seq<char>, q: int) -> Option<Seq<char>> {
    if 0 <= q < text.len() && text[q] != '\n' {
        match esc_close_from(text, q + 1) {
            Some(m) => Some(text.subrange(q, m)),
            None => None,
        }
    } else {
        None
    }
}

/// The value of the first occurrence of `pat`, scanning from `i`, that a
/// plain-quoted capture follows; occurrences whose value never closes are
/// passed over.
pub open spec fn spec_find_quoted(text: Seq<char>, pat: Seq<char>, i: int) -> Option<Seq<char>>
    decreases text.len() - i,
    when 0 <= i && pat.len() > 0
{
    if i + pat.len() > text.len() {
        None
    } else if starts_at(text, i, pat) && quoted_capture(text, i + pat.len()) is Some {
        quoted_capture(text, i + pat.len())
    } else {
        spec_find_quoted(text, pat, i + 1)
    }
}

/// The value of the first occurrence of `pat`, scanning from `i`, that an
/// escape-aware capture follows.
pub open spec fn spec_find_esc(text: Seq<char>, pat: Seq<char>, i: int) -> Option<Seq<char>>
    decreases text.len() - i,
    when 0 <= i && pat.len() > 0
{
    if i + pat.len() > text.len() {
        None
    } else if starts_at(text, i, pat) && esc_capture(text, i + pat.len()) is Some {
        esc_capture(text, i + pat.len())
    } else {
        spec_find_esc(text, pat, i + 1)
    }
}

/// The raw title of the best search match in a search response body.
pub open spec fn spec_extract_title(body: Seq<char>) -> Option<Seq<char>> {
    spec_find_quoted(body, "\"title\":\""@, 0)
}

/// The decoded plain-text excerpt in an extract response body: nothing when
/// the pattern is missing or the captured value does not decode.
pub open spec fn spec_extract_summary(body: Seq<char>) -> Option<Seq<char>> {
    match spec_find_esc(body, "\"extract\":\""@, 0) {
        Some(cap) => unescaped(cap),
        None => None,
    }
}

/// The decoded Open-Graph thumbnail URL in a page body: nothing when the
/// pattern is missing or the captured value does not decode.
pub open spec fn spec_extract_thumbnail(body: Seq<char>) -> Option<Seq<char>> {
    match spec_find_quoted(body, "<meta property=\"og:image\" content=\""@, 0) {
        Some(cap) => unescaped(cap),
        None => None,
    }
}

fn has_prefix_at(text: &str, i: usize, pat: &str) -> (r: bool)
    requires
        i <= text@.len(),
    ensures
        r == starts_at(text@, i as int, pat@),
{
    let n = text.unicode_len();
    let pl = pat.unicode_len();
    if n - i < pl {
        return false;
    }
    let mut j: usize = 0;
    while j < pl
        invariant
            n == text@.len(),
            pl == pat@.len(),
            i + pl <= n,
            j <= pl,
            forall|k: int| 0 <= k < j ==> text@[i + k] == pat@[k],
        decreases pl - j,
    {
        if text.get_char(i + j) != pat.get_char(j) {
            proof {
                if starts_at(text@, i as int, pat@) {
                    assert(text@.subrange(i as int, i + pat@.len())[j as int] == text@[i + j]);
                    assert(false);
                }
            }
            return false;
        }
        j = j + 1;
    }
    proof {
        assert(text@.subrange(i as int, i + pat@.len()) =~= pat@);
    }
    true
}

fn find_quote_close(text: &str, q0: usize) -> (r: Option<usize>)
    requires
        q0 <= text@.len(),
    ensures
        match r {
            Some(m) => quote_close_from(text@, q0 as int) == Some(m as int) && q0 <= m
                < text@.len(),
            None => quote_close_from(text@, q0 as int) is None,
        },
{
    let n = text.unicode_len();
    let mut m: usize = q0;
    loop
        invariant
            n == text@.len(),
            q0 <= m <= n,
            quote_close_from(text@, q0 as int) == quote_close_from(text@, m as int),
        ensures
            quote_close_from(text@, q0 as int) is None,
        decreases n - m,
    {
        if m < n {
            let c = text.get_char(m);
            if c == '"' {
                return Some(m);
            }
            if c != '\n' {
                m = m + 1;
                continue ;
            }
        }
        break ;
    }
    None
}

fn find_esc_close(text: &str, q0: usize) -> (r: Option<usize>)
    requires
        q0 <= text@.len(),
    ensures
        match r {
            Some(m) => esc_close_from(text@, q0 as int) == Some(m as int) && q0 <= m
                < text@.len(),
            None => esc_close_from(text@, q0 as int) is None,
        },
{
    let n = text.unicode_len();
    let mut m: usize = q0;
    loop
        invariant
            n == text@.len(),
            q0 <= m <= n,
            esc_close_from(text@, q0 as int) == esc_close_from(text@, m as int),
        ensures
            esc_close_from(text@, q0 as int) is None,
        decreases n - m,
    {
        if m < n {
            let c = text.get_char(m);
            if c == '\\' {
                if m + 1 < n {
                    if text.get_char(m + 1) == '"' {
                        return Some(m);
                    }
                }
                m = m + 1;
                continue ;
            }
            if c == '"' {
                return Some(m);
            }
            if c != '\n' {
                m = m + 1;
                continue ;
            }
        }
        break ;
    }
    None
}

fn capture_quoted(text: &str, q: usize) -> (r: Option<String>)
    requires
        q <= text@.len(),
    ensures
        match r {
            Some(v) => quoted_capture(text@, q as int) == Some(v@),
            None => quoted_capture(text@, q as int) is None,
        },
{
    let n = text.unicode_len();
    if q >= n {
        return None;
    }
    if text.get_char(q) == '\n' {
        return None;
    }
    match find_quote_close(text, q + 1) {
        Some(m) => Some(text.substring_char(q, m).to_owned()),
        None => None,
    }
}

fn capture_esc(text: &str, q: usize) -> (r: Option<String>)
    requires
        q <= text@.len(),
    ensures
        match r {
            Some(v) => esc_capture(text@, q as int) == Some(v@),
            None => esc_capture(text@, q as int) is None,
        },
{
    let n = text.unicode_len();
    if q >= n {
        return None;
    }
    if text.get_char(q) == '\n' {
        return None;
    }
    match find_esc_close(text, q + 1) {
        Some(m) => Some(text.substring_char(q, m).to_owned()),
        None => None,
    }
}

fn find_quoted(text: &str, pat: &str) -> (r: Option<String>)
    requires
        pat@.len() > 0,
    ensures
        match r {
            Some(v) => spec_find_quoted(text@, pat@, 0) == Some(v@),
            None => spec_find_quoted(text@, pat@, 0) is None,
        },
{
    let n = text.unicode_len();
    let pl = pat.unicode_len();
    let mut i: usize = 0;
    loop
        invariant
            n == text@.len(),
            pl == pat@.len(),
            pl > 0,
            i <= n,
            spec_find_quoted(text@, pat@, 0) == spec_find_quoted(text@, pat@, i as int),
        ensures
            spec_find_quoted(text@, pat@, 0) is None,
        decreases n - i,
    {
        if n - i < pl {
            break ;
        }
        if has_prefix_at(text, i, pat) {
            match capture_quoted(text, i + pl) {
                Some(v) => {
                    return Some(v);
                },
                None => {},
            }
        }
        i = i + 1;
    }
    None
}

fn find_esc(text: &str, pat: &str) -> (r: Option<String>)
    requires
        pat@.len() > 0,
    ensures
        match r {
            Some(v) => spec_find_esc(text@, pat@, 0) == Some(v@),
            None => spec_find_esc(text@, pat@, 0) is None,
        },
{
    let n = text.unicode_len();
    let pl = pat.unicode_len();
    let mut i: usize = 0;
    loop
        invariant
            n == text@.len(),
            pl == pat@.len(),
            pl > 0,
            i <= n,
            spec_find_esc(text@, pat@, 0) == spec_find_esc(text@, pat@, i as int),
        ensures
            spec_find_esc(text@, pat@, 0) is None,
        decreases n - i,
    {
        if n - i < pl {
            break ;
        }
        if has_prefix_at(text, i, pat) {
            match capture_esc(text, i + pl) {
                Some(v) => {
                    return Some(v);
                },
                None => {},
            }
        }
        i = i + 1;
    }
    None
}

/// Extract the best-match title from a search response body.  A body
/// without the title pattern yields nothing — never an error.
pub fn extract_title(body: &str) -> (r: Option<String>)
    ensures
        match r {
            Some(v) => spec_extract_title(body@) == Some(v@),
            None => spec_extract_title(body@) is None,
        },
{
    proof {
        reveal_strlit("\"title\":\"");
    }
    find_quoted(body, "\"title\":\"")
}

/// Extract and decode the plain-text excerpt from an extract response body.
/// A missing pattern or an undecodable value yields nothing.
pub fn extract_summary(body: &str) -> (r: Option<String>)
    ensures
        match r {
            Some(v) => spec_extract_summary(body@) == Some(v@),
            None => spec_extract_summary(body@) is None,
        },
{
    proof {
        reveal_strlit("\"extract\":\"");
    }
    match find_esc(body, "\"extract\":\"") {
        Some(cap) => unescape_text(cap.as_str()),
        None => None,
    }
}

/// Extract and decode the Open-Graph thumbnail URL from a page body.  A
/// missing pattern or an undecodable value yields nothing.
pub fn extract_thumbnail(body: &str) -> (r: Option<String>)
    ensures
        match r {
            Some(v) => spec_extract_thumbnail(body@) == Some(v@),
            None => spec_extract_thumbnail(body@) is None,
        },
{
    proof {
        reveal_strlit("<meta property=\"og:image\" content=\"");
    }
    match find_quoted(body, "<meta property=\"og:image\" content=\"") {
        Some(cap) => unescape_text(cap.as_str()),
        None => None,
    }
}

} // verus!
