//! What the address bar loads for the text typed into it.
use vstd::prelude::*;
use vstd::string::{StrSliceExecFns, StringExecFns};
use crate::intercept::{parse_url, url_parts};

verus! {

/// The search engine queried for text that is neither a URL nor a domain.
pub const SEARCH_URL_PREFIX: &'static str = "https://duckduckgo.com/?q=";

/// The scheme put in front of text that looks like a domain.
pub const DEFAULT_SCHEME_PREFIX: &'static str = "https://";

/// The text with every space turned into a `+`.
pub open spec fn spaces_to_plus(s: Seq<char>) -> Seq<char> {
    s.map_values(|c: char| if c == ' ' { '+' } else { c })
}

/// What to load for `text`: nothing for empty text; the text itself where it
/// parses as a URL; the text behind `https://` where it has a dot and no
/// space; else a search for it.
pub open spec fn entry_target(text: Seq<char>) -> Option<Seq<char>> {
    if text.len() == 0 {
        None
    } else if url_parts(text) is Some {
        Some(text)
    } else if text.contains('.') && !text.contains(' ') {
        Some(DEFAULT_SCHEME_PREFIX@ + text)
    } else {
        Some(SEARCH_URL_PREFIX@ + spaces_to_plus(text))
    }
}

fn contains_char(text: &str, c: char) -> (r: bool)
    ensures
        r == text@.contains(c),
{
    let n = text.unicode_len();
    let mut i: usize = 0;
    while i < n
        invariant
            i <= n,
            n == text@.len(),
            forall|k: int| 0 <= k < i ==> text@[k] != c,
        decreases n - i,
    {
        if text.get_char(i) == c {
            return true;
        }
        i = i + 1;
    }
    false
}

fn replace_spaces(text: &str) -> (r: String)
    ensures
        r@ == spaces_to_plus(text@),
{
    let n = text.unicode_len();
    let mut out = String::new();
    let mut i: usize = 0;
    while i < n
        invariant
            i <= n,
            n == text@.len(),
            out@ == spaces_to_plus(text@.subrange(0, i as int)),
        decreases n - i,
    {
        let ghost before = out@;
        if text.get_char(i) == ' ' {
            out.append("+");
            proof {
                reveal_strlit("+");
            }
        } else {
            out.append(text.substring_char(i, i + 1));
        }
        assert(text@.subrange(0, i + 1) =~= text@.subrange(0, i as int).push(text@[i as int]));
        assert(out@ =~= spaces_to_plus(text@.subrange(0, i + 1)));
        i = i + 1;
    }
    assert(text@.subrange(0, n as int) =~= text@);
    out
}

/// The URI that activating the address bar loads for the typed text, or
/// `None` where there is nothing to load.
pub fn search_entry_activate(text: &str) -> (r: Option<String>)
    ensures
        match r {
            Some(u) => entry_target(text@) == Some(u@),
            None => entry_target(text@) is None,
        },
{
    if text.is_empty() {
        return None;
    }
    if parse_url(text).is_some() {
        return Some(String::from_str(text));
    }
    if contains_char(text, '.') && !contains_char(text, ' ') {
        return Some(String::from_str(DEFAULT_SCHEME_PREFIX).concat(text));
    }
    let query = replace_spaces(text);
    Some(String::from_str(SEARCH_URL_PREFIX).concat(query.as_str()))
}

} // verus!
