use vstd::prelude::*;
use crate::text::{to_chars, string_from_chars, words, split_whitespace};

verus! {

/// Pattern of a quoted phrase in a search query: the shortest text between
/// two double quotes.
pub open spec fn quoted_phrase_pattern() -> Seq<char> {
    "\"(.*?)\""@
}

/// Position of the first `"` of `s` at or after `from`, or `s.len()` when
/// there is none.
pub open spec fn next_quote(s: Seq<char>, from: int) -> int
    decreases s.len() - from,
{
    if from >= s.len() {
        s.len() as int
    } else if s[from] == '"' {
        from
    } else {
        next_quote(s, from + 1)
    }
}

/// The texts between quotes that the quoted-phrase pattern finds in `s`,
/// searching from the left: at a `"`, the text up to the next `"` when no
/// line break comes before it (the pattern's `.` matches no line break),
/// the search going on after that closing quote; otherwise the search goes
/// on from the next character.
pub open spec fn quoted_phrases(s: Seq<char>) -> Seq<Seq<char>>
    decreases s.len(),
{
    if s.len() == 0 {
        seq![]
    } else {
        let q = next_quote(s, 1);
        if s[0] == '"' && 1 <= q < s.len() && !s.subrange(1, q).contains('\n') {
            seq![s.subrange(1, q)] + quoted_phrases(s.skip(q + 1))
        } else {
            quoted_phrases(s.skip(1))
        }
    }
}

/// `Regex::new(pattern)` then `captures_iter(haystack)`, keeping the text of
/// capture group 1 of each match. Only the quoted-phrase pattern is given,
/// which compiles and whose group 1 takes part in every match; the contract
/// states what that pattern's successive matches capture.
#[verifier::external_body]
fn quoted_captures(pattern: &str, haystack: &str) -> (r: Vec<String>)
    requires
        pattern@ == quoted_phrase_pattern(),
    ensures
        r@.map_values(|s: String| s@) == quoted_phrases(haystack@),
{
    regex::Regex::new(pattern).unwrap().captures_iter(haystack).map(|c| c[1].to_string()).collect()
}

/// A search query with its quoted phrases and negated words.
#[derive(Debug, Clone)]
pub struct ParsedQuery {
    pub query: String,
    pub quote_words: Option<Vec<String>>,
    pub negated_words: Option<Vec<String>>,
}

/// `s` without its backslashes.
pub open spec fn without_backslashes(s: Seq<char>) -> Seq<char> {
    s.filter(|c: char| c != '\\')
}

/// The quoted phrases kept from the captures: the non-empty ones, or `None`
/// when none is left.
pub open spec fn quote_words_spec(captures: Seq<Seq<char>>) -> Option<Seq<Seq<char>>> {
    let kept = captures.filter(|w: Seq<char>| w.len() > 0);
    if kept.len() == 0 { None } else { Some(kept) }
}

/// The negated words of a query: each word that starts with `-`, without
/// that `-` (a lone `-` gives the empty word); `None` when there is none.
pub open spec fn negated_words_spec(query: Seq<char>) -> Option<Seq<Seq<char>>> {
    let neg = words(query).filter(|w: Seq<char>| w.len() > 0 && w[0] == '-').map_values(|w: Seq<char>| w.drop_first());
    if neg.len() == 0 { None } else { Some(neg) }
}

fn remove_backslashes(s: &Vec<char>) -> (out: Vec<char>)
    ensures
        out@ == without_backslashes(s@),
{
    let mut out: Vec<char> = Vec::new();
    let mut i: usize = 0;
    while i < s.len()
        invariant
            i <= s@.len(),
            out@ == without_backslashes(s@.take(i as int)),
        decreases s.len() - i,
    {
        proof {
            reveal_with_fuel(Seq::<_>::filter, 1);
            assert(s@.take(i + 1).drop_last() =~= s@.take(i as int));
        }
        if s[i] != '\\' {
            out.push(s[i]);
        }
        i = i + 1;
    }
    assert(s@.take(s@.len() as int) =~= s@);
    out
}

/// Builds the parsed query from the query text and the captures of quoted
/// phrases found in it.
pub fn parsed_query_from_captures(query: String, captures: Vec<String>) -> (p: ParsedQuery)
    ensures
        p.query@ == query@,
        match quote_words_spec(captures@.map_values(|s: String| s@)) {
            Some(q) => p.quote_words matches Some(v) && v@.map_values(|s: String| s@) == q,
            None => p.quote_words is None,
        },
        match negated_words_spec(query@) {
            Some(n) => p.negated_words matches Some(v) && v@.map_values(|s: String| s@) == n,
            None => p.negated_words is None,
        },
{
    let ghost cv = captures@.map_values(|s: String| s@);
    let mut quotes: Vec<String> = Vec::new();
    let mut i: usize = 0;
    while i < captures.len()
        invariant
            i <= captures@.len(),
            cv == captures@.map_values(|s: String| s@),
            quotes@.map_values(|s: String| s@) == cv.take(i as int).filter(|w: Seq<char>| w.len() > 0),
        decreases captures.len() - i,
    {
        proof {
            reveal_with_fuel(Seq::<_>::filter, 1);
            assert(cv.take(i + 1).drop_last() =~= cv.take(i as int));
            assert(cv.take(i + 1).last() == captures@[i as int]@);
        }
        if !captures[i].as_str().is_empty() {
            let ghost before = quotes@;
            quotes.push(captures[i].clone());
            assert(quotes@.map_values(|s: String| s@) =~= before.map_values(|s: String| s@).push(captures@[i as int]@));
        }
        i = i + 1;
    }
    assert(cv.take(captures@.len() as int) =~= cv);
    let qc = to_chars(query.as_str());
    let ws = split_whitespace(&qc);
    let ghost wv = words(query@);
    let mut neg: Vec<String> = Vec::new();
    let mut k: usize = 0;
    while k < ws.len()
        invariant
            k <= ws@.len(),
            wv == words(query@),
            qc@ == query@,
            ws@.len() == wv.len(),
            forall|m: int| 0 <= m < ws@.len() ==> #[trigger] ws@[m]@ == wv[m],
            neg@.map_values(|s: String| s@) == wv.take(k as int).filter(|w: Seq<char>| w.len() > 0 && w[0] == '-').map_values(|w: Seq<char>| w.drop_first()),
        decreases ws.len() - k,
    {
        proof {
            reveal_with_fuel(Seq::<_>::filter, 1);
            assert(wv.take(k + 1).drop_last() =~= wv.take(k as int));
            assert(wv.take(k + 1).last() == ws@[k as int]@);
        }
        let w = &ws[k];
        if w.len() > 0 && w[0] == '-' {
            let rest = crate::text::slice_chars(w, 1, w.len());
            let ghost before = neg@;
            neg.push(string_from_chars(&rest));
            assert(rest@ =~= w@.drop_first());
            assert(neg@.map_values(|s: String| s@) =~= before.map_values(|s: String| s@).push(w@.drop_first()));
        }
        k = k + 1;
    }
    assert(wv.take(ws@.len() as int) =~= wv);
    let quote_words = if quotes.len() == 0 { None } else { Some(quotes) };
    let negated_words = if neg.len() == 0 { None } else { Some(neg) };
    ParsedQuery { query, quote_words, negated_words }
}

/// Parses a search query: the quoted phrases are found in the query with its
/// backslashes removed, the negated words in the query as given.
pub fn parse_query(query: String) -> (p: ParsedQuery)
    ensures
        p.query@ == query@,
        match quote_words_spec(quoted_phrases(without_backslashes(query@))) {
            Some(q) => p.quote_words matches Some(v) && v@.map_values(|s: String| s@) == q,
            None => p.quote_words is None,
        },
        match negated_words_spec(query@) {
            Some(n) => p.negated_words matches Some(v) && v@.map_values(|s: String| s@) == n,
            None => p.negated_words is None,
        },
{
    let qc = to_chars(query.as_str());
    let cleaned = string_from_chars(&remove_backslashes(&qc));
    let captures = quoted_captures("\"(.*?)\"", cleaned.as_str());
    parsed_query_from_captures(query, captures)
}

} // verus!
