//! Regular-expression matching, done by `regex_lite`.
use vstd::prelude::*;

verus! {

/// Whether `pattern` compiles as a regular expression (`None` when it does not) and,
/// when it does, whether it matches somewhere in `text`.
pub uninterp spec fn regex_match_of(pattern: Seq<char>, text: Seq<char>) -> Option<bool>;

/// `regex_lite::Regex::new(pattern)` followed by `is_match(text)`.  The contract names
/// the outcome `regex_match_of(pattern, text)`: `None` when the pattern does not
/// compile.  Which texts a pattern matches is left unsaid.
#[verifier::external_body]
pub(crate) fn regex_is_match(pattern: &str, text: &str) -> (r: Option<bool>)
    ensures
        r == regex_match_of(pattern@, text@),
{
    match regex_lite::Regex::new(pattern) {
        Ok(re) => Some(re.is_match(text)),
        Err(_) => None,
    }
}

/// The successive non-overlapping matches of `pattern` in `text` (`None` when the
/// pattern does not compile): for each, the byte span of the whole match and the text
/// of the first group, where they took part in it.
pub uninterp spec fn regex_captures_of(pattern: Seq<char>, text: Seq<char>)
    -> Option<Seq<(Option<(usize, usize)>, Option<Seq<char>>)>>;

/// The view of what `regex_captures` returns.
pub open spec fn captures_view(r: Option<Vec<(Option<(usize, usize)>, Option<String>)>>)
    -> Option<Seq<(Option<(usize, usize)>, Option<Seq<char>>)>>
{
    match r {
        Some(v) => Some(v@.map_values(|c: (Option<(usize, usize)>, Option<String>)| (c.0, match c.1 {
            Some(s) => Some(s@),
            None => None,
        }))),
        None => None,
    }
}

/// `regex_lite::Regex::new(pattern)` followed by `captures_iter(text)`, each capture
/// taken as the span of group 0 and the text of group 1.  The contract names the
/// outcome `regex_captures_of(pattern, text)`; what the matches are is left unsaid.
#[verifier::external_body]
pub(crate) fn regex_captures(pattern: &str, text: &str) -> (r: Option<Vec<(Option<(usize, usize)>, Option<String>)>>)
    ensures
        captures_view(r) == regex_captures_of(pattern@, text@),
{
    match regex_lite::Regex::new(pattern) {
        Ok(re) => Some(re.captures_iter(text).map(|c| (
            c.get(0).map(|m| (m.start(), m.end())),
            c.get(1).map(|m| m.as_str().to_string()),
        )).collect()),
        Err(_) => None,
    }
}

} // verus!
