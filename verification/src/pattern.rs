//! Trusted boundary to the regex crate: pattern compilation, capture
//! extraction, and the spans of delimiter matches. Everything the rest of the
//! library knows about a compiled matcher is stated here.

use vstd::prelude::*;

verus! {

#[verifier::external_type_specification]
#[verifier::external_body]
pub struct ExRegex(regex::Regex);

/// The pattern text a compiled matcher was built from.
pub uninterp spec fn regex_spec(re: regex::Regex) -> Seq<char>;

/// Whether the regex crate accepts a pattern text.
pub uninterp spec fn pattern_ok(pattern: Seq<char>) -> bool;

/// The number of capture groups of a compiled pattern, the implicit
/// whole-match group included.
pub uninterp spec fn group_count_of(pattern: Seq<char>) -> int;

/// The captures yielded by running a compiled pattern against a text: `None`
/// when the pattern does not match, otherwise one entry per capture group —
/// the whole match first — with `None` for a group that did not participate.
pub uninterp spec fn captures_of(pattern: Seq<char>, text: Seq<char>) -> Option<
    Seq<Option<Seq<char>>>,
>;

/// The spans of the successive non-overlapping matches of a pattern in a
/// text, as character offsets into the text.
pub uninterp spec fn match_spans_of(pattern: Seq<char>, text: Seq<char>) -> Seq<(int, int)>;

/// The views of a vector of optionally captured texts.
pub open spec fn opt_texts(groups: Seq<Option<String>>) -> Seq<Option<Seq<char>>> {
    groups.map_values(
        |g: Option<String>|
            match g {
                Some(s) => Some(s@),
                None => None,
            },
    )
}

/// Match spans as mathematical pairs.
pub open spec fn spans_of(spans: Seq<(usize, usize)>) -> Seq<(int, int)> {
    spans.map_values(|p: (usize, usize)| (p.0 as int, p.1 as int))
}

/// Relies on regex::Regex::new: whether a pattern compiles, and the matcher
/// it compiles to, depend on the pattern text alone.
#[verifier::external_body]
pub(crate) fn regex_new(pat: &str) -> (r: Option<regex::Regex>)
    ensures
        r is Some <==> pattern_ok(pat@),
        r is Some ==> regex_spec(r.unwrap()) == pat@,
{
    regex::Regex::new(pat).ok()
}

/// Relies on regex::Regex::captures_len: the group count of a compiled
/// pattern, the implicit whole-match group included, a function of the
/// pattern alone.
#[verifier::external_body]
pub(crate) fn regex_group_count(re: &regex::Regex) -> (r: usize)
    ensures
        r as int == group_count_of(regex_spec(*re)),
{
    re.captures_len()
}

/// Relies on regex::Regex::captures: `Some` exactly when the pattern matches,
/// carrying one entry per capture group of the pattern (group 0 is the whole
/// match), `None` for a group that did not participate in the match. The
/// outcome depends on the pattern and the text alone.
#[verifier::external_body]
pub(crate) fn regex_captures(re: &regex::Regex, text: &str) -> (r: Option<Vec<Option<String>>>)
    ensures
        r is Some <==> captures_of(regex_spec(*re), text@) is Some,
        r is Some ==> opt_texts(r.unwrap()@) == captures_of(regex_spec(*re), text@).unwrap(),
        r is Some ==> r.unwrap()@.len() == group_count_of(regex_spec(*re)),
{
    re.captures(text).map(
        |caps| {
            let mut groups: Vec<Option<String>> = Vec::new();
            for g in caps.iter() {
                groups.push(g.map(|m| m.as_str().to_string()));
            }
            groups
        },
    )
}

/// Relies on regex::Regex::find_iter: the successive non-overlapping matches
/// of the pattern, in order of position; their byte offsets are converted to
/// character counts so that the spans index the text's character sequence.
/// The spans depend on the pattern and the text alone.
#[verifier::external_body]
pub(crate) fn regex_match_spans(re: &regex::Regex, text: &str) -> (r: Vec<(usize, usize)>)
    ensures
        spans_of(r@) == match_spans_of(regex_spec(*re), text@),
        forall|k: int|
            0 <= k < r@.len() ==> (#[trigger] r@[k]).0 <= r@[k].1 && r@[k].1 <= text@.len(),
        forall|k: int| 0 <= k < r@.len() - 1 ==> (#[trigger] r@[k]).1 <= r@[k + 1].0,
{
    let mut spans: Vec<(usize, usize)> = Vec::new();
    for m in re.find_iter(text) {
        let start = text[..m.start()].chars().count();
        let end = text[..m.end()].chars().count();
        spans.push((start, end));
    }
    spans
}

} // verus!
