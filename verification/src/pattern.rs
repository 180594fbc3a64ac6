//! Regular expressions, as far as prompt templates need them.
//!
//! Matching is done by the `regex` crate. Its results are not re-derived here:
//! each is given a name, and the functions of this module promise only that
//! the crate's answer for a pattern and a text is the one those names stand
//! for.

use vstd::prelude::*;

verus! {

/// A compiled regular expression of the `regex` crate.
#[verifier::external_type_specification]
#[verifier::external_body]
pub struct ExRegex(regex::Regex);

/// Whether `regex::Regex::new` accepts `pattern`.
pub uninterp spec fn pattern_compiles(pattern: Seq<char>) -> bool;

/// The text of the error with which `regex::Regex::new` rejects `pattern`.
pub uninterp spec fn pattern_rejection(pattern: Seq<char>) -> Seq<char>;

/// The pattern text that a compiled expression was built from
/// (`regex::Regex::as_str`).
pub uninterp spec fn pattern_source(re: regex::Regex) -> Seq<char>;

/// The non-overlapping matches of `pattern` in `text`, in order, each as the
/// byte offsets of its start and its end in the UTF-8 form of `text`
/// (`regex::Regex::find_iter`, `regex::Match::start`, `regex::Match::end`).
pub uninterp spec fn pattern_spans(pattern: Seq<char>, text: Seq<char>) -> Seq<(usize, usize)>;

/// For each non-overlapping match of `pattern` in `text`, in order, the texts
/// of its first and second capture groups; `None` for a group that took no
/// part in the match (`regex::Regex::captures_iter`, `regex::Captures::get`).
pub uninterp spec fn pattern_captures(pattern: Seq<char>, text: Seq<char>) -> Seq<
    (Option<Seq<char>>, Option<Seq<char>>),
>;

/// One captured pair as character sequences.
pub open spec fn pair_view(pair: (Option<String>, Option<String>)) -> (
    Option<Seq<char>>,
    Option<Seq<char>>,
) {
    (
        match pair.0 {
            Some(first) => Some(first@),
            None => None,
        },
        match pair.1 {
            Some(second) => Some(second@),
            None => None,
        },
    )
}

/// Captured pairs as character sequences.
pub open spec fn pairs_view(pairs: Seq<(Option<String>, Option<String>)>) -> Seq<
    (Option<Seq<char>>, Option<Seq<char>>),
> {
    Seq::new(pairs.len(), |i: int| pair_view(pairs[i]))
}

/// Calls `regex::Regex::new`, and turns a rejection into its displayed text.
/// Trusted: the call succeeds exactly on the patterns that `pattern_compiles`
/// names, the expression it returns remembers the pattern it was built from,
/// and a rejection carries the text that `pattern_rejection` names.
#[verifier::external_body]
pub(crate) fn compile(pattern: &str) -> (r: Result<regex::Regex, String>)
    ensures
        r is Ok <==> pattern_compiles(pattern@),
        r matches Ok(re) ==> pattern_source(re) == pattern@,
        r matches Err(text) ==> text@ == pattern_rejection(pattern@),
{
    regex::Regex::new(pattern).map_err(|error| error.to_string())
}

/// Calls `regex::Regex::find_iter` and reads each match's
/// `regex::Match::start` and `regex::Match::end`. Trusted: the offsets are the
/// ones that `pattern_spans` names for the pattern that `re` was compiled
/// from.
#[verifier::external_body]
pub(crate) fn find_spans(re: &regex::Regex, text: &str) -> (r: Vec<(usize, usize)>)
    ensures
        r@ == pattern_spans(pattern_source(*re), text@),
{
    re.find_iter(text).map(|found| (found.start(), found.end())).collect()
}

/// Calls `regex::Regex::captures_iter` and reads groups 1 and 2 of each match
/// with `regex::Captures::get`. Trusted: the pairs are the ones that
/// `pattern_captures` names for the pattern that `re` was compiled from.
#[verifier::external_body]
pub(crate) fn capture_pairs(re: &regex::Regex, text: &str) -> (r: Vec<
    (Option<String>, Option<String>),
>)
    ensures
        pairs_view(r@) == pattern_captures(pattern_source(*re), text@),
{
    re.captures_iter(text).map(
        |found| (
            found.get(1).map(|group| group.as_str().to_string()),
            found.get(2).map(|group| group.as_str().to_string()),
        ),
    ).collect()
}

} // verus!
