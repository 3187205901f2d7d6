use vstd::prelude::*;

verus! {

/// What the fuzzy scorer returns for a pattern and a candidate text:
/// a ranking score, or no score where the candidate does not match.
/// The result is a function of the two strings alone.
pub uninterp spec fn fuzzy_score_of(pattern: Seq<char>, candidate: Seq<char>) -> Option<u32>;

/// Relies on `nucleo_matcher::pattern::Pattern::{parse, score}` with
/// `CaseMatching::Ignore`, `Normalization::Smart` and the default
/// matcher configuration: the score is computed case-insensitively
/// from the pattern and the candidate text alone, `None` meaning the
/// candidate does not match the pattern.
#[verifier::external_body]
pub(crate) fn fuzzy_score(pattern: &str, candidate: &str) -> (r: Option<u32>)
    ensures
        r == fuzzy_score_of(pattern@, candidate@),
{
    let pat = nucleo_matcher::pattern::Pattern::parse(
        pattern,
        nucleo_matcher::pattern::CaseMatching::Ignore,
        nucleo_matcher::pattern::Normalization::Smart,
    );
    let mut matcher = nucleo_matcher::Matcher::new(nucleo_matcher::Config::DEFAULT);
    let mut buf = Vec::new();
    pat.score(nucleo_matcher::Utf32Str::new(candidate, &mut buf), &mut matcher)
}

} // verus!
