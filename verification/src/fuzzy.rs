use vstd::prelude::*;
use fuzzy_matcher::FuzzyMatcher;
use fuzzy_matcher::skim::SkimMatcherV2;

verus! {

/// The match positions that the skim fuzzy matcher reports for a haystack
/// and a needle, or nothing where the needle does not match: named here
/// because the scoring algorithm is far too large to restate, and its
/// outcome is a function of the two strings alone.
pub uninterp spec fn fuzzy_indices_of(haystack: Seq<char>, needle: Seq<char>) -> Option<
    Seq<usize>,
>;

/// The score that the skim fuzzy matcher reports for a haystack and a
/// needle, or nothing where the needle does not match.
pub uninterp spec fn fuzzy_score_of(haystack: Seq<char>, needle: Seq<char>) -> Option<i64>;

/// Relies on fuzzy_matcher::skim::SkimMatcherV2::fuzzy_indices under the
/// default configuration (smart case, default scoring): the outcome depends
/// on the two strings alone.
#[verifier::external_body]
pub(crate) fn fuzzy_indices(haystack: &str, needle: &str) -> (r: Option<Vec<usize>>)
    ensures
        (r is Some) == (fuzzy_indices_of(haystack@, needle@) is Some),
        r is Some ==> r->Some_0@ == fuzzy_indices_of(haystack@, needle@)->Some_0,
{
    let matcher = SkimMatcherV2::default();
    matcher.fuzzy_indices(haystack, needle).map(|scored| scored.1)
}

/// Relies on fuzzy_matcher::skim::SkimMatcherV2::fuzzy_match under the
/// default configuration: the score depends on the two strings alone.
#[verifier::external_body]
pub(crate) fn fuzzy_score(haystack: &str, needle: &str) -> (r: Option<i64>)
    ensures
        r == fuzzy_score_of(haystack@, needle@),
{
    let matcher = SkimMatcherV2::default();
    matcher.fuzzy_match(haystack, needle)
}

} // verus!
