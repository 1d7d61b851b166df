//! The filter predicate: a record survives when its message contains
//! every required term and none of the excluded terms, with optional
//! case folding of both sides.

use vstd::prelude::*;

use crate::problem::Problem;
use crate::text::contains_term;
use crate::text::has_substring;

verus! {

/// What `str::to_lowercase` returns for the given characters; the
/// result depends on the characters alone.
pub uninterp spec fn lower_of(s: Seq<char>) -> Seq<char>;

/// Relies on str::to_lowercase: Unicode lowercase mapping of every
/// character, depending on the characters alone.
#[verifier::external_body]
fn lowercase(s: &str) -> (r: String)
    ensures
        r@ == lower_of(s@),
{
    s.to_lowercase()
}

/// The text as the filter compares it: lowercased when case is
/// ignored, unchanged otherwise.
pub open spec fn fold_case(s: Seq<char>, ignore_case: bool) -> Seq<char> {
    if ignore_case {
        lower_of(s)
    } else {
        s
    }
}

/// Every required term occurs in the message (vacuously true when no
/// term is required).
pub open spec fn all_terms_present(msg: Seq<char>, terms: Seq<Seq<char>>, ignore_case: bool) -> bool {
    forall|k: int|
        0 <= k < terms.len() ==> has_substring(
            fold_case(msg, ignore_case),
            fold_case(terms[k], ignore_case),
        )
}

/// No excluded term occurs in the message (vacuously true when no term
/// is excluded).
pub open spec fn no_term_present(msg: Seq<char>, terms: Seq<Seq<char>>, ignore_case: bool) -> bool {
    forall|k: int|
        0 <= k < terms.len() ==> !has_substring(
            fold_case(msg, ignore_case),
            fold_case(terms[k], ignore_case),
        )
}

/// The whole predicate: the required side and the excluded side must
/// both hold.
pub open spec fn problem_matches(
    msg: Seq<char>,
    required: Seq<Seq<char>>,
    excluded: Seq<Seq<char>>,
    ignore_case: bool,
) -> bool {
    all_terms_present(msg, required, ignore_case) && no_term_present(msg, excluded, ignore_case)
}

/// The run's options: the input path, the two term lists, and the three
/// output flags.
pub struct CliProblemApp {
    /// Path of the JSON input file (used only by the caller that reads it).
    pub input: String,
    /// Terms that must all occur in a surviving record's message.
    pub required_terms: Vec<String>,
    /// Terms none of which may occur in a surviving record's message.
    pub excluded_terms: Vec<String>,
    /// Case-fold both the message and every term before comparing.
    pub ignore_case: bool,
    /// Print only the counts, not the table (human-readable mode only).
    pub count_only: bool,
    /// Emit JSON instead of the human-readable report.
    pub json: bool,
}

impl CliProblemApp {
    /// At least one filter criterion was supplied.
    pub fn terms_supplied(&self) -> (r: bool)
        ensures
            r == (self.required_terms@.len() > 0 || self.excluded_terms@.len() > 0),
    {
        self.required_terms.len() > 0 || self.excluded_terms.len() > 0
    }

    /// Decides whether one record survives the filter.
    pub fn filter_problem(&self, problem: &Problem) -> (r: bool)
        ensures
            r == problem_matches(
                problem.message@,
                self.required_terms.deep_view(),
                self.excluded_terms.deep_view(),
                self.ignore_case,
            ),
    {
        let message: String = if self.ignore_case {
            lowercase(problem.message.as_str())
        } else {
            problem.message.clone()
        };
        assert(message@ == fold_case(problem.message@, self.ignore_case));
        let ghost folded = fold_case(problem.message@, self.ignore_case);
        let mut k: usize = 0;
        while k < self.required_terms.len()
            invariant
                message@ == folded,
                folded == fold_case(problem.message@, self.ignore_case),
                k <= self.required_terms.len(),
                forall|t: int|
                    0 <= t < k ==> has_substring(
                        folded,
                        fold_case(self.required_terms.deep_view()[t], self.ignore_case),
                    ),
            decreases self.required_terms.len() - k,
        {
            let term: String = if self.ignore_case {
                lowercase(self.required_terms[k].as_str())
            } else {
                self.required_terms[k].clone()
            };
            if !contains_term(message.as_str(), term.as_str()) {
                assert(!has_substring(
                    folded,
                    fold_case(self.required_terms.deep_view()[k as int], self.ignore_case),
                ));
                return false;
            }
            k += 1;
        }
        let mut k: usize = 0;
        while k < self.excluded_terms.len()
            invariant
                message@ == folded,
                folded == fold_case(problem.message@, self.ignore_case),
                k <= self.excluded_terms.len(),
                all_terms_present(problem.message@, self.required_terms.deep_view(), self.ignore_case),
                forall|t: int|
                    0 <= t < k ==> !has_substring(
                        folded,
                        fold_case(self.excluded_terms.deep_view()[t], self.ignore_case),
                    ),
            decreases self.excluded_terms.len() - k,
        {
            let term: String = if self.ignore_case {
                lowercase(self.excluded_terms[k].as_str())
            } else {
                self.excluded_terms[k].clone()
            };
            if contains_term(message.as_str(), term.as_str()) {
                assert(has_substring(
                    folded,
                    fold_case(self.excluded_terms.deep_view()[k as int], self.ignore_case),
                ));
                return false;
            }
            k += 1;
        }
        true
    }
}

/// With no required terms, the predicate is exactly the exclusion
/// check: the required side is vacuously true.
pub proof fn lemma_no_required_terms(msg: Seq<char>, excluded: Seq<Seq<char>>, ignore_case: bool)
    ensures
        problem_matches(msg, Seq::empty(), excluded, ignore_case) <==> no_term_present(
            msg,
            excluded,
            ignore_case,
        ),
{
}

/// Symmetrically, with no excluded terms the predicate is exactly the
/// required-terms check: the excluded side is vacuously true.
pub proof fn lemma_no_excluded_terms(msg: Seq<char>, required: Seq<Seq<char>>, ignore_case: bool)
    ensures
        problem_matches(msg, required, Seq::empty(), ignore_case) <==> all_terms_present(
            msg,
            required,
            ignore_case,
        ),
{
}

/// A record whose message contains any excluded term is rejected, even
/// when it also contains every required term.
pub proof fn lemma_excluded_term_rejects(
    msg: Seq<char>,
    required: Seq<Seq<char>>,
    excluded: Seq<Seq<char>>,
    ignore_case: bool,
    k: int,
)
    requires
        0 <= k < excluded.len(),
        has_substring(fold_case(msg, ignore_case), fold_case(excluded[k], ignore_case)),
    ensures
        !problem_matches(msg, required, excluded, ignore_case),
{
}

} // verus!
