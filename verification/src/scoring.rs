//! Derived scores. A risk's score is `impact * probability`; an evaluation's
//! score is the risk-priority-number convention
//! `severity * likelihood * detectability`. Every factor is a rating in
//! `1..=5`, checked where records enter the register, so both products fit
//! comfortably in an `i32`. Scores are recomputed from their factors at every
//! read and never trusted from stored or client-supplied values.

use vstd::prelude::*;

verus! {

/// Ratings (impact, probability, severity, likelihood, detectability) are
/// bounded integers from 1 to 5.
pub open spec fn rating_in_range(rating: int) -> bool {
    1 <= rating <= 5
}

/// A risk's score: impact times probability (1 to 25).
pub open spec fn spec_risk_score(impact: int, probability: int) -> int {
    impact * probability
}

/// An evaluation's score: severity times likelihood times detectability
/// (1 to 125).
pub open spec fn spec_evaluation_score(severity: int, likelihood: int, detectability: int) -> int {
    severity * likelihood * detectability
}

/// True exactly when the rating lies in `1..=5`.
pub fn rating_ok(rating: i32) -> (ok: bool)
    ensures
        ok == rating_in_range(rating as int),
{
    1 <= rating && rating <= 5
}

/// The risk-level score, recomputed from the current factors.
pub fn risk_score(impact: i32, probability: i32) -> (score: i32)
    requires
        rating_in_range(impact as int),
        rating_in_range(probability as int),
    ensures
        score == spec_risk_score(impact as int, probability as int),
        1 <= score <= 25,
{
    assert(1 <= impact * probability <= 25) by (nonlinear_arith)
        requires
            1 <= impact <= 5,
            1 <= probability <= 5,
    ;
    impact * probability
}

/// The evaluation-level score, recomputed from the three factors.
pub fn evaluation_score(severity: i32, likelihood: i32, detectability: i32) -> (score: i32)
    requires
        rating_in_range(severity as int),
        rating_in_range(likelihood as int),
        rating_in_range(detectability as int),
    ensures
        score == spec_evaluation_score(severity as int, likelihood as int, detectability as int),
        1 <= score <= 125,
{
    assert(1 <= severity * likelihood <= 25 && 1 <= severity * likelihood * detectability <= 125)
        by (nonlinear_arith)
        requires
            1 <= severity <= 5,
            1 <= likelihood <= 5,
            1 <= detectability <= 5,
    ;
    severity * likelihood * detectability
}

} // verus!
