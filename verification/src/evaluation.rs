//! Quantitative evaluations: one per risk, carrying three ratings and the
//! score derived from them at creation. Reading an evaluation back yields
//! exactly what was stored for that risk.

use vstd::prelude::*;

use crate::external::{fresh_id, now_timestamp};
use crate::model::{RegisterError, RiskEvaluation, RiskEvaluationInput};
use crate::scoring::{evaluation_score, rating_in_range, rating_ok, spec_evaluation_score};
use crate::store::{
    lemma_evaluation_index_is, seq_evaluation_index, seq_has_evaluation, RiskRegister,
};

verus! {

/// All three ratings of an evaluation request are in range.
pub open spec fn input_ratings_ok(input: RiskEvaluationInput) -> bool {
    &&& rating_in_range(input.severity as int)
    &&& rating_in_range(input.likelihood as int)
    &&& rating_in_range(input.detectability as int)
}

/// The stored evaluation a request yields: the three ratings as given, the
/// score derived from them, both timestamps set to the creation instant.
pub open spec fn new_evaluation(
    risk_id: u128,
    input: RiskEvaluationInput,
    id: u128,
    now: i64,
) -> RiskEvaluation {
    RiskEvaluation {
        id: id,
        risk_id: risk_id,
        severity: input.severity,
        likelihood: input.likelihood,
        detectability: input.detectability,
        score: spec_evaluation_score(
            input.severity as int,
            input.likelihood as int,
            input.detectability as int,
        ) as i32,
        created_at: now,
        updated_at: now,
    }
}

/// The register after a successful evaluation creation: the new evaluation
/// appended, everything else untouched.
pub open spec fn evaluation_created(
    pre: RiskRegister,
    post: RiskRegister,
    risk_id: u128,
    input: RiskEvaluationInput,
    id: u128,
    now: i64,
) -> bool {
    &&& post.evaluations@ == pre.evaluations@.push(new_evaluation(risk_id, input, id, now))
    &&& post.risks@ == pre.risks@
    &&& post.history@ == pre.history@
    &&& post.incidents@ == pre.incidents@
}

impl RiskRegister {
    /// Creates the evaluation of the risk with this id, under the given
    /// evaluation id, at the given instant. Succeeds exactly when the
    /// ratings are in range, the risk exists, and it has no evaluation yet.
    pub fn create_evaluation_at(
        &mut self,
        risk_id: u128,
        input: &RiskEvaluationInput,
        evaluation_id: u128,
        now: i64,
    ) -> (result: Result<RiskEvaluation, RegisterError>)
        requires
            old(self).wf(),
        ensures
            final(self).wf(),
            match result {
                Ok(evaluation) => {
                    &&& input_ratings_ok(*input)
                    &&& old(self).has_risk(risk_id)
                    &&& !old(self).has_evaluation(risk_id)
                    &&& evaluation_created(
                        *old(self),
                        *final(self),
                        risk_id,
                        *input,
                        evaluation_id,
                        now,
                    )
                    &&& evaluation == new_evaluation(risk_id, *input, evaluation_id, now)
                },
                Err(RegisterError::InvalidRating) => !input_ratings_ok(*input) && *final(self)
                    == *old(self),
                Err(RegisterError::NotFound) => {
                    &&& input_ratings_ok(*input)
                    &&& !old(self).has_risk(risk_id)
                    &&& *final(self) == *old(self)
                },
                Err(RegisterError::DuplicateEvaluation) => {
                    &&& input_ratings_ok(*input)
                    &&& old(self).has_risk(risk_id)
                    &&& old(self).has_evaluation(risk_id)
                    &&& *final(self) == *old(self)
                },
                Err(_) => false,
            },
    {
        if !(rating_ok(input.severity) && rating_ok(input.likelihood) && rating_ok(
            input.detectability,
        )) {
            return Err(RegisterError::InvalidRating);
        }
        if let None = self.risk_pos(risk_id) {
            return Err(RegisterError::NotFound);
        }
        if let Some(_) = self.evaluation_pos(risk_id) {
            return Err(RegisterError::DuplicateEvaluation);
        }
        let score = evaluation_score(input.severity, input.likelihood, input.detectability);
        let evaluation = RiskEvaluation {
            id: evaluation_id,
            risk_id: risk_id,
            severity: input.severity,
            likelihood: input.likelihood,
            detectability: input.detectability,
            score: score,
            created_at: now,
            updated_at: now,
        };
        let ghost pre = *self;
        self.evaluations.push(evaluation);
        proof {
            assert(self.evaluations@ =~= pre.evaluations@.push(
                new_evaluation(risk_id, *input, evaluation_id, now),
            ));
        }
        Ok(evaluation)
    }

    /// Creates the evaluation under a freshly drawn identifier at the
    /// clock's current instant: exactly as `create_evaluation_at`, for
    /// whatever identifier and instant came back.
    pub fn create_evaluation(&mut self, risk_id: u128, input: &RiskEvaluationInput) -> (result:
        Result<RiskEvaluation, RegisterError>)
        requires
            old(self).wf(),
        ensures
            final(self).wf(),
            match result {
                Ok(evaluation) => {
                    &&& old(self).has_risk(risk_id)
                    &&& !old(self).has_evaluation(risk_id)
                    &&& (exists|id: u128, now: i64|
                        {
                            &&& #[trigger] evaluation_created(
                                *old(self),
                                *final(self),
                                risk_id,
                                *input,
                                id,
                                now,
                            )
                            &&& evaluation == new_evaluation(risk_id, *input, id, now)
                        })
                },
                Err(RegisterError::InvalidRating) => !input_ratings_ok(*input) && *final(self)
                    == *old(self),
                Err(RegisterError::NotFound) => {
                    &&& input_ratings_ok(*input)
                    &&& !old(self).has_risk(risk_id)
                    &&& *final(self) == *old(self)
                },
                Err(RegisterError::DuplicateEvaluation) => {
                    &&& input_ratings_ok(*input)
                    &&& old(self).has_risk(risk_id)
                    &&& old(self).has_evaluation(risk_id)
                    &&& *final(self) == *old(self)
                },
                Err(_) => false,
            },
    {
        let evaluation_id = fresh_id();
        let now = now_timestamp();
        let result = self.create_evaluation_at(risk_id, input, evaluation_id, now);
        proof {
            if result is Ok {
                assert(evaluation_created(
                    *old(self),
                    *self,
                    risk_id,
                    *input,
                    evaluation_id,
                    now,
                ));
            }
        }
        result
    }

    /// The evaluation of the risk with this id, if one is stored.
    pub fn get_evaluation(&self, risk_id: u128) -> (result: Option<RiskEvaluation>)
        requires
            self.wf(),
        ensures
            match result {
                Some(evaluation) => self.has_evaluation(risk_id) && evaluation
                    == self.evaluation_for(risk_id),
                None => !self.has_evaluation(risk_id),
            },
    {
        let pos = self.evaluation_pos(risk_id);
        match pos {
            None => None,
            Some(i) => {
                proof {
                    lemma_evaluation_index_is(self.evaluations@, risk_id, i as int);
                }
                Some(self.evaluations[i])
            },
        }
    }
}

/// Round trip: once an evaluation has been created for a risk, reading that
/// risk's evaluation yields it back — the same ratings, and the score
/// derived from them by the documented formula.
pub proof fn lemma_evaluation_round_trip(
    pre: RiskRegister,
    post: RiskRegister,
    risk_id: u128,
    input: RiskEvaluationInput,
    evaluation_id: u128,
    now: i64,
)
    requires
        !pre.has_evaluation(risk_id),
        evaluation_created(pre, post, risk_id, input, evaluation_id, now),
    ensures
        post.has_evaluation(risk_id),
        post.evaluation_for(risk_id) == new_evaluation(risk_id, input, evaluation_id, now),
        post.evaluation_for(risk_id).severity == input.severity,
        post.evaluation_for(risk_id).likelihood == input.likelihood,
        post.evaluation_for(risk_id).detectability == input.detectability,
        post.evaluation_for(risk_id).score == spec_evaluation_score(
            input.severity as int,
            input.likelihood as int,
            input.detectability as int,
        ) as i32,
{
    let evaluations = post.evaluations@;
    let n = pre.evaluations@.len() as int;
    assert(evaluations[n].risk_id == risk_id);
    assert(seq_has_evaluation(evaluations, risk_id));
    let k = seq_evaluation_index(evaluations, risk_id);
    assert(0 <= k < evaluations.len() && evaluations[k].risk_id == risk_id);
    if k < n {
        assert(pre.evaluations@[k].risk_id == risk_id);
        assert(pre.has_evaluation(risk_id));
    }
}

} // verus!
