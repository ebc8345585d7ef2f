//! The in-memory risk register: one value holding the risk records, their
//! evaluations, the status audit trail and the incidents. Storage is a
//! collaborator in deployment; this register is the verified model of it,
//! injected into the workflow rather than reached as an ambient global.
//!
//! Deletion policy: deleting a risk removes its evaluation row as well, so an
//! evaluation never outlives its risk, but the audit trail is never touched.

use vstd::prelude::*;

use crate::external::{fresh_id, now_timestamp};
use crate::model::{
    clone_opt_string, evaluation_wf, materialize_risk, risk_wf, spec_materialize, DbRisk, Incident,
    NewRisk, RegisterError, Risk, RiskEvaluation, RiskStatusHistory,
};
use crate::scoring::{rating_in_range, rating_ok};
use crate::status::RiskStatus;

verus! {

/// The register. Risk ids are unique, at most one evaluation exists per risk,
/// and every stored rating and score is well formed; incident ids are unique.
pub struct RiskRegister {
    pub risks: Vec<DbRisk>,
    pub evaluations: Vec<RiskEvaluation>,
    pub history: Vec<RiskStatusHistory>,
    pub incidents: Vec<Incident>,
}

/// There is an evaluation for this risk id.
pub open spec fn seq_has_evaluation(evaluations: Seq<RiskEvaluation>, risk_id: u128) -> bool {
    exists|i: int| 0 <= i < evaluations.len() && (#[trigger] evaluations[i]).risk_id == risk_id
}

/// The position of the evaluation for this risk id.
pub open spec fn seq_evaluation_index(evaluations: Seq<RiskEvaluation>, risk_id: u128) -> int {
    choose|i: int| 0 <= i < evaluations.len() && (#[trigger] evaluations[i]).risk_id == risk_id
}

/// The evaluation for this risk id.
pub open spec fn seq_evaluation_for(
    evaluations: Seq<RiskEvaluation>,
    risk_id: u128,
) -> RiskEvaluation {
    evaluations[seq_evaluation_index(evaluations, risk_id)]
}

/// Evaluations name pairwise distinct risks: the one-evaluation-per-risk
/// rule.
pub open spec fn evaluations_unique(evaluations: Seq<RiskEvaluation>) -> bool {
    forall|i: int, j: int|
        0 <= i < j < evaluations.len() ==> (#[trigger] evaluations[i]).risk_id != (
        #[trigger] evaluations[j]).risk_id
}

impl RiskRegister {
    /// The register's invariant; every operation preserves it.
    pub open spec fn wf(self) -> bool {
        &&& forall|i: int, j: int|
            0 <= i < j < self.risks@.len() ==> (#[trigger] self.risks@[i]).id != (
            #[trigger] self.risks@[j]).id
        &&& forall|i: int| 0 <= i < self.risks@.len() ==> risk_wf(#[trigger] self.risks@[i])
        &&& evaluations_unique(self.evaluations@)
        &&& forall|i: int|
            0 <= i < self.evaluations@.len() ==> evaluation_wf(#[trigger] self.evaluations@[i])
        &&& forall|i: int, j: int|
            0 <= i < j < self.incidents@.len() ==> (#[trigger] self.incidents@[i]).id != (
            #[trigger] self.incidents@[j]).id
    }

    /// A risk with this id is stored.
    pub open spec fn has_risk(self, id: u128) -> bool {
        exists|i: int| 0 <= i < self.risks@.len() && (#[trigger] self.risks@[i]).id == id
    }

    /// The position of the risk with this id.
    pub open spec fn risk_index(self, id: u128) -> int {
        choose|i: int| 0 <= i < self.risks@.len() && (#[trigger] self.risks@[i]).id == id
    }

    /// The stored risk with this id.
    pub open spec fn risk_with_id(self, id: u128) -> DbRisk {
        self.risks@[self.risk_index(id)]
    }

    /// An evaluation for this risk id is stored.
    pub open spec fn has_evaluation(self, risk_id: u128) -> bool {
        seq_has_evaluation(self.evaluations@, risk_id)
    }

    /// The stored evaluation for this risk id.
    pub open spec fn evaluation_for(self, risk_id: u128) -> RiskEvaluation {
        seq_evaluation_for(self.evaluations@, risk_id)
    }

    /// An incident with this id is stored.
    pub open spec fn has_incident(self, id: u128) -> bool {
        exists|i: int| 0 <= i < self.incidents@.len() && (#[trigger] self.incidents@[i]).id == id
    }

    /// The position of the incident with this id.
    pub open spec fn incident_index(self, id: u128) -> int {
        choose|i: int| 0 <= i < self.incidents@.len() && (#[trigger] self.incidents@[i]).id == id
    }

    /// The stored incident with this id.
    pub open spec fn incident_with_id(self, id: u128) -> Incident {
        self.incidents@[self.incident_index(id)]
    }

    /// An empty register.
    pub fn new() -> (register: RiskRegister)
        ensures
            register.wf(),
            register.risks@ == Seq::<DbRisk>::empty(),
            register.evaluations@ == Seq::<RiskEvaluation>::empty(),
            register.history@ == Seq::<RiskStatusHistory>::empty(),
            register.incidents@ == Seq::<Incident>::empty(),
    {
        RiskRegister {
            risks: Vec::new(),
            evaluations: Vec::new(),
            history: Vec::new(),
            incidents: Vec::new(),
        }
    }
}

/// In a well-formed register, an index holding a risk id is the (unique)
/// index of that id.
pub proof fn lemma_risk_index_is(register: RiskRegister, id: u128, i: int)
    requires
        register.wf(),
        0 <= i < register.risks@.len(),
        register.risks@[i].id == id,
    ensures
        register.has_risk(id),
        register.risk_index(id) == i,
        register.risk_with_id(id) == register.risks@[i],
{
    assert(register.has_risk(id));
    let k = register.risk_index(id);
    assert(0 <= k < register.risks@.len() && register.risks@[k].id == id);
}

/// Under the one-evaluation-per-risk rule, an index holding a risk id is the
/// (unique) index of that risk's evaluation.
pub proof fn lemma_evaluation_index_is(evaluations: Seq<RiskEvaluation>, risk_id: u128, i: int)
    requires
        evaluations_unique(evaluations),
        0 <= i < evaluations.len(),
        evaluations[i].risk_id == risk_id,
    ensures
        seq_has_evaluation(evaluations, risk_id),
        seq_evaluation_index(evaluations, risk_id) == i,
        seq_evaluation_for(evaluations, risk_id) == evaluations[i],
{
    assert(seq_has_evaluation(evaluations, risk_id));
    let k = seq_evaluation_index(evaluations, risk_id);
    assert(0 <= k < evaluations.len() && evaluations[k].risk_id == risk_id);
}

/// In a well-formed register, an index holding an incident id is the
/// (unique) index of that id.
pub proof fn lemma_incident_index_is(register: RiskRegister, id: u128, i: int)
    requires
        register.wf(),
        0 <= i < register.incidents@.len(),
        register.incidents@[i].id == id,
    ensures
        register.has_incident(id),
        register.incident_index(id) == i,
        register.incident_with_id(id) == register.incidents@[i],
{
    assert(register.has_incident(id));
    let k = register.incident_index(id);
    assert(0 <= k < register.incidents@.len() && register.incidents@[k].id == id);
}

impl RiskRegister {
    /// Where the risk with this id sits, if anywhere.
    pub(crate) fn risk_pos(&self, id: u128) -> (pos: Option<usize>)
        ensures
            match pos {
                Some(i) => i < self.risks@.len() && self.risks@[i as int].id == id,
                None => !self.has_risk(id),
            },
    {
        let mut i: usize = 0;
        while i < self.risks.len()
            invariant
                i <= self.risks@.len(),
                forall|k: int| 0 <= k < i ==> (#[trigger] self.risks@[k]).id != id,
            decreases self.risks@.len() - i,
        {
            if self.risks[i].id == id {
                return Some(i);
            }
            i += 1;
        }
        None
    }

    /// Where the evaluation for this risk id sits, if anywhere.
    pub(crate) fn evaluation_pos(&self, risk_id: u128) -> (pos: Option<usize>)
        ensures
            match pos {
                Some(i) => i < self.evaluations@.len() && self.evaluations@[i as int].risk_id
                    == risk_id,
                None => !self.has_evaluation(risk_id),
            },
    {
        let mut i: usize = 0;
        while i < self.evaluations.len()
            invariant
                i <= self.evaluations@.len(),
                forall|k: int| 0 <= k < i ==> (#[trigger] self.evaluations@[k]).risk_id != risk_id,
            decreases self.evaluations@.len() - i,
        {
            if self.evaluations[i].risk_id == risk_id {
                return Some(i);
            }
            i += 1;
        }
        None
    }

    /// Where the incident with this id sits, if anywhere.
    pub(crate) fn incident_pos(&self, id: u128) -> (pos: Option<usize>)
        ensures
            match pos {
                Some(i) => i < self.incidents@.len() && self.incidents@[i as int].id == id,
                None => !self.has_incident(id),
            },
    {
        let mut i: usize = 0;
        while i < self.incidents.len()
            invariant
                i <= self.incidents@.len(),
                forall|k: int| 0 <= k < i ==> (#[trigger] self.incidents@[k]).id != id,
            decreases self.incidents@.len() - i,
        {
            if self.incidents[i].id == id {
                return Some(i);
            }
            i += 1;
        }
        None
    }
}

/// Both ratings of a risk-creation or risk-edit request are in range.
pub open spec fn new_risk_ratings_ok(data: NewRisk) -> bool {
    &&& rating_in_range(data.impact as int)
    &&& rating_in_range(data.probability as int)
}

/// The stored row a creation request yields: created in `Identified`, both
/// timestamps set to the creation instant, classification attributes unset.
pub open spec fn new_row(data: NewRisk, id: u128, now: i64) -> DbRisk {
    DbRisk {
        id: id,
        title: data.title,
        description: data.description,
        impact: data.impact,
        probability: data.probability,
        status: RiskStatus::Identified,
        created_at: now,
        updated_at: now,
        external_id: None,
        category: None,
        location: None,
        regulation: None,
        control_measure_id: None,
    }
}

/// The register after a successful risk creation: the new row appended,
/// everything else untouched.
pub open spec fn risk_created(
    pre: RiskRegister,
    post: RiskRegister,
    data: NewRisk,
    id: u128,
    now: i64,
) -> bool {
    &&& post.risks@ == pre.risks@.push(new_row(data, id, now))
    &&& post.evaluations@ == pre.evaluations@
    &&& post.history@ == pre.history@
    &&& post.incidents@ == pre.incidents@
}

/// A stored row after an edit: title, description and the two ratings
/// replaced, the update instant refreshed; id, status, creation instant and
/// classification attributes kept.
pub open spec fn edited_row(row: DbRisk, data: NewRisk, now: i64) -> DbRisk {
    DbRisk {
        id: row.id,
        title: data.title,
        description: data.description,
        impact: data.impact,
        probability: data.probability,
        status: row.status,
        created_at: row.created_at,
        updated_at: now,
        external_id: row.external_id,
        category: row.category,
        location: row.location,
        regulation: row.regulation,
        control_measure_id: row.control_measure_id,
    }
}

/// The register after a successful risk edit: exactly the addressed row
/// replaced, everything else untouched.
pub open spec fn risk_edited(
    pre: RiskRegister,
    post: RiskRegister,
    id: u128,
    data: NewRisk,
    now: i64,
) -> bool {
    &&& post.risks@ == pre.risks@.update(
        pre.risk_index(id),
        edited_row(pre.risk_with_id(id), data, now),
    )
    &&& post.evaluations@ == pre.evaluations@
    &&& post.history@ == pre.history@
    &&& post.incidents@ == pre.incidents@
}

impl RiskRegister {
    /// Creates a risk under the given id at the given instant. The new risk
    /// starts in `Identified`; its ratings are checked on the way in.
    pub fn create_risk_at(&mut self, data: &NewRisk, id: u128, now: i64) -> (result: Result<
        Risk,
        RegisterError,
    >)
        requires
            old(self).wf(),
        ensures
            final(self).wf(),
            match result {
                Ok(risk) => {
                    &&& new_risk_ratings_ok(*data)
                    &&& !old(self).has_risk(id)
                    &&& risk_created(*old(self), *final(self), *data, id, now)
                    &&& risk == spec_materialize(new_row(*data, id, now))
                },
                Err(RegisterError::InvalidRating) => !new_risk_ratings_ok(*data) && *final(self)
                    == *old(self),
                Err(RegisterError::DuplicateId) => new_risk_ratings_ok(*data) && old(self).has_risk(
                    id,
                ) && *final(self) == *old(self),
                Err(_) => false,
            },
    {
        if !(rating_ok(data.impact) && rating_ok(data.probability)) {
            return Err(RegisterError::InvalidRating);
        }
        if let Some(_) = self.risk_pos(id) {
            return Err(RegisterError::DuplicateId);
        }
        let row = DbRisk {
            id: id,
            title: data.title.clone(),
            description: clone_opt_string(&data.description),
            impact: data.impact,
            probability: data.probability,
            status: RiskStatus::Identified,
            created_at: now,
            updated_at: now,
            external_id: None,
            category: None,
            location: None,
            regulation: None,
            control_measure_id: None,
        };
        let ghost pre = *self;
        self.risks.push(row);
        proof {
            assert(self.risks@ =~= pre.risks@.push(new_row(*data, id, now)));
        }
        let i: usize = self.risks.len() - 1;
        let risk = materialize_risk(&self.risks[i]);
        Ok(risk)
    }

    /// Creates a risk under a freshly drawn identifier at the clock's current
    /// instant. Exactly as `create_risk_at`, for whatever identifier and
    /// instant came back; a drawn identifier already in use is refused, not
    /// retried.
    pub fn create_risk(&mut self, data: &NewRisk) -> (result: Result<Risk, RegisterError>)
        requires
            old(self).wf(),
        ensures
            final(self).wf(),
            match result {
                Ok(risk) => exists|id: u128, now: i64|
                    {
                        &&& !old(self).has_risk(id)
                        &&& #[trigger] risk_created(*old(self), *final(self), *data, id, now)
                        &&& risk == spec_materialize(new_row(*data, id, now))
                    },
                Err(RegisterError::InvalidRating) => !new_risk_ratings_ok(*data) && *final(self)
                    == *old(self),
                Err(RegisterError::DuplicateId) => {
                    &&& new_risk_ratings_ok(*data)
                    &&& (exists|id: u128| old(self).has_risk(id))
                    &&& *final(self) == *old(self)
                },
                Err(_) => false,
            },
    {
        let id = fresh_id();
        let now = now_timestamp();
        let result = self.create_risk_at(data, id, now);
        proof {
            if result is Ok {
                assert(risk_created(*old(self), *self, *data, id, now));
            }
        }
        result
    }

    /// Replaces the editable fields of the risk with this id and refreshes
    /// its update instant; status and creation instant stay as they are.
    pub fn update_risk(&mut self, id: u128, data: &NewRisk, now: i64) -> (result: Result<
        Risk,
        RegisterError,
    >)
        requires
            old(self).wf(),
        ensures
            final(self).wf(),
            match result {
                Ok(risk) => {
                    &&& new_risk_ratings_ok(*data)
                    &&& old(self).has_risk(id)
                    &&& risk_edited(*old(self), *final(self), id, *data, now)
                    &&& risk == spec_materialize(
                        edited_row(old(self).risk_with_id(id), *data, now),
                    )
                },
                Err(RegisterError::InvalidRating) => !new_risk_ratings_ok(*data) && *final(self)
                    == *old(self),
                Err(RegisterError::NotFound) => new_risk_ratings_ok(*data) && !old(self).has_risk(
                    id,
                ) && *final(self) == *old(self),
                Err(_) => false,
            },
    {
        if !(rating_ok(data.impact) && rating_ok(data.probability)) {
            return Err(RegisterError::InvalidRating);
        }
        let pos = self.risk_pos(id);
        match pos {
            None => Err(RegisterError::NotFound),
            Some(i) => {
                proof {
                    lemma_risk_index_is(*self, id, i as int);
                }
                let ghost pre = *self;
                let old_row = self.risks.remove(i);
                let row = DbRisk {
                    id: old_row.id,
                    title: data.title.clone(),
                    description: clone_opt_string(&data.description),
                    impact: data.impact,
                    probability: data.probability,
                    status: old_row.status,
                    created_at: old_row.created_at,
                    updated_at: now,
                    external_id: old_row.external_id,
                    category: old_row.category,
                    location: old_row.location,
                    regulation: old_row.regulation,
                    control_measure_id: old_row.control_measure_id,
                };
                self.risks.insert(i, row);
                proof {
                    assert(self.risks@ =~= pre.risks@.update(
                        i as int,
                        edited_row(pre.risk_with_id(id), *data, now),
                    ));
                }
                let risk = materialize_risk(&self.risks[i]);
                Ok(risk)
            },
        }
    }

    /// The risk with this id, materialized with its freshly computed score,
    /// if one is stored.
    pub fn get_risk_by_id(&self, id: u128) -> (result: Option<Risk>)
        requires
            self.wf(),
        ensures
            match result {
                Some(risk) => self.has_risk(id) && risk == spec_materialize(self.risk_with_id(id)),
                None => !self.has_risk(id),
            },
    {
        let pos = self.risk_pos(id);
        match pos {
            None => None,
            Some(i) => {
                proof {
                    lemma_risk_index_is(*self, id, i as int);
                }
                Some(materialize_risk(&self.risks[i]))
            },
        }
    }

    /// Removes the risk with this id together with its evaluation row, if
    /// either exists; the audit trail stays. Reports whether a risk was
    /// removed.
    pub fn delete_risk(&mut self, id: u128) -> (removed: bool)
        requires
            old(self).wf(),
        ensures
            final(self).wf(),
            removed == old(self).has_risk(id),
            !removed ==> *final(self) == *old(self),
            removed ==> final(self).risks@ == old(self).risks@.remove(old(self).risk_index(id)),
            removed && old(self).has_evaluation(id) ==> final(self).evaluations@ == old(
                self,
            ).evaluations@.remove(seq_evaluation_index(old(self).evaluations@, id)),
            removed && !old(self).has_evaluation(id) ==> final(self).evaluations@ == old(
                self,
            ).evaluations@,
            final(self).history@ == old(self).history@,
            final(self).incidents@ == old(self).incidents@,
    {
        let pos = self.risk_pos(id);
        match pos {
            None => false,
            Some(i) => {
                proof {
                    lemma_risk_index_is(*self, id, i as int);
                }
                let _removed_row = self.risks.remove(i);
                let eval_pos = self.evaluation_pos(id);
                match eval_pos {
                    None => {
                    },
                    Some(j) => {
                        proof {
                            lemma_evaluation_index_is(self.evaluations@, id, j as int);
                        }
                        let _removed_evaluation = self.evaluations.remove(j);
                    },
                }
                true
            },
        }
    }
}

} // verus!
