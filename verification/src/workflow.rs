//! The status-transition workflow: the sole write path for a risk's status.
//! One call validates the requested change against the state machine,
//! persists the new status with a refreshed update instant, and appends
//! exactly one audit row — all three or none, so readers never see a status
//! without its history row. The audit trail is read back ordered by its
//! change instants.

use vstd::prelude::*;

use crate::external::{fresh_id, now_timestamp};
use crate::model::{
    materialize_risk, spec_materialize, DbRisk, RegisterError, Risk, RiskStatusHistory,
    UpdateStatusPayload,
};
use crate::status::{is_valid_transition, transition_allowed, RiskStatus};
use crate::store::{lemma_risk_index_is, RiskRegister};

verus! {

broadcast use vstd::seq_lib::group_to_multiset_ensures;

/// A stored row after a transition: the status replaced and the update
/// instant refreshed, every other field kept.
pub open spec fn set_status(row: DbRisk, status: RiskStatus, now: i64) -> DbRisk {
    DbRisk {
        id: row.id,
        title: row.title,
        description: row.description,
        impact: row.impact,
        probability: row.probability,
        status: status,
        created_at: row.created_at,
        updated_at: now,
        external_id: row.external_id,
        category: row.category,
        location: row.location,
        regulation: row.regulation,
        control_measure_id: row.control_measure_id,
    }
}

/// The register after a successful transition: exactly the addressed row
/// replaced, exactly one audit row appended recording the old and the new
/// status and the instant, everything else untouched.
pub open spec fn status_updated(
    pre: RiskRegister,
    post: RiskRegister,
    risk_id: u128,
    requested: RiskStatus,
    now: i64,
) -> bool {
    &&& post.risks@ == pre.risks@.update(
        pre.risk_index(risk_id),
        set_status(pre.risk_with_id(risk_id), requested, now),
    )
    &&& post.evaluations@ == pre.evaluations@
    &&& post.incidents@ == pre.incidents@
    &&& post.history@.len() == pre.history@.len() + 1
    &&& post.history@.subrange(0, pre.history@.len() as int) == pre.history@
    &&& post.history@.last().risk_id == risk_id
    &&& post.history@.last().old_status == pre.risk_with_id(risk_id).status
    &&& post.history@.last().new_status == requested
    &&& post.history@.last().changed_at == now
}

/// The audit rows of one risk, in the order they were appended.
pub open spec fn history_for(
    history: Seq<RiskStatusHistory>,
    risk_id: u128,
) -> Seq<RiskStatusHistory>
    decreases history.len(),
{
    if history.len() == 0 {
        Seq::empty()
    } else {
        let rest = history_for(history.drop_last(), risk_id);
        if history.last().risk_id == risk_id {
            rest.push(history.last())
        } else {
            rest
        }
    }
}

impl RiskRegister {
    /// Applies a requested status change to the risk with this id at the
    /// given instant. Succeeds exactly when the risk exists and the change
    /// is an allowed edge; on failure nothing is written.
    pub fn apply_status_transition(
        &mut self,
        risk_id: u128,
        requested: RiskStatus,
        now: i64,
    ) -> (result: Result<Risk, RegisterError>)
        requires
            old(self).wf(),
        ensures
            final(self).wf(),
            match result {
                Ok(risk) => {
                    &&& old(self).has_risk(risk_id)
                    &&& transition_allowed(old(self).risk_with_id(risk_id).status, requested)
                    &&& status_updated(*old(self), *final(self), risk_id, requested, now)
                    &&& risk == spec_materialize(
                        set_status(old(self).risk_with_id(risk_id), requested, now),
                    )
                },
                Err(RegisterError::NotFound) => !old(self).has_risk(risk_id) && *final(self)
                    == *old(self),
                Err(RegisterError::InvalidTransition) => {
                    &&& old(self).has_risk(risk_id)
                    &&& !transition_allowed(old(self).risk_with_id(risk_id).status, requested)
                    &&& *final(self) == *old(self)
                },
                Err(_) => false,
            },
    {
        let pos = self.risk_pos(risk_id);
        match pos {
            None => Err(RegisterError::NotFound),
            Some(i) => {
                proof {
                    lemma_risk_index_is(*self, risk_id, i as int);
                }
                let current = self.risks[i].status;
                if !is_valid_transition(&current, &requested) {
                    return Err(RegisterError::InvalidTransition);
                }
                let ghost pre = *self;
                let old_row = self.risks.remove(i);
                let row = DbRisk {
                    id: old_row.id,
                    title: old_row.title,
                    description: old_row.description,
                    impact: old_row.impact,
                    probability: old_row.probability,
                    status: requested,
                    created_at: old_row.created_at,
                    updated_at: now,
                    external_id: old_row.external_id,
                    category: old_row.category,
                    location: old_row.location,
                    regulation: old_row.regulation,
                    control_measure_id: old_row.control_measure_id,
                };
                self.risks.insert(i, row);
                let history_id = fresh_id();
                self.history.push(
                    RiskStatusHistory {
                        id: history_id,
                        risk_id: risk_id,
                        old_status: current,
                        new_status: requested,
                        changed_at: now,
                    },
                );
                proof {
                    assert(self.risks@ =~= pre.risks@.update(
                        i as int,
                        set_status(pre.risk_with_id(risk_id), requested, now),
                    ));
                    assert(self.history@.subrange(0, pre.history@.len() as int) =~= pre.history@);
                }
                let risk = materialize_risk(&self.risks[i]);
                Ok(risk)
            },
        }
    }

    /// Applies the requested status change at the clock's current instant:
    /// exactly as `apply_status_transition`, for whatever instant the clock
    /// gave.
    pub fn update_risk_status(&mut self, risk_id: u128, payload: &UpdateStatusPayload) -> (result:
        Result<Risk, RegisterError>)
        requires
            old(self).wf(),
        ensures
            final(self).wf(),
            match result {
                Ok(risk) => {
                    &&& old(self).has_risk(risk_id)
                    &&& transition_allowed(
                        old(self).risk_with_id(risk_id).status,
                        payload.status,
                    )
                    &&& (exists|now: i64|
                        {
                            &&& #[trigger] status_updated(
                                *old(self),
                                *final(self),
                                risk_id,
                                payload.status,
                                now,
                            )
                            &&& risk == spec_materialize(
                                set_status(old(self).risk_with_id(risk_id), payload.status, now),
                            )
                        })
                },
                Err(RegisterError::NotFound) => !old(self).has_risk(risk_id) && *final(self)
                    == *old(self),
                Err(RegisterError::InvalidTransition) => {
                    &&& old(self).has_risk(risk_id)
                    &&& !transition_allowed(old(self).risk_with_id(risk_id).status, payload.status)
                    &&& *final(self) == *old(self)
                },
                Err(_) => false,
            },
    {
        let now = now_timestamp();
        let result = self.apply_status_transition(risk_id, payload.status, now);
        proof {
            if result is Ok {
                assert(status_updated(*old(self), *self, risk_id, payload.status, now));
            }
        }
        result
    }

    /// The audit rows of the risk with this id, ordered by their change
    /// instants, earliest first; rows appended at the same instant keep no
    /// fixed order among themselves.
    pub fn get_risk_history(&self, risk_id: u128) -> (entries: Vec<RiskStatusHistory>)
        ensures
            entries@.to_multiset() == history_for(self.history@, risk_id).to_multiset(),
            forall|a: int, b: int|
                0 <= a < b < entries@.len() ==> (#[trigger] entries@[a]).changed_at <= (
                #[trigger] entries@[b]).changed_at,
            forall|k: int| 0 <= k < entries@.len() ==> (#[trigger] entries@[k]).risk_id == risk_id,
    {
        let mut matched: Vec<RiskStatusHistory> = Vec::new();
        let mut i: usize = 0;
        while i < self.history.len()
            invariant
                i <= self.history@.len(),
                matched@ == history_for(self.history@.take(i as int), risk_id),
                forall|k: int|
                    0 <= k < matched@.len() ==> (#[trigger] matched@[k]).risk_id == risk_id,
            decreases self.history@.len() - i,
        {
            proof {
                assert(self.history@.take(i + 1).drop_last() =~= self.history@.take(i as int));
                assert(self.history@.take(i + 1).last() == self.history@[i as int]);
            }
            let entry = self.history[i];
            if entry.risk_id == risk_id {
                matched.push(entry);
            }
            i += 1;
        }
        proof {
            assert(self.history@.take(self.history@.len() as int) =~= self.history@);
        }
        let ghost all = matched@;
        let mut pending = matched;
        let mut ordered: Vec<RiskStatusHistory> = Vec::new();
        while pending.len() > 0
            invariant
                ordered@.to_multiset().add(pending@.to_multiset()) == all.to_multiset(),
                forall|a: int, b: int|
                    0 <= a < b < ordered@.len() ==> (#[trigger] ordered@[a]).changed_at <= (
                    #[trigger] ordered@[b]).changed_at,
                forall|a: int, j: int|
                    0 <= a < ordered@.len() && 0 <= j < pending@.len() ==> (
                #[trigger] ordered@[a]).changed_at <= (#[trigger] pending@[j]).changed_at,
                forall|k: int|
                    0 <= k < ordered@.len() ==> (#[trigger] ordered@[k]).risk_id == risk_id,
                forall|k: int|
                    0 <= k < pending@.len() ==> (#[trigger] pending@[k]).risk_id == risk_id,
            decreases pending@.len(),
        {
            let mut best: usize = 0;
            let mut m: usize = 1;
            while m < pending.len()
                invariant
                    (best as int) < pending@.len(),
                    m <= pending@.len(),
                    forall|j: int|
                        0 <= j < m ==> pending@[best as int].changed_at <= (
                        #[trigger] pending@[j]).changed_at,
                decreases pending@.len() - m,
            {
                if pending[m].changed_at < pending[best].changed_at {
                    best = m;
                }
                m += 1;
            }
            let ghost pending_before = pending@;
            let ghost ordered_before = ordered@;
            let item = pending.remove(best);
            ordered.push(item);
            proof {
                assert(ordered@.to_multiset().add(pending@.to_multiset()) =~= all.to_multiset());
            }
        }
        proof {
            assert(ordered@.to_multiset().add(pending@.to_multiset()) =~= ordered@.to_multiset());
        }
        ordered
    }
}

} // verus!
