//! Incident records: plain CRUD with no workflow. An incident's related
//! risk is a weak reference — it is never checked against the risks, and
//! deleting a risk leaves the incident in place. Listings come back ordered
//! by creation instant, newest first.

use vstd::prelude::*;

use crate::external::{fresh_id, now_timestamp};
use crate::model::{clone_incident, Incident, NewIncident, RegisterError};
use crate::store::{lemma_incident_index_is, RiskRegister};

verus! {

broadcast use vstd::seq_lib::group_to_multiset_ensures;

/// The stored incident a creation request yields.
pub open spec fn new_incident_row(data: NewIncident, id: u128, now: i64) -> Incident {
    Incident {
        id: id,
        title: data.title,
        description: data.description,
        severity: data.severity,
        status: data.status,
        related_risk_id: data.related_risk_id,
        created_at: now,
    }
}

/// The register after a successful incident creation: the new incident
/// appended, everything else untouched.
pub open spec fn incident_created(
    pre: RiskRegister,
    post: RiskRegister,
    data: NewIncident,
    id: u128,
    now: i64,
) -> bool {
    &&& post.incidents@ == pre.incidents@.push(new_incident_row(data, id, now))
    &&& post.risks@ == pre.risks@
    &&& post.evaluations@ == pre.evaluations@
    &&& post.history@ == pre.history@
}

/// A stored incident after an edit: every client field replaced, the id and
/// the creation instant kept.
pub open spec fn edited_incident(row: Incident, data: NewIncident) -> Incident {
    Incident {
        id: row.id,
        title: data.title,
        description: data.description,
        severity: data.severity,
        status: data.status,
        related_risk_id: data.related_risk_id,
        created_at: row.created_at,
    }
}

/// The register after a successful incident edit: exactly the addressed
/// incident replaced, everything else untouched.
pub open spec fn incident_edited(
    pre: RiskRegister,
    post: RiskRegister,
    id: u128,
    data: NewIncident,
) -> bool {
    &&& post.incidents@ == pre.incidents@.update(
        pre.incident_index(id),
        edited_incident(pre.incident_with_id(id), data),
    )
    &&& post.risks@ == pre.risks@
    &&& post.evaluations@ == pre.evaluations@
    &&& post.history@ == pre.history@
}

impl RiskRegister {
    /// Creates an incident under the given id at the given instant.
    pub fn create_incident_at(&mut self, data: &NewIncident, id: u128, now: i64) -> (result:
        Result<Incident, RegisterError>)
        requires
            old(self).wf(),
        ensures
            final(self).wf(),
            match result {
                Ok(incident) => {
                    &&& !old(self).has_incident(id)
                    &&& incident_created(*old(self), *final(self), *data, id, now)
                    &&& incident == new_incident_row(*data, id, now)
                },
                Err(RegisterError::DuplicateId) => old(self).has_incident(id) && *final(self)
                    == *old(self),
                Err(_) => false,
            },
    {
        if let Some(_) = self.incident_pos(id) {
            return Err(RegisterError::DuplicateId);
        }
        let row = Incident {
            id: id,
            title: data.title.clone(),
            description: crate::model::clone_opt_string(&data.description),
            severity: data.severity.clone(),
            status: data.status.clone(),
            related_risk_id: data.related_risk_id,
            created_at: now,
        };
        let incident = clone_incident(&row);
        let ghost pre = *self;
        self.incidents.push(row);
        proof {
            assert(self.incidents@ =~= pre.incidents@.push(new_incident_row(*data, id, now)));
        }
        Ok(incident)
    }

    /// Creates an incident under a freshly drawn identifier at the clock's
    /// current instant: exactly as `create_incident_at`, for whatever
    /// identifier and instant came back.
    pub fn create_incident(&mut self, data: &NewIncident) -> (result: Result<
        Incident,
        RegisterError,
    >)
        requires
            old(self).wf(),
        ensures
            final(self).wf(),
            match result {
                Ok(incident) => exists|id: u128, now: i64|
                    {
                        &&& !old(self).has_incident(id)
                        &&& #[trigger] incident_created(*old(self), *final(self), *data, id, now)
                        &&& incident == new_incident_row(*data, id, now)
                    },
                Err(RegisterError::DuplicateId) => (exists|id: u128| old(self).has_incident(id))
                    && *final(self) == *old(self),
                Err(_) => false,
            },
    {
        let id = fresh_id();
        let now = now_timestamp();
        let result = self.create_incident_at(data, id, now);
        proof {
            if result is Ok {
                assert(incident_created(*old(self), *self, *data, id, now));
            }
        }
        result
    }

    /// The incident with this id, if one is stored.
    pub fn get_incident_by_id(&self, id: u128) -> (result: Option<Incident>)
        requires
            self.wf(),
        ensures
            match result {
                Some(incident) => self.has_incident(id) && incident == self.incident_with_id(id),
                None => !self.has_incident(id),
            },
    {
        let pos = self.incident_pos(id);
        match pos {
            None => None,
            Some(i) => {
                proof {
                    lemma_incident_index_is(*self, id, i as int);
                }
                Some(clone_incident(&self.incidents[i]))
            },
        }
    }

    /// Replaces the client fields of the incident with this id; its id and
    /// creation instant stay.
    pub fn update_incident(&mut self, id: u128, data: &NewIncident) -> (result: Result<
        (),
        RegisterError,
    >)
        requires
            old(self).wf(),
        ensures
            final(self).wf(),
            match result {
                Ok(()) => old(self).has_incident(id) && incident_edited(
                    *old(self),
                    *final(self),
                    id,
                    *data,
                ),
                Err(RegisterError::NotFound) => !old(self).has_incident(id) && *final(self)
                    == *old(self),
                Err(_) => false,
            },
    {
        let pos = self.incident_pos(id);
        match pos {
            None => Err(RegisterError::NotFound),
            Some(i) => {
                proof {
                    lemma_incident_index_is(*self, id, i as int);
                }
                let ghost pre = *self;
                let old_row = self.incidents.remove(i);
                let row = Incident {
                    id: old_row.id,
                    title: data.title.clone(),
                    description: crate::model::clone_opt_string(&data.description),
                    severity: data.severity.clone(),
                    status: data.status.clone(),
                    related_risk_id: data.related_risk_id,
                    created_at: old_row.created_at,
                };
                self.incidents.insert(i, row);
                proof {
                    assert(self.incidents@ =~= pre.incidents@.update(
                        i as int,
                        edited_incident(pre.incident_with_id(id), *data),
                    ));
                }
                Ok(())
            },
        }
    }

    /// Removes the incident with this id.
    pub fn delete_incident(&mut self, id: u128) -> (result: Result<(), RegisterError>)
        requires
            old(self).wf(),
        ensures
            final(self).wf(),
            match result {
                Ok(()) => {
                    &&& old(self).has_incident(id)
                    &&& final(self).incidents@ == old(self).incidents@.remove(
                        old(self).incident_index(id),
                    )
                    &&& final(self).risks@ == old(self).risks@
                    &&& final(self).evaluations@ == old(self).evaluations@
                    &&& final(self).history@ == old(self).history@
                },
                Err(RegisterError::NotFound) => !old(self).has_incident(id) && *final(self)
                    == *old(self),
                Err(_) => false,
            },
    {
        let pos = self.incident_pos(id);
        match pos {
            None => Err(RegisterError::NotFound),
            Some(i) => {
                proof {
                    lemma_incident_index_is(*self, id, i as int);
                }
                let _removed = self.incidents.remove(i);
                Ok(())
            },
        }
    }

    /// Every stored incident, ordered by creation instant, newest first;
    /// incidents created at the same instant keep no fixed order among
    /// themselves.
    pub fn get_all_incidents(&self) -> (incidents: Vec<Incident>)
        ensures
            incidents@.to_multiset() == self.incidents@.to_multiset(),
            forall|a: int, b: int|
                0 <= a < b < incidents@.len() ==> (#[trigger] incidents@[a]).created_at >= (
                #[trigger] incidents@[b]).created_at,
    {
        let mut copies: Vec<Incident> = Vec::new();
        let mut i: usize = 0;
        while i < self.incidents.len()
            invariant
                i <= self.incidents@.len(),
                copies@ == self.incidents@.take(i as int),
            decreases self.incidents@.len() - i,
        {
            let copy = clone_incident(&self.incidents[i]);
            copies.push(copy);
            proof {
                assert(copies@ =~= self.incidents@.take(i as int + 1));
            }
            i += 1;
        }
        proof {
            assert(self.incidents@.take(self.incidents@.len() as int) =~= self.incidents@);
        }
        let ghost all = copies@;
        let mut pending = copies;
        let mut ordered: Vec<Incident> = Vec::new();
        while pending.len() > 0
            invariant
                ordered@.to_multiset().add(pending@.to_multiset()) == all.to_multiset(),
                forall|a: int, b: int|
                    0 <= a < b < ordered@.len() ==> (#[trigger] ordered@[a]).created_at >= (
                    #[trigger] ordered@[b]).created_at,
                forall|a: int, j: int|
                    0 <= a < ordered@.len() && 0 <= j < pending@.len() ==> (
                #[trigger] ordered@[a]).created_at >= (#[trigger] pending@[j]).created_at,
            decreases pending@.len(),
        {
            let mut best: usize = 0;
            let mut m: usize = 1;
            while m < pending.len()
                invariant
                    (best as int) < pending@.len(),
                    m <= pending@.len(),
                    forall|j: int|
                        0 <= j < m ==> pending@[best as int].created_at >= (
                        #[trigger] pending@[j]).created_at,
                decreases pending@.len() - m,
            {
                if pending[m].created_at > pending[best].created_at {
                    best = m;
                }
                m += 1;
            }
            let item = pending.remove(best);
            ordered.push(item);
            proof {
                assert(ordered@.to_multiset().add(pending@.to_multiset()) =~= all.to_multiset());
            }
        }
        proof {
            assert(ordered@.to_multiset().add(pending@.to_multiset()) =~= ordered@.to_multiset());
        }
        ordered
    }
}

} // verus!
