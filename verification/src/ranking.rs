//! Read-only listings: every risk with its freshly computed score, and the
//! critical-risk ranking — the inner join of risks and their evaluations,
//! ordered by evaluation score, highest first. A risk with no evaluation
//! row is excluded from the ranking. Neither listing writes anything.

use vstd::prelude::*;

use crate::model::{materialize_risk, spec_materialize, CriticalRisk, DbRisk, Risk, RiskEvaluation};
use crate::store::{
    lemma_evaluation_index_is, seq_evaluation_for, seq_has_evaluation, RiskRegister,
};

verus! {

broadcast use vstd::seq_lib::group_to_multiset_ensures;

/// One row of the ranking: the risk's identity and status with its
/// evaluation's score.
pub open spec fn critical_entry(row: DbRisk, evaluation: RiskEvaluation) -> CriticalRisk {
    CriticalRisk { id: row.id, title: row.title, status: row.status, score: evaluation.score }
}

/// The inner join of risks and evaluations, in stored risk order: one entry
/// per risk that has an evaluation, none for a risk without one.
pub open spec fn joined_critical(
    risks: Seq<DbRisk>,
    evaluations: Seq<RiskEvaluation>,
) -> Seq<CriticalRisk>
    decreases risks.len(),
{
    if risks.len() == 0 {
        Seq::empty()
    } else {
        let rest = joined_critical(risks.drop_last(), evaluations);
        if seq_has_evaluation(evaluations, risks.last().id) {
            rest.push(
                critical_entry(risks.last(), seq_evaluation_for(evaluations, risks.last().id)),
            )
        } else {
            rest
        }
    }
}

/// A risk that has an evaluation row appears in the join, paired with that
/// evaluation's score.
pub proof fn lemma_joined_critical_includes(
    risks: Seq<DbRisk>,
    evaluations: Seq<RiskEvaluation>,
    i: int,
)
    requires
        0 <= i < risks.len(),
        seq_has_evaluation(evaluations, risks[i].id),
    ensures
        joined_critical(risks, evaluations).contains(
            critical_entry(risks[i], seq_evaluation_for(evaluations, risks[i].id)),
        ),
    decreases risks.len(),
{
    let joined = joined_critical(risks, evaluations);
    if i == risks.len() - 1 {
        assert(joined.last() == critical_entry(
            risks[i],
            seq_evaluation_for(evaluations, risks[i].id),
        ));
    } else {
        lemma_joined_critical_includes(risks.drop_last(), evaluations, i);
        let rest = joined_critical(risks.drop_last(), evaluations);
        let entry = critical_entry(risks[i], seq_evaluation_for(evaluations, risks[i].id));
        let k = choose|k: int| 0 <= k < rest.len() && rest[k] == entry;
        assert(joined[k] == entry);
    }
}

/// A risk id that has no evaluation row never appears in the join.
pub proof fn lemma_joined_critical_excludes(
    risks: Seq<DbRisk>,
    evaluations: Seq<RiskEvaluation>,
    id: u128,
)
    requires
        !seq_has_evaluation(evaluations, id),
    ensures
        forall|k: int|
            0 <= k < joined_critical(risks, evaluations).len() ==> (#[trigger] joined_critical(
                risks,
                evaluations,
            )[k]).id != id,
    decreases risks.len(),
{
    if risks.len() == 0 {
    } else {
        lemma_joined_critical_excludes(risks.drop_last(), evaluations, id);
    }
}

impl RiskRegister {
    /// Every stored risk, materialized with its freshly computed score, in
    /// stored order.
    pub fn get_all_risks(&self) -> (risks: Vec<Risk>)
        requires
            self.wf(),
        ensures
            risks@.len() == self.risks@.len(),
            forall|k: int|
                0 <= k < risks@.len() ==> #[trigger] risks@[k] == spec_materialize(self.risks@[k]),
    {
        let mut out: Vec<Risk> = Vec::new();
        let mut i: usize = 0;
        while i < self.risks.len()
            invariant
                self.wf(),
                i <= self.risks@.len(),
                out@.len() == i,
                forall|k: int|
                    0 <= k < i ==> #[trigger] out@[k] == spec_materialize(self.risks@[k]),
            decreases self.risks@.len() - i,
        {
            let risk = materialize_risk(&self.risks[i]);
            out.push(risk);
            i += 1;
        }
        out
    }

    /// The critical-risk ranking: exactly the evaluated risks, each with its
    /// evaluation's score, ordered by score, highest first. Entries of equal
    /// score keep no fixed order among themselves.
    pub fn get_critical_risks(&self) -> (ranked: Vec<CriticalRisk>)
        requires
            self.wf(),
        ensures
            ranked@.to_multiset() == joined_critical(self.risks@, self.evaluations@).to_multiset(),
            forall|a: int, b: int|
                0 <= a < b < ranked@.len() ==> (#[trigger] ranked@[a]).score >= (
                #[trigger] ranked@[b]).score,
            forall|k: int|
                0 <= k < ranked@.len() ==> joined_critical(self.risks@, self.evaluations@).contains(
                    #[trigger] ranked@[k],
                ),
    {
        let ghost joined = joined_critical(self.risks@, self.evaluations@);
        let mut found: Vec<CriticalRisk> = Vec::new();
        let mut i: usize = 0;
        while i < self.risks.len()
            invariant
                self.wf(),
                i <= self.risks@.len(),
                found@ == joined_critical(self.risks@.take(i as int), self.evaluations@),
            decreases self.risks@.len() - i,
        {
            proof {
                assert(self.risks@.take(i + 1).drop_last() =~= self.risks@.take(i as int));
                assert(self.risks@.take(i + 1).last() == self.risks@[i as int]);
            }
            let id = self.risks[i].id;
            let pos = self.evaluation_pos(id);
            match pos {
                Some(j) => {
                    proof {
                        lemma_evaluation_index_is(self.evaluations@, id, j as int);
                    }
                    let entry = CriticalRisk {
                        id: id,
                        title: self.risks[i].title.clone(),
                        status: self.risks[i].status,
                        score: self.evaluations[j].score,
                    };
                    found.push(entry);
                    proof {
                        assert(found@ =~= joined_critical(
                            self.risks@.take(i as int + 1),
                            self.evaluations@,
                        ));
                    }
                },
                None => {
                },
            }
            i += 1;
        }
        proof {
            assert(self.risks@.take(self.risks@.len() as int) =~= self.risks@);
        }
        let ghost all = found@;
        let mut pending = found;
        let mut ranked: Vec<CriticalRisk> = Vec::new();
        while pending.len() > 0
            invariant
                ranked@.to_multiset().add(pending@.to_multiset()) == all.to_multiset(),
                forall|a: int, b: int|
                    0 <= a < b < ranked@.len() ==> (#[trigger] ranked@[a]).score >= (
                    #[trigger] ranked@[b]).score,
                forall|a: int, j: int|
                    0 <= a < ranked@.len() && 0 <= j < pending@.len() ==> (
                #[trigger] ranked@[a]).score >= (#[trigger] pending@[j]).score,
            decreases pending@.len(),
        {
            let mut best: usize = 0;
            let mut m: usize = 1;
            while m < pending.len()
                invariant
                    (best as int) < pending@.len(),
                    m <= pending@.len(),
                    forall|j: int|
                        0 <= j < m ==> pending@[best as int].score >= (
                        #[trigger] pending@[j]).score,
                decreases pending@.len() - m,
            {
                if pending[m].score > pending[best].score {
                    best = m;
                }
                m += 1;
            }
            let item = pending.remove(best);
            ranked.push(item);
            proof {
                assert(ranked@.to_multiset().add(pending@.to_multiset()) =~= all.to_multiset());
            }
        }
        proof {
            assert(ranked@.to_multiset().add(pending@.to_multiset()) =~= ranked@.to_multiset());
            assert forall|k: int| 0 <= k < ranked@.len() implies joined.contains(
                #[trigger] ranked@[k],
            ) by {
                assert(ranked@.contains(ranked@[k]));
                assert(ranked@.to_multiset().count(ranked@[k]) > 0);
                assert(joined.to_multiset().count(ranked@[k]) > 0);
            }
        }
        ranked
    }
}

} // verus!
