//! The record types of the register, the error taxonomy, and the
//! materialized risk view with its freshly computed score.
//!
//! Identifiers are 128-bit values (UUIDs at the boundary); timestamps are
//! whole seconds since the Unix epoch. The transport layer owns wire formats
//! and serialization; these types carry plain values only.

use vstd::prelude::*;

use crate::scoring::{rating_in_range, risk_score, spec_risk_score, spec_evaluation_score};
use crate::status::RiskStatus;

verus! {

/// Why an operation on the register was refused.
#[derive(Clone, Copy, Debug, PartialEq, Eq, Structural)]
pub enum RegisterError {
    /// The referenced risk or incident does not exist.
    NotFound,
    /// The requested status change is not an allowed edge from the current
    /// status; nothing was written.
    InvalidTransition,
    /// A rating lay outside `1..=5`; nothing was written.
    InvalidRating,
    /// The risk already has an evaluation; at most one is kept per risk.
    DuplicateEvaluation,
    /// A freshly drawn identifier collided with a stored one; nothing was
    /// written.
    DuplicateId,
}

/// A risk as the register stores it. The score is never stored: it is
/// recomputed from `impact` and `probability` at every read.
#[derive(Debug)]
pub struct DbRisk {
    pub id: u128,
    pub title: String,
    pub description: Option<String>,
    pub impact: i32,
    pub probability: i32,
    pub status: RiskStatus,
    pub created_at: i64,
    pub updated_at: i64,
    pub external_id: Option<String>,
    pub category: Option<String>,
    pub location: Option<String>,
    pub regulation: Option<String>,
    pub control_measure_id: Option<String>,
}

/// A risk as readers receive it: the stored fields plus the derived score.
#[derive(Debug)]
pub struct Risk {
    pub id: u128,
    pub title: String,
    pub description: Option<String>,
    pub impact: i32,
    pub probability: i32,
    pub status: RiskStatus,
    pub created_at: i64,
    pub updated_at: i64,
    pub external_id: Option<String>,
    pub category: Option<String>,
    pub location: Option<String>,
    pub regulation: Option<String>,
    pub control_measure_id: Option<String>,
    pub score: Option<i32>,
}

/// Client-supplied fields for creating or editing a risk. Only the title,
/// description, impact and probability are stored; the remaining fields
/// accompany the form but have no workflow meaning.
#[derive(Debug)]
pub struct NewRisk {
    pub title: String,
    pub description: Option<String>,
    pub external_id: Option<String>,
    pub tags: Option<Vec<String>>,
    pub risk_map: Option<String>,
    pub threat_map: Option<String>,
    pub category: Option<String>,
    pub location: Option<String>,
    pub regulation: Option<String>,
    pub control_measure_id: Option<String>,
    pub assets: Option<Vec<String>>,
    pub technology: Option<String>,
    pub team: Option<String>,
    pub stakeholders: Option<Vec<String>>,
    pub owner: Option<String>,
    pub owner_delegate: Option<String>,
    pub source: Option<String>,
    pub evaluation_method: Option<String>,
    pub impact: i32,
    pub probability: i32,
    pub evaluation_notes: Option<String>,
    pub additional_notes: Option<String>,
    pub file_attachment: Option<String>,
    pub status: Option<RiskStatus>,
}

/// A quantitative evaluation of one risk; at most one per risk. The score is
/// derived from the three ratings at creation and update.
#[derive(Clone, Copy, Debug, PartialEq, Eq, Structural)]
pub struct RiskEvaluation {
    pub id: u128,
    pub risk_id: u128,
    pub severity: i32,
    pub likelihood: i32,
    pub detectability: i32,
    pub score: i32,
    pub created_at: i64,
    pub updated_at: i64,
}

/// One entry of the append-only status audit trail; written exactly once per
/// successful transition, never updated or deleted.
#[derive(Clone, Copy, Debug, PartialEq, Eq, Structural)]
pub struct RiskStatusHistory {
    pub id: u128,
    pub risk_id: u128,
    pub old_status: RiskStatus,
    pub new_status: RiskStatus,
    pub changed_at: i64,
}

/// An operational incident; plain CRUD, no workflow. The related risk is a
/// weak reference: it is never checked against the risks and deleting the
/// risk leaves it in place.
#[derive(Debug)]
pub struct Incident {
    pub id: u128,
    pub title: String,
    pub description: Option<String>,
    pub severity: String,
    pub status: String,
    pub related_risk_id: Option<u128>,
    pub created_at: i64,
}

/// Client-supplied fields for creating or editing an incident.
#[derive(Debug)]
pub struct NewIncident {
    pub title: String,
    pub description: Option<String>,
    pub severity: String,
    pub status: String,
    pub related_risk_id: Option<u128>,
}

/// One row of the critical-risk ranking: an evaluated risk with its
/// evaluation score.
#[derive(Debug)]
pub struct CriticalRisk {
    pub id: u128,
    pub title: String,
    pub status: RiskStatus,
    pub score: i32,
}

/// The body of a status-change request.
#[derive(Debug)]
pub struct UpdateStatusPayload {
    pub status: RiskStatus,
}

/// The body of an evaluation-creation request.
#[derive(Clone, Copy, Debug, PartialEq, Eq, Structural)]
pub struct RiskEvaluationInput {
    pub severity: i32,
    pub likelihood: i32,
    pub detectability: i32,
}

/// A stored risk is well formed when its two ratings are in range.
pub open spec fn risk_wf(risk: DbRisk) -> bool {
    &&& rating_in_range(risk.impact as int)
    &&& rating_in_range(risk.probability as int)
}

/// A stored evaluation is well formed when its ratings are in range and its
/// score is exactly the derived one.
pub open spec fn evaluation_wf(evaluation: RiskEvaluation) -> bool {
    &&& rating_in_range(evaluation.severity as int)
    &&& rating_in_range(evaluation.likelihood as int)
    &&& rating_in_range(evaluation.detectability as int)
    &&& evaluation.score == spec_evaluation_score(
        evaluation.severity as int,
        evaluation.likelihood as int,
        evaluation.detectability as int,
    )
}

/// The reader's view of a stored risk: every stored field unchanged, and the
/// score freshly recomputed from the current impact and probability.
pub open spec fn spec_materialize(risk: DbRisk) -> Risk {
    Risk {
        id: risk.id,
        title: risk.title,
        description: risk.description,
        impact: risk.impact,
        probability: risk.probability,
        status: risk.status,
        created_at: risk.created_at,
        updated_at: risk.updated_at,
        external_id: risk.external_id,
        category: risk.category,
        location: risk.location,
        regulation: risk.regulation,
        control_measure_id: risk.control_measure_id,
        score: Some(spec_risk_score(risk.impact as int, risk.probability as int) as i32),
    }
}

/// Copies an optional string; the copy holds the same characters.
pub fn clone_opt_string(text: &Option<String>) -> (copy: Option<String>)
    ensures
        copy == *text,
{
    match text {
        Some(inner) => Some(inner.clone()),
        None => None,
    }
}

/// Materializes a stored risk for a reader, recomputing the score.
pub fn materialize_risk(risk: &DbRisk) -> (materialized: Risk)
    requires
        risk_wf(*risk),
    ensures
        materialized == spec_materialize(*risk),
{
    let score = risk_score(risk.impact, risk.probability);
    Risk {
        id: risk.id,
        title: risk.title.clone(),
        description: clone_opt_string(&risk.description),
        impact: risk.impact,
        probability: risk.probability,
        status: risk.status,
        created_at: risk.created_at,
        updated_at: risk.updated_at,
        external_id: clone_opt_string(&risk.external_id),
        category: clone_opt_string(&risk.category),
        location: clone_opt_string(&risk.location),
        regulation: clone_opt_string(&risk.regulation),
        control_measure_id: clone_opt_string(&risk.control_measure_id),
        score: Some(score),
    }
}

/// Copies an incident; the copy equals the original.
pub fn clone_incident(incident: &Incident) -> (copy: Incident)
    ensures
        copy == *incident,
{
    Incident {
        id: incident.id,
        title: incident.title.clone(),
        description: clone_opt_string(&incident.description),
        severity: incident.severity.clone(),
        status: incident.status.clone(),
        related_risk_id: incident.related_risk_id,
        created_at: incident.created_at,
    }
}

} // verus!
