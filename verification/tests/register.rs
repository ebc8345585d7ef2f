//! The register: workflow, scoring, evaluations, ranking, history and
//! incidents, exercised end to end through the public operations.

use risk_register::model::{NewIncident, NewRisk, RegisterError, RiskEvaluationInput};
use risk_register::status::RiskStatus;
use risk_register::store::RiskRegister;

fn risk_data(title: &str, impact: i32, probability: i32) -> NewRisk {
    NewRisk {
        title: title.to_string(),
        description: None,
        external_id: None,
        tags: None,
        risk_map: None,
        threat_map: None,
        category: None,
        location: None,
        regulation: None,
        control_measure_id: None,
        assets: None,
        technology: None,
        team: None,
        stakeholders: None,
        owner: None,
        owner_delegate: None,
        source: None,
        evaluation_method: None,
        impact,
        probability,
        evaluation_notes: None,
        additional_notes: None,
        file_attachment: None,
        status: None,
    }
}

fn incident_data(title: &str, severity: &str, status: &str) -> NewIncident {
    NewIncident {
        title: title.to_string(),
        description: None,
        severity: severity.to_string(),
        status: status.to_string(),
        related_risk_id: None,
    }
}

/// Walks a freshly created risk along allowed edges up to the given status.
fn drive_to(register: &mut RiskRegister, id: u128, target: RiskStatus, mut now: i64) -> i64 {
    let path = [
        RiskStatus::Assessed,
        RiskStatus::InTreatment,
        RiskStatus::Monitoring,
    ];
    for step in path {
        register
            .apply_status_transition(id, step, now)
            .expect("step along the allowed path");
        now += 1;
        if step == target {
            break;
        }
    }
    now
}

#[test]
fn created_risk_starts_identified_with_computed_score() {
    let mut register = RiskRegister::new();
    let risk = register
        .create_risk_at(&risk_data("outage", 4, 3), 1, 100)
        .expect("creation succeeds");
    assert_eq!(risk.id, 1);
    assert_eq!(risk.status, RiskStatus::Identified);
    assert_eq!(risk.score, Some(12));
    assert_eq!(risk.created_at, 100);
    assert_eq!(risk.updated_at, 100);
    assert_eq!(register.history.len(), 0);
}

#[test]
fn monitoring_to_accepted_succeeds_and_appends_one_history_row() {
    let mut register = RiskRegister::new();
    register
        .create_risk_at(&risk_data("outage", 4, 3), 1, 100)
        .expect("creation succeeds");
    let now = drive_to(&mut register, 1, RiskStatus::Monitoring, 101);
    let rows_before = register.history.len();
    let risk = register
        .apply_status_transition(1, RiskStatus::Accepted, now)
        .expect("Monitoring -> Accepted is allowed");
    assert_eq!(risk.status, RiskStatus::Accepted);
    assert_eq!(risk.updated_at, now);
    assert_eq!(register.history.len(), rows_before + 1);
    let row = register.history.last().unwrap();
    assert_eq!(row.risk_id, 1);
    assert_eq!(row.old_status, RiskStatus::Monitoring);
    assert_eq!(row.new_status, RiskStatus::Accepted);
    assert_eq!(row.changed_at, now);
}

#[test]
fn identified_to_in_treatment_is_refused_and_writes_nothing() {
    let mut register = RiskRegister::new();
    register
        .create_risk_at(&risk_data("outage", 4, 3), 1, 100)
        .expect("creation succeeds");
    let result = register.apply_status_transition(1, RiskStatus::InTreatment, 200);
    assert_eq!(result.unwrap_err(), RegisterError::InvalidTransition);
    assert_eq!(register.risks[0].status, RiskStatus::Identified);
    assert_eq!(register.risks[0].updated_at, 100);
    assert_eq!(register.history.len(), 0);
}

#[test]
fn transition_on_unknown_risk_is_not_found_and_writes_nothing() {
    let mut register = RiskRegister::new();
    register
        .create_risk_at(&risk_data("outage", 4, 3), 1, 100)
        .expect("creation succeeds");
    let result = register.apply_status_transition(9, RiskStatus::Assessed, 200);
    assert_eq!(result.unwrap_err(), RegisterError::NotFound);
    assert_eq!(register.risks.len(), 1);
    assert_eq!(register.risks[0].status, RiskStatus::Identified);
    assert_eq!(register.history.len(), 0);
}

#[test]
fn score_follows_edits_immediately() {
    let mut register = RiskRegister::new();
    let created = register
        .create_risk_at(&risk_data("outage", 2, 3), 1, 100)
        .expect("creation succeeds");
    assert_eq!(created.score, Some(6));
    let edited = register
        .update_risk(1, &risk_data("outage", 4, 3), 150)
        .expect("edit succeeds");
    assert_eq!(edited.score, Some(12));
    assert_eq!(edited.status, RiskStatus::Identified);
    assert_eq!(edited.updated_at, 150);
    assert_eq!(edited.created_at, 100);
    let listed = register.get_all_risks();
    assert_eq!(listed.len(), 1);
    assert_eq!(listed[0].score, Some(12));
}

#[test]
fn get_risk_by_id_materializes_or_reports_missing() {
    let mut register = RiskRegister::new();
    register
        .create_risk_at(&risk_data("outage", 4, 3), 1, 100)
        .expect("creation succeeds");
    let risk = register.get_risk_by_id(1).expect("risk is stored");
    assert_eq!(risk.title, "outage");
    assert_eq!(risk.score, Some(12));
    assert_eq!(risk.status, RiskStatus::Identified);
    assert!(register.get_risk_by_id(2).is_none());
}

#[test]
fn out_of_range_rating_is_refused() {
    let mut register = RiskRegister::new();
    let result = register.create_risk_at(&risk_data("outage", 6, 3), 1, 100);
    assert_eq!(result.unwrap_err(), RegisterError::InvalidRating);
    assert_eq!(register.risks.len(), 0);
    register
        .create_risk_at(&risk_data("outage", 4, 3), 1, 100)
        .expect("creation succeeds");
    let result = register.update_risk(1, &risk_data("outage", 1, 0), 150);
    assert_eq!(result.unwrap_err(), RegisterError::InvalidRating);
    assert_eq!(register.risks[0].impact, 4);
}

#[test]
fn duplicate_risk_id_is_refused() {
    let mut register = RiskRegister::new();
    register
        .create_risk_at(&risk_data("first", 4, 3), 1, 100)
        .expect("creation succeeds");
    let result = register.create_risk_at(&risk_data("second", 2, 2), 1, 200);
    assert_eq!(result.unwrap_err(), RegisterError::DuplicateId);
    assert_eq!(register.risks.len(), 1);
    assert_eq!(register.risks[0].title, "first");
}

#[test]
fn update_on_unknown_risk_is_not_found() {
    let mut register = RiskRegister::new();
    let result = register.update_risk(1, &risk_data("outage", 4, 3), 100);
    assert_eq!(result.unwrap_err(), RegisterError::NotFound);
}

#[test]
fn evaluation_round_trips_with_documented_score() {
    let mut register = RiskRegister::new();
    register
        .create_risk_at(&risk_data("outage", 4, 3), 1, 100)
        .expect("creation succeeds");
    let input = RiskEvaluationInput { severity: 3, likelihood: 4, detectability: 2 };
    let created = register
        .create_evaluation_at(1, &input, 11, 200)
        .expect("evaluation succeeds");
    assert_eq!(created.score, 24);
    let read = register.get_evaluation(1).expect("evaluation is stored");
    assert_eq!(read.risk_id, 1);
    assert_eq!(read.severity, 3);
    assert_eq!(read.likelihood, 4);
    assert_eq!(read.detectability, 2);
    assert_eq!(read.score, 3 * 4 * 2);
    assert_eq!(read.created_at, 200);
}

#[test]
fn evaluation_errors_are_exact() {
    let mut register = RiskRegister::new();
    let input = RiskEvaluationInput { severity: 3, likelihood: 4, detectability: 2 };
    let missing = register.create_evaluation_at(1, &input, 11, 200);
    assert_eq!(missing.unwrap_err(), RegisterError::NotFound);
    register
        .create_risk_at(&risk_data("outage", 4, 3), 1, 100)
        .expect("creation succeeds");
    let bad = RiskEvaluationInput { severity: 0, likelihood: 4, detectability: 2 };
    let refused = register.create_evaluation_at(1, &bad, 11, 200);
    assert_eq!(refused.unwrap_err(), RegisterError::InvalidRating);
    register
        .create_evaluation_at(1, &input, 11, 200)
        .expect("evaluation succeeds");
    let again = register.create_evaluation_at(1, &input, 12, 300);
    assert_eq!(again.unwrap_err(), RegisterError::DuplicateEvaluation);
    assert_eq!(register.evaluations.len(), 1);
    assert_eq!(register.get_evaluation(9), None);
}

#[test]
fn ranking_excludes_unevaluated_and_orders_by_score_descending() {
    let mut register = RiskRegister::new();
    register
        .create_risk_at(&risk_data("low", 1, 1), 1, 100)
        .expect("creation succeeds");
    register
        .create_risk_at(&risk_data("high", 5, 5), 2, 101)
        .expect("creation succeeds");
    register
        .create_risk_at(&risk_data("unevaluated", 3, 3), 3, 102)
        .expect("creation succeeds");
    register
        .create_evaluation_at(1, &RiskEvaluationInput { severity: 5, likelihood: 1, detectability: 1 }, 11, 200)
        .expect("evaluation succeeds");
    register
        .create_evaluation_at(2, &RiskEvaluationInput { severity: 5, likelihood: 4, detectability: 1 }, 12, 201)
        .expect("evaluation succeeds");
    let ranked = register.get_critical_risks();
    assert_eq!(ranked.len(), 2);
    assert_eq!(ranked[0].score, 20);
    assert_eq!(ranked[0].id, 2);
    assert_eq!(ranked[0].title, "high");
    assert_eq!(ranked[1].score, 5);
    assert_eq!(ranked[1].id, 1);
    assert!(ranked.iter().all(|entry| entry.id != 3));
}

#[test]
fn history_comes_back_ordered_by_change_instant() {
    let mut register = RiskRegister::new();
    register
        .create_risk_at(&risk_data("a", 4, 3), 1, 100)
        .expect("creation succeeds");
    register
        .create_risk_at(&risk_data("b", 4, 3), 2, 100)
        .expect("creation succeeds");
    register
        .apply_status_transition(1, RiskStatus::Assessed, 300)
        .expect("allowed");
    register
        .apply_status_transition(2, RiskStatus::Assessed, 250)
        .expect("allowed");
    register
        .apply_status_transition(1, RiskStatus::InTreatment, 400)
        .expect("allowed");
    register
        .apply_status_transition(1, RiskStatus::Closed, 500)
        .expect("allowed");
    let history = register.get_risk_history(1);
    assert_eq!(history.len(), 3);
    assert!(history.iter().all(|row| row.risk_id == 1));
    assert_eq!(history[0].changed_at, 300);
    assert_eq!(history[1].changed_at, 400);
    assert_eq!(history[2].changed_at, 500);
    assert_eq!(history[0].old_status, RiskStatus::Identified);
    assert_eq!(history[2].new_status, RiskStatus::Closed);
    assert_eq!(register.get_risk_history(9).len(), 0);
}

#[test]
fn deleting_a_risk_removes_its_evaluation_but_keeps_the_audit_trail() {
    let mut register = RiskRegister::new();
    register
        .create_risk_at(&risk_data("doomed", 4, 3), 1, 100)
        .expect("creation succeeds");
    register
        .apply_status_transition(1, RiskStatus::Assessed, 200)
        .expect("allowed");
    register
        .create_evaluation_at(1, &RiskEvaluationInput { severity: 2, likelihood: 2, detectability: 2 }, 11, 300)
        .expect("evaluation succeeds");
    assert!(register.delete_risk(1));
    assert_eq!(register.risks.len(), 0);
    assert_eq!(register.evaluations.len(), 0);
    assert_eq!(register.history.len(), 1);
    assert!(!register.delete_risk(1));
}

#[test]
fn generated_identifiers_are_distinct() {
    let mut register = RiskRegister::new();
    let first = register
        .create_risk(&risk_data("one", 2, 2))
        .expect("creation succeeds");
    let second = register
        .create_risk(&risk_data("two", 3, 3))
        .expect("creation succeeds");
    assert_ne!(first.id, second.id);
    assert_eq!(register.risks.len(), 2);
}

#[test]
fn incident_crud_round_trips() {
    let mut register = RiskRegister::new();
    let created = register
        .create_incident_at(&incident_data("leak", "high", "new"), 21, 100)
        .expect("creation succeeds");
    assert_eq!(created.id, 21);
    assert_eq!(created.severity, "high");
    let read = register.get_incident_by_id(21).expect("incident is stored");
    assert_eq!(read.title, "leak");
    assert_eq!(read.created_at, 100);
    register
        .update_incident(21, &incident_data("leak", "high", "resolved"))
        .expect("update succeeds");
    let read = register.get_incident_by_id(21).expect("incident is stored");
    assert_eq!(read.status, "resolved");
    assert_eq!(read.created_at, 100);
    assert_eq!(
        register.update_incident(22, &incident_data("x", "low", "new")).unwrap_err(),
        RegisterError::NotFound
    );
    assert_eq!(
        register
            .create_incident_at(&incident_data("dup", "low", "new"), 21, 200)
            .unwrap_err(),
        RegisterError::DuplicateId
    );
    register.delete_incident(21).expect("delete succeeds");
    assert_eq!(register.delete_incident(21).unwrap_err(), RegisterError::NotFound);
    assert!(register.get_incident_by_id(21).is_none());
}

#[test]
fn incident_listing_is_newest_first() {
    let mut register = RiskRegister::new();
    register
        .create_incident_at(&incident_data("old", "low", "new"), 1, 100)
        .expect("creation succeeds");
    register
        .create_incident_at(&incident_data("newest", "low", "new"), 2, 300)
        .expect("creation succeeds");
    register
        .create_incident_at(&incident_data("middle", "low", "new"), 3, 200)
        .expect("creation succeeds");
    let listed = register.get_all_incidents();
    assert_eq!(listed.len(), 3);
    assert_eq!(listed[0].title, "newest");
    assert_eq!(listed[1].title, "middle");
    assert_eq!(listed[2].title, "old");
}
