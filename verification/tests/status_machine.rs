//! The status machine: the exhaustive transition table and the text forms.

use risk_register::status::{is_valid_transition, status_from_text, RiskStatus};

const ALL_STATUSES: [RiskStatus; 8] = [
    RiskStatus::Identified,
    RiskStatus::Assessed,
    RiskStatus::InTreatment,
    RiskStatus::Monitoring,
    RiskStatus::Accepted,
    RiskStatus::Rejected,
    RiskStatus::Transferred,
    RiskStatus::Closed,
];

const ALLOWED_EDGES: [(RiskStatus, RiskStatus); 7] = [
    (RiskStatus::Identified, RiskStatus::Assessed),
    (RiskStatus::Assessed, RiskStatus::InTreatment),
    (RiskStatus::InTreatment, RiskStatus::Monitoring),
    (RiskStatus::InTreatment, RiskStatus::Closed),
    (RiskStatus::Monitoring, RiskStatus::Accepted),
    (RiskStatus::Monitoring, RiskStatus::Rejected),
    (RiskStatus::Monitoring, RiskStatus::Transferred),
];

#[test]
fn transition_table_is_exactly_the_seven_edges() {
    let mut allowed_count: usize = 0;
    for current in ALL_STATUSES {
        for next in ALL_STATUSES {
            let expected = ALLOWED_EDGES.iter().any(|&(a, b)| a == current && b == next);
            assert_eq!(
                is_valid_transition(&current, &next),
                expected,
                "pair {:?} -> {:?}",
                current,
                next
            );
            if expected {
                allowed_count += 1;
            }
        }
    }
    assert_eq!(allowed_count, 7);
}

#[test]
fn self_transitions_are_rejected() {
    for status in ALL_STATUSES {
        assert!(!is_valid_transition(&status, &status));
    }
}

#[test]
fn terminal_statuses_have_no_exit() {
    let terminal = [
        RiskStatus::Accepted,
        RiskStatus::Rejected,
        RiskStatus::Transferred,
        RiskStatus::Closed,
    ];
    for current in terminal {
        for next in ALL_STATUSES {
            assert!(!is_valid_transition(&current, &next));
        }
    }
}

#[test]
fn status_text_round_trips() {
    for status in ALL_STATUSES {
        let text = status.to_text();
        assert_eq!(status_from_text(&text), Some(status));
    }
}

#[test]
fn status_text_spelling() {
    assert_eq!(RiskStatus::InTreatment.to_text(), "InTreatment");
    assert_eq!(RiskStatus::Identified.to_text(), "Identified");
}

#[test]
fn unknown_status_text_is_rejected() {
    assert_eq!(status_from_text("identified"), None);
    assert_eq!(status_from_text(""), None);
    assert_eq!(status_from_text("Open"), None);
}
