//! The risk lifecycle: a closed status enum and the fixed state machine that
//! governs which status changes are allowed. The machine starts at
//! `Identified`; `Accepted`, `Rejected`, `Transferred` and `Closed` are
//! terminal. Statuses are kept as a tagged union inside the register and
//! turned into text only at the storage boundary.

use vstd::prelude::*;

use crate::external::str_eq;

verus! {

/// Lifecycle status of a risk.
#[derive(Clone, Copy, Debug, PartialEq, Eq, Structural)]
pub enum RiskStatus {
    Identified,
    Assessed,
    InTreatment,
    Monitoring,
    Accepted,
    Rejected,
    Transferred,
    Closed,
}

/// The seven allowed edges of the status machine; every other pair of
/// statuses (self-transitions, backward moves and skips included) is
/// rejected.
pub open spec fn transition_allowed(current: RiskStatus, next: RiskStatus) -> bool {
    ||| (current is Identified && next is Assessed)
    ||| (current is Assessed && next is InTreatment)
    ||| (current is InTreatment && next is Monitoring)
    ||| (current is InTreatment && next is Closed)
    ||| (current is Monitoring && next is Accepted)
    ||| (current is Monitoring && next is Rejected)
    ||| (current is Monitoring && next is Transferred)
}

/// The terminal statuses: no edge leaves them.
pub open spec fn is_terminal(status: RiskStatus) -> bool {
    ||| status is Accepted
    ||| status is Rejected
    ||| status is Transferred
    ||| status is Closed
}

/// Decides, without touching any store, whether a status change is one of
/// the seven allowed edges. Total over all pairs of statuses.
pub fn is_valid_transition(current: &RiskStatus, next: &RiskStatus) -> (valid: bool)
    ensures
        valid == transition_allowed(*current, *next),
{
    match (*current, *next) {
        (RiskStatus::Identified, RiskStatus::Assessed) => true,
        (RiskStatus::Assessed, RiskStatus::InTreatment) => true,
        (RiskStatus::InTreatment, RiskStatus::Monitoring) => true,
        (RiskStatus::InTreatment, RiskStatus::Closed) => true,
        (RiskStatus::Monitoring, RiskStatus::Accepted) => true,
        (RiskStatus::Monitoring, RiskStatus::Rejected) => true,
        (RiskStatus::Monitoring, RiskStatus::Transferred) => true,
        _ => false,
    }
}

/// A terminal status admits no outgoing transition.
pub proof fn lemma_terminal_no_exit(current: RiskStatus, next: RiskStatus)
    ensures
        is_terminal(current) ==> !transition_allowed(current, next),
{
}

/// No status may transition to itself.
pub proof fn lemma_no_self_transition(status: RiskStatus)
    ensures
        !transition_allowed(status, status),
{
}

/// The text form of each status, as it is written at the storage boundary.
pub open spec fn status_name(status: RiskStatus) -> Seq<char> {
    match status {
        RiskStatus::Identified => "Identified"@,
        RiskStatus::Assessed => "Assessed"@,
        RiskStatus::InTreatment => "InTreatment"@,
        RiskStatus::Monitoring => "Monitoring"@,
        RiskStatus::Accepted => "Accepted"@,
        RiskStatus::Rejected => "Rejected"@,
        RiskStatus::Transferred => "Transferred"@,
        RiskStatus::Closed => "Closed"@,
    }
}

/// The status a text form names, if any.
pub open spec fn status_of_name(name: Seq<char>) -> Option<RiskStatus> {
    if name == "Identified"@ {
        Some(RiskStatus::Identified)
    } else if name == "Assessed"@ {
        Some(RiskStatus::Assessed)
    } else if name == "InTreatment"@ {
        Some(RiskStatus::InTreatment)
    } else if name == "Monitoring"@ {
        Some(RiskStatus::Monitoring)
    } else if name == "Accepted"@ {
        Some(RiskStatus::Accepted)
    } else if name == "Rejected"@ {
        Some(RiskStatus::Rejected)
    } else if name == "Transferred"@ {
        Some(RiskStatus::Transferred)
    } else if name == "Closed"@ {
        Some(RiskStatus::Closed)
    } else {
        None
    }
}

impl RiskStatus {
    /// The status as text, for the storage boundary.
    pub fn to_text(&self) -> (text: String)
        ensures
            text@ == status_name(*self),
    {
        match *self {
            RiskStatus::Identified => "Identified".to_owned(),
            RiskStatus::Assessed => "Assessed".to_owned(),
            RiskStatus::InTreatment => "InTreatment".to_owned(),
            RiskStatus::Monitoring => "Monitoring".to_owned(),
            RiskStatus::Accepted => "Accepted".to_owned(),
            RiskStatus::Rejected => "Rejected".to_owned(),
            RiskStatus::Transferred => "Transferred".to_owned(),
            RiskStatus::Closed => "Closed".to_owned(),
        }
    }
}

/// Reads a status back from its text form; `None` for any other text.
pub fn status_from_text(text: &str) -> (status: Option<RiskStatus>)
    ensures
        status == status_of_name(text@),
{
    if str_eq(text, "Identified") {
        Some(RiskStatus::Identified)
    } else if str_eq(text, "Assessed") {
        Some(RiskStatus::Assessed)
    } else if str_eq(text, "InTreatment") {
        Some(RiskStatus::InTreatment)
    } else if str_eq(text, "Monitoring") {
        Some(RiskStatus::Monitoring)
    } else if str_eq(text, "Accepted") {
        Some(RiskStatus::Accepted)
    } else if str_eq(text, "Rejected") {
        Some(RiskStatus::Rejected)
    } else if str_eq(text, "Transferred") {
        Some(RiskStatus::Transferred)
    } else if str_eq(text, "Closed") {
        Some(RiskStatus::Closed)
    } else {
        None
    }
}

/// Writing a status as text and reading it back yields the same status.
pub proof fn lemma_status_text_round_trip(status: RiskStatus)
    ensures
        status_of_name(status_name(status)) == Some(status),
{
    reveal_strlit("Identified");
    reveal_strlit("Assessed");
    reveal_strlit("InTreatment");
    reveal_strlit("Monitoring");
    reveal_strlit("Accepted");
    reveal_strlit("Rejected");
    reveal_strlit("Transferred");
    reveal_strlit("Closed");
    // The eight names are pairwise distinct: most differ in length, and the
    // three equal-length groups are told apart by a character.
    assert("Identified"@.len() == 10 && "Assessed"@.len() == 8 && "InTreatment"@.len() == 11
        && "Monitoring"@.len() == 10 && "Accepted"@.len() == 8 && "Rejected"@.len() == 8
        && "Transferred"@.len() == 11 && "Closed"@.len() == 6);
    assert("Monitoring"@[0] == 'M' && "Identified"@[0] == 'I');
    assert("Accepted"@[1] == 'c' && "Assessed"@[1] == 's' && "Rejected"@[1] == 'e');
    assert("Transferred"@[0] == 'T' && "InTreatment"@[0] == 'I');
}

} // verus!
