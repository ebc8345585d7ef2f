//! The few points where the library leans on outside code: identifier and
//! timestamp generation, and one string primitive of std that vstd leaves
//! unspecified. Everything else in the crate is verified against these
//! contracts.

use vstd::prelude::*;

verus! {

/// Relies on `uuid::Uuid::new_v4` and `Uuid::as_u128`: a freshly drawn
/// version-4 identifier, returned as its 128-bit value. The draw is random,
/// so nothing is promised of the result. (`new_v4` aborts if the operating
/// system's random source fails; no input of this function can avoid or
/// cause that.)
#[verifier::external_body]
pub(crate) fn fresh_id() -> u128 {
    uuid::Uuid::new_v4().as_u128()
}

/// Relies on `chrono::Utc::now` and `DateTime::timestamp`: the current time
/// as whole seconds since the Unix epoch. The machine clock decides the
/// value, so nothing is promised of it. (`Utc::now` aborts on a clock set
/// before the epoch; no input of this function can avoid or cause that.)
#[verifier::external_body]
pub(crate) fn now_timestamp() -> i64 {
    chrono::Utc::now().timestamp()
}

/// Relies on `str`'s `PartialEq::eq` (std, unspecified in vstd): two string
/// slices compare equal exactly when they hold the same characters.
#[verifier::external_body]
pub(crate) fn str_eq(a: &str, b: &str) -> (equal: bool)
    ensures
        equal == (a@ == b@),
{
    a == b
}

} // verus!
