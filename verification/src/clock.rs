//! The wall clock that stamps streams and events.

use chrono::NaiveDateTime;
use vstd::prelude::*;

verus! {

/// `chrono::NaiveDateTime`, a calendar date and time of day without a zone.
/// Every timestamp of this crate is such a value read in UTC. The store
/// carries timestamps through and never orders anything by them.
#[verifier::external_type_specification]
#[verifier::external_body]
pub struct ExNaiveDateTime(NaiveDateTime);

/// Calls `chrono::Utc::now` and drops the zone with `DateTime::naive_utc`.
/// Nothing is claimed of the result: two calls may hand back any two
/// instants. `Utc::now` panics where the system clock stands before the Unix
/// epoch.
#[verifier::external_body]
pub(crate) fn utc_now() -> (now: NaiveDateTime) {
    chrono::Utc::now().naive_utc()
}

} // verus!
