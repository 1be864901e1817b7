//! Identifiers of events and of the conversations they belong to.

use uuid::Uuid;
use vstd::prelude::*;

verus! {

/// `uuid::Uuid`, a 128-bit identifier. The store carries identifiers through
/// and compares them; it never looks inside one.
#[verifier::external_type_specification]
#[verifier::external_body]
pub struct ExUuid(Uuid);

/// Calls `Uuid`'s `==`, which the `uuid` crate derives over the sixteen
/// bytes of the identifier. The contract takes two identifiers to be the same
/// value exactly when that comparison says so.
#[verifier::external_body]
pub(crate) fn same_id(a: &Uuid, b: &Uuid) -> (same: bool)
    ensures
        same == (*a == *b),
{
    a.eq(b)
}

/// Whether an optional identifier is present and equal to `wanted`.
pub fn is_id(tag: &Option<Uuid>, wanted: &Uuid) -> (hit: bool)
    ensures
        hit == (*tag == Some(*wanted)),
{
    match tag {
        Some(id) => same_id(id, wanted),
        None => false,
    }
}

} // verus!
