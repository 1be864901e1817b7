use crate::error::StoreError;
use crate::types::expected_version::ExpectedVersion;
use vstd::prelude::*;

verus! {

/// A stream version that knows which version an append would write next.
///
/// Versions count from one: the first event of a stream has version 1, and
/// a version of 0 stands for a stream without events.
pub trait Version<V> {
    /// Whether the version after this one can still be represented.
    spec fn has_next(&self) -> bool;

    /// What `next_version` answers under the guard `version`.
    spec fn next_version_spec(&self, version: &ExpectedVersion<V>) -> Result<V, StoreError>;

    /// The version that an append to a stream standing at `self` writes
    /// first, or the refusal of the guard `version`.
    fn next_version(&self, version: &ExpectedVersion<V>) -> (next: Result<V, StoreError>)
        requires
            self.has_next(),
        ensures
            next == self.next_version_spec(version),
    ;
}

} // verus!
