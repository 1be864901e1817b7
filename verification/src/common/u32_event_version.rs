//! Stream versions held in an unsigned 32-bit integer.

use crate::error::StoreError;
use crate::traits::version::Version;
use crate::types::expected_version::ExpectedVersion;
use vstd::prelude::*;

verus! {

/// The position of an event within its stream, counted from one.
#[derive(Clone, Copy, Debug, PartialEq, Eq)]
pub struct EventVersion(pub u32);

/// The version rule: what becomes of the candidate `next_ver`, one more than
/// the stream's last version, under the guard `version`.
pub open spec fn validated(version: ExpectedVersion<EventVersion>, next_ver: u32) -> Result<
    u32,
    StoreError,
> {
    match version {
        ExpectedVersion::Any => Ok(next_ver),
        ExpectedVersion::NoStream => if next_ver > 1 {
            Err(StoreError::StreamExists { existing: (next_ver - 1) as i64 })
        } else {
            Ok(next_ver)
        },
        ExpectedVersion::Exact(expected) => if next_ver != expected.0 {
            Err(StoreError::VersionMismatch { next: next_ver as i64, expected: expected.0 as i64 })
        } else {
            Ok(next_ver)
        },
    }
}

/// Applies the guard `version` to the candidate `next_ver`.
pub fn validate_version(version: &ExpectedVersion<EventVersion>, next_ver: u32) -> (res: Result<
    u32,
    StoreError,
>)
    ensures
        res == validated(*version, next_ver),
{
    match version {
        ExpectedVersion::Any => Ok(next_ver),
        ExpectedVersion::NoStream => {
            if next_ver > 1 {
                Err(StoreError::StreamExists { existing: (next_ver - 1) as i64 })
            } else {
                Ok(next_ver)
            }
        },
        ExpectedVersion::Exact(expected) => {
            if next_ver != expected.0 {
                Err(StoreError::VersionMismatch { next: next_ver as i64, expected: expected.0 as i64 })
            } else {
                Ok(next_ver)
            }
        },
    }
}

impl EventVersion {
    /// The version `a` places after this one.
    pub fn add(&self, a: u32) -> (sum: EventVersion)
        requires
            self.0 + a <= u32::MAX,
        ensures
            sum.0 == self.0 + a,
    {
        EventVersion(self.0 + a)
    }

    /// The version with the number `a`.
    pub fn new(a: u32) -> (version: EventVersion)
        ensures
            version.0 == a,
    {
        EventVersion(a)
    }
}

impl Version<EventVersion> for EventVersion {
    open spec fn has_next(&self) -> bool {
        self.0 < u32::MAX
    }

    open spec fn next_version_spec(&self, version: &ExpectedVersion<EventVersion>) -> Result<
        EventVersion,
        StoreError,
    > {
        match validated(*version, (self.0 + 1) as u32) {
            Ok(next) => Ok(EventVersion(next)),
            Err(refusal) => Err(refusal),
        }
    }

    fn next_version(&self, version: &ExpectedVersion<EventVersion>) -> (next: Result<
        EventVersion,
        StoreError,
    >) {
        match validate_version(version, self.0 + 1) {
            Ok(next) => Ok(EventVersion(next)),
            Err(refusal) => Err(refusal),
        }
    }
}

} // verus!
