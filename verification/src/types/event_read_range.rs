use crate::common::i64_event_version::EventVersion;
use vstd::prelude::*;

verus! {

/// Which events of a stream a read returns, by version. Both bounds count.
#[derive(Copy, Debug)]
pub enum EventsReadRange<Version> {
    /// Every event of the stream.
    AllEvents,
    /// The events from the given version on.
    FromVersion(Version),
    /// The events up to the given version.
    ToVersion(Version),
    /// The events between the two versions. A range whose lower bound lies
    /// above its upper bound holds no event.
    VersionRange { from_version: Version, to_version: Version },
}

impl<Version: Copy> Clone for EventsReadRange<Version> {
    fn clone(&self) -> (copy: Self)
        ensures
            copy == *self,
    {
        *self
    }
}

impl EventsReadRange<EventVersion> {
    /// Whether an event of the version `version` lies in the range.
    pub open spec fn admits(self, version: EventVersion) -> bool {
        match self {
            EventsReadRange::AllEvents => true,
            EventsReadRange::FromVersion(from_version) => version.0 >= from_version.0,
            EventsReadRange::ToVersion(to_version) => 0 < version.0 <= to_version.0,
            EventsReadRange::VersionRange { from_version, to_version } => from_version.0
                <= version.0 <= to_version.0,
        }
    }

    /// The least version from 1 on that lies in the range, where any does.
    pub open spec fn least(self) -> int {
        match self {
            EventsReadRange::AllEvents => 1,
            EventsReadRange::FromVersion(from_version) => if from_version.0 > 1 {
                from_version.0 as int
            } else {
                1
            },
            EventsReadRange::ToVersion(_) => 1,
            EventsReadRange::VersionRange { from_version, to_version } => if from_version.0 > 1 {
                from_version.0 as int
            } else {
                1
            },
        }
    }

    /// The greatest version up to `last` that lies in the range, where any
    /// does.
    pub open spec fn greatest(self, last: int) -> int {
        match self {
            EventsReadRange::AllEvents => last,
            EventsReadRange::FromVersion(_) => last,
            EventsReadRange::ToVersion(to_version) => if to_version.0 < last {
                to_version.0 as int
            } else {
                last
            },
            EventsReadRange::VersionRange { from_version, to_version } => if to_version.0 < last {
                to_version.0 as int
            } else {
                last
            },
        }
    }

    /// Whether an event of the version `version` lies in the range.
    pub fn contains(&self, version: &EventVersion) -> (hit: bool)
        ensures
            hit == self.admits(*version),
    {
        match self {
            EventsReadRange::AllEvents => true,
            EventsReadRange::FromVersion(from_version) => version.0 >= from_version.0,
            EventsReadRange::ToVersion(to_version) => version.0 > 0 && version.0 <= to_version.0,
            EventsReadRange::VersionRange { from_version, to_version } => version.0
                >= from_version.0 && version.0 <= to_version.0,
        }
    }

    /// The range as a pair of optional bounds, the lower one first. An
    /// absent bound leaves that side open.
    pub open spec fn limits(self) -> (Option<i64>, Option<i64>) {
        match self {
            EventsReadRange::AllEvents => (None, None),
            EventsReadRange::FromVersion(from_version) => (Some(from_version.0), None),
            EventsReadRange::ToVersion(to_version) => (Some(1), Some(to_version.0)),
            EventsReadRange::VersionRange { from_version, to_version } => (
                Some(from_version.0),
                Some(to_version.0),
            ),
        }
    }

    /// The range as a pair of optional bounds, the lower one first: what a
    /// backend hands to its storage engine so that the engine selects the
    /// events itself. A version lies in the range exactly where it lies
    /// within the bounds.
    pub fn bounds(&self) -> (bounds: (Option<i64>, Option<i64>))
        ensures
            bounds == self.limits(),
            forall|version: EventVersion|
                self.admits(version) <==> within(bounds.0, bounds.1, #[trigger] version.0),
    {
        match self {
            EventsReadRange::AllEvents => (None, None),
            EventsReadRange::FromVersion(from_version) => (Some(from_version.0), None),
            EventsReadRange::ToVersion(to_version) => (Some(1), Some(to_version.0)),
            EventsReadRange::VersionRange { from_version, to_version } => (
                Some(from_version.0),
                Some(to_version.0),
            ),
        }
    }
}

/// Whether `version` lies between the bounds that are present.
pub open spec fn within(lower: Option<i64>, upper: Option<i64>, version: i64) -> bool {
    &&& lower matches Some(least) ==> least <= version
    &&& upper matches Some(most) ==> version <= most
}

} // verus!
