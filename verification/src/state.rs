//! What an event store holds, as a mathematical value, and what each
//! operation of the store means on it.
//!
//! A store holds a registry of streams, in the order in which they were
//! first appended to, and a log of events, in the order in which they were
//! committed. The contracts of every backend speak of this value.

use crate::common::i64_event_version::{recorded_all, EventVersion};
use crate::error::StoreError;
use crate::traits::version::Version;
use crate::types::event_read::EventReadView;
use crate::types::event_read_range::EventsReadRange;
use crate::types::event_stream::EventStreamView;
use crate::types::event_write::EventWriteView;
use crate::types::expected_version::ExpectedVersion;
use crate::types::stream_read_filter::StreamsReadFilter;
use chrono::NaiveDateTime;
use uuid::Uuid;
use vstd::prelude::*;

verus! {

/// The events of the stream `stream_id`.
pub open spec fn in_stream<Payload, Meta>(stream_id: Seq<char>) -> spec_fn(
    EventReadView<Payload, Meta, EventVersion>,
) -> bool {
    |event: EventReadView<Payload, Meta, EventVersion>| event.stream_id == stream_id
}

/// The events whose version lies in `range`.
pub open spec fn in_range<Payload, Meta>(range: EventsReadRange<EventVersion>) -> spec_fn(
    EventReadView<Payload, Meta, EventVersion>,
) -> bool {
    |event: EventReadView<Payload, Meta, EventVersion>| range.admits(event.version)
}

/// The events of the stream `stream_id` whose version lies in `range`.
pub open spec fn in_stream_range<Payload, Meta>(
    stream_id: Seq<char>,
    range: EventsReadRange<EventVersion>,
) -> spec_fn(EventReadView<Payload, Meta, EventVersion>) -> bool {
    |event: EventReadView<Payload, Meta, EventVersion>|
        event.stream_id == stream_id && range.admits(event.version)
}

/// The events of the conversation `correlation_id`.
pub open spec fn correlated<Payload, Meta>(correlation_id: Uuid) -> spec_fn(
    EventReadView<Payload, Meta, EventVersion>,
) -> bool {
    |event: EventReadView<Payload, Meta, EventVersion>|
        event.correlation_id == Some(correlation_id)
}

/// The events that the message `causation_id` caused.
pub open spec fn caused_by<Payload, Meta>(causation_id: Uuid) -> spec_fn(
    EventReadView<Payload, Meta, EventVersion>,
) -> bool {
    |event: EventReadView<Payload, Meta, EventVersion>| event.causation_id == Some(causation_id)
}

/// The streams that `filter` lets through.
pub open spec fn accepted_by(filter: StreamsReadFilter) -> spec_fn(
    EventStreamView<EventVersion>,
) -> bool {
    |stream: EventStreamView<EventVersion>| filter.accepts(stream.id)
}

/// What an event store holds.
pub struct StoreState<Payload, Meta> {
    /// The streams, in the order in which they were first appended to.
    pub streams: Seq<EventStreamView<EventVersion>>,
    /// The events of all streams, in the order in which they were committed.
    pub events: Seq<EventReadView<Payload, Meta, EventVersion>>,
}

impl<Payload, Meta> StoreState<Payload, Meta> {
    /// A store to which nothing was appended yet.
    pub open spec fn empty() -> Self {
        StoreState { streams: Seq::empty(), events: Seq::empty() }
    }

    /// Whether a stream of this name was ever appended to.
    pub open spec fn has_stream(self, stream_id: Seq<char>) -> bool {
        exists|i: int| 0 <= i < self.streams.len() && (#[trigger] self.streams[i]).id == stream_id
    }

    /// Where the stream of this name stands in the registry.
    pub open spec fn stream_position(self, stream_id: Seq<char>) -> int {
        choose|i: int| 0 <= i < self.streams.len() && (#[trigger] self.streams[i]).id == stream_id
    }

    /// What the store knows of the stream of this name, if it was ever
    /// appended to.
    pub open spec fn stream(self, stream_id: Seq<char>) -> Option<EventStreamView<EventVersion>> {
        if self.has_stream(stream_id) {
            Some(self.streams[self.stream_position(stream_id)])
        } else {
            None
        }
    }

    /// The version of the stream's latest event, and 0 for a stream that was
    /// never appended to.
    pub open spec fn last_version(self, stream_id: Seq<char>) -> EventVersion {
        match self.stream(stream_id) {
            Some(stream) => stream.last_version,
            None => EventVersion(0),
        }
    }

    /// The streams that `filter` lets through, in the registry's order.
    pub open spec fn streams_matching(self, filter: StreamsReadFilter) -> Seq<
        EventStreamView<EventVersion>,
    > {
        self.streams.filter(accepted_by(filter))
    }

    /// The events of a stream, in the order in which they were committed.
    pub open spec fn stream_events(self, stream_id: Seq<char>) -> Seq<
        EventReadView<Payload, Meta, EventVersion>,
    > {
        self.events.filter(in_stream(stream_id))
    }

    /// The events of a stream whose version lies in `range`, in the order in
    /// which they were committed.
    pub open spec fn events_in(
        self,
        stream_id: Seq<char>,
        range: EventsReadRange<EventVersion>,
    ) -> Seq<EventReadView<Payload, Meta, EventVersion>> {
        self.events.filter(in_stream_range(stream_id, range))
    }

    /// The event of a stream at `version`, if the stream holds one.
    pub open spec fn event_at(self, stream_id: Seq<char>, version: EventVersion) -> Option<
        EventReadView<Payload, Meta, EventVersion>,
    > {
        let hits = self.events_in(
            stream_id,
            EventsReadRange::VersionRange { from_version: version, to_version: version },
        );
        if hits.len() > 0 {
            Some(hits[0])
        } else {
            None
        }
    }

    /// The events of a conversation, over all streams, in the order in which
    /// they were committed.
    pub open spec fn events_by_correlation_id(self, correlation_id: Uuid) -> Seq<
        EventReadView<Payload, Meta, EventVersion>,
    > {
        self.events.filter(correlated(correlation_id))
    }

    /// The events that a message caused, over all streams, in the order in
    /// which they were committed.
    pub open spec fn events_by_causation_id(self, causation_id: Uuid) -> Seq<
        EventReadView<Payload, Meta, EventVersion>,
    > {
        self.events.filter(caused_by(causation_id))
    }

    /// Whether the stream at the position `i` of the registry holds exactly
    /// the versions from 1 to its last version, one event each, committed in
    /// that order.
    pub open spec fn is_dense(self, i: int) -> bool {
        let stream = self.streams[i];
        let events = self.stream_events(stream.id);
        &&& stream.last_version.0 >= 1
        &&& events.len() == stream.last_version.0
        &&& forall|n: int| 0 <= n < events.len() ==> (#[trigger] events[n]).version.0 == n + 1
    }

    /// What holds of every store: no two streams share a name, every stream
    /// holds exactly the versions from 1 to its last version, and every event
    /// belongs to a stream of the registry.
    pub open spec fn wf(self) -> bool {
        &&& forall|i: int, j: int|
            0 <= i < j < self.streams.len() ==> (#[trigger] self.streams[i]).id != (
            #[trigger] self.streams[j]).id
        &&& forall|i: int| 0 <= i < self.streams.len() ==> #[trigger] self.is_dense(i)
        &&& forall|k: int|
            0 <= k < self.events.len() ==> self.has_stream((#[trigger] self.events[k]).stream_id)
    }

    /// The registry after `count` events were appended to the stream
    /// `stream_id` at `now`: the stream's record moves on by `count`, or a
    /// record for a new stream is added at the end.
    pub open spec fn streams_after(self, stream_id: Seq<char>, count: int, now: NaiveDateTime) -> Seq<
        EventStreamView<EventVersion>,
    > {
        if self.has_stream(stream_id) {
            let at = self.stream_position(stream_id);
            self.streams.update(
                at,
                EventStreamView {
                    id: stream_id,
                    last_version: EventVersion((self.streams[at].last_version.0 + count) as i64),
                    last_updated_utc: now,
                },
            )
        } else {
            self.streams.push(
                EventStreamView {
                    id: stream_id,
                    last_version: EventVersion(count as i64),
                    last_updated_utc: now,
                },
            )
        }
    }

    /// What an append of `payload` to the stream `stream_id` under the guard
    /// `version`, committed at `now`, makes of the store.
    ///
    /// An empty `payload` leaves the store as it is, whatever the guard
    /// says. A `payload` that would take the stream's last version beyond
    /// the largest version is a `BackendFailure`. Otherwise the guard is
    /// held against the stream's last version: where it refuses, the refusal
    /// is the answer; where it agrees, the events get the versions that
    /// follow the stream's last one, in the order of `payload`, and go to
    /// the end of the log, and the stream's record moves on.
    pub open spec fn append(
        self,
        stream_id: Seq<char>,
        version: ExpectedVersion<EventVersion>,
        payload: Seq<EventWriteView<Payload, Meta>>,
        now: NaiveDateTime,
    ) -> Result<Self, StoreError> {
        if payload.len() == 0 {
            Ok(self)
        } else if self.last_version(stream_id).0 + payload.len() > i64::MAX {
            Err(StoreError::BackendFailure)
        } else {
            match self.last_version(stream_id).next_version_spec(&version) {
                Err(refusal) => Err(refusal),
                Ok(next) => Ok(
                    StoreState {
                        streams: self.streams_after(stream_id, payload.len() as int, now),
                        events: self.events + recorded_all(stream_id, next, now, payload),
                    },
                ),
            }
        }
    }
}

} // verus!
