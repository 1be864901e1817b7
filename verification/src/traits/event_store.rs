use crate::common::i64_event_version::EventVersion;
use crate::error::StoreError;
use crate::state::StoreState;
use crate::types::event_read::{clones_of, EventRead};
use crate::types::event_read_range::EventsReadRange;
use crate::types::event_stream::EventStream;
use crate::types::event_write::{EventWrite, EventWriteView};
use crate::types::expected_version::ExpectedVersion;
use crate::types::stream_read_filter::StreamsReadFilter;
use chrono::NaiveDateTime;
use uuid::Uuid;
use vstd::prelude::*;

verus! {

/// Whether `after` and `res` are what an append of `payload` to the stream
/// `stream_id` under the guard `version`, committed at `now`, makes of the
/// store `before` and answers.
///
/// Where the append goes through, the store moves on as `StoreState::append`
/// says, and the answer holds clones of the events that were added to the
/// log, in their order. Where the guard refuses, the store stays as it was
/// and the answer is the refusal.
pub open spec fn append_outcome<Payload: Clone, Meta: Clone>(
    before: StoreState<Payload, Meta>,
    stream_id: Seq<char>,
    version: ExpectedVersion<EventVersion>,
    payload: Seq<EventWriteView<Payload, Meta>>,
    now: NaiveDateTime,
    after: StoreState<Payload, Meta>,
    res: Result<Vec<EventRead<Payload, Meta, EventVersion>>, StoreError>,
) -> bool {
    match before.append(stream_id, version, payload, now) {
        Ok(next) => {
            &&& after == next
            &&& res matches Ok(reads)
            &&& clones_of(reads.deep_view(), next.events.skip(before.events.len() as int))
        },
        Err(refusal) => {
            &&& after == before
            &&& res matches Err(answer)
            &&& answer == refusal
        },
    }
}

/// Whether `after` and `res` are what an append of `payload` to the stream
/// `stream_id` under the guard `version`, committed at some instant, makes of
/// the store `before` and answers.
pub open spec fn committed<Payload: Clone, Meta: Clone>(
    before: StoreState<Payload, Meta>,
    stream_id: Seq<char>,
    version: ExpectedVersion<EventVersion>,
    payload: Seq<EventWriteView<Payload, Meta>>,
    after: StoreState<Payload, Meta>,
    res: Result<Vec<EventRead<Payload, Meta, EventVersion>>, StoreError>,
) -> bool {
    exists|now: NaiveDateTime| #[trigger]
        append_outcome(before, stream_id, version, payload, now, after, res)
}

/// Whether `after` and `res` are what an append of the one event
/// `event_write` makes of the store `before` and answers: as
/// `append_outcome` says of a payload of that one event, with a clone of the
/// event that was added as the answer.
pub open spec fn single_append_outcome<Payload: Clone, Meta: Clone>(
    before: StoreState<Payload, Meta>,
    stream_id: Seq<char>,
    version: ExpectedVersion<EventVersion>,
    event_write: EventWriteView<Payload, Meta>,
    now: NaiveDateTime,
    after: StoreState<Payload, Meta>,
    res: Result<EventRead<Payload, Meta, EventVersion>, StoreError>,
) -> bool {
    match before.append(stream_id, version, seq![event_write], now) {
        Ok(next) => {
            &&& after == next
            &&& res matches Ok(read)
            &&& read@.is_clone_of(next.events.last())
        },
        Err(refusal) => {
            &&& after == before
            &&& res matches Err(answer)
            &&& answer == refusal
        },
    }
}

/// Whether `after` and `res` are what an append of a clone of `payload` to
/// the stream `stream_id` under the guard `version`, committed at some
/// instant, makes of the store `before` and answers.
pub open spec fn single_committed<Payload: Clone, Meta: Clone>(
    before: StoreState<Payload, Meta>,
    stream_id: Seq<char>,
    version: ExpectedVersion<EventVersion>,
    payload: EventWriteView<Payload, Meta>,
    after: StoreState<Payload, Meta>,
    res: Result<EventRead<Payload, Meta, EventVersion>, StoreError>,
) -> bool {
    exists|now: NaiveDateTime, event_write: EventWriteView<Payload, Meta>|
        event_write.is_clone_of(payload) && #[trigger] single_append_outcome(
            before,
            stream_id,
            version,
            event_write,
            now,
            after,
            res,
        )
}

/// Whether the events of `reads` carry the versions that follow `last`, one
/// by one.
pub open spec fn follow<Payload, Meta>(
    reads: Seq<EventRead<Payload, Meta, EventVersion>>,
    last: EventVersion,
) -> bool {
    forall|i: int| 0 <= i < reads.len() ==> (#[trigger] reads[i]).version.0 == last.0 + 1 + i
}

/// Whether the versions of `events` ascend strictly.
pub open spec fn ascending<Payload, Meta>(
    events: Seq<EventRead<Payload, Meta, EventVersion>>,
) -> bool {
    forall|i: int, j: int|
        0 <= i < j < events.len() ==> (#[trigger] events[i]).version.0 < (
        #[trigger] events[j]).version.0
}

/// An event store: named streams of events, appended to under a guard on the
/// stream's version and read back by version, by conversation or by cause.
///
/// `state` says what the store holds. Every operation is stated on that
/// value, so that all backends answer alike. What a store holds is valid at
/// all times, as `StoreState::wf` says, and every operation says so again.
pub trait EventStore<Payload: Clone, Meta: Clone> {
    /// What the store holds.
    spec fn state(&self) -> StoreState<Payload, Meta>;

    /// Appends a clone of `payload` to the stream `stream_id` under the
    /// guard `version`, and answers with the event as the store holds it.
    fn append_event(
        &mut self,
        stream_id: &str,
        version: &ExpectedVersion<EventVersion>,
        payload: &EventWrite<Payload, Meta>,
    ) -> (res: Result<EventRead<Payload, Meta, EventVersion>, StoreError>)
        ensures
            final(self).state().wf(),
            single_committed(
                old(self).state(),
                stream_id@,
                *version,
                payload@,
                final(self).state(),
                res,
            ),
            res matches Ok(read) ==> read.version.0 == old(self).state().last_version(
                stream_id@,
            ).0 + 1,
    ;

    /// Appends the events of `payload` to the stream `stream_id` under the
    /// guard `version`, all or none, and answers with the events as the
    /// store holds them. All events of one append carry one timestamp, read
    /// from the clock when the append is committed.
    fn append_events(
        &mut self,
        stream_id: &str,
        version: &ExpectedVersion<EventVersion>,
        payload: Vec<EventWrite<Payload, Meta>>,
    ) -> (res: Result<Vec<EventRead<Payload, Meta, EventVersion>>, StoreError>)
        ensures
            final(self).state().wf(),
            committed(
                old(self).state(),
                stream_id@,
                *version,
                payload.deep_view(),
                final(self).state(),
                res,
            ),
            res matches Ok(reads) ==> reads@.len() == payload@.len() && follow(
                reads@,
                old(self).state().last_version(stream_id@),
            ),
    ;

    /// The event of the stream `stream_id` at `version`, or the refusal
    /// `EventNotFound` where the stream holds none.
    fn get_event(&self, stream_id: &str, version: &EventVersion) -> (res: Result<
        EventRead<Payload, Meta, EventVersion>,
        StoreError,
    >)
        ensures
            self.state().wf(),
            match self.state().event_at(stream_id@, *version) {
                Some(event) => res matches Ok(read) && read@.is_clone_of(event),
                None => {
                    &&& res matches Err(StoreError::EventNotFound { stream_id: name, version: wanted })
                    &&& name@ == stream_id@
                    &&& wanted == version.0
                },
            },
    ;

    /// The events of the stream `stream_id` whose version lies in `range`,
    /// by ascending version. A stream that was never appended to has none.
    fn get_events(&self, stream_id: &str, range: &EventsReadRange<EventVersion>) -> (res: Result<
        Vec<EventRead<Payload, Meta, EventVersion>>,
        StoreError,
    >)
        ensures
            self.state().wf(),
            res matches Ok(events) && clones_of(
                events.deep_view(),
                self.state().events_in(stream_id@, *range),
            ) && ascending(events@),
    ;

    /// The events of the conversation `correlation_id`, over all streams, in
    /// the order in which they were committed.
    fn get_events_by_correlation_id(&self, correlation_id: &Uuid) -> (res: Result<
        Vec<EventRead<Payload, Meta, EventVersion>>,
        StoreError,
    >)
        ensures
            self.state().wf(),
            res matches Ok(events) && clones_of(
                events.deep_view(),
                self.state().events_by_correlation_id(*correlation_id),
            ),
    ;

    /// The events that the message `causation_id` caused, over all streams,
    /// in the order in which they were committed.
    fn get_events_by_causation_id(&self, causation_id: &Uuid) -> (res: Result<
        Vec<EventRead<Payload, Meta, EventVersion>>,
        StoreError,
    >)
        ensures
            self.state().wf(),
            res matches Ok(events) && clones_of(
                events.deep_view(),
                self.state().events_by_causation_id(*causation_id),
            ),
    ;

    /// The streams that `filter` lets through, in the order in which they
    /// were first appended to.
    fn get_streams(&self, filter: &StreamsReadFilter) -> (res: Result<
        Vec<EventStream<EventVersion>>,
        StoreError,
    >)
        ensures
            self.state().wf(),
            res matches Ok(streams) && streams.deep_view() == self.state().streams_matching(
                *filter,
            ),
    ;

    /// What the store knows of the stream `stream_id`, or the refusal
    /// `StreamNotFound` where the stream was never appended to.
    fn get_stream(&self, stream_id: &str) -> (res: Result<EventStream<EventVersion>, StoreError>)
        ensures
            self.state().wf(),
            match self.state().stream(stream_id@) {
                Some(stream) => res matches Ok(found) && found@ == stream,
                None => res matches Err(StoreError::StreamNotFound { stream_id: name }) && name@
                    == stream_id@,
            },
    ;
}

} // verus!
