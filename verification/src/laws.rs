//! What holds of every event store, proved of the store's state.

use crate::common::i64_event_version::{planned, recorded_all, EventVersion};
use crate::error::StoreError;
use crate::filtering::{
    lemma_filter_all, lemma_filter_ascends, lemma_filter_none, lemma_filter_place,
    lemma_filter_place_ascends, lemma_filter_push, lemma_filter_source, lemma_filter_twice,
};
use crate::state::{in_range, in_stream, in_stream_range, StoreState};
use crate::traits::version::Version;
use crate::types::event_read::EventReadView;
use crate::types::event_read_range::EventsReadRange;
use crate::types::event_write::EventWriteView;
use crate::types::expected_version::ExpectedVersion;
use chrono::NaiveDateTime;
use vstd::prelude::*;

verus! {

/// A store to which nothing was appended yet is a valid store.
pub proof fn lemma_empty_is_wf<Payload, Meta>()
    ensures
        StoreState::<Payload, Meta>::empty().wf(),
{
}

/// In a valid store, a name stands at one place of the registry only.
pub proof fn lemma_stream_position<Payload, Meta>(
    state: StoreState<Payload, Meta>,
    stream_id: Seq<char>,
    i: int,
)
    requires
        state.wf(),
        0 <= i < state.streams.len(),
        state.streams[i].id == stream_id,
    ensures
        state.has_stream(stream_id),
        state.stream_position(stream_id) == i,
        state.stream(stream_id) == Some(state.streams[i]),
        state.last_version(stream_id) == state.streams[i].last_version,
{
    let at = state.stream_position(stream_id);
    if at < i {
        assert(state.streams[at].id != state.streams[i].id);
    } else if i < at {
        assert(state.streams[i].id != state.streams[at].id);
    }
}

/// A stream that was never appended to holds no event.
pub proof fn lemma_unknown_stream_is_empty<Payload, Meta>(
    state: StoreState<Payload, Meta>,
    stream_id: Seq<char>,
)
    requires
        state.wf(),
        !state.has_stream(stream_id),
    ensures
        state.stream_events(stream_id) == Seq::<EventReadView<Payload, Meta, EventVersion>>::empty(),
{
    assert forall|k: int| 0 <= k < state.events.len() implies !in_stream::<Payload, Meta>(
        stream_id,
    )(#[trigger] state.events[k]) by {
        assert(state.has_stream(state.events[k].stream_id));
    }
    lemma_filter_none(state.events, in_stream(stream_id));
}

/// An append that goes through gives the events the versions that follow
/// the stream's last version, one by one, in the order in which they were
/// handed in, and adds nothing else to the log.
pub proof fn lemma_append_assigns_next_versions<Payload, Meta>(
    state: StoreState<Payload, Meta>,
    stream_id: Seq<char>,
    version: ExpectedVersion<EventVersion>,
    payload: Seq<EventWriteView<Payload, Meta>>,
    now: NaiveDateTime,
)
    requires
        state.append(stream_id, version, payload, now) is Ok,
    ensures
        ({
            let after = state.append(stream_id, version, payload, now)->Ok_0;
            let added = after.events.skip(state.events.len() as int);
            &&& after.events.take(state.events.len() as int) == state.events
            &&& added.len() == payload.len()
            &&& forall|i: int|
                0 <= i < payload.len() ==> (#[trigger] added[i]).version.0 == state.last_version(
                    stream_id,
                ).0 + 1 + i
            &&& forall|i: int|
                0 <= i < payload.len() ==> #[trigger] added[i] == EventReadView::recorded(
                    stream_id,
                    added[i].version,
                    now,
                    payload[i],
                )
        }),
{
    let after = state.append(stream_id, version, payload, now)->Ok_0;
    if payload.len() == 0 {
        assert(after.events.take(state.events.len() as int) =~= state.events);
    } else {
        let next = state.last_version(stream_id).next_version_spec(&version)->Ok_0;
        let added = recorded_all(stream_id, next, now, payload);
        assert(after.events.take(state.events.len() as int) =~= state.events);
        assert(after.events.skip(state.events.len() as int) =~= added);
    }
}

/// An append keeps a valid store valid.
pub proof fn lemma_append_keeps_wf<Payload, Meta>(
    state: StoreState<Payload, Meta>,
    stream_id: Seq<char>,
    version: ExpectedVersion<EventVersion>,
    payload: Seq<EventWriteView<Payload, Meta>>,
    now: NaiveDateTime,
)
    requires
        state.wf(),
        state.append(stream_id, version, payload, now) is Ok,
    ensures
        state.append(stream_id, version, payload, now)->Ok_0.wf(),
{
    let after = state.append(stream_id, version, payload, now)->Ok_0;
    if payload.len() > 0 {
        let last = state.last_version(stream_id);
        let next = last.next_version_spec(&version)->Ok_0;
        assert(next.0 == last.0 + 1);
        let added = recorded_all(stream_id, next, now, payload);
        let known = state.has_stream(stream_id);
        let at = if known {
            state.stream_position(stream_id)
        } else {
            state.streams.len() as int
        };
        if known {
            lemma_stream_position(state, stream_id, at);
        } else {
            lemma_unknown_stream_is_empty(state, stream_id);
        }
        assert(last.0 >= 0) by {
            if known {
                assert(state.is_dense(at));
            }
        }
        assert(after.streams.len() > at && after.streams[at].id == stream_id);
        assert forall|i: int| 0 <= i < after.streams.len() && i != at implies after.streams[i]
            == state.streams[i] && state.streams[i].id != stream_id by {
            if known {
                if i < at {
                    assert(state.streams[i].id != state.streams[at].id);
                } else {
                    assert(state.streams[at].id != state.streams[i].id);
                }
            }
        }
        assert forall|i: int, j: int| 0 <= i < j < after.streams.len() implies (
        #[trigger] after.streams[i]).id != (#[trigger] after.streams[j]).id by {
            if i != at && j != at {
                assert(state.streams[i].id != state.streams[j].id);
            }
        }
        assert forall|i: int| 0 <= i < after.streams.len() implies #[trigger] after.is_dense(
            i,
        ) by {
            let name = after.streams[i].id;
            Seq::filter_distributes_over_add(state.events, added, in_stream(name));
            if i == at {
                lemma_filter_all(added, in_stream(stream_id));
                if known {
                    assert(state.is_dense(at));
                }
                let events = after.stream_events(name);
                assert forall|n: int| 0 <= n < events.len() implies (
                #[trigger] events[n]).version.0 == n + 1 by {
                    if n >= last.0 {
                        assert(events[n] == added[n - last.0]);
                    }
                }
            } else {
                lemma_filter_none(added, in_stream(name));
                assert(state.is_dense(i));
                assert(after.stream_events(name) =~= state.stream_events(name));
            }
        }
        assert forall|k: int| 0 <= k < after.events.len() implies after.has_stream(
            (#[trigger] after.events[k]).stream_id,
        ) by {
            if k < state.events.len() {
                assert(state.has_stream(state.events[k].stream_id));
                let w = state.stream_position(state.events[k].stream_id);
                assert(after.streams[w].id == state.events[k].stream_id);
            } else {
                assert(after.events[k] == added[k - state.events.len()]);
                assert(after.streams[at].id == stream_id);
            }
        }
    }
}

/// To commit the plan of an append is to append: where the plan was made from
/// what a valid store knows of the stream, the store after the append holds
/// the plan's record in place of the stream's record, or at the end of the
/// registry where the stream is new, and the plan's events at the end of the
/// log. Where the plan is a refusal, so is the append.
pub proof fn lemma_plan_is_append<Payload, Meta>(
    state: StoreState<Payload, Meta>,
    stream_id: Seq<char>,
    version: ExpectedVersion<EventVersion>,
    payload: Seq<EventWriteView<Payload, Meta>>,
    now: NaiveDateTime,
)
    requires
        state.wf(),
        payload.len() > 0,
    ensures
        match planned(stream_id, version, state.stream(stream_id), payload, now) {
            Ok((record, events)) => {
                &&& state.append(stream_id, version, payload, now) matches Ok(after)
                &&& after.events == state.events + events
                &&& after.streams == if state.has_stream(stream_id) {
                    state.streams.update(state.stream_position(stream_id), record)
                } else {
                    state.streams.push(record)
                }
            },
            Err(refusal) => state.append(stream_id, version, payload, now) == Err::<
                StoreState<Payload, Meta>,
                StoreError,
            >(refusal),
        },
{
    if state.has_stream(stream_id) {
        let at = state.stream_position(stream_id);
        assert(state.is_dense(at));
    }
}

/// An append of no event leaves the store as it is, whatever the guard says
/// and whatever the stream holds.
pub proof fn lemma_empty_append_changes_nothing<Payload, Meta>(
    state: StoreState<Payload, Meta>,
    stream_id: Seq<char>,
    version: ExpectedVersion<EventVersion>,
    now: NaiveDateTime,
)
    ensures
        state.append(stream_id, version, Seq::empty(), now) == Ok::<
            StoreState<Payload, Meta>,
            StoreError,
        >(state),
{
}

/// A read of all events of a stream returns the stream's events.
pub proof fn lemma_all_events_is_the_stream<Payload, Meta>(
    state: StoreState<Payload, Meta>,
    stream_id: Seq<char>,
)
    ensures
        state.events_in(stream_id, EventsReadRange::AllEvents) == state.stream_events(stream_id),
{
    assert(in_stream_range::<Payload, Meta>(stream_id, EventsReadRange::AllEvents) =~= in_stream(
        stream_id,
    ));
}

/// A read of a range returns what a read of all events of the stream
/// returns, filtered by the range.
pub proof fn lemma_range_read_is_filtered_stream<Payload, Meta>(
    state: StoreState<Payload, Meta>,
    stream_id: Seq<char>,
    range: EventsReadRange<EventVersion>,
)
    ensures
        state.events_in(stream_id, range) == state.events_in(
            stream_id,
            EventsReadRange::AllEvents,
        ).filter(in_range(range)),
{
    lemma_all_events_is_the_stream(state, stream_id);
    lemma_filter_twice(
        state.events,
        in_stream(stream_id),
        in_range(range),
        in_stream_range(stream_id, range),
    );
}

/// In a valid store, the events of a stream carry the versions from 1 to
/// the stream's last version, one each, in that order. A stream that was
/// never appended to holds no event, and its last version counts as 0.
pub proof fn lemma_stream_is_dense<Payload, Meta>(
    state: StoreState<Payload, Meta>,
    stream_id: Seq<char>,
)
    requires
        state.wf(),
    ensures
        state.stream_events(stream_id).len() == state.last_version(stream_id).0,
        forall|n: int|
            0 <= n < state.stream_events(stream_id).len() ==> (#[trigger] state.stream_events(
                stream_id,
            )[n]).version.0 == n + 1,
        state.has_stream(stream_id) <==> state.last_version(stream_id).0 >= 1,
{
    if state.has_stream(stream_id) {
        let at = state.stream_position(stream_id);
        assert(state.is_dense(at));
    } else {
        lemma_unknown_stream_is_empty(state, stream_id);
    }
}

/// In a valid store, a stream's last version is the highest version among
/// its events. Where the stream was never appended to, it has no record and
/// no event.
pub proof fn lemma_last_version_is_highest<Payload, Meta>(
    state: StoreState<Payload, Meta>,
    stream_id: Seq<char>,
)
    requires
        state.wf(),
    ensures
        match state.stream(stream_id) {
            Some(stream) => {
                let events = state.events_in(stream_id, EventsReadRange::AllEvents);
                &&& stream.last_version.0 >= 1
                &&& events.len() > 0
                &&& events.last().version == stream.last_version
                &&& forall|n: int|
                    0 <= n < events.len() ==> (#[trigger] events[n]).version.0
                        <= stream.last_version.0
            },
            None => {
                &&& state.events_in(stream_id, EventsReadRange::AllEvents).len() == 0
                &&& state.last_version(stream_id).0 == 0
            },
        },
{
    lemma_all_events_is_the_stream(state, stream_id);
    lemma_stream_is_dense(state, stream_id);
    if state.has_stream(stream_id) {
        let events = state.stream_events(stream_id);
        assert(events[events.len() - 1].version.0 == events.len());
    }
}

/// The number that orders the events of a stream: the version.
pub open spec fn by_version<Payload, Meta>() -> spec_fn(
    EventReadView<Payload, Meta, EventVersion>,
) -> int {
    |event: EventReadView<Payload, Meta, EventVersion>| event.version.0 as int
}

/// In a valid store, every read of a stream returns its events by strictly
/// ascending version.
pub proof fn lemma_reads_ascend<Payload, Meta>(
    state: StoreState<Payload, Meta>,
    stream_id: Seq<char>,
    range: EventsReadRange<EventVersion>,
)
    requires
        state.wf(),
    ensures
        forall|i: int, j: int|
            0 <= i < j < state.events_in(stream_id, range).len() ==> (#[trigger] state.events_in(
                stream_id,
                range,
            )[i]).version.0 < (#[trigger] state.events_in(stream_id, range)[j]).version.0,
{
    lemma_all_events_is_the_stream(state, stream_id);
    lemma_range_read_is_filtered_stream(state, stream_id, range);
    lemma_stream_is_dense(state, stream_id);
    let events = state.stream_events(stream_id);
    assert forall|i: int, j: int| 0 <= i < j < events.len() implies by_version()(
        #[trigger] events[i],
    ) < by_version()(#[trigger] events[j]) by {
        assert(events[i].version.0 == i + 1);
        assert(events[j].version.0 == j + 1);
    }
    lemma_filter_ascends(events, in_range(range), by_version());
    let hits = state.events_in(stream_id, range);
    assert forall|i: int, j: int| 0 <= i < j < hits.len() implies (#[trigger] hits[i]).version.0 < (
    #[trigger] hits[j]).version.0 by {
        assert(by_version()(hits[i]) < by_version()(hits[j]));
    }
}

/// The events of `events` with the versions from `least` to `greatest`, where
/// `events` holds the versions from 1 on, one each, in order.
pub open spec fn window<Payload, Meta>(
    events: Seq<EventReadView<Payload, Meta, EventVersion>>,
    least: int,
    greatest: int,
) -> Seq<EventReadView<Payload, Meta, EventVersion>> {
    if least <= greatest {
        events.subrange(least - 1, greatest)
    } else {
        Seq::empty()
    }
}

/// Of events that carry the versions from 1 on, one each, in order, the
/// first `n` that lie in a range are those from the least to the greatest
/// version up to `n` that lies in the range.
proof fn lemma_window_of_the_first<Payload, Meta>(
    events: Seq<EventReadView<Payload, Meta, EventVersion>>,
    range: EventsReadRange<EventVersion>,
    n: int,
)
    requires
        0 <= n <= events.len(),
        forall|k: int| 0 <= k < events.len() ==> (#[trigger] events[k]).version.0 == k + 1,
    ensures
        events.take(n).filter(in_range(range)) == window(events, range.least(), range.greatest(n)),
    decreases n,
{
    if n == 0 {
        assert(events.take(0) =~= Seq::empty());
        lemma_filter_none(events.take(0), in_range(range));
        assert(window(events, range.least(), range.greatest(0)) =~= Seq::empty());
    } else {
        lemma_window_of_the_first(events, range, n - 1);
        let event = events[n - 1];
        assert(event.version.0 == n);
        assert(events.take(n) =~= events.take(n - 1).push(event));
        lemma_filter_push(events.take(n - 1), in_range(range), event);
        let least = range.least();
        if range.admits(event.version) {
            assert(least <= n && range.greatest(n) == n && range.greatest(n - 1) == n - 1);
            assert(window(events, least, n) =~= window(events, least, n - 1).push(event));
        } else {
            assert(window(events, least, range.greatest(n)) =~= window(
                events,
                least,
                range.greatest(n - 1),
            ));
        }
    }
}

/// In a valid store, a read of a range returns a run of the stream's events
/// without gaps: those from the least to the greatest version of the stream
/// that lies in the range.
pub proof fn lemma_range_read_is_a_window<Payload, Meta>(
    state: StoreState<Payload, Meta>,
    stream_id: Seq<char>,
    range: EventsReadRange<EventVersion>,
)
    requires
        state.wf(),
    ensures
        state.events_in(stream_id, range) == window(
            state.stream_events(stream_id),
            range.least(),
            range.greatest(state.last_version(stream_id).0 as int),
        ),
{
    let events = state.stream_events(stream_id);
    lemma_all_events_is_the_stream(state, stream_id);
    lemma_range_read_is_filtered_stream(state, stream_id, range);
    lemma_stream_is_dense(state, stream_id);
    lemma_window_of_the_first(events, range, events.len() as int);
    assert(events.take(events.len() as int) =~= events);
}

/// In a valid store, no two events share both stream and version.
pub proof fn lemma_versions_are_unique<Payload, Meta>(
    state: StoreState<Payload, Meta>,
    j: int,
    k: int,
)
    requires
        state.wf(),
        0 <= j < k < state.events.len(),
        state.events[j].stream_id == state.events[k].stream_id,
    ensures
        state.events[j].version != state.events[k].version,
{
    let stream_id = state.events[j].stream_id;
    let pred = in_stream::<Payload, Meta>(stream_id);
    lemma_stream_is_dense(state, stream_id);
    lemma_filter_place(state.events, pred, j);
    lemma_filter_place(state.events, pred, k);
    lemma_filter_place_ascends(state.events, pred, j, k);
}

/// In a valid store, a stream holds an event at a version exactly where the
/// version lies between 1 and the stream's last version, and that event
/// belongs to the stream and carries the version.
pub proof fn lemma_event_at_version<Payload, Meta>(
    state: StoreState<Payload, Meta>,
    stream_id: Seq<char>,
    version: EventVersion,
)
    requires
        state.wf(),
    ensures
        state.event_at(stream_id, version) is Some <==> 1 <= version.0 <= state.last_version(
            stream_id,
        ).0,
        state.event_at(stream_id, version) matches Some(event) ==> event.stream_id == stream_id
            && event.version == version && event == state.stream_events(stream_id)[version.0 - 1],
{
    let range = EventsReadRange::VersionRange { from_version: version, to_version: version };
    let events = state.stream_events(stream_id);
    let hits = state.events_in(stream_id, range);
    lemma_all_events_is_the_stream(state, stream_id);
    lemma_range_read_is_filtered_stream(state, stream_id, range);
    lemma_stream_is_dense(state, stream_id);
    if 1 <= version.0 <= events.len() {
        lemma_filter_place(events, in_range(range), version.0 - 1);
    }
    if hits.len() > 0 {
        lemma_filter_source(events, in_range(range), 0);
        let n = choose|n: int| 0 <= n < events.len() && events[n] == hits[0];
        assert(events[n].version.0 == n + 1);
        lemma_filter_source(state.events, in_stream(stream_id), n);
    }
}

} // verus!
