//! Stream versions held in a signed 64-bit integer.

use crate::error::StoreError;
use crate::traits::version::Version;
use crate::types::event_read::{clones_of, EventRead, EventReadView};
use crate::types::event_stream::{EventStream, EventStreamView};
use crate::types::event_write::{EventWrite, EventWriteView};
use crate::types::expected_version::ExpectedVersion;
use chrono::NaiveDateTime;
use vstd::prelude::*;
use vstd::string::StringExecFns;

verus! {

/// The position of an event within its stream, counted from one.
#[derive(Clone, Copy, Debug, PartialEq, Eq)]
pub struct EventVersion(pub i64);

/// The version rule: what becomes of the candidate `next_ver`, one more than
/// the stream's last version, under the guard `version`.
pub open spec fn validated(version: ExpectedVersion<EventVersion>, next_ver: i64) -> Result<
    i64,
    StoreError,
> {
    match version {
        ExpectedVersion::Any => Ok(next_ver),
        ExpectedVersion::NoStream => if next_ver > 1 {
            Err(StoreError::StreamExists { existing: (next_ver - 1) as i64 })
        } else {
            Ok(next_ver)
        },
        ExpectedVersion::Exact(expected) => if next_ver != expected.0 {
            Err(StoreError::VersionMismatch { next: next_ver, expected: expected.0 })
        } else {
            Ok(next_ver)
        },
    }
}

/// Applies the guard `version` to the candidate `next_ver`.
pub fn validate_version(version: &ExpectedVersion<EventVersion>, next_ver: i64) -> (res: Result<
    i64,
    StoreError,
>)
    ensures
        res == validated(*version, next_ver),
{
    match version {
        ExpectedVersion::Any => Ok(next_ver),
        ExpectedVersion::NoStream => {
            if next_ver > 1 {
                Err(StoreError::StreamExists { existing: next_ver - 1 })
            } else {
                Ok(next_ver)
            }
        },
        ExpectedVersion::Exact(expected) => {
            if next_ver != expected.0 {
                Err(StoreError::VersionMismatch { next: next_ver, expected: expected.0 })
            } else {
                Ok(next_ver)
            }
        },
    }
}

impl EventVersion {
    /// The version `a` places after this one.
    pub fn add(&self, a: i64) -> (sum: EventVersion)
        requires
            i64::MIN <= self.0 + a <= i64::MAX,
        ensures
            sum.0 == self.0 + a,
    {
        EventVersion(self.0 + a)
    }

    /// The version with the number `a`.
    pub fn new(a: i64) -> (version: EventVersion)
        ensures
            version.0 == a,
    {
        EventVersion(a)
    }
}

impl Version<EventVersion> for EventVersion {
    open spec fn has_next(&self) -> bool {
        self.0 < i64::MAX
    }

    open spec fn next_version_spec(&self, version: &ExpectedVersion<EventVersion>) -> Result<
        EventVersion,
        StoreError,
    > {
        match validated(*version, (self.0 + 1) as i64) {
            Ok(next) => Ok(EventVersion(next)),
            Err(refusal) => Err(refusal),
        }
    }

    fn next_version(&self, version: &ExpectedVersion<EventVersion>) -> (next: Result<
        EventVersion,
        StoreError,
    >) {
        match validate_version(version, self.0 + 1) {
            Ok(next) => Ok(EventVersion(next)),
            Err(refusal) => Err(refusal),
        }
    }
}

/// The persisted forms of the events of `payload`, placed in the stream
/// `stream_id` at the versions from `next` on, in the order of `payload`,
/// all stamped with `created_utc`.
pub open spec fn recorded_all<Payload, Meta>(
    stream_id: Seq<char>,
    next: EventVersion,
    created_utc: NaiveDateTime,
    payload: Seq<EventWriteView<Payload, Meta>>,
) -> Seq<EventReadView<Payload, Meta, EventVersion>> {
    Seq::new(
        payload.len(),
        |i: int|
            EventReadView::recorded(
                stream_id,
                EventVersion((next.0 + i) as i64),
                created_utc,
                payload[i],
            ),
    )
}

/// The persisted forms of clones of the events of `payload`: the events get
/// the versions from `next` on, in the order of `payload`, and all carry the
/// timestamp `created_utc`.
pub fn event_writes_to_reads<Payload: Clone, Meta: Clone>(
    stream_id: &str,
    next: &EventVersion,
    created_utc: NaiveDateTime,
    payload: &[EventWrite<Payload, Meta>],
) -> (reads: Vec<EventRead<Payload, Meta, EventVersion>>)
    requires
        payload@.len() <= i64::MAX,
        next.0 + payload@.len() <= i64::MAX + 1,
    ensures
        clones_of(
            reads.deep_view(),
            recorded_all(stream_id@, *next, created_utc, payload.deep_view()),
        ),
{
    let mut reads: Vec<EventRead<Payload, Meta, EventVersion>> = Vec::new();
    let mut i: usize = 0;
    while i < payload.len()
        invariant
            i <= payload@.len(),
            payload@.len() <= i64::MAX,
            next.0 + payload@.len() <= i64::MAX + 1,
            reads@.len() == i,
            forall|k: int|
                0 <= k < i ==> (#[trigger] reads@[k])@.is_clone_of(
                    EventReadView::recorded(
                        stream_id@,
                        EventVersion((next.0 + k) as i64),
                        created_utc,
                        payload@[k]@,
                    ),
                ),
        decreases payload@.len() - i,
    {
        let version = next.add(i as i64);
        reads.push(EventRead::from_event_write(stream_id, version, created_utc, &payload[i]));
        i += 1;
    }
    assert(clones_of(
        reads.deep_view(),
        recorded_all(stream_id@, *next, created_utc, payload.deep_view()),
    )) by {
        let copies = reads.deep_view();
        let sources = recorded_all(stream_id@, *next, created_utc, payload.deep_view());
        assert forall|k: int| 0 <= k < copies.len() implies (#[trigger] copies[k]).is_clone_of(
            sources[k],
        ) by {
            assert(copies[k] == reads@[k]@);
        }
    }
    reads
}

/// The persisted forms of the events of `payload` themselves: the events
/// get the versions from `next` on, in the order of `payload`, and all carry
/// the timestamp `created_utc`.
pub fn record_all<Payload, Meta>(
    stream_id: &str,
    next: &EventVersion,
    created_utc: NaiveDateTime,
    payload: Vec<EventWrite<Payload, Meta>>,
) -> (reads: Vec<EventRead<Payload, Meta, EventVersion>>)
    requires
        payload@.len() <= i64::MAX,
        next.0 + payload@.len() <= i64::MAX + 1,
    ensures
        reads.deep_view() == recorded_all(stream_id@, *next, created_utc, payload.deep_view()),
{
    let ghost writes = payload.deep_view();
    let mut reads: Vec<EventRead<Payload, Meta, EventVersion>> = Vec::new();
    for event_write in it: payload.into_iter()
        invariant
            it.seq().len() == writes.len(),
            forall|k: int| 0 <= k < writes.len() ==> (#[trigger] it.seq()[k])@ == writes[k],
            writes.len() <= i64::MAX,
            next.0 + writes.len() <= i64::MAX + 1,
            reads@.len() == it.index(),
            forall|k: int|
                0 <= k < it.index() ==> (#[trigger] reads@[k])@ == EventReadView::recorded(
                    stream_id@,
                    EventVersion((next.0 + k) as i64),
                    created_utc,
                    writes[k],
                ),
    {
        let version = next.add(reads.len() as i64);
        reads.push(EventRead::record(stream_id, version, created_utc, event_write));
    }
    assert(reads.deep_view() =~= recorded_all(stream_id@, *next, created_utc, writes));
    reads
}

/// A stream's record after `v` events were appended to it at `now`. `last`
/// holds what the store knew of the stream before: its last version, and its
/// record where it had one. A stream without a record gets one under the
/// name `stream_id`.
pub fn updated_stream(
    stream_id: &str,
    v: i64,
    now: NaiveDateTime,
    last: (EventVersion, Option<EventStream<EventVersion>>),
) -> (stream: EventStream<EventVersion>)
    requires
        last.1 matches Some(record) ==> i64::MIN <= record.last_version.0 + v <= i64::MAX,
    ensures
        stream@ == match last.1 {
            Some(record) => EventStreamView {
                id: record.id@,
                last_version: EventVersion((record.last_version.0 + v) as i64),
                last_updated_utc: now,
            },
            None => EventStreamView {
                id: stream_id@,
                last_version: EventVersion(v),
                last_updated_utc: now,
            },
        },
{
    match last.1 {
        Some(record) => EventStream {
            last_version: record.last_version.add(v),
            last_updated_utc: now,
            id: record.id,
        },
        None => EventStream {
            id: String::from_str(stream_id),
            last_version: EventVersion::new(v),
            last_updated_utc: now,
        },
    }
}

/// What an append commits: the stream's record after the append, and the
/// events to add, placed and stamped.
#[derive(Debug)]
pub struct AppendPlan<Payload, Meta> {
    /// The stream's record after the append.
    pub stream: EventStream<EventVersion>,
    /// The events to add to the stream, in order.
    pub events: Vec<EventRead<Payload, Meta, EventVersion>>,
}

/// What an append of `payload` to the stream `stream_id` under the guard
/// `version`, committed at `now`, has to commit, where `last` is what the
/// store knows of the stream: the stream's record after the append and the
/// events to add, or the refusal.
///
/// A stream without a record stands at version 0. A record whose version is
/// negative, or which `payload` would take beyond the largest version, is a
/// `BackendFailure`. Otherwise the guard decides.
pub open spec fn planned<Payload, Meta>(
    stream_id: Seq<char>,
    version: ExpectedVersion<EventVersion>,
    last: Option<EventStreamView<EventVersion>>,
    payload: Seq<EventWriteView<Payload, Meta>>,
    now: NaiveDateTime,
) -> Result<
    (EventStreamView<EventVersion>, Seq<EventReadView<Payload, Meta, EventVersion>>),
    StoreError,
> {
    let current = match last {
        Some(record) => record.last_version,
        None => EventVersion(0),
    };
    if current.0 < 0 || current.0 + payload.len() > i64::MAX {
        Err(StoreError::BackendFailure)
    } else {
        match current.next_version_spec(&version) {
            Err(refusal) => Err(refusal),
            Ok(next) => Ok(
                (
                    EventStreamView {
                        id: match last {
                            Some(record) => record.id,
                            None => stream_id,
                        },
                        last_version: EventVersion((current.0 + payload.len()) as i64),
                        last_updated_utc: now,
                    },
                    recorded_all(stream_id, next, now, payload),
                ),
            ),
        }
    }
}

/// Plans the append of a non-empty `payload` to the stream `stream_id`
/// under the guard `version`, to be committed at `now`, where `last` is what
/// the store knows of the stream. The plan holds clones of the events of
/// `payload`. Nothing is committed here: a backend commits the plan, all of
/// it or nothing.
pub fn plan_append<Payload: Clone, Meta: Clone>(
    stream_id: &str,
    version: &ExpectedVersion<EventVersion>,
    last: Option<EventStream<EventVersion>>,
    payload: &[EventWrite<Payload, Meta>],
    now: NaiveDateTime,
) -> (res: Result<AppendPlan<Payload, Meta>, StoreError>)
    requires
        payload@.len() > 0,
    ensures
        match planned(stream_id@, *version, last.deep_view(), payload.deep_view(), now) {
            Ok((stream, events)) => {
                &&& res matches Ok(plan)
                &&& plan.stream@ == stream
                &&& clones_of(plan.events.deep_view(), events)
            },
            Err(refusal) => res matches Err(answer) && answer == refusal,
        },
{
    let last: (EventVersion, Option<EventStream<EventVersion>>) = match last {
        Some(record) => (record.last_version, Some(record)),
        None => (EventVersion::new(0), None),
    };
    if last.0.0 < 0 || payload.len() as u64 > (i64::MAX - last.0.0) as u64 {
        return Err(StoreError::BackendFailure);
    }
    let next = match last.0.next_version(version) {
        Ok(next) => next,
        Err(refusal) => {
            return Err(refusal);
        },
    };
    let events = event_writes_to_reads(stream_id, &next, now, payload);
    let stream = updated_stream(stream_id, payload.len() as i64, now, last);
    Ok(AppendPlan { stream, events })
}

} // verus!
