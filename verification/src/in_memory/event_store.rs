use crate::clock::utc_now;
use crate::common::i64_event_version::{plan_append, record_all, recorded_all, EventVersion};
use crate::error::StoreError;
use crate::filtering::lemma_filter_push;
use crate::ids::is_id;
use crate::laws::{
    lemma_append_assigns_next_versions, lemma_append_keeps_wf, lemma_reads_ascend,
    lemma_stream_position,
};
use crate::state::{accepted_by, caused_by, correlated, in_stream_range, StoreState};
use crate::traits::event_store::{
    append_outcome, follow, single_append_outcome, single_committed, EventStore,
};
use crate::traits::version::Version;
use crate::types::event_read::{clones_of, EventRead, EventReadView};
use crate::types::event_read_range::EventsReadRange;
use crate::types::event_stream::EventStream;
use crate::types::event_write::EventWrite;
use crate::types::expected_version::ExpectedVersion;
use crate::types::stream_read_filter::StreamsReadFilter;
use chrono::NaiveDateTime;
use uuid::Uuid;
use vstd::hash_map::StringHashMap;
use vstd::prelude::*;
use vstd::string::StringExecFns;

verus! {

/// An event store that keeps its streams and events in memory: the registry
/// of streams in the order in which they were first appended to, a hash map
/// from each stream's name to its place in the registry, and the log of
/// events in the order in which they were committed.
pub struct EventStoreInMemory<Payload, Meta> {
    streams: Vec<EventStream<EventVersion>>,
    places: StringHashMap<usize>,
    events: Vec<EventRead<Payload, Meta, EventVersion>>,
}

impl<Payload, Meta> View for EventStoreInMemory<Payload, Meta> {
    type V = StoreState<Payload, Meta>;

    closed spec fn view(&self) -> StoreState<Payload, Meta> {
        StoreState { streams: self.streams.deep_view(), events: self.events.deep_view() }
    }
}

impl<Payload, Meta> EventStoreInMemory<Payload, Meta> {
    /// Whether the hash map holds each stream's place in the registry under
    /// the stream's name, and nothing else.
    spec fn indexed(self) -> bool {
        &&& forall|i: int|
            0 <= i < self.streams@.len() ==> self.places@.contains_key(
                (#[trigger] self.streams@[i]).id@,
            ) && self.places@[self.streams@[i].id@] == i
        &&& forall|name: Seq<char>| #[trigger]
            self.places@.contains_key(name) ==> self.places@[name] < self.streams@.len()
                && self.streams@[self.places@[name] as int].id@ == name
    }

    /// What holds of every store in memory: what it holds is a valid store,
    /// and the hash map leads to every stream.
    #[verifier::type_invariant]
    spec fn valid(self) -> bool {
        self@.wf() && self.indexed()
    }
}

/// Which events a read asks for.
enum Wanted {
    /// The events of a stream whose version lies in a range.
    Slice { stream_id: String, range: EventsReadRange<EventVersion> },
    /// The events of a conversation.
    Conversation(Uuid),
    /// The events that a message caused.
    Effect(Uuid),
}

impl Wanted {
    /// The test that an event passes where the read asks for it.
    spec fn test<Payload, Meta>(self) -> spec_fn(
        EventReadView<Payload, Meta, EventVersion>,
    ) -> bool {
        match self {
            Wanted::Slice { stream_id, range } => in_stream_range(stream_id@, range),
            Wanted::Conversation(correlation_id) => correlated(correlation_id),
            Wanted::Effect(causation_id) => caused_by(causation_id),
        }
    }

    /// Whether the read asks for `event`.
    fn asks_for<Payload, Meta>(&self, event: &EventRead<Payload, Meta, EventVersion>) -> (hit:
        bool)
        ensures
            hit == self.test::<Payload, Meta>()(event@),
    {
        match self {
            Wanted::Slice { stream_id, range } => event.stream_id == *stream_id && range.contains(
                &event.version,
            ),
            Wanted::Conversation(correlation_id) => is_id(&event.correlation_id, correlation_id),
            Wanted::Effect(causation_id) => is_id(&event.causation_id, causation_id),
        }
    }
}

impl<Payload: Clone, Meta: Clone> Default for EventStoreInMemory<Payload, Meta> {
    fn default() -> (store: Self)
        ensures
            store@ == StoreState::<Payload, Meta>::empty(),
    {
        EventStoreInMemory::new()
    }
}

impl<Payload: Clone, Meta: Clone> EventStoreInMemory<Payload, Meta> {
    /// A store to which nothing was appended yet.
    pub fn new() -> (store: EventStoreInMemory<Payload, Meta>)
        ensures
            store@ == StoreState::<Payload, Meta>::empty(),
    {
        let streams: Vec<EventStream<EventVersion>> = Vec::new();
        let events: Vec<EventRead<Payload, Meta, EventVersion>> = Vec::new();
        assert(streams.deep_view() =~= Seq::empty());
        assert(events.deep_view() =~= Seq::empty());
        EventStoreInMemory { streams, places: StringHashMap::new(), events }
    }

    /// Where the stream `stream_id` stands in the registry, if it was ever
    /// appended to.
    fn find_stream(&self, stream_id: &str) -> (found: Option<usize>)
        ensures
            match found {
                Some(at) => {
                    &&& at < self.streams@.len()
                    &&& self@.has_stream(stream_id@)
                    &&& self@.stream_position(stream_id@) == at
                    &&& self@.stream(stream_id@) == Some(self.streams@[at as int]@)
                    &&& self@.last_version(stream_id@) == self.streams@[at as int].last_version
                },
                None => !self@.has_stream(stream_id@),
            },
    {
        proof {
            use_type_invariant(self);
        }
        match self.places.get(stream_id) {
            Some(place) => {
                let at = *place;
                proof {
                    assert(self@.streams[at as int] == self.streams@[at as int]@);
                    lemma_stream_position(self@, stream_id@, at as int);
                }
                Some(at)
            },
            None => {
                assert(!self@.has_stream(stream_id@)) by {
                    assert forall|i: int| 0 <= i < self@.streams.len() implies (
                    #[trigger] self@.streams[i]).id != stream_id@ by {
                        assert(self@.streams[i] == self.streams@[i]@);
                    }
                }
                None
            },
        }
    }

    /// Clones of the events that `wanted` asks for, in the order in which
    /// they were committed.
    fn select(&self, wanted: &Wanted) -> (hits: Vec<EventRead<Payload, Meta, EventVersion>>)
        ensures
            clones_of(hits.deep_view(), self@.events.filter(wanted.test())),
    {
        let mut hits: Vec<EventRead<Payload, Meta, EventVersion>> = Vec::new();
        let mut k: usize = 0;
        proof {
            assert(self@.events.take(0) =~= Seq::empty());
            reveal(Seq::filter);
        }
        while k < self.events.len()
            invariant
                k <= self.events@.len(),
                clones_of(hits.deep_view(), self@.events.take(k as int).filter(wanted.test())),
            decreases self.events@.len() - k,
        {
            let ghost before = hits.deep_view();
            proof {
                assert(self@.events.take(k + 1) =~= self@.events.take(k as int).push(
                    self@.events[k as int],
                ));
                lemma_filter_push(
                    self@.events.take(k as int),
                    wanted.test(),
                    self@.events[k as int],
                );
                assert(self@.events[k as int] == self.events@[k as int]@);
            }
            if wanted.asks_for(&self.events[k]) {
                hits.push(self.events[k].clone());
                proof {
                    assert(hits.deep_view() =~= before.push(hits@[hits@.len() - 1]@));
                }
            }
            k += 1;
        }
        assert(self@.events.take(k as int) =~= self@.events);
        hits
    }

    /// The non-empty part of an append: holds the guard against the
    /// stream's last version, gives the events their versions, moves the
    /// stream's record on and puts the events at the end of the log.
    fn process_events(
        &mut self,
        stream_id: &str,
        version: &ExpectedVersion<EventVersion>,
        payload: Vec<EventWrite<Payload, Meta>>,
        now: NaiveDateTime,
    ) -> (res: Result<Vec<EventRead<Payload, Meta, EventVersion>>, StoreError>)
        requires
            payload@.len() > 0,
        ensures
            final(self)@.wf(),
            append_outcome(
                old(self)@,
                stream_id@,
                *version,
                payload.deep_view(),
                now,
                final(self)@,
                res,
            ),
            res matches Ok(reads) ==> reads@.len() == payload@.len() && follow(
                reads@,
                old(self)@.last_version(stream_id@),
            ),
    {
        proof {
            use_type_invariant(&*self);
        }
        let ghost before = self@;
        let ghost writes = payload.deep_view();
        let found = self.find_stream(stream_id);
        let last: Option<EventStream<EventVersion>> = match found {
            Some(at) => Some(self.streams[at].clone()),
            None => None,
        };
        proof {
            if let Some(at) = found {
                assert(before.is_dense(at as int));
                assert(before.streams[at as int] == self.streams@[at as int]@);
            }
        }
        let plan = match plan_append(stream_id, version, last, payload.as_slice(), now) {
            Ok(plan) => plan,
            Err(refusal) => {
                return Err(refusal);
            },
        };
        proof {
            let planned = recorded_all(
                stream_id@,
                before.last_version(stream_id@).next_version_spec(version)->Ok_0,
                now,
                writes,
            );
            assert(plan.events.deep_view()[0].is_clone_of(planned[0]));
            assert(plan.events.deep_view()[0] == plan.events@[0]@);
        }
        let next = plan.events[0].version;
        let mut stored = record_all(stream_id, &next, now, payload);
        let mut taken = EventStoreInMemory::new();
        core::mem::swap(self, &mut taken);
        let EventStoreInMemory { mut streams, mut places, mut events } = taken;
        let ghost held = streams@;
        let ghost led = places@;
        match found {
            Some(at) => {
                streams.set(at, plan.stream);
            },
            None => {
                places.insert(String::from_str(stream_id), streams.len());
                streams.push(plan.stream);
            },
        }
        events.append(&mut stored);
        let reads = plan.events;
        proof {
            let after = before.append(stream_id@, *version, writes, now)->Ok_0;
            assert(streams.deep_view() =~= after.streams);
            assert(events.deep_view() =~= after.events);
            lemma_append_keeps_wf(before, stream_id@, *version, writes, now);
            assert forall|i: int| 0 <= i < streams@.len() implies places@.contains_key(
                (#[trigger] streams@[i]).id@,
            ) && places@[streams@[i].id@] == i by {
                if i < held.len() {
                    assert(led.contains_key(held[i].id@) && led[held[i].id@] == i);
                    assert(before.streams[i] == held[i]@);
                }
            }
            assert forall|name: Seq<char>| #[trigger]
                places@.contains_key(name) implies places@[name] < streams@.len()
                && streams@[places@[name] as int].id@ == name by {
                if led.contains_key(name) {
                    assert(held[led[name] as int].id@ == name);
                    assert(before.streams[led[name] as int] == held[led[name] as int]@);
                }
            }
        }
        *self = EventStoreInMemory { streams, places, events };
        proof {
            let after = before.append(stream_id@, *version, writes, now)->Ok_0;
            assert(after.events.skip(before.events.len() as int) =~= recorded_all(
                stream_id@,
                next,
                now,
                writes,
            ));
            lemma_append_assigns_next_versions(before, stream_id@, *version, writes, now);
            let added = after.events.skip(before.events.len() as int);
            assert forall|i: int| 0 <= i < reads@.len() implies (#[trigger] reads@[i]).version.0
                == before.last_version(stream_id@).0 + 1 + i by {
                assert(reads.deep_view()[i] == reads@[i]@);
                assert(reads.deep_view()[i].is_clone_of(added[i]));
            }
        }
        Ok(reads)
    }

    /// Appends the events of `payload` to the stream `stream_id` under the
    /// guard `version`, all or none, and stamps them and the stream with
    /// `now`. An empty `payload` leaves the store as it is, whatever the
    /// guard says.
    pub fn append_events_at(
        &mut self,
        stream_id: &str,
        version: &ExpectedVersion<EventVersion>,
        payload: Vec<EventWrite<Payload, Meta>>,
        now: NaiveDateTime,
    ) -> (res: Result<Vec<EventRead<Payload, Meta, EventVersion>>, StoreError>)
        ensures
            final(self)@.wf(),
            append_outcome(
                old(self)@,
                stream_id@,
                *version,
                payload.deep_view(),
                now,
                final(self)@,
                res,
            ),
            res matches Ok(reads) ==> reads@.len() == payload@.len() && follow(
                reads@,
                old(self)@.last_version(stream_id@),
            ),
    {
        proof {
            use_type_invariant(&*self);
        }
        if payload.is_empty() {
            let reads: Vec<EventRead<Payload, Meta, EventVersion>> = Vec::new();
            assert(reads.deep_view() =~= self@.events.skip(self@.events.len() as int));
            return Ok(reads);
        }
        self.process_events(stream_id, version, payload, now)
    }
}

impl<Payload: Clone, Meta: Clone> EventStore<Payload, Meta> for EventStoreInMemory<Payload, Meta> {
    open spec fn state(&self) -> StoreState<Payload, Meta> {
        self@
    }

    fn append_event(
        &mut self,
        stream_id: &str,
        version: &ExpectedVersion<EventVersion>,
        payload: &EventWrite<Payload, Meta>,
    ) -> (res: Result<EventRead<Payload, Meta, EventVersion>, StoreError>) {
        let ghost before = self@;
        let ghost given = payload@;
        let event_write = payload.clone();
        let ghost written = event_write@;
        let now = utc_now();
        let mut payload: Vec<EventWrite<Payload, Meta>> = Vec::new();
        payload.push(event_write);
        assert(payload.deep_view() =~= seq![written]);
        let res = match self.append_events_at(stream_id, version, payload, now) {
            Ok(mut reads) => {
                let ghost answered = reads.deep_view();
                proof {
                    let after = before.append(stream_id@, *version, seq![written], now)->Ok_0;
                    assert(after.events.skip(before.events.len() as int).len() == 1);
                    assert(after.events.skip(before.events.len() as int)[0] == after.events.last());
                    assert(answered[0] == reads@[0]@);
                }
                Ok(reads.swap_remove(0))
            },
            Err(refusal) => Err(refusal),
        };
        proof {
            assert(written.is_clone_of(given) && single_append_outcome(
                before,
                stream_id@,
                *version,
                written,
                now,
                self@,
                res,
            ));
            assert(single_committed(before, stream_id@, *version, given, self@, res));
        }
        res
    }

    fn append_events(
        &mut self,
        stream_id: &str,
        version: &ExpectedVersion<EventVersion>,
        payload: Vec<EventWrite<Payload, Meta>>,
    ) -> (res: Result<Vec<EventRead<Payload, Meta, EventVersion>>, StoreError>) {
        let ghost writes = payload.deep_view();
        let now = utc_now();
        let res = self.append_events_at(stream_id, version, payload, now);
        assert(append_outcome(
            old(self).state(),
            stream_id@,
            *version,
            writes,
            now,
            self.state(),
            res,
        ));
        res
    }

    fn get_event(&self, stream_id: &str, version: &EventVersion) -> (res: Result<
        EventRead<Payload, Meta, EventVersion>,
        StoreError,
    >) {
        proof {
            use_type_invariant(self);
        }
        let range = EventsReadRange::VersionRange { from_version: *version, to_version: *version };
        let wanted = Wanted::Slice { stream_id: String::from_str(stream_id), range };
        let mut hits = self.select(&wanted);
        let ghost found = hits.deep_view();
        if hits.len() > 0 {
            let read = hits.swap_remove(0);
            assert(found[0] == read@);
            Ok(read)
        } else {
            Err(
                StoreError::EventNotFound {
                    stream_id: String::from_str(stream_id),
                    version: version.0,
                },
            )
        }
    }

    fn get_events(&self, stream_id: &str, range: &EventsReadRange<EventVersion>) -> (res: Result<
        Vec<EventRead<Payload, Meta, EventVersion>>,
        StoreError,
    >) {
        proof {
            use_type_invariant(self);
        }
        let wanted = Wanted::Slice { stream_id: String::from_str(stream_id), range: *range };
        let events = self.select(&wanted);
        proof {
            let held = self@.events_in(stream_id@, *range);
            lemma_reads_ascend(self@, stream_id@, *range);
            assert forall|i: int, j: int| 0 <= i < j < events@.len() implies (
            #[trigger] events@[i]).version.0 < (#[trigger] events@[j]).version.0 by {
                assert(events.deep_view()[i].is_clone_of(held[i]));
                assert(events.deep_view()[j].is_clone_of(held[j]));
                assert(events.deep_view()[i] == events@[i]@);
                assert(events.deep_view()[j] == events@[j]@);
            }
        }
        Ok(events)
    }

    fn get_events_by_correlation_id(&self, correlation_id: &Uuid) -> (res: Result<
        Vec<EventRead<Payload, Meta, EventVersion>>,
        StoreError,
    >) {
        proof {
            use_type_invariant(self);
        }
        Ok(self.select(&Wanted::Conversation(*correlation_id)))
    }

    fn get_events_by_causation_id(&self, causation_id: &Uuid) -> (res: Result<
        Vec<EventRead<Payload, Meta, EventVersion>>,
        StoreError,
    >) {
        proof {
            use_type_invariant(self);
        }
        Ok(self.select(&Wanted::Effect(*causation_id)))
    }

    fn get_streams(&self, filter: &StreamsReadFilter) -> (res: Result<
        Vec<EventStream<EventVersion>>,
        StoreError,
    >) {
        let mut streams: Vec<EventStream<EventVersion>> = Vec::new();
        let mut i: usize = 0;
        proof {
            use_type_invariant(self);
            assert(self@.streams.take(0) =~= Seq::empty());
            reveal(Seq::filter);
        }
        while i < self.streams.len()
            invariant
                i <= self.streams@.len(),
                streams.deep_view() == self@.streams.take(i as int).filter(accepted_by(*filter)),
            decreases self.streams@.len() - i,
        {
            let ghost before = streams.deep_view();
            proof {
                assert(self@.streams.take(i + 1) =~= self@.streams.take(i as int).push(
                    self@.streams[i as int],
                ));
                lemma_filter_push(
                    self@.streams.take(i as int),
                    accepted_by(*filter),
                    self@.streams[i as int],
                );
                assert(self@.streams[i as int] == self.streams@[i as int]@);
            }
            if filter.selects(self.streams[i].id.as_str()) {
                streams.push(self.streams[i].clone());
                proof {
                    assert(streams.deep_view() =~= before.push(self.streams@[i as int]@));
                }
            }
            i += 1;
        }
        assert(self@.streams.take(i as int) =~= self@.streams);
        Ok(streams)
    }

    fn get_stream(&self, stream_id: &str) -> (res: Result<EventStream<EventVersion>, StoreError>) {
        proof {
            use_type_invariant(self);
        }
        match self.find_stream(stream_id) {
            Some(at) => Ok(self.streams[at].clone()),
            None => Err(StoreError::StreamNotFound { stream_id: String::from_str(stream_id) }),
        }
    }
}

} // verus!
