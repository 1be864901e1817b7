use crate::types::event_write::{cloned_option, EventWrite, EventWriteView};
use chrono::NaiveDateTime;
use uuid::Uuid;
use vstd::prelude::*;
use vstd::string::StringExecFns;

verus! {

/// An event as the store holds it: what the client handed in, and the place
/// the store gave it.
#[derive(Debug)]
pub struct EventRead<Payload, Meta, Version> {
    /// The event's identifier, chosen by the client.
    pub id: Uuid,
    /// The conversation that the event belongs to, if any.
    pub correlation_id: Option<Uuid>,
    /// The event or command that caused this event, if any.
    pub causation_id: Option<Uuid>,
    /// The stream that holds the event.
    pub stream_id: String,
    /// The event's position in its stream, counted from one.
    pub version: Version,
    /// The kind of event.
    pub name: String,
    /// What happened. The store does not look inside.
    pub data: Payload,
    /// What else the client wanted kept with the event.
    pub metadata: Option<Meta>,
    /// When the event was appended, in UTC.
    pub created_utc: NaiveDateTime,
}

/// An `EventRead` with its texts as sequences of characters.
pub struct EventReadView<Payload, Meta, Version> {
    pub id: Uuid,
    pub correlation_id: Option<Uuid>,
    pub causation_id: Option<Uuid>,
    pub stream_id: Seq<char>,
    pub version: Version,
    pub name: Seq<char>,
    pub data: Payload,
    pub metadata: Option<Meta>,
    pub created_utc: NaiveDateTime,
}

impl<Payload, Meta, Version> View for EventRead<Payload, Meta, Version> {
    type V = EventReadView<Payload, Meta, Version>;

    open spec fn view(&self) -> EventReadView<Payload, Meta, Version> {
        EventReadView {
            id: self.id,
            correlation_id: self.correlation_id,
            causation_id: self.causation_id,
            stream_id: self.stream_id@,
            version: self.version,
            name: self.name@,
            data: self.data,
            metadata: self.metadata,
            created_utc: self.created_utc,
        }
    }
}

impl<Payload, Meta, Version> DeepView for EventRead<Payload, Meta, Version> {
    type V = EventReadView<Payload, Meta, Version>;

    open spec fn deep_view(&self) -> EventReadView<Payload, Meta, Version> {
        self@
    }
}

impl<Payload, Meta, Version> EventReadView<Payload, Meta, Version> {
    /// The event `event_write` as the stream `stream_id` holds it at
    /// `version`, appended at `created_utc`.
    pub open spec fn recorded(
        stream_id: Seq<char>,
        version: Version,
        created_utc: NaiveDateTime,
        event_write: EventWriteView<Payload, Meta>,
    ) -> Self {
        EventReadView {
            id: event_write.id,
            correlation_id: event_write.correlation_id,
            causation_id: event_write.causation_id,
            stream_id,
            version,
            name: event_write.name,
            data: event_write.data,
            metadata: event_write.metadata,
            created_utc,
        }
    }
}

impl<Payload: Clone, Meta: Clone, Version> EventReadView<Payload, Meta, Version> {
    /// Whether `self` can be a clone of `source`: the same event at the
    /// same place, with payload and metadata as their own `clone` returns
    /// them.
    pub open spec fn is_clone_of(self, source: Self) -> bool {
        &&& self.id == source.id
        &&& self.correlation_id == source.correlation_id
        &&& self.causation_id == source.causation_id
        &&& self.stream_id == source.stream_id
        &&& self.version == source.version
        &&& self.name == source.name
        &&& cloned(source.data, self.data)
        &&& cloned_option(source.metadata, self.metadata)
        &&& self.created_utc == source.created_utc
    }
}

/// Whether each event of `copies` can be a clone of the event of `sources` at
/// the same position.
pub open spec fn clones_of<Payload: Clone, Meta: Clone, Version>(
    copies: Seq<EventReadView<Payload, Meta, Version>>,
    sources: Seq<EventReadView<Payload, Meta, Version>>,
) -> bool {
    &&& copies.len() == sources.len()
    &&& forall|i: int| 0 <= i < copies.len() ==> (#[trigger] copies[i]).is_clone_of(sources[i])
}

impl<Payload: Clone, Meta: Clone, Version> EventRead<Payload, Meta, Version> {
    /// The persisted form of `event_write`: a clone of it, placed in the
    /// stream `stream_id` at `version` and stamped with `created_utc`.
    pub fn from_event_write(
        stream_id: &str,
        version: Version,
        created_utc: NaiveDateTime,
        event_write: &EventWrite<Payload, Meta>,
    ) -> (event_read: EventRead<Payload, Meta, Version>)
        ensures
            event_read@.is_clone_of(
                EventReadView::recorded(stream_id@, version, created_utc, event_write@),
            ),
    {
        EventRead {
            id: event_write.id,
            name: event_write.name.clone(),
            correlation_id: event_write.correlation_id,
            causation_id: event_write.causation_id,
            stream_id: String::from_str(stream_id),
            data: event_write.data.clone(),
            metadata: event_write.metadata.clone(),
            created_utc,
            version,
        }
    }
}

impl<Payload, Meta, Version> EventRead<Payload, Meta, Version> {
    /// The persisted form of `event_write` itself, placed in the stream
    /// `stream_id` at `version` and stamped with `created_utc`.
    pub fn record(
        stream_id: &str,
        version: Version,
        created_utc: NaiveDateTime,
        event_write: EventWrite<Payload, Meta>,
    ) -> (event_read: EventRead<Payload, Meta, Version>)
        ensures
            event_read@ == EventReadView::recorded(stream_id@, version, created_utc, event_write@),
    {
        EventRead {
            id: event_write.id,
            name: event_write.name,
            correlation_id: event_write.correlation_id,
            causation_id: event_write.causation_id,
            stream_id: String::from_str(stream_id),
            data: event_write.data,
            metadata: event_write.metadata,
            created_utc,
            version,
        }
    }
}

impl<Payload: Clone, Meta: Clone, Version: Copy> Clone for EventRead<Payload, Meta, Version> {
    fn clone(&self) -> (copy: Self)
        ensures
            copy@.is_clone_of(self@),
    {
        EventRead {
            id: self.id,
            correlation_id: self.correlation_id,
            causation_id: self.causation_id,
            stream_id: self.stream_id.clone(),
            version: self.version,
            name: self.name.clone(),
            data: self.data.clone(),
            metadata: self.metadata.clone(),
            created_utc: self.created_utc,
        }
    }
}

} // verus!
