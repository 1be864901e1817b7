use uuid::Uuid;
use vstd::prelude::*;

verus! {

/// An event as a client hands it in, before the store has given it a place.
#[derive(Debug)]
pub struct EventWrite<Payload, Meta> {
    /// The event's identifier, chosen by the client.
    pub id: Uuid,
    /// The conversation that the event belongs to, if any.
    pub correlation_id: Option<Uuid>,
    /// The event or command that caused this event, if any.
    pub causation_id: Option<Uuid>,
    /// The kind of event.
    pub name: String,
    /// What happened. The store does not look inside.
    pub data: Payload,
    /// What else the client wants kept with the event.
    pub metadata: Option<Meta>,
}

/// An `EventWrite` with its name as a sequence of characters.
pub struct EventWriteView<Payload, Meta> {
    pub id: Uuid,
    pub correlation_id: Option<Uuid>,
    pub causation_id: Option<Uuid>,
    pub name: Seq<char>,
    pub data: Payload,
    pub metadata: Option<Meta>,
}

impl<Payload, Meta> View for EventWrite<Payload, Meta> {
    type V = EventWriteView<Payload, Meta>;

    open spec fn view(&self) -> EventWriteView<Payload, Meta> {
        EventWriteView {
            id: self.id,
            correlation_id: self.correlation_id,
            causation_id: self.causation_id,
            name: self.name@,
            data: self.data,
            metadata: self.metadata,
        }
    }
}

impl<Payload, Meta> DeepView for EventWrite<Payload, Meta> {
    type V = EventWriteView<Payload, Meta>;

    open spec fn deep_view(&self) -> EventWriteView<Payload, Meta> {
        self@
    }
}

/// Whether `copy` can be what `Clone::clone` returns for `source`: both are
/// absent, or both are present and the one is a clone of the other.
pub open spec fn cloned_option<T: Clone>(source: Option<T>, copy: Option<T>) -> bool {
    match (source, copy) {
        (None, None) => true,
        (Some(a), Some(b)) => cloned(a, b),
        _ => false,
    }
}

impl<Payload: Clone, Meta: Clone> EventWriteView<Payload, Meta> {
    /// Whether `self` can be a clone of `source`: the same event, with
    /// payload and metadata as their own `clone` returns them.
    pub open spec fn is_clone_of(self, source: Self) -> bool {
        &&& self.id == source.id
        &&& self.correlation_id == source.correlation_id
        &&& self.causation_id == source.causation_id
        &&& self.name == source.name
        &&& cloned(source.data, self.data)
        &&& cloned_option(source.metadata, self.metadata)
    }
}

impl<Payload: Clone, Meta: Clone> Clone for EventWrite<Payload, Meta> {
    fn clone(&self) -> (copy: Self)
        ensures
            copy@.is_clone_of(self@),
    {
        EventWrite {
            id: self.id,
            correlation_id: self.correlation_id,
            causation_id: self.causation_id,
            name: self.name.clone(),
            data: self.data.clone(),
            metadata: self.metadata.clone(),
        }
    }
}

} // verus!
