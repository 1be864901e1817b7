use chrono::NaiveDateTime;
use vstd::prelude::*;

verus! {

/// What the store knows of a stream as a whole.
#[derive(Debug, PartialEq, Eq)]
pub struct EventStream<Version> {
    /// The stream's name.
    pub id: String,
    /// The version of the stream's latest event.
    pub last_version: Version,
    /// When the stream was last appended to, in UTC.
    pub last_updated_utc: NaiveDateTime,
}

/// An `EventStream` with its name as a sequence of characters.
pub struct EventStreamView<Version> {
    pub id: Seq<char>,
    pub last_version: Version,
    pub last_updated_utc: NaiveDateTime,
}

impl<Version> View for EventStream<Version> {
    type V = EventStreamView<Version>;

    open spec fn view(&self) -> EventStreamView<Version> {
        EventStreamView {
            id: self.id@,
            last_version: self.last_version,
            last_updated_utc: self.last_updated_utc,
        }
    }
}

impl<Version> DeepView for EventStream<Version> {
    type V = EventStreamView<Version>;

    open spec fn deep_view(&self) -> EventStreamView<Version> {
        self@
    }
}

impl<Version: Copy> Clone for EventStream<Version> {
    fn clone(&self) -> (copy: Self)
        ensures
            copy == *self,
    {
        EventStream {
            id: self.id.clone(),
            last_version: self.last_version,
            last_updated_utc: self.last_updated_utc,
        }
    }
}

} // verus!
