use chrono::NaiveDateTime;
use uuid::Uuid;
use vstd::prelude::*;

verus! {

/// A command as a client hands it in.
///
/// Every message has three identifiers: its own, that of the conversation
/// it belongs to, and that of the message that caused it. An answer to a
/// message takes over the conversation's identifier and names the message
/// as its cause, so that a whole conversation can be followed, and each
/// step traced to what caused it.
#[derive(Debug, PartialEq, Eq)]
pub struct CommandWrite<Payload> {
    /// The command's identifier, chosen by the client.
    pub id: Uuid,
    /// The conversation that the command belongs to.
    pub correlation_id: Uuid,
    /// The message that caused the command.
    pub causation_id: Uuid,
    /// What is asked for. The store does not look inside.
    pub data: Payload,
    /// The kind of command.
    pub name: String,
}

/// A command as the log of commands holds it.
#[derive(Debug, PartialEq, Eq)]
pub struct CommandRead<Payload> {
    /// The command's identifier, chosen by the client.
    pub id: Uuid,
    /// The conversation that the command belongs to.
    pub correlation_id: Uuid,
    /// The message that caused the command.
    pub causation_id: Uuid,
    /// What is asked for. The store does not look inside.
    pub data: Payload,
    /// The kind of command.
    pub name: String,
    /// When the command was logged, in UTC.
    pub created_utc: NaiveDateTime,
}

impl<Payload: Clone> Clone for CommandWrite<Payload> {
    fn clone(&self) -> (copy: Self)
        ensures
            copy.id == self.id,
            copy.correlation_id == self.correlation_id,
            copy.causation_id == self.causation_id,
            cloned(self.data, copy.data),
            copy.name == self.name,
    {
        CommandWrite {
            id: self.id,
            correlation_id: self.correlation_id,
            causation_id: self.causation_id,
            data: self.data.clone(),
            name: self.name.clone(),
        }
    }
}

impl<Payload: Clone> Clone for CommandRead<Payload> {
    fn clone(&self) -> (copy: Self)
        ensures
            copy.id == self.id,
            copy.correlation_id == self.correlation_id,
            copy.causation_id == self.causation_id,
            cloned(self.data, copy.data),
            copy.name == self.name,
            copy.created_utc == self.created_utc,
    {
        CommandRead {
            id: self.id,
            correlation_id: self.correlation_id,
            causation_id: self.causation_id,
            data: self.data.clone(),
            name: self.name.clone(),
            created_utc: self.created_utc,
        }
    }
}

} // verus!
