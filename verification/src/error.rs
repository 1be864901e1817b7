//! What the store answers when it refuses an operation.

use crate::text::{append_decimal, decimal};
use vstd::prelude::*;
use vstd::string::StringExecFns;

verus! {

/// A refusal of the store.
#[derive(Debug, PartialEq, Eq)]
pub enum StoreError {
    /// The writer expected no stream, but the stream holds `existing` events.
    StreamExists { existing: i64 },
    /// The writer expected its first event to get version `expected`, but
    /// the next free version of the stream is `next`.
    VersionMismatch { next: i64, expected: i64 },
    /// No stream of this name was ever appended to.
    StreamNotFound { stream_id: String },
    /// The stream holds no event of this version.
    EventNotFound { stream_id: String, version: i64 },
    /// The backend cannot take the append: the stream's last version would
    /// leave the range that the backend can hold.
    BackendFailure,
}

impl StoreError {
    /// The text of the refusal. The two refusals of the version rule start
    /// with the tokens `ESERROR_VERSION_STREAMEXISTS` and
    /// `ESERROR_VERSION_VERSIONNOTMATCH`, which clients match on.
    pub open spec fn text(self) -> Seq<char> {
        match self {
            StoreError::StreamExists { existing } => {
                "ESERROR_VERSION_STREAMEXISTS: Stream was expected to be empty, but contains "@
                    + decimal(existing as int) + " events"@
            },
            StoreError::VersionMismatch { next, expected } => {
                "ESERROR_VERSION_VERSIONNOTMATCH: Stream was expected to have next version "@
                    + decimal(next as int) + ", but has "@ + decimal(expected as int)
            },
            StoreError::StreamNotFound { stream_id } => {
                "StreamID: "@ + stream_id@ + " not present in store"@
            },
            StoreError::EventNotFound { stream_id, version } => {
                "StreamID: "@ + stream_id@ + " holds no event of version "@ + decimal(
                    version as int,
                )
            },
            StoreError::BackendFailure => "Stream version out of range"@,
        }
    }

    /// The text of the refusal, as a string.
    pub fn message(&self) -> (message: String)
        ensures
            message@ == self.text(),
    {
        match self {
            StoreError::StreamExists { existing } => {
                let mut message = String::from_str(
                    "ESERROR_VERSION_STREAMEXISTS: Stream was expected to be empty, but contains ",
                );
                append_decimal(&mut message, *existing);
                message.append(" events");
                message
            },
            StoreError::VersionMismatch { next, expected } => {
                let mut message = String::from_str(
                    "ESERROR_VERSION_VERSIONNOTMATCH: Stream was expected to have next version ",
                );
                append_decimal(&mut message, *next);
                message.append(", but has ");
                append_decimal(&mut message, *expected);
                message
            },
            StoreError::StreamNotFound { stream_id } => {
                let mut message = String::from_str("StreamID: ");
                message.append(stream_id.as_str());
                message.append(" not present in store");
                message
            },
            StoreError::EventNotFound { stream_id, version } => {
                let mut message = String::from_str("StreamID: ");
                message.append(stream_id.as_str());
                message.append(" holds no event of version ");
                append_decimal(&mut message, *version);
                message
            },
            StoreError::BackendFailure => String::from_str("Stream version out of range"),
        }
    }
}

} // verus!
