//! An event store: ordered, versioned streams of immutable events, appended
//! under optimistic-concurrency guards and read back by version range, by
//! correlation or by causation.
//!
//! * `types` holds the values that cross the store's boundary, `error` the
//!   refusals.
//! * `common` holds the two version types with the version rule, and the
//!   plan of an append, which every backend commits.
//! * `state` says what a store holds and what each operation means on it,
//!   `traits` states the operations on that, and `laws` proves what holds of
//!   every store.
//! * `in_memory` is the store in memory.
//! * `sql` holds what a SQL backend sends to its database by rule.
//! * `aggregate` handles commands for aggregates over any store.
//!
//! Every function of this crate is verified against the contract in its
//! header. The items that are believed rather than proved are the
//! declarations of `uuid::Uuid` and `chrono::NaiveDateTime`, and the three
//! wrappers `ids::same_id`, `clock::utc_now` and `text::push_char`.

pub mod aggregate;
pub mod clock;
pub mod common;
pub mod error;
pub mod filtering;
pub mod ids;
pub mod in_memory;
pub mod laws;
pub mod sql;
pub mod state;
pub mod text;
pub mod traits;
pub mod types;

pub use crate::error::StoreError;
pub use crate::traits::event_store::EventStore;
pub use crate::traits::version::Version;
pub use crate::types::event_read::EventRead;
pub use crate::types::event_read_range::EventsReadRange;
pub use crate::types::event_stream::EventStream;
pub use crate::types::event_write::EventWrite;
pub use crate::types::expected_version::ExpectedVersion;
pub use crate::types::stream_read_filter::StreamsReadFilter;
