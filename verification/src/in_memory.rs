//! An event store that lives in memory.

pub mod event_store;
