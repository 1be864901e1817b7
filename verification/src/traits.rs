//! The interfaces of the crate.

pub mod event_store;
pub mod version;
