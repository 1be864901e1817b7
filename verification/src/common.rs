//! The two stream version types and the version algebra on each.

pub mod i64_event_version;
pub mod u32_event_version;
