//! The values that cross the store's boundary.

pub mod command_write;
pub mod event_read;
pub mod event_read_range;
pub mod event_stream;
pub mod event_write;
pub mod expected_version;
pub mod stream_read_filter;
