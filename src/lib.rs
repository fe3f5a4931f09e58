//! A client library for recording timesheet entries with a time-tracking
//! service: duration parsing, entry assembly, request framing and response
//! decoding.
pub mod api;
pub mod duration;
pub mod entry;
pub mod json;
pub mod model;
pub mod text;
