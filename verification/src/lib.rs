//! Normalizes heterogeneous textual log output into a single, chronologically
//! ordered, filterable record stream. The shape of a log line — how to find
//! its timestamp, host, service and message — is supplied as configuration
//! (a scheme), so the same engine parses different log formats.

pub mod pattern;
pub mod record;
pub mod scheme;
pub mod splitter;
pub mod stream;
pub mod template;
pub mod text;
pub mod timestamp;
