//! The native engine boundary: the configuration and enumerations shared
//! with native callers, the bounded event log, and the conversion of raw
//! camera pixel formats to RGB.

pub mod types;
pub mod engine;
