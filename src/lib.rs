//! Ingestion and routing core of a live telemetry dashboard.
//!
//! Telemetry arrives as URL-encoded `column=value` pairs. Each raw value is a
//! list of numbers separated by commas or spaces. A consumer pass collects the
//! columns drained from the routing channel, pairs each plot's x-axis column
//! with its y-axis columns, appends the resulting points to per-series buffers
//! and reports malformed values and unknown column names to a log.
//!
//! Samples are carried as the IEEE-754 bit patterns of `f64` values (`u64`),
//! so the library routes them without doing any floating-point arithmetic.
pub mod samples;
pub mod series;
pub mod plot;
pub mod panel;
pub mod channel;
pub mod query;
