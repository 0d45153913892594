//! Ingestion-schema and accounting layer of a log-analytics platform.
//!
//! The crate validates the OpenTelemetry Logs data model accepted at the
//! ingest boundary and keeps per-stream event and byte-volume accounting
//! across three tiers (lifetime, current, deleted), stored as labeled
//! counter series in a prometheus registry.

pub mod labels;
pub mod otel;
pub mod registry;
pub mod stats;
