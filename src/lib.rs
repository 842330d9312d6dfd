//! Durable capture-and-relay pipeline for edge telemetry: a local append-only
//! row store with an uploaded/confirmed lifecycle, per-device sequence
//! numbering, a lossless row codec, batch relay bookkeeping and a compact
//! status-word codec for GPS auxiliary fields.
pub mod fake;
pub mod relay;
pub mod row;
pub mod sensor;
pub mod status;
pub mod store;
