//! A client-side analytics event engine: it validates structured events,
//! merges per-event context with library defaults, renders events into their
//! canonical wire form, and accumulates them into size-bounded batches.

pub mod batcher;
pub mod config;
pub mod document;
pub mod errors;
pub mod fields;
pub mod json;
pub mod message;
pub mod ruddermessage;
pub mod timestamp;
pub mod utils;
