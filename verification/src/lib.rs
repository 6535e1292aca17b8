//! Verified core of a rhythm-game chart processing pipeline.
//!
//! The library takes one parsed chart, derives a family of time-rescaled
//! variants of it (one per playback-speed multiplier), computes a
//! multi-dimensional difficulty rating for every variant from several
//! independent rating sources, content-addresses and compresses the
//! serialized variant, and assembles the results into an insertable record
//! graph.  Fetching charts, running the external rating engines, and writing
//! to the filesystem or database are left to unverified callers; this crate
//! holds the transformation, reconciliation and assembly logic, each function
//! with a proved contract.
//!
//! All quantities that arrive as real numbers (scores, tempo, durations) are
//! held here as fixed-point integers; callers choose the unit and the
//! contracts state the exact integer arithmetic performed.

pub mod chart;
pub mod codec;
pub mod compression;
pub mod config;
pub mod errors;
pub mod hash;
pub mod numfmt;
pub mod pipeline;
pub mod processor;
pub mod rating;
pub mod records;
pub mod store;
pub mod utils;
pub mod worker;
