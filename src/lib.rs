//! Cross-field combing repair for interlaced MPEG-2 material.
//!
//! The library holds the per-sample composition kernels, the frame-level
//! operators built on them, configuration validation, the stage graph of the
//! repair pipeline (cross-field repair, temporal limiting, averaging,
//! blurring, contra-sharpening) and the per-frame stages that run on sample
//! data. The host frame graph runs the graph's nodes and hands frames in as
//! plain sample vectors.

pub mod config;
pub mod error;
pub mod frame;
pub mod geometry;
pub mod graph;
pub mod kernels;
pub mod laws;
pub mod ops;
pub mod pipeline;
pub mod sample;
