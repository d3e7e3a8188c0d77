//! Parsing of the diagnostic log stream that an FFmpeg process writes on
//! stderr: a line classifier with section tracking, per-shape field
//! extractors, a delimiter-aware comma splitter, a clock-time parser, and an
//! aggregator folding the parsed events into a structural description of the
//! job (inputs, outputs, streams, duration).

pub mod comma_iter;
pub mod decimal;
pub mod download;
pub mod event;
pub mod lines;
pub mod log_parser;
pub mod metadata;
pub mod stream;
pub mod text;
