//! Streaming chat completions: framing and assembly.

pub mod accumulator;
pub mod delta_laws;
pub mod event;
pub mod frame_laws;
pub mod laws;
pub mod merge;
pub mod reader;
pub mod sse;
pub mod text_laws;
