//! The composing-buffer side of the input method: the recorded input, the
//! conversion cache, and how the buffer is split for conversion.

pub mod aux_text;
pub mod cache;
pub mod candidates;
pub mod chunk;
pub mod composing;
pub mod conversion;
pub mod display;
pub mod input_buffer;
pub mod keys;
pub mod model;
pub mod strategy;
