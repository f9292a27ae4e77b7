//! Readers for the outputs of a fire-dynamics simulation: the text manifest
//! that describes geometry and companion files, and the framed binary slice
//! format that holds a time series of a scalar field.
//!
//! - `wire`: little-endian words and length-framed records.
//! - `slice`: the slice header, frames, and a cursor over a slice stream.
//! - `text`: whitespace tokens, integers and real-number literals.
//! - `records`: geometric values and the fixed-layout manifest records.
//! - `manifest`: the manifest's types and how a finished one is assembled.
//! - `blocks`: the block state machine that reads a manifest line by line.
pub mod blocks;
pub mod manifest;
pub mod records;
pub mod slice;
pub mod text;
pub mod wire;
