//! Turns a grid of brightness samples into text, one character per sample,
//! chosen from an ordered character set by linear bucketing.

pub mod quantize;
pub mod grid;
pub mod dimensions;
