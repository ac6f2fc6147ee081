//! Integer core of a RAW development pipeline: level correction of
//! Bayer samples in exact fractions, crop geometry, selection of the
//! calibration entry and quantisation to sixteen bits.

pub mod error;
pub mod geometry;
pub mod levels;
pub mod develop;
pub mod crop;
pub mod quantize;
