//! Overview extraction for integer PCM audio: groups consecutive samples into
//! fixed-size buckets, summarises each bucket by minimum, maximum and
//! root-mean-square amplitude, and maps bucket records onto pixel columns of a
//! raster canvas.
//!
//! The RMS of a bucket is carried exactly as the sum of squared samples
//! together with the sample count; `sqrt(sq_sum / count)` is left to callers
//! that want a floating-point value, while [`render`] uses a verified integer
//! square root.

pub mod bucket;
pub mod normalize;
pub mod pipeline;
pub mod render;
