//! An in-process image toolkit: a channel-packed pixel buffer and the
//! filters that are evaluated over it, pixel by pixel or row by row.
//!
//! Channel values are handled as fixed-point *levels*: an integer `0`
//! stands for black and [`sample::LEVEL_MAX`] for full intensity, whatever
//! the width of the samples an image stores.

pub mod affine;
pub mod buffer;
pub mod color;
pub mod compose;
pub mod crop;
pub mod error;
pub mod filter;
pub mod geometry;
pub mod hash;
pub mod image;
pub mod kernel;
pub mod order;
pub mod rows;
pub mod sample;
pub mod tone;
pub mod transform;
pub mod turns;
pub mod window;
pub mod window_set;
