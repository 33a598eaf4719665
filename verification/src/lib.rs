//! Depth-tested compositing of projected surface samples into a grid of
//! shading glyphs, for drawing a lit solid as text.
//!
//! The geometry that yields the samples is the caller's business. This crate
//! owns what happens to a sample once it has a cell, a depth and a brightness:
//! whether it is visible, which glyph shades it, and how a finished frame reads
//! as text.

pub mod frame;
pub mod palette;
pub mod raster;
pub mod sample;
pub mod text;
pub mod viewport;
pub mod visibility;
