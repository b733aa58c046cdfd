//! Bayer color-filter-array camera emulation.
//!
//! The library downsamples a decoded RGB(A) pixel buffer into a
//! single-channel raw sensor grid according to one of the four classic
//! Bayer patterns, and serializes that grid as a minimal DNG file (a
//! constrained TIFF subset): one image file directory with a fixed tag
//! set, out-of-line data blocks, and the raw pixel strip.

pub mod bytes;
pub mod dng;
pub mod error;
pub mod ifd;
pub mod image;
pub mod pattern;
