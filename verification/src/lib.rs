//! Binary-image morphology on RGBA8 rasters with ternary structuring
//! elements: binarization, dilation, erosion, opening, closing, hit-or-miss
//! matching, thinning and thickening, each with a contract over the
//! mathematical content of its arguments, and the laws that connect them.

pub mod binarize;
pub mod decode;
pub mod extremum;
pub mod grid;
pub mod hit_or_miss;
pub mod image;
pub mod kernel;
pub mod laws;
pub mod morphology;
pub mod pixel;
pub mod session;
