//! Adaptive recoloring of raster images into a low-contrast "Nord" palette,
//! with background removal and option resolution driven by image statistics.
//!
//! Every colour quantity is kept as an exact integer: brightness in units of
//! 1/255000 of full white, grayscale similarity in millionths, fractions as
//! a count over a sample total.

pub mod color;
pub mod model;
pub mod raster;
pub mod stats;
pub mod options;
pub mod filters;
pub mod background;
pub mod pipeline;
pub mod codec;
pub mod tickbox;
pub mod components;
