//! Verified integer kernels of a CSS/PDF paint pipeline: discrete Gaussian
//! blurs, raster regions, PNG channel splitting, border side grouping and
//! related colour and coverage arithmetic.

pub mod backdrop;
pub mod bleed;
pub mod border;
pub mod blend;
pub mod border_paint;
pub mod border_plan;
pub mod box_sums;
pub mod color_space;
pub mod clipping;
pub mod compositing;
pub mod coverage;
pub mod discrete;
pub mod filter_plan;
pub mod mask;
pub mod pdf_images;
pub mod pdf_text;
pub mod raster;
pub mod region;
pub mod rounded;
pub mod tiles;
pub mod turbulence;
