//! Material colour themes derived from a seed colour or from the pixels of an image.
//!
//! The colour science (CAM16, the HCT solver, CIELAB) is that of the `material_colors`
//! crate; everything built on it (parsing, quantisation, palettes, schemes, themes and
//! their textual form) is verified here.

pub mod cluster;
pub mod color;
pub mod error;
pub mod hct;
pub mod histogram;
pub mod palette;
pub mod quantize;
pub mod render;
pub mod scheme;
pub mod seed;
pub mod theme;
pub mod weighted;
