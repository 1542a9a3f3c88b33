//! The solid paint directly below a gradient layer.

use vstd::prelude::*;
use crate::blend::BlendMode;
use crate::border::Rgba8Color;

verus! {

/// Solid paint directly below one gradient layer.
///
/// An opaque backdrop lets a premultiplied sRGB alpha gradient be flattened
/// to an equivalent opaque vector gradient. The type keeps that capability
/// distinct from unrelated background colors when multiple image layers or a
/// non-normal blend mode make flattening invalid.
#[derive(Clone, Copy, Debug, PartialEq, Eq, Structural)]
pub struct GradientBackdrop(pub Option<Rgba8Color>);

/// The colour kept when it is opaque.
pub open spec fn opaque_only(color: Option<Rgba8Color>) -> Option<Rgba8Color> {
    match color {
        Some(color) => if color.alpha == 255 {
            Some(color)
        } else {
            None
        },
        None => None,
    }
}

impl Default for GradientBackdrop {
    /// No usable backdrop.
    fn default() -> (backdrop: Self)
        ensures
            backdrop.0 is None,
    {
        GradientBackdrop(None)
    }
}

impl GradientBackdrop {
    /// The backdrop of a linear gradient layer: the background colour, if
    /// it is opaque, the layer is the only image layer and it blends
    /// normally.
    pub fn isolated_linear_layer(
        color: Option<Rgba8Color>,
        has_other_image_layer: bool,
        blend_mode: BlendMode,
    ) -> (backdrop: Self)
        ensures
            backdrop.0 == if has_other_image_layer || blend_mode != BlendMode::Normal {
                None
            } else {
                opaque_only(color)
            },
    {
        if has_other_image_layer || blend_mode != BlendMode::Normal {
            GradientBackdrop::default()
        } else {
            GradientBackdrop(
                match color {
                    Some(color) => if color.alpha == 255 {
                        Some(color)
                    } else {
                        None
                    },
                    None => None,
                },
            )
        }
    }

    /// The backdrop colour, if it is opaque.
    pub fn opaque_color(self) -> (color: Option<Rgba8Color>)
        ensures
            color == opaque_only(self.0),
    {
        match self.0 {
            Some(color) => if color.alpha == 255 {
                Some(color)
            } else {
                None
            },
            None => None,
        }
    }
}

} // verus!
