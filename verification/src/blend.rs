//! Separable blend-mode arithmetic for opaque RGBA8 channels.

use vstd::prelude::*;
use crate::color_space::{linear_to_srgb_byte, srgb_to_linear_byte, LINEAR_TO_SRGB, SRGB_TO_LINEAR};

verus! {

/// CSS `mix-blend-mode` values.
#[derive(Clone, Copy, Debug, PartialEq, Eq, Structural)]
pub enum BlendMode {
    Normal,
    Multiply,
    Screen,
    Overlay,
    Darken,
    Lighten,
    ColorDodge,
    ColorBurn,
    HardLight,
    SoftLight,
    Difference,
    Exclusion,
    Hue,
    Saturation,
    Color,
    Luminosity,
}

/// The separable modes the raster compositor implements.
pub open spec fn spec_supports(mode: BlendMode) -> bool {
    match mode {
        BlendMode::Hue | BlendMode::Saturation | BlendMode::Color | BlendMode::Luminosity => false,
        _ => true,
    }
}

/// See [`spec_supports`].
pub fn supports(mode: BlendMode) -> (result: bool)
    ensures
        result == spec_supports(mode),
{
    match mode {
        BlendMode::Normal | BlendMode::Multiply | BlendMode::Screen | BlendMode::Overlay
        | BlendMode::Darken | BlendMode::Lighten | BlendMode::ColorDodge | BlendMode::ColorBurn
        | BlendMode::HardLight | BlendMode::SoftLight | BlendMode::Difference
        | BlendMode::Exclusion => true,
        _ => false,
    }
}

/// Chromium's integer channel arithmetic for the modes it evaluates on
/// opaque bytes.
pub open spec fn integer_channel(source: int, backdrop: int, mode: BlendMode) -> Option<int> {
    match mode {
        BlendMode::Normal => Some(source),
        BlendMode::Multiply => Some(source * backdrop / 255),
        BlendMode::Screen => Some(255 - (255 - source) * (255 - backdrop) / 255),
        _ => None,
    }
}

/// Opaque sRGB compositing of one channel by the integer arithmetic of
/// Chromium's PDF paint path; `None` for modes that blend in floating point.
pub fn composite_opaque_channel(source: u8, backdrop: u8, mode: BlendMode) -> (result: Option<u8>)
    ensures
        result is Some <==> integer_channel(source as int, backdrop as int, mode) is Some,
        result matches Some(value) ==> Some(value as int) == integer_channel(
            source as int,
            backdrop as int,
            mode,
        ),
{
    let source = source as u16;
    let backdrop = backdrop as u16;
    proof {
        assert(source * backdrop <= 255 * 255) by (nonlinear_arith)
            requires
                source <= 255,
                backdrop <= 255,
        ;
        assert((255 - source) * (255 - backdrop) <= 255 * 255) by (nonlinear_arith)
            requires
                source <= 255,
                backdrop <= 255,
        ;
        assert(source * backdrop / 255 <= 255) by (nonlinear_arith)
            requires
                source * backdrop <= 255 * 255,
        ;
        assert((255 - source) * (255 - backdrop) / 255 <= 255) by (nonlinear_arith)
            requires
                (255 - source) * (255 - backdrop) <= 255 * 255,
        ;
    }
    let result = match mode {
        BlendMode::Normal => source,
        BlendMode::Multiply => source * backdrop / 255,
        BlendMode::Screen => 255 - (255 - source) * (255 - backdrop) / 255,
        _ => return None,
    };
    Some(result as u8)
}

/// One opaque channel composited in the working colour space: in
/// `linearRGB` both bytes are taken through the quantized sRGB transfer
/// function first and the blended byte back through its inverse.
pub open spec fn opaque_channel(source: u8, backdrop: u8, mode: BlendMode, linear_rgb: bool) -> Option<
    int,
> {
    if linear_rgb {
        match integer_channel(
            SRGB_TO_LINEAR[source as int] as int,
            SRGB_TO_LINEAR[backdrop as int] as int,
            mode,
        ) {
            Some(blended) => Some(LINEAR_TO_SRGB[blended] as int),
            None => None,
        }
    } else {
        integer_channel(source as int, backdrop as int, mode)
    }
}

fn composite_channel(source: u8, backdrop: u8, mode: BlendMode, linear_rgb: bool) -> (result:
    Option<u8>)
    ensures
        result is Some <==> opaque_channel(source, backdrop, mode, linear_rgb) is Some,
        result matches Some(value) ==> Some(value as int) == opaque_channel(
            source,
            backdrop,
            mode,
            linear_rgb,
        ),
{
    if linear_rgb {
        match composite_opaque_channel(
            srgb_to_linear_byte(source),
            srgb_to_linear_byte(backdrop),
            mode,
        ) {
            Some(blended) => Some(linear_to_srgb_byte(blended)),
            None => None,
        }
    } else {
        composite_opaque_channel(source, backdrop, mode)
    }
}

/// Blend an opaque straight-alpha source over an opaque backdrop: each
/// colour channel by [`opaque_channel`], alpha stays opaque; `None` for
/// the modes that blend in floating point and those not supported.
pub fn composite_opaque_pixel(
    source: [u8; 4],
    backdrop: [u8; 4],
    mode: BlendMode,
    linear_rgb: bool,
) -> (result: Option<[u8; 4]>)
    requires
        source[3] == 255,
        backdrop[3] == 255,
    ensures
        result is Some <==> (mode == BlendMode::Normal || mode == BlendMode::Multiply || mode
            == BlendMode::Screen),
        result matches Some(pixel) ==> {
            &&& forall|c: int|
                0 <= c < 3 ==> Some(pixel[c] as int) == #[trigger] opaque_channel(
                    source[c],
                    backdrop[c],
                    mode,
                    linear_rgb,
                )
            &&& pixel[3] == 255
        },
{
    if !supports(mode) {
        return None;
    }
    let red = composite_channel(source[0], backdrop[0], mode, linear_rgb);
    let green = composite_channel(source[1], backdrop[1], mode, linear_rgb);
    let blue = composite_channel(source[2], backdrop[2], mode, linear_rgb);
    match (red, green, blue) {
        (Some(red), Some(green), Some(blue)) => {
            let pixel = [red, green, blue, 255u8];
            proof {
                assert forall|c: int| 0 <= c < 3 implies Some(pixel[c] as int)
                    == #[trigger] opaque_channel(source[c], backdrop[c], mode, linear_rgb) by {
                    if c == 0 {
                    } else if c == 1 {
                    } else {
                    }
                }
            }
            Some(pixel)
        },
        _ => None,
    }
}

/// Multiply and screen are commutative; white is the identity of multiply
/// and black the identity of screen; multiply never brightens and screen
/// never darkens either input.
pub proof fn lemma_integer_blend_laws(source: u8, backdrop: u8)
    ensures
        integer_channel(source as int, backdrop as int, BlendMode::Multiply) == integer_channel(
            backdrop as int,
            source as int,
            BlendMode::Multiply,
        ),
        integer_channel(source as int, backdrop as int, BlendMode::Screen) == integer_channel(
            backdrop as int,
            source as int,
            BlendMode::Screen,
        ),
        integer_channel(source as int, 255, BlendMode::Multiply) == Some(source as int),
        integer_channel(source as int, 0, BlendMode::Screen) == Some(source as int),
        integer_channel(source as int, backdrop as int, BlendMode::Multiply)->0 <= source,
        integer_channel(source as int, backdrop as int, BlendMode::Multiply)->0 <= backdrop,
        integer_channel(source as int, backdrop as int, BlendMode::Screen)->0 >= source,
        integer_channel(source as int, backdrop as int, BlendMode::Screen)->0 >= backdrop,
{
    let s = source as int;
    let b = backdrop as int;
    assert(s * b == b * s) by (nonlinear_arith);
    assert((255 - s) * (255 - b) == (255 - b) * (255 - s)) by (nonlinear_arith);
    assert(s * 255 / 255 == s) by (nonlinear_arith);
    assert(s * b / 255 <= s && s * b / 255 <= b) by (nonlinear_arith)
        requires
            0 <= s <= 255,
            0 <= b <= 255,
    ;
    assert((255 - s) * (255 - b) / 255 <= 255 - s && (255 - s) * (255 - b) / 255 <= 255 - b) by (
    nonlinear_arith)
        requires
            0 <= s <= 255,
            0 <= b <= 255,
    ;
    assert((255 - s) * 255 / 255 == 255 - s) by (nonlinear_arith);
}

/// Each supported mode composites an opaque channel by its own formula in
/// the working colour space: `normal` keeps the source `s`, `multiply` gives
/// `s * b / 255` and `screen` gives `255 - (255 - s) * (255 - b) / 255`
/// (integer division) with backdrop `b`. In linearRGB both bytes are first
/// taken through the sRGB-to-linear table, the same formula is applied, and
/// the result is taken back through the linear-to-sRGB table, for every one
/// of these modes alike. The other modes have no integer result.
pub proof fn lemma_opaque_channel_formulas(source: u8, backdrop: u8, linear_rgb: bool, mode: BlendMode)
    ensures
        ({
            let s = if linear_rgb {
                SRGB_TO_LINEAR[source as int] as int
            } else {
                source as int
            };
            let b = if linear_rgb {
                SRGB_TO_LINEAR[backdrop as int] as int
            } else {
                backdrop as int
            };
            let multiplied = s * b / 255;
            let screened = 255 - (255 - s) * (255 - b) / 255;
            &&& opaque_channel(source, backdrop, BlendMode::Normal, linear_rgb) == Some(
                if linear_rgb {
                    LINEAR_TO_SRGB[s] as int
                } else {
                    s
                },
            )
            &&& opaque_channel(source, backdrop, BlendMode::Multiply, linear_rgb) == Some(
                if linear_rgb {
                    LINEAR_TO_SRGB[multiplied] as int
                } else {
                    multiplied
                },
            )
            &&& opaque_channel(source, backdrop, BlendMode::Screen, linear_rgb) == Some(
                if linear_rgb {
                    LINEAR_TO_SRGB[screened] as int
                } else {
                    screened
                },
            )
            &&& mode != BlendMode::Normal && mode != BlendMode::Multiply && mode
                != BlendMode::Screen ==> opaque_channel(source, backdrop, mode, linear_rgb) is None
        }),
{
}

} // verus!
