//! Coverage-mask arithmetic and padded raster extents.

use vstd::prelude::*;

verus! {

/// `coverage * alpha / 255`, rounded half up.
pub open spec fn spec_multiply_coverage(coverage: int, alpha: int) -> int {
    (coverage * alpha + 127) / 255
}

/// Scale an 8-bit coverage sample by an 8-bit alpha.
pub fn multiply_coverage(coverage: u8, alpha: u8) -> (result: u8)
    ensures
        result == spec_multiply_coverage(coverage as int, alpha as int),
{
    proof {
        assert(coverage as int * alpha as int <= 255 * 255) by (nonlinear_arith)
            requires
                coverage <= 255,
                alpha <= 255,
        ;
        assert((coverage as int * alpha as int + 127) / 255 <= 255) by (nonlinear_arith)
            requires
                coverage as int * alpha as int <= 255 * 255,
        ;
    }
    let product = (coverage as u16) * (alpha as u16);
    ((product + 127) / 255) as u8
}

/// Full alpha keeps coverage, zero alpha clears it, the product is
/// symmetric, and it never exceeds either factor.
pub proof fn lemma_multiply_coverage_laws(coverage: u8, alpha: u8)
    ensures
        spec_multiply_coverage(coverage as int, 255) == coverage,
        spec_multiply_coverage(coverage as int, 0) == 0,
        spec_multiply_coverage(coverage as int, alpha as int) == spec_multiply_coverage(
            alpha as int,
            coverage as int,
        ),
        spec_multiply_coverage(coverage as int, alpha as int) <= coverage,
        spec_multiply_coverage(coverage as int, alpha as int) <= alpha,
{
    let c = coverage as int;
    let a = alpha as int;
    assert((c * 255 + 127) / 255 == c) by (nonlinear_arith)
        requires
            0 <= c <= 255,
    ;
    assert((c * 0 + 127) / 255 == 0) by (nonlinear_arith);
    assert(c * a == a * c) by (nonlinear_arith);
    assert((c * a + 127) / 255 <= c && (c * a + 127) / 255 <= a) by (nonlinear_arith)
        requires
            0 <= c <= 255,
            0 <= a <= 255,
    ;
}

/// Content pixels plus equal padding on both sides; `None` on `u32`
/// overflow.
pub fn padded_pixels(content_pixels: u32, padding_pixels: u32) -> (result: Option<u32>)
    ensures
        result is Some <==> content_pixels + 2 * padding_pixels <= u32::MAX,
        result matches Some(total) ==> total == content_pixels + 2 * padding_pixels,
{
    let doubled = padding_pixels.checked_mul(2)?;
    content_pixels.checked_add(doubled)
}

/// The two distinct margins used by Skia's PDF mask-filter path.
///
/// Skia first bounds the unblurred device-space caster using the mask
/// filter's untransformed sigma. It then applies the CTM-aware blur and
/// grows that source mask by the discrete kernel's device-space support.
#[derive(Clone, Copy, Debug, PartialEq, Eq)]
pub struct InsetMaskBounds {
    pub source_margin_px: u32,
    pub blur_support_px: u32,
}

impl InsetMaskBounds {
    /// Total padding around the inset mask raster; `None` on `u32` overflow.
    pub fn raster_padding_px(self) -> (result: Option<u32>)
        ensures
            result is Some <==> self.source_margin_px + self.blur_support_px <= u32::MAX,
            result matches Some(total) ==> total == self.source_margin_px + self.blur_support_px,
    {
        self.source_margin_px.checked_add(self.blur_support_px)
    }
}

} // verus!
