//! 8-bit coverage masks and their morphological dilation.

use vstd::prelude::*;
use crate::raster::lemma_pixel_number;

verus! {

/// A row-major 8-bit mask of `width * height` samples.
#[derive(Clone, Debug, PartialEq, Eq)]
pub struct GrayRaster {
    pub width: u32,
    pub height: u32,
    pub samples: Vec<u8>,
}

impl GrayRaster {
    /// The buffer holds exactly one sample per pixel.
    pub open spec fn wf(self) -> bool {
        self.samples@.len() == self.width * self.height
    }

    /// The sample of pixel `(x, y)`.
    pub open spec fn sample(self, x: int, y: int) -> u8 {
        self.samples@[y * self.width + x]
    }

    /// A mask over `samples`, `None` unless it holds one sample per pixel.
    pub fn from_raw(width: u32, height: u32, samples: Vec<u8>) -> (result: Option<Self>)
        ensures
            result is Some <==> samples@.len() == width * height,
            result matches Some(mask) ==> mask.width == width && mask.height == height
                && mask.samples@ == samples@,
    {
        let len = samples.len();
        let area = match (width as usize).checked_mul(height as usize) {
            Some(area) => area,
            None => return None,
        };
        if samples.len() != area {
            return None;
        }
        Some(GrayRaster { width, height, samples })
    }

    /// The sample of pixel `(x, y)`.
    pub fn get(&self, x: u32, y: u32) -> (value: u8)
        requires
            self.wf(),
            x < self.width,
            y < self.height,
        ensures
            value == self.sample(x as int, y as int),
    {
        proof {
            lemma_pixel_number(self.width as int, self.height as int, x as int, y as int);
        }
        let len = self.samples.len();
        proof {
            assert(y * self.width + x < len);
        }
        self.samples[(y as usize) * (self.width as usize) + (x as usize)]
    }
}

/// Pixel `(px, py)` of the mask lies within the disc of `radius` around
/// `(x, y)`.
pub open spec fn in_disc(mask: GrayRaster, x: int, y: int, px: int, py: int, radius: int) -> bool {
    &&& 0 <= px < mask.width
    &&& 0 <= py < mask.height
    &&& (px - x) * (px - x) + (py - y) * (py - y) <= radius * radius
}

/// `value` is the largest sample within the disc of `radius` around
/// `(x, y)`.
pub open spec fn is_disc_max(mask: GrayRaster, x: int, y: int, radius: int, value: u8) -> bool {
    &&& forall|px: int, py: int|
        #[trigger] in_disc(mask, x, y, px, py, radius) ==> mask.sample(px, py) <= value
    &&& exists|px: int, py: int|
        #[trigger] in_disc(mask, x, y, px, py, radius) && mask.sample(px, py) == value
}

/// How far a disc of `radius` reaches along an axis of `extent` pixels, from
/// a pixel of that axis to another.
pub open spec fn disc_reach(radius: int, extent: int) -> int {
    if radius < extent - 1 {
        radius
    } else {
        extent - 1
    }
}

/// The arithmetic of dilating a `width` by `height` mask by `radius` stays in
/// `u32`: the squared radius, and, when the mask has pixels, the window ends
/// past each pixel and the largest squared distance between two pixels of one
/// window.
pub open spec fn dilation_fits(width: int, height: int, radius: int) -> bool {
    &&& radius * radius <= u32::MAX
    &&& width > 0 && height > 0 ==> {
        &&& width - 1 + radius <= u32::MAX
        &&& height - 1 + radius <= u32::MAX
        &&& disc_reach(radius, width) * disc_reach(radius, width) + disc_reach(radius, height)
            * disc_reach(radius, height) <= u32::MAX
    }
}

/// The largest sample within the disc of `radius` around `(x, y)`.
fn disc_max(mask: &GrayRaster, x: u32, y: u32, radius: u32) -> (value: u8)
    requires
        mask.wf(),
        x < mask.width,
        y < mask.height,
        1 <= radius,
        dilation_fits(mask.width as int, mask.height as int, radius as int),
    ensures
        is_disc_max(*mask, x as int, y as int, radius as int, value),
{
    let radius_sq = radius * radius;
    let x0 = if x >= radius {
        x - radius
    } else {
        0
    };
    let y0 = if y >= radius {
        y - radius
    } else {
        0
    };
    let x1 = if x + radius < mask.width - 1 {
        x + radius
    } else {
        mask.width - 1
    };
    let y1 = if y + radius < mask.height - 1 {
        y + radius
    } else {
        mask.height - 1
    };
    let ghost r = radius as int;
    let ghost cx = x as int;
    let ghost cy = y as int;
    proof {
        assert forall|px: int, py: int| #[trigger]
            in_disc(*mask, cx, cy, px, py, r) implies x0 <= px <= x1 && y0 <= py <= y1 by {
            if px < cx - r || px > cx + r {
                assert((px - cx) * (px - cx) > r * r) by (nonlinear_arith)
                    requires
                        px < cx - r || px > cx + r,
                        r >= 0,
                ;
                assert((py - cy) * (py - cy) >= 0) by (nonlinear_arith);
            }
            if py < cy - r || py > cy + r {
                assert((py - cy) * (py - cy) > r * r) by (nonlinear_arith)
                    requires
                        py < cy - r || py > cy + r,
                        r >= 0,
                ;
                assert((px - cx) * (px - cx) >= 0) by (nonlinear_arith);
            }
        }
        assert((cx - cx) * (cx - cx) + (cy - cy) * (cy - cy) <= r * r) by (nonlinear_arith)
            requires
                r >= 0,
        ;
        assert(in_disc(*mask, cx, cy, cx, cy, r));
    }
    let mut max_value: u8 = 0;
    let ghost mut witness: (int, int) = (cx, cy);
    let mut yy = y0;
    while yy <= y1
        invariant
            mask.wf(),
            x0 <= x1 < mask.width,
            y0 <= y1 < mask.height,
            y0 <= yy <= y1 + 1,
            radius_sq == r * r,
            cx == x && cy == y && r == radius,
            x0 <= cx <= x1 && y0 <= cy <= y1,
            x1 <= cx + r && cx - r <= x0 && y1 <= cy + r && cy - r <= y0,
            dilation_fits(mask.width as int, mask.height as int, r),
            forall|px: int, py: int|
                #![trigger in_disc(*mask, cx, cy, px, py, r)]
                y0 <= py < yy && x0 <= px <= x1 && in_disc(*mask, cx, cy, px, py, r)
                    ==> mask.sample(px, py) <= max_value,
            max_value == 0 || (in_disc(*mask, cx, cy, witness.0, witness.1, r) && mask.sample(
                witness.0,
                witness.1,
            ) == max_value),
        decreases y1 + 1 - yy,
    {
        let mut xx = x0;
        while xx <= x1
            invariant
                mask.wf(),
                x0 <= x1 < mask.width,
                y0 <= yy <= y1 < mask.height,
                x0 <= xx <= x1 + 1,
                radius_sq == r * r,
                cx == x && cy == y && r == radius,
                x0 <= cx <= x1 && y0 <= cy <= y1,
                x1 <= cx + r && cx - r <= x0 && y1 <= cy + r && cy - r <= y0,
                dilation_fits(mask.width as int, mask.height as int, r),
                forall|px: int, py: int|
                    #![trigger in_disc(*mask, cx, cy, px, py, r)]
                    ((y0 <= py < yy && x0 <= px <= x1) || (py == yy && x0 <= px < xx)) && in_disc(
                        *mask,
                        cx,
                        cy,
                        px,
                        py,
                        r,
                    ) ==> mask.sample(px, py) <= max_value,
                max_value == 0 || (in_disc(*mask, cx, cy, witness.0, witness.1, r) && mask.sample(
                    witness.0,
                    witness.1,
                ) == max_value),
            decreases x1 + 1 - xx,
        {
            let dx = if xx >= x {
                xx - x
            } else {
                x - xx
            };
            let dy = if yy >= y {
                yy - y
            } else {
                y - yy
            };
            proof {
                let reach_x = disc_reach(r, mask.width as int);
                let reach_y = disc_reach(r, mask.height as int);
                assert(dx <= reach_x && dy <= reach_y);
                assert(dx * dx <= reach_x * reach_x && dy * dy <= reach_y * reach_y) by (
                nonlinear_arith)
                    requires
                        0 <= dx <= reach_x,
                        0 <= dy <= reach_y,
                ;
                assert((xx - cx) * (xx - cx) == dx * dx) by (nonlinear_arith)
                    requires
                        dx == xx - cx || dx == cx - xx,
                ;
                assert((yy - cy) * (yy - cy) == dy * dy) by (nonlinear_arith)
                    requires
                        dy == yy - cy || dy == cy - yy,
                ;
            }
            if dx * dx + dy * dy <= radius_sq {
                let sample = mask.get(xx, yy);
                proof {
                    assert(in_disc(*mask, cx, cy, xx as int, yy as int, r));
                }
                if sample > max_value {
                    max_value = sample;
                    proof {
                        witness = (xx as int, yy as int);
                    }
                }
            } else {
                proof {
                    assert(!in_disc(*mask, cx, cy, xx as int, yy as int, r));
                }
            }
            xx += 1;
        }
        yy += 1;
    }
    proof {
        if max_value == 0 {
            assert(mask.sample(cx, cy) <= max_value);
            witness = (cx, cy);
        }
        assert(in_disc(*mask, cx, cy, witness.0, witness.1, r) && mask.sample(witness.0, witness.1)
            == max_value);
    }
    max_value
}

/// Grow the mask's coverage by `radius` pixels: every output sample is the
/// largest input sample within the disc of that radius around it (the
/// mask itself for radius 0). A radius is accepted when its square, the
/// window ends and the squared distances within the mask fit in `u32`
/// ([`dilation_fits`]); past that the arithmetic would overflow.
pub fn dilate_alpha_mask(mask: &GrayRaster, radius: u32) -> (dilated: GrayRaster)
    requires
        mask.wf(),
        radius == 0 || dilation_fits(mask.width as int, mask.height as int, radius as int),
    ensures
        dilated.wf(),
        dilated.width == mask.width,
        dilated.height == mask.height,
        forall|x: int, y: int|
            0 <= x < mask.width && 0 <= y < mask.height ==> is_disc_max(
                *mask,
                x,
                y,
                radius as int,
                #[trigger] dilated.sample(x, y),
            ),
{
    if radius == 0 {
        let copy = GrayRaster { width: mask.width, height: mask.height, samples: mask.samples.clone() };
        proof {
            assert forall|x: int, y: int|
                0 <= x < mask.width && 0 <= y < mask.height implies is_disc_max(
                *mask,
                x,
                y,
                0,
                #[trigger] copy.sample(x, y),
            ) by {
                assert((x - x) * (x - x) + (y - y) * (y - y) <= 0 * 0) by (nonlinear_arith);
                assert(in_disc(*mask, x, y, x, y, 0));
                assert forall|px: int, py: int| #[trigger]
                    in_disc(*mask, x, y, px, py, 0) implies mask.sample(px, py) <= copy.sample(
                    x,
                    y,
                ) by {
                    assert(px == x && py == y) by (nonlinear_arith)
                        requires
                            (px - x) * (px - x) + (py - y) * (py - y) <= 0 * 0,
                    ;
                }
            }
        }
        return copy;
    }
    let width = mask.width;
    let height = mask.height;
    let mut samples: Vec<u8> = Vec::new();
    let mut y: u32 = 0;
    while y < height
        invariant
            mask.wf(),
            width == mask.width && height == mask.height,
            1 <= radius,
            dilation_fits(mask.width as int, mask.height as int, radius as int),
            y <= height,
            samples@.len() == y * width,
            forall|px: int, py: int|
                0 <= px < width && 0 <= py < y ==> is_disc_max(
                    *mask,
                    px,
                    py,
                    radius as int,
                    #[trigger] samples@[py * width + px],
                ),
        decreases height - y,
    {
        let mut x: u32 = 0;
        while x < width
            invariant
                mask.wf(),
                width == mask.width && height == mask.height,
                1 <= radius,
                dilation_fits(mask.width as int, mask.height as int, radius as int),
                y < height,
                x <= width,
                samples@.len() == y * width + x,
                forall|px: int, py: int|
                    (0 <= px < width && 0 <= py < y) || (0 <= px < x && py == y) ==> is_disc_max(
                        *mask,
                        px,
                        py,
                        radius as int,
                        #[trigger] samples@[py * width + px],
                    ),
            decreases width - x,
        {
            let value = disc_max(mask, x, y, radius);
            proof {
                lemma_pixel_number(width as int, height as int, x as int, y as int);
            }
            let ghost before = samples@;
            samples.push(value);
            proof {
                assert forall|px: int, py: int|
                    (0 <= px < width && 0 <= py < y) || (0 <= px < x + 1 && py == y) implies is_disc_max(
                    *mask,
                    px,
                    py,
                    radius as int,
                    #[trigger] samples@[py * width + px],
                ) by {
                    if py < y {
                        lemma_pixel_number(width as int, y as int, px, py);
                        assert(width * y == y * width) by (nonlinear_arith);
                        assert(samples@[py * width + px] == before[py * width + px]);
                    } else if px < x {
                        assert(samples@[py * width + px] == before[py * width + px]);
                    } else {
                        assert(samples@[py * width + px] == value);
                    }
                }
            }
            x += 1;
        }
        proof {
            assert((y + 1) * width == y * width + width) by (nonlinear_arith);
        }
        y += 1;
    }
    proof {
        assert(height * width == width * height) by (nonlinear_arith);
    }
    GrayRaster { width, height, samples }
}

} // verus!
