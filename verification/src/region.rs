//! Integer device regions of SVG filter surfaces and the copy of a source
//! frame into a filter region.

use vstd::prelude::*;
use crate::raster::{RgbaRaster, lemma_pixel_number};

verus! {

/// A half-open device-pixel rectangle `left..right` by `top..bottom`.
#[derive(Clone, Copy, Debug, PartialEq, Eq)]
pub struct RasterRegion {
    pub left: i64,
    pub top: i64,
    pub right: i64,
    pub bottom: i64,
}

/// `value` as a `u32`, `None` outside its range.
pub fn u32_from_i64(value: i64) -> (result: Option<u32>)
    ensures
        result is Some <==> 0 <= value <= u32::MAX,
        result matches Some(converted) ==> converted == value,
{
    if 0 <= value && value <= u32::MAX as i64 {
        Some(value as u32)
    } else {
        None
    }
}

impl RasterRegion {
    /// Width and height as integers.
    pub open spec fn spec_width(self) -> int {
        self.right - self.left
    }

    pub open spec fn spec_height(self) -> int {
        self.bottom - self.top
    }

    /// The region is non-empty.
    pub open spec fn is_nonempty(self) -> bool {
        self.right > self.left && self.bottom > self.top
    }

    /// Device pixel `(x, y)` lies inside the region.
    pub open spec fn holds(self, x: int, y: int) -> bool {
        self.left <= x < self.right && self.top <= y < self.bottom
    }

    /// The overlap of two regions, which may be empty.
    pub open spec fn overlap(self, other: Self) -> Self {
        RasterRegion {
            left: if self.left >= other.left {
                self.left
            } else {
                other.left
            },
            top: if self.top >= other.top {
                self.top
            } else {
                other.top
            },
            right: if self.right <= other.right {
                self.right
            } else {
                other.right
            },
            bottom: if self.bottom <= other.bottom {
                self.bottom
            } else {
                other.bottom
            },
        }
    }

    /// Pixel width and height; `None` when either is negative or exceeds
    /// `u32`.
    pub fn dimensions(self) -> (result: Option<(u32, u32)>)
        ensures
            result is Some <==> 0 <= self.spec_width() <= u32::MAX && 0 <= self.spec_height()
                <= u32::MAX,
            result matches Some((width, height)) ==> width == self.spec_width() && height
                == self.spec_height(),
    {
        let width = match self.right.checked_sub(self.left) {
            Some(width) => width,
            None => return None,
        };
        let height = match self.bottom.checked_sub(self.top) {
            Some(height) => height,
            None => return None,
        };
        let width = u32_from_i64(width)?;
        let height = u32_from_i64(height)?;
        Some((width, height))
    }

    /// The non-empty overlap of two regions.
    pub fn intersection(self, other: Self) -> (result: Option<Self>)
        ensures
            result is Some <==> self.overlap(other).is_nonempty(),
            result matches Some(shared) ==> shared == self.overlap(other),
            forall|x: int, y: int|
                #![trigger self.overlap(other).holds(x, y)]
                self.overlap(other).holds(x, y) <==> self.holds(x, y) && other.holds(x, y),
    {
        let shared = RasterRegion {
            left: if self.left >= other.left {
                self.left
            } else {
                other.left
            },
            top: if self.top >= other.top {
                self.top
            } else {
                other.top
            },
            right: if self.right <= other.right {
                self.right
            } else {
                other.right
            },
            bottom: if self.bottom <= other.bottom {
                self.bottom
            } else {
                other.bottom
            },
        };
        if shared.right > shared.left && shared.bottom > shared.top {
            Some(shared)
        } else {
            None
        }
    }

    /// The source frame fits the copy of the overlap: every overlapping
    /// pixel has a source pixel.
    pub open spec fn source_covers_overlap(
        self,
        source: RgbaRaster,
        source_region: Self,
    ) -> bool {
        let shared = self.overlap(source_region);
        !shared.is_nonempty() || (shared.right - source_region.left <= source.width
            && shared.bottom - source_region.top <= source.height)
    }

    /// The pixel that `extract` writes at `(x, y)` of this region.
    pub open spec fn extracted_channel(
        self,
        source: RgbaRaster,
        source_region: Self,
        x: int,
        y: int,
        channel: int,
    ) -> u8 {
        let gx = self.left + x;
        let gy = self.top + y;
        if self.overlap(source_region).holds(gx, gy) {
            source.channel(gx - source_region.left, gy - source_region.top, channel)
        } else {
            0
        }
    }

    /// Copy the intersection of `source_region` into this region, leaving
    /// authored transparent space intact and discarding pixels outside the
    /// hard SVG filter clip.
    ///
    /// A region whose size fits `u32` must also fit in memory: its byte
    /// count cannot overflow `usize`.
    pub fn extract(self, source: &RgbaRaster, source_region: Self) -> (result: Option<RgbaRaster>)
        requires
            source.wf(),
            0 <= self.spec_width() <= u32::MAX && 0 <= self.spec_height() <= u32::MAX
                ==> self.spec_width() * self.spec_height() * 4 <= usize::MAX,
        ensures
            result is Some <==> {
                &&& 0 <= self.spec_width() <= u32::MAX
                &&& 0 <= self.spec_height() <= u32::MAX
                &&& self.source_covers_overlap(*source, source_region)
            },
            result matches Some(output) ==> {
                &&& output.wf()
                &&& output.width == self.spec_width()
                &&& output.height == self.spec_height()
                &&& forall|x: int, y: int, c: int|
                    0 <= x < output.width && 0 <= y < output.height && 0 <= c < 4
                        ==> #[trigger] output.channel(x, y, c) == self.extracted_channel(
                        *source,
                        source_region,
                        x,
                        y,
                        c,
                    )
            },
    {
        let (width, height) = self.dimensions()?;
        let mut output = match RgbaRaster::transparent(width, height) {
            Some(output) => output,
            None => {
                proof {
                    assert(false);
                }
                return None;
            },
        };
        let intersection = match self.intersection(source_region) {
            Some(shared) => shared,
            None => {
                proof {
                    assert forall|x: int, y: int, c: int|
                        0 <= x < output.width && 0 <= y < output.height && 0 <= c < 4
                            implies #[trigger] output.channel(x, y, c) == self.extracted_channel(
                            *source,
                            source_region,
                            x,
                            y,
                            c,
                        ) by {
                        lemma_pixel_number(width as int, height as int, x, y);
                        assert(!self.overlap(source_region).holds(self.left + x, self.top + y));
                    }
                }
                return Some(output);
            },
        };
        let (copy_width, copy_height) = match intersection.dimensions() {
            Some(dims) => dims,
            None => return None,
        };
        let source_x = match intersection.left.checked_sub(source_region.left) {
            Some(diff) => match u32_from_i64(diff) {
                Some(v) => v,
                None => return None,
            },
            None => return None,
        };
        let source_y = match intersection.top.checked_sub(source_region.top) {
            Some(diff) => match u32_from_i64(diff) {
                Some(v) => v,
                None => return None,
            },
            None => return None,
        };
        let target_x = match intersection.left.checked_sub(self.left) {
            Some(diff) => match u32_from_i64(diff) {
                Some(v) => v,
                None => return None,
            },
            None => return None,
        };
        let target_y = match intersection.top.checked_sub(self.top) {
            Some(diff) => match u32_from_i64(diff) {
                Some(v) => v,
                None => return None,
            },
            None => return None,
        };
        let source_right = match source_x.checked_add(copy_width) {
            Some(v) => v,
            None => return None,
        };
        let source_bottom = match source_y.checked_add(copy_height) {
            Some(v) => v,
            None => return None,
        };
        let target_right = match target_x.checked_add(copy_width) {
            Some(v) => v,
            None => return None,
        };
        let target_bottom = match target_y.checked_add(copy_height) {
            Some(v) => v,
            None => return None,
        };
        if source_right > source.width || source_bottom > source.height || target_right
            > output.width || target_bottom > output.height {
            return None;
        }
        let ghost shared = intersection;
        proof {
            assert forall|px: int, py: int, c: int|
                0 <= px < width && 0 <= py < height && 0 <= c < 4 implies #[trigger] output.channel(
                px,
                py,
                c,
            ) == 0 by {
                lemma_pixel_number(width as int, height as int, px, py);
            }
        }
        let mut y: u32 = 0;
        while y < copy_height
            invariant
                source.wf(),
                output.wf(),
                output.width == width,
                output.height == height,
                width == self.spec_width(),
                height == self.spec_height(),
                shared == self.overlap(source_region),
                shared.is_nonempty(),
                copy_width == shared.spec_width(),
                copy_height == shared.spec_height(),
                source_x == shared.left - source_region.left,
                source_y == shared.top - source_region.top,
                target_x == shared.left - self.left,
                target_y == shared.top - self.top,
                source_x + copy_width <= source.width,
                source_y + copy_height <= source.height,
                target_x + copy_width <= width,
                target_y + copy_height <= height,
                y <= copy_height,
                forall|px: int, py: int, c: int|
                    0 <= px < width && 0 <= py < height && 0 <= c < 4 ==> #[trigger] output.channel(
                        px,
                        py,
                        c,
                    ) == if target_y <= py < target_y + y && target_x <= px < target_x
                        + copy_width {
                        self.extracted_channel(*source, source_region, px, py, c)
                    } else {
                        0
                    },
            decreases copy_height - y,
        {
            let mut x: u32 = 0;
            while x < copy_width
                invariant
                    source.wf(),
                    output.wf(),
                    output.width == width,
                    output.height == height,
                    width == self.spec_width(),
                    height == self.spec_height(),
                    shared == self.overlap(source_region),
                    shared.is_nonempty(),
                    copy_width == shared.spec_width(),
                    copy_height == shared.spec_height(),
                    source_x == shared.left - source_region.left,
                    source_y == shared.top - source_region.top,
                    target_x == shared.left - self.left,
                    target_y == shared.top - self.top,
                    source_x + copy_width <= source.width,
                    source_y + copy_height <= source.height,
                    target_x + copy_width <= width,
                    target_y + copy_height <= height,
                    y < copy_height,
                    x <= copy_width,
                    forall|px: int, py: int, c: int|
                        0 <= px < width && 0 <= py < height && 0 <= c < 4
                            ==> #[trigger] output.channel(px, py, c) == if (target_y <= py
                            < target_y + y && target_x <= px < target_x + copy_width) || (py
                            == target_y + y && target_x <= px < target_x + x) {
                            self.extracted_channel(*source, source_region, px, py, c)
                        } else {
                            0
                        },
                decreases copy_width - x,
            {
                let pixel = source.get_pixel(source_x + x, source_y + y);
                let ghost before = output;
                output.put_pixel(target_x + x, target_y + y, pixel);
                proof {
                    assert forall|px: int, py: int, c: int|
                        0 <= px < width && 0 <= py < height && 0 <= c < 4
                            implies #[trigger] output.channel(px, py, c) == if (target_y <= py
                            < target_y + y && target_x <= px < target_x + copy_width) || (py
                            == target_y + y && target_x <= px < target_x + x + 1) {
                            self.extracted_channel(*source, source_region, px, py, c)
                        } else {
                            0
                        } by {
                        if px == target_x + x && py == target_y + y {
                            assert(self.overlap(source_region).holds(self.left + px, self.top + py));
                            assert(output.channel(px, py, c) == pixel[c]);
                            assert(pixel[c] == source.channel(
                                (source_x + x) as int,
                                (source_y + y) as int,
                                c,
                            ));
                        } else {
                            assert(output.channel(px, py, c) == before.channel(px, py, c));
                        }
                    }
                }
                x += 1;
            }
            y += 1;
        }
        proof {
            assert forall|px: int, py: int, c: int|
                0 <= px < width && 0 <= py < height && 0 <= c < 4 implies #[trigger] output.channel(
                px,
                py,
                c,
            ) == self.extracted_channel(*source, source_region, px, py, c) by {
                if !(target_y <= py < target_y + copy_height && target_x <= px < target_x
                    + copy_width) {
                    assert(!self.overlap(source_region).holds(self.left + px, self.top + py));
                }
            }
        }
        Some(output)
    }
}

} // verus!
