//! An RGBA8 raster held as one row-major byte buffer.

use vstd::prelude::*;

verus! {

/// Row-major RGBA8 pixels, four bytes per pixel.
#[derive(Clone, Debug, PartialEq, Eq)]
pub struct RgbaRaster {
    pub width: u32,
    pub height: u32,
    pub pixels: Vec<u8>,
}

/// Index of the first byte of pixel `(x, y)` in a row-major RGBA8 buffer.
pub open spec fn rgba_offset(width: int, x: int, y: int) -> int {
    (y * width + x) * 4
}

/// Pixels of a `width`-wide grid are laid out without overlap: distinct
/// coordinates inside the grid have distinct row-major pixel numbers, and
/// every pixel number lies below `width * height`.
pub proof fn lemma_pixel_number(width: int, height: int, x: int, y: int)
    requires
        0 <= x < width,
        0 <= y < height,
    ensures
        0 <= y * width + x < width * height,
        (y * width + x) * 4 + 4 <= width * height * 4,
{
    assert(y * width + x < width * height) by (nonlinear_arith)
        requires
            0 <= x < width,
            0 <= y < height,
    ;
    assert(0 <= y * width) by (nonlinear_arith)
        requires
            0 <= y,
            0 <= width,
    ;
}

/// Row-major pixel numbers identify their coordinates.
pub proof fn lemma_pixel_number_injective(width: int, x0: int, y0: int, x1: int, y1: int)
    requires
        0 <= x0 < width,
        0 <= x1 < width,
        0 <= y0,
        0 <= y1,
        y0 * width + x0 == y1 * width + x1,
    ensures
        x0 == x1 && y0 == y1,
{
    if y0 < y1 {
        assert(y0 * width + x0 < y1 * width + x1) by (nonlinear_arith)
            requires
                0 <= x0 < width,
                0 <= x1,
                y0 < y1,
        ;
    } else if y1 < y0 {
        assert(y1 * width + x1 < y0 * width + x0) by (nonlinear_arith)
            requires
                0 <= x1 < width,
                0 <= x0,
                y1 < y0,
        ;
    }
}

impl RgbaRaster {
    /// The buffer holds exactly four bytes for every pixel.
    pub open spec fn wf(self) -> bool {
        self.pixels@.len() == self.width * self.height * 4
    }

    /// Channel `channel` of pixel `(x, y)`.
    pub open spec fn channel(self, x: int, y: int, channel: int) -> u8 {
        self.pixels@[rgba_offset(self.width as int, x, y) + channel]
    }

    /// A transparent raster; `None` when its byte count does not fit in
    /// `usize`.
    pub fn transparent(width: u32, height: u32) -> (result: Option<Self>)
        ensures
            result is Some <==> width * height * 4 <= usize::MAX,
            result matches Some(raster) ==> {
                &&& raster.wf()
                &&& raster.width == width
                &&& raster.height == height
                &&& forall|i: int| 0 <= i < raster.pixels@.len() ==> #[trigger] raster.pixels@[i] == 0
            },
    {
        let w = width as usize;
        let h = height as usize;
        let area = w.checked_mul(h)?;
        let len = area.checked_mul(4)?;
        proof {
            assert(width * height * 4 == len);
        }
        let mut pixels: Vec<u8> = Vec::new();
        let mut index: usize = 0;
        while index < len
            invariant
                pixels@.len() == index,
                index <= len,
                forall|i: int| 0 <= i < index ==> #[trigger] pixels@[i] == 0,
            decreases len - index,
        {
            pixels.push(0);
            index += 1;
        }
        Some(RgbaRaster { width, height, pixels })
    }

    /// A raster over `pixels`, `None` unless the buffer holds exactly four
    /// bytes per pixel.
    pub fn from_raw(width: u32, height: u32, pixels: Vec<u8>) -> (result: Option<Self>)
        ensures
            result is Some <==> pixels@.len() == width * height * 4,
            result matches Some(raster) ==> raster.width == width && raster.height == height
                && raster.pixels@ == pixels@,
    {
        let plen = pixels.len();
        let w = width as usize;
        let h = height as usize;
        let area = match w.checked_mul(h) {
            Some(area) => area,
            None => {
                proof {
                    assert(width * height * 4 >= width * height) by (nonlinear_arith);
                }
                return None;
            },
        };
        let len = match area.checked_mul(4) {
            Some(len) => len,
            None => return None,
        };
        if pixels.len() != len {
            return None;
        }
        Some(RgbaRaster { width, height, pixels })
    }

    /// The four channels of pixel `(x, y)`.
    pub fn get_pixel(&self, x: u32, y: u32) -> (result: [u8; 4])
        requires
            self.wf(),
            x < self.width,
            y < self.height,
        ensures
            forall|c: int| 0 <= c < 4 ==> result[c] == self.channel(x as int, y as int, c),
    {
        proof {
            lemma_pixel_number(self.width as int, self.height as int, x as int, y as int);
        }
        let len = self.pixels.len();
        proof {
            assert((y * self.width + x) * 4 + 4 <= len);
        }
        let offset = ((y as usize) * (self.width as usize) + (x as usize)) * 4;
        [self.pixels[offset], self.pixels[offset + 1], self.pixels[offset + 2], self.pixels[offset + 3]]
    }

    /// Overwrite pixel `(x, y)`.
    pub fn put_pixel(&mut self, x: u32, y: u32, value: [u8; 4])
        requires
            old(self).wf(),
            x < old(self).width,
            y < old(self).height,
        ensures
            final(self).wf(),
            final(self).width == old(self).width,
            final(self).height == old(self).height,
            forall|c: int| 0 <= c < 4 ==> final(self).channel(x as int, y as int, c) == value[c],
            forall|px: int, py: int, c: int|
                0 <= px < old(self).width && 0 <= py < old(self).height && 0 <= c < 4 && (px != x
                    || py != y) ==> #[trigger] final(self).channel(px, py, c) == old(self).channel(
                    px,
                    py,
                    c,
                ),
    {
        proof {
            lemma_pixel_number(self.width as int, self.height as int, x as int, y as int);
        }
        let len = self.pixels.len();
        proof {
            assert((y * self.width + x) * 4 + 4 <= len);
        }
        let offset = ((y as usize) * (self.width as usize) + (x as usize)) * 4;
        self.pixels.set(offset, value[0]);
        self.pixels.set(offset + 1, value[1]);
        self.pixels.set(offset + 2, value[2]);
        self.pixels.set(offset + 3, value[3]);
        proof {
            let w = self.width as int;
            assert forall|px: int, py: int, c: int|
                0 <= px < old(self).width && 0 <= py < old(self).height && 0 <= c < 4 && (px != x
                    || py != y) implies #[trigger] self.channel(px, py, c) == old(self).channel(
                px,
                py,
                c,
            ) by {
                lemma_pixel_number(w, self.height as int, px, py);
                if py * w + px == y * w + x {
                    lemma_pixel_number_injective(w, px, py, x as int, y as int);
                }
                assert(rgba_offset(w, px, py) + c != offset + 0);
                assert(rgba_offset(w, px, py) + c != offset + 1);
                assert(rgba_offset(w, px, py) + c != offset + 2);
                assert(rgba_offset(w, px, py) + c != offset + 3);
            }
        }
    }
}

} // verus!
