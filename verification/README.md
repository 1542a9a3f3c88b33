# ironpaint

Verified integer kernels of a CSS-to-PDF paint pipeline, written in Verus.

Lengths are integer layout units (64 per point), colours are 8-bit RGBA and
rasters are byte buffers, so every kernel here is exact integer arithmetic
with a contract proved by Verus. Floating-point geometry, gradients and
font rasterization stay outside the library.

## Layout

- `src/discrete.rs` — the three-box discrete Gaussian blur: Skia's
  reciprocal divider, the plan derived from a box window, the ring-buffer
  line pass and the separable blur of an RGBA raster, each proved equal to
  its box-filter specification (`src/box_sums.rs`) and free of overflow.
- `src/raster.rs`, `src/region.rs`, `src/mask.rs`, `src/coverage.rs` —
  RGBA rasters, device regions and their extraction, 8-bit masks and their
  disc dilation, coverage arithmetic.
- `src/color_space.rs`, `src/blend.rs`, `src/compositing.rs` — quantized
  sRGB/linearRGB transfer tables, integer blend modes for opaque pixels and
  PDF blend-mode graphics states.
- `src/border.rs`, `src/bleed.rs`, `src/border_paint.rs`, `src/clipping.rs`,
  `src/backdrop.rs`, `src/tiles.rs` — border sides and styles, background
  bleed insets, grouping of equal solid sides into single fills, clip
  scopes, gradient backdrops and background repeat modes.
- `src/border_plan.rs` — how a border that is not a uniform frame is
  painted: one ring fill, a uniform bevelled frame, or one treatment per
  side.
- `src/rounded.rs` — CSS rounded rectangles and border rings: radius
  fitting, insets and exact point containment in their corner ellipses.
- `src/filter_plan.rs` — the evaluation order of a filter list on a raster
  surface.
- `src/turbulence.rs` — the Park–Miller generator and the lattice and
  gradients of SVG `feTurbulence`.
- `src/pdf_images.rs`, `src/pdf_text.rs` — PNG decoding (`png`) split into
  PDF colour and alpha planes, JPEG re-encoding (`image`), zlib streams
  (`flate2`) and decimal text.
- `tests/` — scenario tests run against the compiled library.
- `app/` — floating-point glue around the library: blur window selection
  from a sigma, translucent compositing and bevel colours.
