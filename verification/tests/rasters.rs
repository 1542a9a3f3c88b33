use ironpaint::coverage::{multiply_coverage, padded_pixels, InsetMaskBounds};
use ironpaint::raster::RgbaRaster;
use ironpaint::region::{u32_from_i64, RasterRegion};

#[test]
fn raster_pixels_round_trip_through_put_and_get() {
    let mut raster = RgbaRaster::transparent(3, 2).unwrap();
    raster.put_pixel(2, 1, [1, 2, 3, 4]);
    assert_eq!(raster.get_pixel(2, 1), [1, 2, 3, 4]);
    assert_eq!(raster.get_pixel(1, 1), [0, 0, 0, 0]);
    assert_eq!(raster.pixels[20..24], [1, 2, 3, 4]);
    assert!(RgbaRaster::from_raw(2, 2, vec![0; 15]).is_none());
    assert!(RgbaRaster::from_raw(2, 2, vec![0; 16]).is_some());
}

#[test]
fn extraction_copies_only_the_shared_pixels() {
    let mut source = RgbaRaster::transparent(2, 2).unwrap();
    source.put_pixel(0, 0, [10, 0, 0, 255]);
    source.put_pixel(1, 1, [0, 20, 0, 255]);
    let source_region = RasterRegion { left: 5, top: 5, right: 7, bottom: 7 };
    let filter_region = RasterRegion { left: 4, top: 4, right: 7, bottom: 6 };
    let output = filter_region.extract(&source, source_region).unwrap();
    assert_eq!((output.width, output.height), (3, 2));
    assert_eq!(output.get_pixel(1, 1), [10, 0, 0, 255]);
    assert_eq!(output.get_pixel(0, 0), [0, 0, 0, 0]);
    assert_eq!(output.get_pixel(2, 1), [0, 0, 0, 0]);
    let disjoint = RasterRegion { left: 0, top: 0, right: 2, bottom: 2 };
    let empty = disjoint.extract(&source, source_region).unwrap();
    assert!(empty.pixels.iter().all(|byte| *byte == 0));
}

#[test]
fn region_sizes_and_overlaps() {
    let region = RasterRegion { left: -3, top: 2, right: 5, bottom: 4 };
    assert_eq!(region.dimensions(), Some((8, 2)));
    assert_eq!(RasterRegion { left: 5, top: 0, right: 4, bottom: 1 }.dimensions(), None);
    let other = RasterRegion { left: 0, top: 3, right: 9, bottom: 9 };
    assert_eq!(
        region.intersection(other),
        Some(RasterRegion { left: 0, top: 3, right: 5, bottom: 4 })
    );
    assert_eq!(region.intersection(RasterRegion { left: 5, top: 0, right: 6, bottom: 9 }), None);
    assert_eq!(u32_from_i64(-1), None);
    assert_eq!(u32_from_i64(4_294_967_295), Some(u32::MAX));
    assert_eq!(u32_from_i64(4_294_967_296), None);
}

#[test]
fn coverage_and_padding_arithmetic() {
    assert_eq!(multiply_coverage(255, 255), 255);
    assert_eq!(multiply_coverage(255, 128), 128);
    assert_eq!(multiply_coverage(127, 1), 0);
    assert_eq!(multiply_coverage(128, 1), 1);
    assert_eq!(padded_pixels(u32::MAX, 1), None);
    assert_eq!(padded_pixels(10, 3), Some(16));
    let bounds = InsetMaskBounds { source_margin_px: 40, blur_support_px: 39 };
    assert_eq!(bounds.raster_padding_px(), Some(79));
    assert_eq!(
        InsetMaskBounds { source_margin_px: u32::MAX, blur_support_px: 1 }.raster_padding_px(),
        None
    );
}
