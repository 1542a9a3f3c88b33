use ironpaint::pdf_images::{
    decode_png_for_pdf, encode_gray_as_jpeg, encode_rgb_as_jpeg, flate_compress, keep_opaque_rgb,
    should_try_lossy_png_reencode, split_png_frame, try_decode_png_as_opaque_rgb, ImageRef,
    PdfColorSpace, PngFrame, SvgPageImageSink, DEFAULT_JPEG_QUALITY,
};
use std::io::Read;

fn encode_png(width: u32, height: u32, color: png::ColorType, data: &[u8]) -> Vec<u8> {
    let mut bytes = Vec::new();
    {
        let mut encoder = png::Encoder::new(&mut bytes, width, height);
        encoder.set_color(color);
        encoder.set_depth(png::BitDepth::Eight);
        let mut writer = encoder.write_header().expect("png header");
        writer.write_image_data(data).expect("png data");
        writer.finish().expect("png end");
    }
    bytes
}

#[test]
fn rgba_png_splits_into_colour_and_alpha_planes() {
    let raw = encode_png(
        2,
        1,
        png::ColorType::Rgba,
        &[10, 20, 30, 40, 50, 60, 70, 80],
    );
    let image = decode_png_for_pdf(&raw).expect("a valid PNG decodes");
    assert_eq!((image.width, image.height), (2, 1));
    assert_eq!(image.color_space, PdfColorSpace::DeviceRgb);
    assert_eq!(image.color_space.name(), "/DeviceRGB");
    assert_eq!(image.color_data, vec![10, 20, 30, 50, 60, 70]);
    assert_eq!(image.alpha_data, Some(vec![40, 80]));
}

#[test]
fn grey_alpha_png_splits_into_grey_and_alpha_planes() {
    let raw = encode_png(3, 1, png::ColorType::GrayscaleAlpha, &[1, 2, 3, 4, 5, 6]);
    let image = decode_png_for_pdf(&raw).expect("a valid PNG decodes");
    assert_eq!(image.color_space, PdfColorSpace::DeviceGray);
    assert_eq!(image.color_space.name(), "/DeviceGray");
    assert_eq!(image.color_data, vec![1, 3, 5]);
    assert_eq!(image.alpha_data, Some(vec![2, 4, 6]));
}

#[test]
fn rgb_and_grey_png_samples_pass_through() {
    let raw = encode_png(1, 2, png::ColorType::Rgb, &[1, 2, 3, 4, 5, 6]);
    let image = decode_png_for_pdf(&raw).expect("a valid PNG decodes");
    assert_eq!(image.color_data, vec![1, 2, 3, 4, 5, 6]);
    assert_eq!(image.alpha_data, None);
    let raw = encode_png(2, 2, png::ColorType::Grayscale, &[9, 8, 7, 6]);
    let image = decode_png_for_pdf(&raw).expect("a valid PNG decodes");
    assert_eq!(image.color_space, PdfColorSpace::DeviceGray);
    assert_eq!(image.color_data, vec![9, 8, 7, 6]);
}

#[test]
fn bytes_that_are_not_png_are_refused() {
    assert!(decode_png_for_pdf(b"not a png").is_none());
    assert!(try_decode_png_as_opaque_rgb(&[]).is_none());
}

#[test]
fn indexed_frames_and_short_buffers_are_refused() {
    let indexed = PngFrame { width: 1, height: 1, color_type: 3, buffer: vec![0], frame_len: 1 };
    assert!(split_png_frame(indexed).is_none());
    let short = PngFrame { width: 1, height: 1, color_type: 2, buffer: vec![0, 0], frame_len: 3 };
    assert!(split_png_frame(short).is_none());
    let trimmed = PngFrame { width: 1, height: 1, color_type: 0, buffer: vec![4, 5, 6], frame_len: 1 };
    assert_eq!(split_png_frame(trimmed).unwrap().color_data, vec![4]);
}

#[test]
fn only_fully_opaque_rgb_png_is_accepted_for_jpeg() {
    let opaque = encode_png(2, 1, png::ColorType::Rgba, &[1, 2, 3, 255, 4, 5, 6, 255]);
    let image = try_decode_png_as_opaque_rgb(&opaque).expect("opaque RGBA is accepted");
    assert_eq!(image.color_data, vec![1, 2, 3, 4, 5, 6]);
    let translucent = encode_png(2, 1, png::ColorType::Rgba, &[1, 2, 3, 255, 4, 5, 6, 254]);
    assert!(try_decode_png_as_opaque_rgb(&translucent).is_none());
    let grey = encode_png(1, 1, png::ColorType::Grayscale, &[7]);
    assert!(try_decode_png_as_opaque_rgb(&grey).is_none());
    let rgb = encode_png(1, 1, png::ColorType::Rgb, &[7, 8, 9]);
    assert!(try_decode_png_as_opaque_rgb(&rgb).is_some());
    let decoded = decode_png_for_pdf(&rgb).unwrap();
    let mismatched = ironpaint::pdf_images::DecodedPngImage { width: 2, ..decoded };
    assert!(keep_opaque_rgb(mismatched).is_none());
}

#[test]
fn lossy_reencoding_needs_both_many_pixels_and_many_bytes() {
    assert!(should_try_lossy_png_reencode(128, 128, 16 * 1024));
    assert!(!should_try_lossy_png_reencode(128, 127, 1 << 20));
    assert!(!should_try_lossy_png_reencode(1 << 20, 1 << 20, 16 * 1024 - 1));
    assert!(should_try_lossy_png_reencode(u32::MAX, u32::MAX, usize::MAX));
}

#[test]
fn jpeg_encoding_checks_the_sample_count() {
    assert!(encode_rgb_as_jpeg(&[0; 11], 2, 2, DEFAULT_JPEG_QUALITY).is_none());
    assert!(encode_gray_as_jpeg(&[0; 5], 2, 2, DEFAULT_JPEG_QUALITY).is_none());
    assert!(encode_rgb_as_jpeg(&[], u32::MAX, 2, DEFAULT_JPEG_QUALITY).is_none());
    let rgb = encode_rgb_as_jpeg(&[200; 12], 2, 2, DEFAULT_JPEG_QUALITY).expect("valid samples");
    assert_eq!(&rgb[..2], &[0xFF, 0xD8]);
    let gray = encode_gray_as_jpeg(&[90; 4], 2, 2, DEFAULT_JPEG_QUALITY).expect("valid samples");
    assert_eq!(&gray[..2], &[0xFF, 0xD8]);
    assert_eq!(
        encode_gray_as_jpeg(&[90; 4], 2, 2, 250),
        encode_gray_as_jpeg(&[90; 4], 2, 2, 100)
    );
}

#[test]
fn flate_streams_inflate_back_to_their_data() {
    let data = b"BT /F1 12 Tf 72 712 Td (Hello) Tj ET".repeat(8);
    let compressed = flate_compress(&data).expect("compression into memory succeeds");
    assert_ne!(compressed, data);
    let mut inflated = Vec::new();
    flate2::read::ZlibDecoder::new(&compressed[..])
        .read_to_end(&mut inflated)
        .expect("a valid zlib stream");
    assert_eq!(inflated, data);
}

#[test]
fn registered_page_images_are_named_after_their_object() {
    let mut sink = SvgPageImageSink { page_images: Vec::new() };
    assert_eq!(sink.register_page_image(7), "Im7");
    assert_eq!(sink.register_page_image(1204), "Im1204");
    let names: Vec<(String, usize)> = sink
        .page_images
        .iter()
        .map(|image: &ImageRef| (image.name.clone(), image.obj_id))
        .collect();
    assert_eq!(names, vec![("Im7".to_string(), 7), ("Im1204".to_string(), 1204)]);
}

#[test]
fn decimal_digits_are_appended_most_significant_first() {
    let mut text = String::from("n=");
    ironpaint::pdf_text::push_decimal(&mut text, 0);
    assert_eq!(text, "n=0");
    let mut text = String::new();
    ironpaint::pdf_text::push_decimal(&mut text, 9);
    ironpaint::pdf_text::push_decimal(&mut text, 10);
    ironpaint::pdf_text::push_decimal(&mut text, 90210);
    assert_eq!(text, "91090210");
    let mut text = String::new();
    ironpaint::pdf_text::push_decimal(&mut text, usize::MAX);
    assert_eq!(text, usize::MAX.to_string());
}
