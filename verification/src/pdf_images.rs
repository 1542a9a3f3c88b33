//! Image XObjects: PNG samples split into PDF colour and alpha planes,
//! JPEG re-encoding and zlib streams.

use vstd::prelude::*;
use image::ImageEncoder;
use std::io::Write;
use crate::pdf_text::{decimal, push_decimal, push_text};

verus! {

/// Default quality for automatic JPEG re-encoding of large opaque images.
pub const DEFAULT_JPEG_QUALITY: u8 = 95;

/// A reference to an XObject used on a page.
pub struct ImageRef {
    pub name: String,
    pub obj_id: usize,
}

/// The images an embedded SVG registers on its page.
pub struct SvgPageImageSink {
    pub page_images: Vec<ImageRef>,
}

/// The resource name of XObject `obj_id`.
pub open spec fn image_name(obj_id: nat) -> Seq<char> {
    "Im"@ + decimal(obj_id)
}

impl SvgPageImageSink {
    /// Record XObject `obj_id` as used on the page and return its resource
    /// name.
    pub fn register_page_image(&mut self, obj_id: usize) -> (name: String)
        ensures
            name@ == image_name(obj_id as nat),
            final(self).page_images@.len() == old(self).page_images@.len() + 1,
            final(self).page_images@.drop_last() == old(self).page_images@,
            final(self).page_images@.last().name@ == name@,
            final(self).page_images@.last().obj_id == obj_id,
    {
        let mut name = String::new();
        push_text(&mut name, "Im");
        push_decimal(&mut name, obj_id);
        proof {
            assert(name@ =~= image_name(obj_id as nat));
        }
        let ghost before = self.page_images@;
        self.page_images.push(ImageRef { name: name.clone(), obj_id });
        proof {
            assert(self.page_images@.drop_last() =~= before);
        }
        name
    }
}

/// The PDF colour space of an image's colour samples.
#[derive(Clone, Copy, Debug, PartialEq, Eq, Structural)]
pub enum PdfColorSpace {
    DeviceRgb,
    DeviceGray,
}

impl PdfColorSpace {
    /// The PDF name of the colour space.
    pub fn name(self) -> (name: &'static str)
        ensures
            name@ == (match self {
                PdfColorSpace::DeviceRgb => "/DeviceRGB"@,
                PdfColorSpace::DeviceGray => "/DeviceGray"@,
            }),
    {
        match self {
            PdfColorSpace::DeviceRgb => "/DeviceRGB",
            PdfColorSpace::DeviceGray => "/DeviceGray",
        }
    }
}

/// One decoded PNG frame: its size, its colour type in the PNG numbering
/// (0 grey, 2 RGB, 3 indexed, 4 grey with alpha, 6 RGBA), the output
/// buffer and how many of its bytes the frame filled.
pub struct PngFrame {
    pub width: u32,
    pub height: u32,
    pub color_type: u8,
    pub buffer: Vec<u8>,
    pub frame_len: usize,
}

/// What the `png` crate decodes from a PNG file's bytes: the first frame's
/// width, height, colour type code, output buffer and frame length, or
/// nothing where it reports an error.
pub uninterp spec fn png_decoding(raw: Seq<u8>) -> Option<(u32, u32, u8, Seq<u8>, usize)>;

/// Decode the first frame of a PNG with the `png` crate (`Decoder::new`
/// over the bytes with checksums ignored, `read_info`, a zeroed buffer of
/// `output_buffer_size` bytes, `next_frame`). Claims only that the frame
/// handed back is the one `png_decoding` names, and `None` exactly where
/// that names nothing.
#[verifier::external_body]
fn decode_png_frame(raw: &[u8]) -> (frame: Option<PngFrame>)
    ensures
        match frame {
            Some(f) => png_decoding(raw@) == Some(
                (f.width, f.height, f.color_type, f.buffer@, f.frame_len),
            ),
            None => png_decoding(raw@) is None,
        },
{
    let mut decoder = png::Decoder::new(std::io::Cursor::new(raw));
    decoder.ignore_checksums(true);
    let mut reader = decoder.read_info().ok()?;
    let mut buffer = vec![0u8; reader.output_buffer_size()?];
    let info = reader.next_frame(&mut buffer).ok()?;
    let frame_len = info.buffer_size();
    Some(PngFrame { width: info.width, height: info.height, color_type: info.color_type as u8, buffer, frame_len })
}

/// The colour and alpha planes of a PNG image ready for a PDF XObject.
pub struct DecodedPngImage {
    pub width: u32,
    pub height: u32,
    pub color_space: PdfColorSpace,
    pub color_data: Vec<u8>,
    pub alpha_data: Option<Vec<u8>>,
}

/// The planes of a decoded image as sequences.
pub struct PngPlanes {
    pub width: u32,
    pub height: u32,
    pub color_space: PdfColorSpace,
    pub color_data: Seq<u8>,
    pub alpha_data: Option<Seq<u8>>,
}

impl View for DecodedPngImage {
    type V = PngPlanes;

    open spec fn view(&self) -> PngPlanes {
        PngPlanes {
            width: self.width,
            height: self.height,
            color_space: self.color_space,
            color_data: self.color_data@,
            alpha_data: match self.alpha_data {
                Some(alpha) => Some(alpha@),
                None => None,
            },
        }
    }
}

/// The PDF colour space of a PNG colour type; indexed and unknown colour
/// types have none.
pub open spec fn png_color_space(code: u8) -> Option<PdfColorSpace> {
    if code == 6 || code == 2 {
        Some(PdfColorSpace::DeviceRgb)
    } else if code == 0 || code == 4 {
        Some(PdfColorSpace::DeviceGray)
    } else {
        None
    }
}

/// The colour samples of PNG pixels: every sample but the alpha of each
/// whole pixel of an alpha-carrying type, or all of them.
pub open spec fn png_color_samples(code: u8, pixels: Seq<u8>) -> Seq<u8> {
    if code == 6 {
        Seq::new((pixels.len() / 4 * 3) as nat, |i: int| pixels[(i / 3) * 4 + i % 3])
    } else if code == 4 {
        Seq::new(pixels.len() / 2, |i: int| pixels[2 * i])
    } else {
        pixels
    }
}

/// The alpha samples of the whole pixels of an alpha-carrying PNG type.
pub open spec fn png_alpha_samples(code: u8, pixels: Seq<u8>) -> Option<Seq<u8>> {
    if code == 6 {
        Some(Seq::new(pixels.len() / 4, |i: int| pixels[4 * i + 3]))
    } else if code == 4 {
        Some(Seq::new(pixels.len() / 2, |i: int| pixels[2 * i + 1]))
    } else {
        None
    }
}

/// The planes made of a decoded frame, if its length fits its buffer and
/// its colour type has a PDF colour space.
pub open spec fn png_planes(frame: (u32, u32, u8, Seq<u8>, usize)) -> Option<PngPlanes> {
    let (width, height, code, buffer, frame_len) = frame;
    let pixels = buffer.take(frame_len as int);
    if frame_len > buffer.len() {
        None
    } else {
        match png_color_space(code) {
            Some(color_space) => Some(
                PngPlanes {
                    width,
                    height,
                    color_space,
                    color_data: png_color_samples(code, pixels),
                    alpha_data: png_alpha_samples(code, pixels),
                },
            ),
            None => None,
        }
    }
}

/// An alpha plane has one sample for each pixel of the colour plane: three
/// colour samples per alpha sample for RGBA, one for grey with alpha.
pub proof fn lemma_planes_pair_up(frame: (u32, u32, u8, Seq<u8>, usize))
    ensures
        png_planes(frame) matches Some(planes) ==> match planes.alpha_data {
            Some(alpha) => planes.color_data.len() == alpha.len() * if planes.color_space
                == PdfColorSpace::DeviceRgb {
                3int
            } else {
                1int
            },
            None => true,
        },
{
}

/// The planes of an optional image.
pub open spec fn planes_of(image: Option<DecodedPngImage>) -> Option<PngPlanes> {
    match image {
        Some(image) => Some(image@),
        None => None,
    }
}

/// Split interleaved samples of `stride` bytes per pixel: the first
/// `colors` of each pixel are colour, the last one alpha.
fn split_interleaved(buffer: &Vec<u8>, frame_len: usize, stride: usize) -> (planes: (
    Vec<u8>,
    Vec<u8>,
))
    requires
        frame_len <= buffer.len(),
        stride == 2 || stride == 4,
    ensures
        planes.0@ == Seq::new(
            (frame_len / stride * (stride - 1)) as nat,
            |i: int| buffer@[(i / (stride - 1)) * stride + i % (stride - 1)],
        ),
        planes.1@ == Seq::new(
            (frame_len / stride) as nat,
            |i: int| buffer@[stride * i + stride - 1],
        ),
{
    let colors = stride - 1;
    let count = frame_len / stride;
    let mut color: Vec<u8> = Vec::new();
    let mut alpha: Vec<u8> = Vec::new();
    let mut pixel: usize = 0;
    while pixel < count
        invariant
            count == frame_len / stride,
            frame_len <= buffer.len(),
            colors == stride - 1,
            stride == 2 || stride == 4,
            pixel <= count,
            color@.len() == pixel * colors,
            alpha@.len() == pixel,
            forall|i: int|
                0 <= i < pixel * colors ==> #[trigger] color@[i] == buffer@[(i / (colors as int)) * stride
                    + i % (colors as int)],
            forall|i: int| 0 <= i < pixel ==> #[trigger] alpha@[i] == buffer@[stride * i + colors],
        decreases count - pixel,
    {
        let base = pixel * stride;
        assert(base + stride <= frame_len) by (nonlinear_arith)
            requires
                pixel < count,
                count == frame_len / stride,
                base == pixel * stride,
                stride > 0,
        ;
        let ghost before = color@;
        let mut channel: usize = 0;
        while channel < colors
            invariant
                colors == stride - 1,
                stride == 2 || stride == 4,
                base == pixel * stride,
                base + stride <= frame_len,
                frame_len <= buffer.len(),
                channel <= colors,
                color@.len() == pixel * colors + channel,
                color@.subrange(0, pixel * colors) == before,
                forall|c: int|
                    0 <= c < channel ==> #[trigger] color@[pixel * colors + c] == buffer@[base + c],
            decreases colors - channel,
        {
            color.push(buffer[base + channel]);
            proof {
                assert(color@.subrange(0, pixel * colors) =~= before);
            }
            channel += 1;
        }
        alpha.push(buffer[base + colors]);
        proof {
            assert forall|i: int| 0 <= i < (pixel + 1) * colors implies #[trigger] color@[i]
                == buffer@[(i / (colors as int)) * stride + i % (colors as int)] by {
                assert((pixel + 1) * colors == pixel * colors + colors) by (nonlinear_arith);
                if i < pixel * colors {
                    assert(color@[i] == before[i]);
                } else {
                    let c = i - pixel * colors;
                    assert(0 <= c < colors);
                    assert(i / (colors as int) == pixel && i % (colors as int) == c) by (nonlinear_arith)
                        requires
                            i == pixel * colors + c,
                            0 <= c < colors,
                            colors > 0,
                    ;
                    assert(color@[pixel * colors + c] == buffer@[base + c]);
                }
            }
            assert((pixel + 1) * colors == pixel * colors + colors) by (nonlinear_arith);
        }
        pixel += 1;
    }
    proof {
        assert(color@ =~= Seq::new(
            (frame_len / stride * (stride - 1)) as nat,
            |i: int| buffer@[(i / (stride - 1)) * stride + i % (stride - 1)],
        ));
        assert(alpha@ =~= Seq::new(
            (frame_len / stride) as nat,
            |i: int| buffer@[stride * i + stride - 1],
        ));
    }
    (color, alpha)
}

/// Split a decoded frame into the colour and alpha planes of a PDF image:
/// RGBA and grey-with-alpha pixels are separated, RGB and grey ones taken
/// as they are; other colour types are refused.
pub fn split_png_frame(frame: PngFrame) -> (image: Option<DecodedPngImage>)
    ensures
        planes_of(image) == png_planes(
            (frame.width, frame.height, frame.color_type, frame.buffer@, frame.frame_len),
        ),
{
    let ghost pixels = frame.buffer@.take(frame.frame_len as int);
    if frame.frame_len > frame.buffer.len() {
        return None;
    }
    let code = frame.color_type;
    if code == 6 || code == 4 {
        let stride: usize = if code == 6 { 4 } else { 2 };
        let (color, alpha) = split_interleaved(&frame.buffer, frame.frame_len, stride);
        proof {
            if code == 6 {
                assert(color@ =~= png_color_samples(code, pixels));
            } else {
                assert(color@ =~= png_color_samples(code, pixels)) by {
                    assert forall|i: int| 0 <= i < color@.len() implies color@[i]
                        == png_color_samples(code, pixels)[i] by {
                        assert(i / 1 == i && i % 1 == 0);
                    }
                }
            }
            assert(Some(alpha@) =~~= png_alpha_samples(code, pixels));
        }
        Some(
            DecodedPngImage {
                width: frame.width,
                height: frame.height,
                color_space: if code == 6 {
                    PdfColorSpace::DeviceRgb
                } else {
                    PdfColorSpace::DeviceGray
                },
                color_data: color,
                alpha_data: Some(alpha),
            },
        )
    } else if code == 2 || code == 0 {
        let mut color = frame.buffer;
        color.truncate(frame.frame_len);
        proof {
            assert(color@ =~= pixels);
        }
        Some(
            DecodedPngImage {
                width: frame.width,
                height: frame.height,
                color_space: if code == 2 {
                    PdfColorSpace::DeviceRgb
                } else {
                    PdfColorSpace::DeviceGray
                },
                color_data: color,
                alpha_data: None,
            },
        )
    } else {
        None
    }
}

/// Decode a PNG file into the colour and alpha planes of a PDF image.
pub fn decode_png_for_pdf(raw: &[u8]) -> (image: Option<DecodedPngImage>)
    ensures
        planes_of(image) == match png_decoding(raw@) {
            Some(frame) => png_planes(frame),
            None => None,
        },
{
    match decode_png_frame(raw) {
        Some(frame) => split_png_frame(frame),
        None => None,
    }
}

/// Opaque RGB planes: an RGB colour space, three samples for each of
/// `width * height` pixels (a count that fits in `u32`), and no alpha
/// sample below 255.
pub open spec fn is_opaque_rgb(planes: PngPlanes) -> bool {
    &&& planes.color_space == PdfColorSpace::DeviceRgb
    &&& planes.width * planes.height * 3 <= u32::MAX
    &&& planes.color_data.len() == planes.width * planes.height * 3
    &&& match planes.alpha_data {
        Some(alpha) => forall|i: int| 0 <= i < alpha.len() ==> alpha[i] == 255,
        None => true,
    }
}

/// Whether every alpha sample is 255.
fn all_opaque(alpha: &Vec<u8>) -> (opaque: bool)
    ensures
        opaque == forall|i: int| 0 <= i < alpha@.len() ==> alpha@[i] == 255,
{
    let mut index: usize = 0;
    while index < alpha.len()
        invariant
            index <= alpha.len(),
            forall|i: int| 0 <= i < index ==> alpha@[i] == 255,
        decreases alpha.len() - index,
    {
        if alpha[index] != 255 {
            return false;
        }
        index += 1;
    }
    true
}

/// Keep a decoded image only if it is opaque RGB.
pub fn keep_opaque_rgb(image: DecodedPngImage) -> (kept: Option<DecodedPngImage>)
    ensures
        kept is Some <==> is_opaque_rgb(image@),
        kept matches Some(kept) ==> kept@ == image@,
{
    if image.color_space != PdfColorSpace::DeviceRgb {
        return None;
    }
    let pixels = match image.width.checked_mul(image.height) {
        Some(pixels) => pixels,
        None => {
            proof {
                assert(image.width * image.height * 3 > u32::MAX) by (nonlinear_arith)
                    requires
                        image.width * image.height > u32::MAX,
                ;
            }
            return None;
        },
    };
    let samples = match pixels.checked_mul(3) {
        Some(samples) => samples,
        None => return None,
    };
    if image.color_data.len() != samples as usize {
        return None;
    }
    let opaque = match &image.alpha_data {
        Some(alpha) => {
            let opaque = all_opaque(alpha);
            proof {
                assert(image@.alpha_data == Some(alpha@));
                if !opaque {
                    let i = choose|i: int| 0 <= i < alpha@.len() && alpha@[i] != 255;
                    assert(image@.alpha_data->0[i] != 255);
                }
            }
            opaque
        },
        None => true,
    };
    if !opaque {
        return None;
    }
    Some(image)
}

/// Decode a PNG file as opaque RGB planes, or refuse it.
pub fn try_decode_png_as_opaque_rgb(raw_png: &[u8]) -> (image: Option<DecodedPngImage>)
    ensures
        planes_of(image) == match png_decoding(raw_png@) {
            Some(frame) => match png_planes(frame) {
                Some(planes) => if is_opaque_rgb(planes) {
                    Some(planes)
                } else {
                    None
                },
                None => None,
            },
            None => None,
        },
{
    match decode_png_for_pdf(raw_png) {
        Some(decoded) => keep_opaque_rgb(decoded),
        None => None,
    }
}

/// Whether a PNG is large enough, in pixels and in bytes, for a lossy
/// JPEG re-encoding to be worth trying.
pub fn should_try_lossy_png_reencode(width: u32, height: u32, byte_len: usize) -> (worth: bool)
    ensures
        worth == (width * height >= 16_384 && byte_len >= 16 * 1024),
{
    let min_pixels: u64 = 16_384;
    let min_bytes: usize = 16 * 1024;
    assert(width as u64 * height as u64 <= u64::MAX) by (nonlinear_arith);
    (width as u64) * (height as u64) >= min_pixels && byte_len >= min_bytes
}

/// The sample layout handed to the JPEG encoder.
#[derive(Clone, Copy, Debug, PartialEq, Eq, Structural)]
pub enum JpegSamples {
    Luma,
    Rgb,
}

impl JpegSamples {
    /// Samples per pixel.
    pub open spec fn channels(self) -> nat {
        match self {
            JpegSamples::Luma => 1,
            JpegSamples::Rgb => 3,
        }
    }
}

/// What the `image` crate's JPEG encoder writes for samples of a given
/// layout and size at a given quality, or nothing where it reports an
/// error.
pub uninterp spec fn jpeg_encoding(
    samples: Seq<u8>,
    width: u32,
    height: u32,
    layout: JpegSamples,
    quality: u8,
) -> Option<Seq<u8>>;

/// Encode samples as a baseline JPEG with `image`'s `JpegEncoder`
/// (`new_with_quality` and `ImageEncoder::write_image`, as 8-bit luma or
/// 8-bit RGB). The encoder panics when the sample count is not
/// `width * height` times the layout's channels, so that is required.
/// Claims only that the stream is the one `jpeg_encoding` names.
#[verifier::external_body]
fn encode_jpeg(samples: &[u8], width: u32, height: u32, layout: JpegSamples, quality: u8) -> (jpeg:
    Option<Vec<u8>>)
    requires
        samples@.len() == width * height * layout.channels(),
    ensures
        match jpeg {
            Some(bytes) => jpeg_encoding(samples@, width, height, layout, quality) == Some(bytes@),
            None => jpeg_encoding(samples@, width, height, layout, quality) is None,
        },
{
    let color = match layout {
        JpegSamples::Luma => image::ExtendedColorType::L8,
        JpegSamples::Rgb => image::ExtendedColorType::Rgb8,
    };
    let mut buf = Vec::new();
    image::codecs::jpeg::JpegEncoder::new_with_quality(&mut buf, quality).write_image(samples, width, height, color).ok()?;
    Some(buf)
}

/// The JPEG quality actually used: at most 100.
pub open spec fn clamped_quality(quality: u8) -> u8 {
    if quality > 100 {
        100
    } else {
        quality
    }
}

/// Encode samples of a layout as JPEG, refusing a sample count other than
/// `width * height` times the channels (or one that overflows `u32`).
fn encode_samples_as_jpeg(
    samples: &[u8],
    width: u32,
    height: u32,
    layout: JpegSamples,
    quality: u8,
) -> (jpeg: Option<Vec<u8>>)
    ensures
        width * height * layout.channels() > u32::MAX || samples@.len() != width * height
            * layout.channels() ==> jpeg is None,
        width * height * layout.channels() <= u32::MAX && samples@.len() == width * height
            * layout.channels() ==> match jpeg {
            Some(bytes) => jpeg_encoding(
                samples@,
                width,
                height,
                layout,
                clamped_quality(quality),
            ) == Some(bytes@),
            None => jpeg_encoding(
                samples@,
                width,
                height,
                layout,
                clamped_quality(quality),
            ) is None,
        },
{
    let channels: u32 = match layout {
        JpegSamples::Luma => 1,
        JpegSamples::Rgb => 3,
    };
    let pixels = match width.checked_mul(height) {
        Some(pixels) => pixels,
        None => {
            proof {
                assert(width * height * layout.channels() > u32::MAX) by (nonlinear_arith)
                    requires
                        width * height > u32::MAX,
                        layout.channels() >= 1,
                ;
            }
            return None;
        },
    };
    let expected = match pixels.checked_mul(channels) {
        Some(expected) => expected,
        None => return None,
    };
    if samples.len() != expected as usize {
        return None;
    }
    let quality = if quality > 100 {
        100
    } else {
        quality
    };
    encode_jpeg(samples, width, height, layout, quality)
}

/// Encode interleaved 8-bit RGB samples as JPEG.
pub fn encode_rgb_as_jpeg(rgb: &[u8], width: u32, height: u32, quality: u8) -> (jpeg: Option<
    Vec<u8>,
>)
    ensures
        width * height * 3 > u32::MAX || rgb@.len() != width * height * 3 ==> jpeg is None,
        width * height * 3 <= u32::MAX && rgb@.len() == width * height * 3 ==> match jpeg {
            Some(bytes) => jpeg_encoding(
                rgb@,
                width,
                height,
                JpegSamples::Rgb,
                clamped_quality(quality),
            ) == Some(bytes@),
            None => jpeg_encoding(
                rgb@,
                width,
                height,
                JpegSamples::Rgb,
                clamped_quality(quality),
            ) is None,
        },
{
    encode_samples_as_jpeg(rgb, width, height, JpegSamples::Rgb, quality)
}

/// Encode 8-bit grey samples as JPEG.
pub fn encode_gray_as_jpeg(gray: &[u8], width: u32, height: u32, quality: u8) -> (jpeg: Option<
    Vec<u8>,
>)
    ensures
        width * height > u32::MAX || gray@.len() != width * height ==> jpeg is None,
        width * height <= u32::MAX && gray@.len() == width * height ==> match jpeg {
            Some(bytes) => jpeg_encoding(
                gray@,
                width,
                height,
                JpegSamples::Luma,
                clamped_quality(quality),
            ) == Some(bytes@),
            None => jpeg_encoding(
                gray@,
                width,
                height,
                JpegSamples::Luma,
                clamped_quality(quality),
            ) is None,
        },
{
    encode_samples_as_jpeg(gray, width, height, JpegSamples::Luma, quality)
}

/// What `flate2`'s zlib encoder at the default compression level writes
/// for `data`, or nothing where it reports an error.
pub uninterp spec fn zlib_compression(data: Seq<u8>) -> Option<Seq<u8>>;

/// Compress with `flate2::write::ZlibEncoder` at `Compression::default()`
/// (`write_all` then `finish`). Claims that the outcome is the one
/// `zlib_compression` names: the stream where it names one, `None` where
/// it names none.
#[verifier::external_body]
fn zlib_compress(data: &[u8]) -> (compressed: Option<Vec<u8>>)
    ensures
        match compressed {
            Some(bytes) => zlib_compression(data@) == Some(bytes@),
            None => zlib_compression(data@) is None,
        },
{
    let mut encoder = flate2::write::ZlibEncoder::new(Vec::new(), flate2::Compression::default());
    encoder.write_all(data).ok()?;
    encoder.finish().ok()
}

/// Compress a PDF stream with zlib (the `FlateDecode` filter): the stream
/// the encoder writes for `data`.
pub fn flate_compress(data: &[u8]) -> (compressed: Option<Vec<u8>>)
    ensures
        match compressed {
            Some(bytes) => zlib_compression(data@) == Some(bytes@),
            None => zlib_compression(data@) is None,
        },
{
    zlib_compress(data)
}

} // verus!
