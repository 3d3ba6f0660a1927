use vstd::prelude::*;

use crate::models::OutputFormat;
use fast_image_resize::images::Image;
use fast_image_resize::{IntoImageView, PixelType, Resizer};
use image::{DynamicImage, ImageBuffer, ImageFormat};
use std::io::Cursor;

verus! {

#[verifier::external_type_specification]
#[verifier::external_body]
pub struct ExDynamicImage(DynamicImage);

/// How the pixels of a raster are laid out.
#[derive(Clone, Copy, Debug, PartialEq, Eq, Structural)]
pub enum PixelLayout {
    /// Three 8-bit channels per pixel.
    Rgb8,
    /// Four 8-bit channels per pixel.
    Rgba8,
    /// Any other pixel type, which the encoders here do not take.
    Other,
}

/// A resized image: its size, its pixel layout and its pixel bytes, row by row.
pub struct Raster {
    pub width: u32,
    pub height: u32,
    pub layout: PixelLayout,
    pub pixels: Vec<u8>,
}

/// Why a derivation failed.
#[derive(Clone, Copy, Debug, PartialEq, Eq, Structural)]
pub enum DerivationError {
    DecodeFailed,
    ResizeFailed,
    EncodeFailed,
}

/// `present * num / den`, truncated, and held to the range of `u32`; zero when
/// `den` is zero.
pub open spec fn scaled(present: u32, num: u32, den: u32) -> u32 {
    if den == 0 {
        0
    } else if (present as int) * (num as int) / (den as int) > u32::MAX as int {
        u32::MAX
    } else {
        ((present as int) * (num as int) / (den as int)) as u32
    }
}

/// The size an image of `src_w` x `src_h` is resized to for a requested
/// `width` x `height`: a zero dimension is computed from the other one and the
/// source's aspect ratio; two non-zero dimensions are taken as given.
pub open spec fn target_size(src_w: u32, src_h: u32, width: u32, height: u32) -> (u32, u32) {
    (
        if width == 0 { scaled(height, src_w, src_h) } else { width },
        if height == 0 { scaled(width, src_h, src_w) } else { height },
    )
}

/// The byte size an RGB or RGBA raster of this size needs.
pub open spec fn layout_len(layout: PixelLayout, width: u32, height: u32) -> int {
    match layout {
        PixelLayout::Rgb8 => 3 * (width as int) * (height as int),
        PixelLayout::Rgba8 => 4 * (width as int) * (height as int),
        PixelLayout::Other => 0,
    }
}

/// The largest pixel count that a raster of up to 16 bytes per pixel may have.
pub const MAX_PIXELS: u64 = 576460752303423487;

/// What decoding a byte string gives: the width, the height, the pixel layout
/// and whether the resizer has a pixel type for the image; `None` when the
/// bytes do not decode.
pub uninterp spec fn decoded_info(bytes: Seq<u8>) -> Option<(u32, u32, PixelLayout, bool)>;

/// The encoding of a `width` x `height` RGB or RGBA pixel buffer as PNG, JPEG
/// or GIF; `None` when the encoder refuses it.
pub uninterp spec fn encoded(layout: PixelLayout, width: u32, height: u32, pixels: Seq<u8>, format: OutputFormat) -> Option<Seq<u8>>;

/// A decoded source image, with what the pipeline reads of it.
pub struct Decoded {
    image: DynamicImage,
    width: u32,
    height: u32,
    layout: PixelLayout,
    resizable: bool,
}

impl Decoded {
    /// Width, height, layout and whether the resizer takes the image.
    pub closed spec fn info(&self) -> (u32, u32, PixelLayout, bool) {
        (self.width, self.height, self.layout, self.resizable)
    }
}

/// Relies on `image::load_from_memory` (and fast_image_resize's
/// `IntoImageView::pixel_type` on the result): decoding depends on the bytes
/// alone. The 8-bit RGB and RGBA variants are told apart from the others;
/// the resizer has a pixel type for both of them.
#[verifier::external_body]
fn decode(bytes: &[u8]) -> (r: Option<Decoded>)
    ensures
        match (r, decoded_info(bytes@)) {
            (Some(d), Some(i)) => d.info() == i && (i.2 != PixelLayout::Other ==> i.3),
            (None, None) => true,
            _ => false,
        },
{
    let image = image::load_from_memory(bytes).ok()?;
    let layout = match &image {
        DynamicImage::ImageRgb8(_) => PixelLayout::Rgb8,
        DynamicImage::ImageRgba8(_) => PixelLayout::Rgba8,
        _ => PixelLayout::Other,
    };
    let resizable = image.pixel_type().is_some();
    Some(Decoded { width: image.width(), height: image.height(), layout, resizable, image })
}

/// Relies on `DynamicImage::to_rgba8`: the same image, of the same size, as
/// 8-bit RGBA, for which the resizer has a pixel type.
#[verifier::external_body]
fn into_rgba8(src: Decoded) -> (r: Decoded)
    ensures
        r.info() == (src.info().0, src.info().1, PixelLayout::Rgba8, true),
{
    let image = DynamicImage::ImageRgba8(src.image.to_rgba8());
    Decoded { width: src.width, height: src.height, layout: PixelLayout::Rgba8, resizable: true, image }
}

/// Relies on fast_image_resize's `Image::new` and `Resizer::resize`: the
/// destination is allocated with the requested size and the source's pixel
/// type (`width * height` pixels of that type's byte size: 3 for 8-bit RGB, 4
/// for 8-bit RGBA) and filled in place; the resizer refuses only a source
/// without a pixel type.
#[verifier::external_body]
fn resize_to(src: &Decoded, width: u32, height: u32) -> (r: Option<Raster>)
    requires
        (width as int) * (height as int) <= MAX_PIXELS,
    ensures
        r is Some <==> src.info().3,
        r matches Some(out) ==> out.width == width && out.height == height && out.layout == src.info().2 && (
        out.layout != PixelLayout::Other ==> out.pixels@.len() == layout_len(out.layout, width, height)),
{
    let pixel_type = src.image.pixel_type()?;
    let mut dst = Image::new(width, height, pixel_type);
    Resizer::new().resize(&src.image, &mut dst, None).ok()?;
    Some(Raster { width, height, layout: src.layout, pixels: dst.into_vec() })
}

/// Relies on `ImageBuffer::from_raw` and `DynamicImage::write_to`: an exact
/// RGB or RGBA buffer becomes an image, encoded into memory.
#[verifier::external_body]
fn encode_as(layout: PixelLayout, width: u32, height: u32, pixels: Vec<u8>, format: OutputFormat) -> (r: Option<Vec<u8>>)
    requires
        layout != PixelLayout::Other,
        width > 0,
        height > 0,
        pixels@.len() == layout_len(layout, width, height),
        format != OutputFormat::WebP,
    ensures
        match (r, encoded(layout, width, height, pixels@, format)) {
            (Some(b), Some(e)) => b@ == e,
            (None, None) => true,
            _ => false,
        },
{
    let image = match layout {
        PixelLayout::Rgb8 => DynamicImage::ImageRgb8(ImageBuffer::from_raw(width, height, pixels)?),
        _ => DynamicImage::ImageRgba8(ImageBuffer::from_raw(width, height, pixels)?),
    };
    let format = match format {
        OutputFormat::Png => ImageFormat::Png,
        OutputFormat::Jpeg => ImageFormat::Jpeg,
        OutputFormat::Gif => ImageFormat::Gif,
        OutputFormat::WebP => ImageFormat::WebP,
    };
    let mut out = Cursor::new(Vec::new());
    image.write_to(&mut out, format).ok()?;
    Some(out.into_inner())
}

/// The layout a decoded image is resized in: 8-bit RGB and RGBA as they are,
/// any other pixel type converted to 8-bit RGBA.
pub open spec fn working_layout(layout: PixelLayout) -> PixelLayout {
    if layout == PixelLayout::Other {
        PixelLayout::Rgba8
    } else {
        layout
    }
}

/// What resizing `source` to a requested `width` x `height` gives: the size
/// and layout of the raster, or the error. Undecodable bytes fail with
/// `DecodeFailed`; a target over `MAX_PIXELS` fails with `ResizeFailed`.
pub open spec fn resize_outcome(source: Seq<u8>, width: u32, height: u32) -> Result<(u32, u32, PixelLayout), DerivationError> {
    match decoded_info(source) {
        None => Err(DerivationError::DecodeFailed),
        Some((src_w, src_h, layout, _)) => {
            let (w, h) = target_size(src_w, src_h, width, height);
            if (w as int) * (h as int) > MAX_PIXELS {
                Err(DerivationError::ResizeFailed)
            } else {
                Ok((w, h, working_layout(layout)))
            }
        },
    }
}

/// A raster fits the encoders: RGB or RGBA, not empty, and its buffer holds
/// exactly its pixels.
pub open spec fn encodable(layout: PixelLayout, width: u32, height: u32, pixels: Seq<u8>) -> bool {
    layout != PixelLayout::Other && width > 0 && height > 0 && pixels.len() == layout_len(layout, width, height)
}

/// `present * num / den`, truncated and held to the range of `u32`.
pub fn scale_dimension(present: u32, num: u32, den: u32) -> (r: u32)
    ensures
        r == scaled(present, num, den),
{
    if den == 0 {
        return 0;
    }
    assert((present as int) * (num as int) <= u64::MAX) by (nonlinear_arith)
        requires
            present <= u32::MAX,
            num <= u32::MAX,
    ;
    let q = (present as u64) * (num as u64) / (den as u64);
    if q > u32::MAX as u64 {
        u32::MAX
    } else {
        q as u32
    }
}

/// The size to resize a `src_w` x `src_h` image to for a requested
/// `width` x `height` (a zero dimension keeps the aspect ratio).
pub fn target_dimensions(src_w: u32, src_h: u32, width: u32, height: u32) -> (r: (u32, u32))
    ensures
        r == target_size(src_w, src_h, width, height),
{
    let final_width = if width == 0 { scale_dimension(height, src_w, src_h) } else { width };
    let final_height = if height == 0 { scale_dimension(width, src_h, src_w) } else { height };
    (final_width, final_height)
}

/// With only the width requested, the height is the source's height scaled by
/// `width / src_w`, truncated: `width * src_h / src_w`.
pub proof fn lemma_width_only_keeps_aspect_ratio(src_w: u32, src_h: u32, width: u32)
    requires
        src_w > 0,
        width > 0,
        (width as int) * (src_h as int) / (src_w as int) <= u32::MAX as int,
    ensures
        target_size(src_w, src_h, width, 0) == (width, ((width as int) * (src_h as int) / (src_w as int)) as u32),
{
}

/// Scaling by width alone: a source that decodes to `src_w` x `src_h` becomes a raster `width` wide and `width * src_h / src_w`
/// high (truncated), when that height fits in `u32` and the raster within
/// `MAX_PIXELS`.
pub proof fn lemma_width_only_resize(source: Seq<u8>, width: u32, src_w: u32, src_h: u32, layout: PixelLayout, resizable: bool)
    requires
        decoded_info(source) == Some((src_w, src_h, layout, resizable)),
        src_w > 0,
        width > 0,
        (width as int) * (src_h as int) / (src_w as int) <= u32::MAX as int,
        (width as int) * ((width as int) * (src_h as int) / (src_w as int)) <= MAX_PIXELS,
    ensures
        resize_outcome(source, width, 0) == Ok::<(u32, u32, PixelLayout), DerivationError>(
            (width, ((width as int) * (src_h as int) / (src_w as int)) as u32, working_layout(layout)),
        ),
{
}

/// Decodes `source` and resizes it to the size that `target_dimensions` gives
/// for the decoded image's size. A request with neither dimension is a
/// passthrough that `plan_request` settles before any derivation; here it
/// would give an empty raster.
pub fn resize_image(source: &[u8], new_width: u32, new_height: u32) -> (r: Result<Raster, DerivationError>)
    ensures
        match resize_outcome(source@, new_width, new_height) {
            Err(e) => r matches Err(x) && x == e,
            Ok((w, h, layout)) => r matches Ok(out) && out.width == w && out.height == h && out.layout == layout
                && layout != PixelLayout::Other && out.pixels@.len() == layout_len(layout, w, h),
        },
{
    let decoded = match decode(source) {
        Some(img) => img,
        None => return Err(DerivationError::DecodeFailed),
    };
    let img = if decoded.layout == PixelLayout::Other { into_rgba8(decoded) } else { decoded };
    let (w, h) = target_dimensions(img.width, img.height, new_width, new_height);
    assert((w as int) * (h as int) <= u64::MAX) by (nonlinear_arith)
        requires
            w <= u32::MAX,
            h <= u32::MAX,
    ;
    if (w as u64) * (h as u64) > MAX_PIXELS {
        return Err(DerivationError::ResizeFailed);
    }
    match resize_to(&img, w, h) {
        Some(out) => Ok(out),
        None => Err(DerivationError::ResizeFailed),
    }
}

/// Encodes a raster as PNG, JPEG or GIF. A raster the encoders do not take,
/// or a refusal of the encoder, fails with `EncodeFailed`.
pub fn encode_image(image: Raster, format: OutputFormat) -> (r: Result<Vec<u8>, DerivationError>)
    requires
        format != OutputFormat::WebP,
    ensures
        !encodable(image.layout, image.width, image.height, image.pixels@) ==> r == Err::<Vec<u8>, DerivationError>(DerivationError::EncodeFailed),
        encodable(image.layout, image.width, image.height, image.pixels@) ==> match encoded(image.layout, image.width, image.height, image.pixels@, format) {
            Some(b) => r matches Ok(x) && x@ == b,
            None => r == Err::<Vec<u8>, DerivationError>(DerivationError::EncodeFailed),
        },
{
    if image.layout == PixelLayout::Other || image.width == 0 || image.height == 0 {
        return Err(DerivationError::EncodeFailed);
    }
    let per_pixel: u128 = if image.layout == PixelLayout::Rgb8 { 3 } else { 4 };
    assert((per_pixel as int) * (image.width as int) * (image.height as int) <= u128::MAX) by (nonlinear_arith)
        requires
            per_pixel <= 4,
            image.width <= u32::MAX,
            image.height <= u32::MAX,
    ;
    let needed: u128 = per_pixel * (image.width as u128) * (image.height as u128);
    if image.pixels.len() as u128 != needed {
        return Err(DerivationError::EncodeFailed);
    }
    match encode_as(image.layout, image.width, image.height, image.pixels, format) {
        Some(bytes) => Ok(bytes),
        None => Err(DerivationError::EncodeFailed),
    }
}

} // verus!
