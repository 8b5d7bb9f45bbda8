//! Downscaling of an image to fit a square box, for display as a preview.
//!
//! Pixels are held as plain RGBA8 bytes together with the texture format the
//! host reported; only the two RGBA8 formats can be rescaled, and the format
//! (linear or sRGB) carries over unchanged to the result.

use vstd::prelude::*;

verus! {

/// The side of the square box that previews are fitted into.
pub const PREVIEW_SIDE: u32 = 100;

/// Previews whose longer side reaches this are shown folded away.
pub const COLLAPSE_SIDE: u32 = 128;

/// Boxes are kept below this side, so that the resampling buffers (four
/// `f32` channels per pixel, one side of the source by one side of the box)
/// stay within the largest allocation.
pub const MAX_SIDE: u32 = 0x800_0000;

/// The texture format of an image's pixel data.
#[derive(PartialEq, Eq, Structural, Clone, Copy, Debug)]
pub enum PixelFormat {
    /// Four bytes per pixel, linear.
    Rgba8Unorm,
    /// Four bytes per pixel, sRGB encoded.
    Rgba8UnormSrgb,
    /// Any other format; such images are not rescaled.
    Unsupported,
}

/// An image as width, height, format and row-major pixel bytes.
pub struct PixelImage {
    pub width: u32,
    pub height: u32,
    pub format: PixelFormat,
    pub data: Vec<u8>,
}

pub open spec fn is_supported(format: PixelFormat) -> bool {
    format == PixelFormat::Rgba8Unorm || format == PixelFormat::Rgba8UnormSrgb
}

/// Whether `img` can be read as an RGBA8 image: a supported format, no empty
/// side, and exactly four bytes per pixel.
pub open spec fn is_convertible(img: &PixelImage) -> bool {
    &&& is_supported(img.format)
    &&& img.width >= 1
    &&& img.height >= 1
    &&& img.data@.len() == 4 * (img.width as int) * (img.height as int)
}

pub open spec fn abs(x: int) -> int {
    if x < 0 { -x } else { x }
}

/// `(nw, nh)` fits a `(w, h)` image into a `side` by `side` box: the longer
/// side becomes `side`, and the shorter one is the exact scaled length to
/// within one pixel, and at least one pixel.
pub open spec fn fits_box(w: int, h: int, nw: int, nh: int, side: int) -> bool {
    &&& nw >= 1
    &&& nh >= 1
    &&& if w >= h {
        nw == side && abs(nh * w - h * side) <= w
    } else {
        nh == side && abs(nw * h - w * side) <= h
    }
}

/// Width, height and RGBA8 bytes that the `image` crate's triangle-filtered
/// resize gives for an RGBA8 image fitted into a `side` by `side` box.
pub uninterp spec fn triangle_fit(width: u32, height: u32, data: Seq<u8>, side: u32) -> (
    u32,
    u32,
    Seq<u8>,
);

/// Relies on `image::RgbaImage::from_raw`, which takes a buffer of four bytes
/// per pixel, and on `image::DynamicImage::resize` with the triangle filter,
/// which scales the image to the largest size that fits the box while keeping
/// its aspect ratio (rounded to whole pixels, at least one).
#[verifier::external_body]
fn resize_rgba8(width: u32, height: u32, data: Vec<u8>, side: u32) -> (r: Option<(u32, u32, Vec<u8>)>)
    requires
        width >= 1,
        height >= 1,
        1 <= side < MAX_SIDE,
        data@.len() == 4 * (width as int) * (height as int),
    ensures
        r is Some,
        r matches Some(out) ==> {
            &&& (out.0, out.1, out.2@) == triangle_fit(width, height, data@, side)
            &&& fits_box(width as int, height as int, out.0 as int, out.1 as int, side as int)
            &&& out.2@.len() == 4 * (out.0 as int) * (out.1 as int)
        },
{
    let buf = image::RgbaImage::from_raw(width, height, data)?;
    let out = image::DynamicImage::ImageRgba8(buf)
        .resize(side, side, image::imageops::FilterType::Triangle)
        .into_rgba8();
    Some((out.width(), out.height(), out.into_raw()))
}

/// Rescales `source` to fit a `side` by `side` box. Returns `None` exactly
/// when the source cannot be read as an RGBA8 image; otherwise the result has
/// the source's format and the dimensions and pixels of the triangle-filtered
/// resize.
pub fn resize(source: &PixelImage, side: u32) -> (r: Option<PixelImage>)
    requires
        1 <= side < MAX_SIDE,
    ensures
        r is Some <==> is_convertible(source),
        r matches Some(img) ==> {
            &&& img.format == source.format
            &&& (img.width, img.height, img.data@) == triangle_fit(
                source.width,
                source.height,
                source.data@,
                side,
            )
            &&& fits_box(
                source.width as int,
                source.height as int,
                img.width as int,
                img.height as int,
                side as int,
            )
            &&& is_convertible(&img)
        },
{
    let supported = match source.format {
        PixelFormat::Rgba8Unorm => true,
        PixelFormat::Rgba8UnormSrgb => true,
        PixelFormat::Unsupported => false,
    };
    if !supported || source.width == 0 || source.height == 0 {
        return None;
    }
    let w: u64 = source.width as u64;
    let h: u64 = source.height as u64;
    assert(w * h <= 0xffff_fffe_0000_0001) by (nonlinear_arith)
        requires
            w <= 0xffff_ffff,
            h <= 0xffff_ffff,
    ;
    let pixels: u64 = w * h;
    assert(4 * (source.width as int) * (source.height as int) == 4 * (pixels as int))
        by (nonlinear_arith)
        requires
            pixels == w * h,
            w == source.width,
            h == source.height,
    ;
    let len: usize = source.data.len();
    if pixels > (usize::MAX / 4) as u64 {
        assert(4 * (w * h) > len);
        return None;
    }
    if len != (pixels as usize) * 4 {
        return None;
    }
    let data = source.data.clone();
    assert(data@ =~= source.data@);
    match resize_rgba8(source.width, source.height, data, side) {
        Some((width, height, data)) => Some(PixelImage { width, height, format: source.format, data }),
        None => None,
    }
}

/// Rescales `source` to fit the preview box of `PREVIEW_SIDE` pixels.
pub fn rescale_for_preview(source: &PixelImage) -> (r: Option<PixelImage>)
    ensures
        r is Some <==> is_convertible(source),
        r matches Some(img) ==> {
            &&& img.format == source.format
            &&& (img.width, img.height, img.data@) == triangle_fit(
                source.width,
                source.height,
                source.data@,
                PREVIEW_SIDE,
            )
            &&& fits_box(
                source.width as int,
                source.height as int,
                img.width as int,
                img.height as int,
                PREVIEW_SIDE as int,
            )
        },
{
    resize(source, PREVIEW_SIDE)
}

/// Whether a preview of this size is shown folded away: its longer side is
/// at least `COLLAPSE_SIDE`.
pub fn needs_collapsing(width: u32, height: u32) -> (r: bool)
    ensures
        r == (width >= COLLAPSE_SIDE || height >= COLLAPSE_SIDE),
{
    width >= COLLAPSE_SIDE || height >= COLLAPSE_SIDE
}

} // verus!
