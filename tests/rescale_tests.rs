use inspector_preview::cache::{CacheOutcome, DerivativeCache};
use inspector_preview::rescale::{
    needs_collapsing, rescale_for_preview, resize, PixelFormat, PixelImage, PREVIEW_SIDE,
};

fn solid(width: u32, height: u32, format: PixelFormat, px: [u8; 4]) -> PixelImage {
    let mut data = Vec::new();
    for _ in 0..(width * height) {
        data.extend_from_slice(&px);
    }
    PixelImage { width, height, format, data }
}

#[test]
fn wide_image_fits_box() {
    let src = solid(400, 200, PixelFormat::Rgba8UnormSrgb, [10, 20, 30, 255]);
    let out = rescale_for_preview(&src).expect("rgba8 is supported");
    assert_eq!((out.width, out.height), (100, 50));
    assert_eq!(out.format, PixelFormat::Rgba8UnormSrgb);
    assert_eq!(out.data.len(), 100 * 50 * 4);
}

#[test]
fn tall_linear_image_fits_box() {
    let src = solid(150, 1000, PixelFormat::Rgba8Unorm, [1, 2, 3, 4]);
    let out = rescale_for_preview(&src).unwrap();
    assert_eq!((out.width, out.height), (15, 100));
    assert_eq!(out.format, PixelFormat::Rgba8Unorm);
}

#[test]
fn odd_aspect_is_kept_within_one_pixel() {
    let src = solid(301, 7, PixelFormat::Rgba8Unorm, [0, 0, 0, 255]);
    let out = resize(&src, PREVIEW_SIDE).unwrap();
    assert_eq!(out.width, 100);
    let exact = 7.0f64 * 100.0 / 301.0;
    assert!((out.height as f64 - exact).abs() <= 1.0);
    assert!(out.height >= 1);
}

#[test]
fn solid_colour_survives_rescale() {
    let src = solid(256, 256, PixelFormat::Rgba8UnormSrgb, [200, 100, 50, 255]);
    let out = rescale_for_preview(&src).unwrap();
    assert_eq!((out.width, out.height), (100, 100));
    for px in out.data.chunks(4) {
        assert_eq!(px, &[200, 100, 50, 255]);
    }
}

#[test]
fn small_image_is_scaled_up_to_box() {
    let src = solid(50, 20, PixelFormat::Rgba8Unorm, [9, 9, 9, 9]);
    let out = rescale_for_preview(&src).unwrap();
    assert_eq!((out.width, out.height), (100, 40));
}

#[test]
fn unsupported_format_yields_none_and_leaves_cache() {
    let mut cache = DerivativeCache::new();
    assert!(cache.insert(1, 100));
    let src = solid(400, 400, PixelFormat::Unsupported, [0, 0, 0, 0]);
    assert!(rescale_for_preview(&src).is_none());
    assert_eq!(cache.len(), 1);
    assert_eq!(cache.lookup_or_reserve(2), CacheOutcome::Miss);
    assert_eq!(cache.lookup_or_reserve(1), CacheOutcome::Hit(100));
}

#[test]
fn malformed_pixels_yield_none() {
    let mut src = solid(10, 10, PixelFormat::Rgba8Unorm, [0, 0, 0, 0]);
    src.data.pop();
    assert!(rescale_for_preview(&src).is_none());
    let empty = PixelImage { width: 0, height: 10, format: PixelFormat::Rgba8Unorm, data: Vec::new() };
    assert!(rescale_for_preview(&empty).is_none());
}

#[test]
fn collapsing_threshold() {
    assert!(!needs_collapsing(127, 127));
    assert!(needs_collapsing(128, 1));
    assert!(needs_collapsing(1, 128));
    assert!(!needs_collapsing(100, 50));
}
