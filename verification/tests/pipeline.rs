use std::io::Cursor;

use thumbcache::address::cache_plan;
use thumbcache::address::CacheEnv;
use thumbcache::numeric::decimal_bytes;
use thumbcache::pipeline::image_thumbnail;
use thumbcache::png_text::png_text_value;
use thumbcache::png_text::software_keyword;
use thumbcache::png_text::thumb_mtime_keyword;
use thumbcache::png_text::thumb_uri_keyword;
use thumbcache::ThumbError;

fn encode_png(w: u32, h: u32) -> Vec<u8> {
    let img = image::RgbImage::from_fn(w, h, |x, y| {
        image::Rgb([(x % 251) as u8, (y % 241) as u8, 55])
    });
    let mut cur = Cursor::new(Vec::new());
    image::DynamicImage::ImageRgb8(img)
        .write_to(&mut cur, image::ImageFormat::Png)
        .unwrap();
    cur.into_inner()
}

fn plan_uri() -> Vec<u8> {
    let env = CacheEnv {
        xdg_cache_home: Some(b"/c".to_vec()),
        home: None,
    };
    cache_plan("/tmp/a.png", &env).unwrap().uri
}

#[test]
fn first_image_request_fills_both_tiers() {
    let source = encode_png(100, 200);
    let uri = plan_uri();
    let software = b"myapp".to_vec();
    let (normal, large) =
        image_thumbnail(&source, true, 1700000000, &uri, Some(&software), None, None).unwrap();
    assert!(!normal.is_empty());
    assert!(!large.is_empty());

    let large_img = image::load_from_memory(&large).unwrap();
    assert!(large_img.width().max(large_img.height()) <= 256);
    assert_eq!((large_img.width(), large_img.height()), (128, 256));
    assert_eq!(
        png_text_value(&large, &thumb_uri_keyword()),
        Some(b"file:///tmp/a.png".to_vec())
    );
    assert_eq!(
        png_text_value(&large, &software_keyword()),
        Some(b"myapp".to_vec())
    );
    assert_eq!(
        png_text_value(&large, &thumb_mtime_keyword()),
        Some(decimal_bytes(1700000000))
    );

    // The normal tier derives from the large tier at exactly half scale.
    let normal_img = image::load_from_memory(&normal).unwrap();
    assert_eq!((normal_img.width(), normal_img.height()), (64, 128));
    assert_eq!(
        png_text_value(&normal, &thumb_uri_keyword()),
        Some(b"file:///tmp/a.png".to_vec())
    );
}

#[test]
fn unchanged_source_returns_empty_buffers() {
    let source = encode_png(100, 200);
    let uri = plan_uri();
    let software = b"myapp".to_vec();
    let (normal, large) =
        image_thumbnail(&source, true, 1700000000, &uri, Some(&software), None, None).unwrap();
    let (normal2, large2) = image_thumbnail(
        &source,
        true,
        1700000000,
        &uri,
        Some(&software),
        Some(&normal),
        Some(&large),
    )
    .unwrap();
    assert!(normal2.is_empty());
    assert!(large2.is_empty());
}

#[test]
fn changed_mtime_regenerates_both_tiers() {
    let source = encode_png(100, 200);
    let uri = plan_uri();
    let (normal, large) =
        image_thumbnail(&source, true, 1700000000, &uri, None, None, None).unwrap();
    let (normal2, large2) = image_thumbnail(
        &source,
        true,
        1700000001,
        &uri,
        None,
        Some(&normal),
        Some(&large),
    )
    .unwrap();
    assert!(!normal2.is_empty());
    assert!(!large2.is_empty());
    assert_eq!(
        png_text_value(&large2, &thumb_mtime_keyword()),
        Some(decimal_bytes(1700000001))
    );
    assert_eq!(
        png_text_value(&normal2, &thumb_mtime_keyword()),
        Some(decimal_bytes(1700000001))
    );
}

#[test]
fn one_stale_tier_regenerates_alone() {
    let source = encode_png(64, 64);
    let uri = plan_uri();
    let (normal, large) =
        image_thumbnail(&source, true, 7, &uri, None, None, None).unwrap();
    // Only the normal entry is missing: the large tier stays untouched.
    let (normal2, large2) =
        image_thumbnail(&source, true, 7, &uri, None, None, Some(&large)).unwrap();
    assert!(!normal2.is_empty());
    assert!(large2.is_empty());
    // Regenerated directly from the source at the normal tier's edge.
    let normal_img = image::load_from_memory(&normal2).unwrap();
    assert_eq!((normal_img.width(), normal_img.height()), (128, 128));
    let _ = normal;
}

#[test]
fn unreadable_source_is_refused() {
    let source = encode_png(8, 8);
    let uri = plan_uri();
    let r = image_thumbnail(&source, false, 7, &uri, None, None, None);
    assert!(matches!(r, Err(ThumbError::SourceNotReadable)));
}

#[test]
fn corrupt_source_fails_decoding() {
    let garbage = b"definitely not an image".to_vec();
    let uri = plan_uri();
    let r = image_thumbnail(&garbage, true, 7, &uri, None, None, None);
    assert!(matches!(r, Err(ThumbError::DecodeFailed)));
}

#[test]
fn upscaling_reaches_the_tier_edges() {
    // A small source is scaled up so its longest edge meets the tier size.
    let source = encode_png(10, 20);
    let uri = plan_uri();
    let (_, large) = image_thumbnail(&source, true, 7, &uri, None, None, None).unwrap();
    let large_img = image::load_from_memory(&large).unwrap();
    assert_eq!((large_img.width(), large_img.height()), (128, 256));
}
