use std::io::Cursor;

use thumbcache::crc::crc32_bytes;
use thumbcache::numeric::decimal_bytes;
use thumbcache::numeric::hex_lower_bytes;
use thumbcache::png_text::embed_thumb_fields;
use thumbcache::png_text::png_text_value;
use thumbcache::png_text::software_keyword;
use thumbcache::png_text::thumb_mtime_keyword;
use thumbcache::png_text::thumb_uri_keyword;
use thumbcache::staleness::must_recreate;

fn tiny_png(w: u32, h: u32) -> Vec<u8> {
    let img = image::RgbImage::from_fn(w, h, |x, y| image::Rgb([x as u8, y as u8, 7]));
    let mut cur = Cursor::new(Vec::new());
    image::DynamicImage::ImageRgb8(img)
        .write_to(&mut cur, image::ImageFormat::Png)
        .unwrap();
    cur.into_inner()
}

#[test]
fn crc32_matches_the_check_value() {
    assert_eq!(crc32_bytes(b"123456789"), 0xCBF4_3926);
    assert_eq!(crc32_bytes(b""), 0);
}

#[test]
fn decimal_and_hex_render_exactly() {
    assert_eq!(decimal_bytes(0), b"0".to_vec());
    assert_eq!(decimal_bytes(1700000000), b"1700000000".to_vec());
    assert_eq!(
        decimal_bytes(u64::MAX),
        b"18446744073709551615".to_vec()
    );
    assert_eq!(hex_lower_bytes(&vec![0x00, 0xFF, 0x1a]), b"00ff1a".to_vec());
}

#[test]
fn embedded_fields_read_back() {
    let png = tiny_png(5, 3);
    let uri = b"file:///tmp/a.png".to_vec();
    let mtime = decimal_bytes(1700000000);
    let sw = b"myapp".to_vec();
    let out = embed_thumb_fields(&png, &uri, &mtime, Some(&sw)).unwrap();
    assert_eq!(png_text_value(&out, &thumb_uri_keyword()), Some(uri.clone()));
    assert_eq!(
        png_text_value(&out, &thumb_mtime_keyword()),
        Some(mtime.clone())
    );
    assert_eq!(png_text_value(&out, &software_keyword()), Some(sw));
    assert_eq!(png_text_value(&out, &b"NoSuchKey".to_vec()), None);
}

#[test]
fn embedded_stream_still_decodes() {
    let png = tiny_png(6, 4);
    let uri = b"file:///tmp/a.png".to_vec();
    let mtime = decimal_bytes(42);
    let out = embed_thumb_fields(&png, &uri, &mtime, None).unwrap();
    assert!(out.len() > png.len());
    let back = image::load_from_memory(&out).unwrap();
    assert_eq!((back.width(), back.height()), (6, 4));
}

#[test]
fn embed_without_software_leaves_no_tag() {
    let png = tiny_png(2, 2);
    let out = embed_thumb_fields(&png, &b"u".to_vec(), &b"1".to_vec(), None).unwrap();
    assert_eq!(png_text_value(&out, &software_keyword()), None);
}

#[test]
fn embed_rejects_bytes_that_are_no_png() {
    let garbage = b"not a png at all".to_vec();
    assert!(embed_thumb_fields(&garbage, &b"u".to_vec(), &b"1".to_vec(), None).is_none());
    assert!(embed_thumb_fields(&Vec::new(), &b"u".to_vec(), &b"1".to_vec(), None).is_none());
}

#[test]
fn text_value_of_a_broken_stream_is_none() {
    assert_eq!(
        png_text_value(&b"short".to_vec(), &thumb_mtime_keyword()),
        None
    );
    // A signature with nothing after it holds no fields.
    let sig = vec![137u8, 80, 78, 71, 13, 10, 26, 10];
    assert_eq!(png_text_value(&sig, &thumb_mtime_keyword()), None);
}

#[test]
fn must_recreate_decides_freshness() {
    let png = tiny_png(4, 4);
    let uri = b"file:///tmp/a.png".to_vec();
    let now = decimal_bytes(1700000000);
    let entry = embed_thumb_fields(&png, &uri, &now, None).unwrap();
    // No entry: always regenerate.
    assert!(must_recreate(None, &now));
    // Fresh entry: serve it.
    assert!(!must_recreate(Some(&entry), &now));
    // Changed modification time: regenerate.
    assert!(must_recreate(Some(&entry), &decimal_bytes(1700000001)));
    // Unreadable entry: regenerate.
    assert!(must_recreate(Some(&b"garbage".to_vec()), &now));
}
