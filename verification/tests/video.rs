use thumbcache::pipeline::video_thumbnail;
use thumbcache::pixmap::orient_pixmap;
use thumbcache::pixmap::Pixmap;
use thumbcache::png_text::png_text_value;
use thumbcache::png_text::thumb_mtime_keyword;
use thumbcache::numeric::decimal_bytes;
use thumbcache::video::pack_frame;
use thumbcache::video::parse_display_matrix;
use thumbcache::video::parse_rotate_tag;
use thumbcache::video::transient_decode_errno;
use thumbcache::video::video_rotation;
use thumbcache::video::VideoFrame;
use thumbcache::ThumbError;

fn matrix(m0: i32, m1: i32, m3: i32, m4: i32) -> Vec<u8> {
    let mut entries = [0i32; 9];
    entries[0] = m0;
    entries[1] = m1;
    entries[3] = m3;
    entries[4] = m4;
    entries[8] = 1 << 30;
    let mut out = Vec::new();
    for e in entries {
        out.extend_from_slice(&e.to_le_bytes());
    }
    out
}

fn frame(w: u32, h: u32, pad: usize) -> VideoFrame {
    let stride = (w as usize) * 3 + pad;
    let mut data = vec![0u8; stride * (h as usize)];
    for y in 0..h as usize {
        for x in 0..w as usize {
            data[y * stride + 3 * x] = (x * 7 % 256) as u8;
            data[y * stride + 3 * x + 1] = (y * 11 % 256) as u8;
            data[y * stride + 3 * x + 2] = 99;
        }
    }
    VideoFrame {
        width: w,
        height: h,
        stride,
        data,
    }
}

#[test]
fn display_matrix_rotations() {
    assert_eq!(parse_display_matrix(&matrix(0, 65536, -65536, 0)), 90);
    assert_eq!(parse_display_matrix(&matrix(0, -65536, 65536, 0)), 270);
    assert_eq!(parse_display_matrix(&matrix(-65536, 0, 0, -65536)), 180);
    assert_eq!(parse_display_matrix(&matrix(65536, 0, 0, 65536)), 0);
    assert_eq!(parse_display_matrix(&matrix(1, 2, 3, 4)), -1);
}

#[test]
fn rotate_tag_parsing() {
    assert_eq!(parse_rotate_tag(&b"90".to_vec()), 90);
    assert_eq!(parse_rotate_tag(&b"270".to_vec()), 270);
    assert_eq!(parse_rotate_tag(&b"0".to_vec()), 0);
    assert_eq!(parse_rotate_tag(&b"".to_vec()), 0);
    assert_eq!(parse_rotate_tag(&b"nine".to_vec()), 0);
    assert_eq!(parse_rotate_tag(&b"99999999999999999999".to_vec()), 0);
}

#[test]
fn rotation_prefers_the_display_matrix() {
    let m = matrix(0, 65536, -65536, 0);
    assert_eq!(video_rotation(Some(&m), Some(&b"180".to_vec())), 90);
    assert_eq!(video_rotation(None, Some(&b"180".to_vec())), 180);
    assert_eq!(video_rotation(None, None), 0);
}

#[test]
fn transient_decode_condition() {
    assert!(transient_decode_errno(11));
    assert!(!transient_decode_errno(0));
    assert!(!transient_decode_errno(-11));
}

#[test]
fn packing_strips_the_stride_padding() {
    let f = frame(2, 2, 5);
    let p = pack_frame(&f);
    assert_eq!((p.width, p.height), (2, 2));
    assert_eq!(
        p.data,
        vec![0, 0, 99, 7, 0, 99, 0, 11, 99, 7, 11, 99]
    );
}

#[test]
fn ninety_degree_rotation_swaps_thumbnail_dimensions() {
    let f = frame(64, 32, 16);
    let uri = b"file:///tmp/v.mp4".to_vec();
    let upright =
        video_thumbnail(Some(&f), 0, true, 7, &uri, None, None, None).unwrap();
    let turned =
        video_thumbnail(Some(&f), 90, true, 7, &uri, None, None, None).unwrap();
    let up_large = image::load_from_memory(&upright.1).unwrap();
    let turn_large = image::load_from_memory(&turned.1).unwrap();
    assert_eq!((up_large.width(), up_large.height()), (256, 128));
    assert_eq!((turn_large.width(), turn_large.height()), (128, 256));
    assert_eq!(
        (up_large.width(), up_large.height()),
        (turn_large.height(), turn_large.width())
    );
}

#[test]
fn unknown_orientation_is_no_correction() {
    let f = frame(64, 32, 0);
    let uri = b"file:///tmp/v.mp4".to_vec();
    let upright = video_thumbnail(Some(&f), 0, true, 7, &uri, None, None, None).unwrap();
    let sentinel = video_thumbnail(Some(&f), -1, true, 7, &uri, None, None, None).unwrap();
    let a = image::load_from_memory(&upright.1).unwrap();
    let b = image::load_from_memory(&sentinel.1).unwrap();
    assert_eq!((a.width(), a.height()), (b.width(), b.height()));
}

#[test]
fn orientation_moves_the_pixels() {
    let p = Pixmap {
        width: 2,
        height: 1,
        data: vec![1, 2, 3, 4, 5, 6],
    };
    let r = orient_pixmap(p, 180);
    assert_eq!((r.width, r.height), (2, 1));
    assert_eq!(r.data, vec![4, 5, 6, 1, 2, 3]);
    let p2 = Pixmap {
        width: 2,
        height: 1,
        data: vec![1, 2, 3, 4, 5, 6],
    };
    let r90 = orient_pixmap(p2, 90);
    assert_eq!((r90.width, r90.height), (1, 2));
    assert_eq!(r90.data, vec![1, 2, 3, 4, 5, 6]);
    let p3 = Pixmap {
        width: 2,
        height: 1,
        data: vec![1, 2, 3, 4, 5, 6],
    };
    let r270 = orient_pixmap(p3, 270);
    assert_eq!((r270.width, r270.height), (1, 2));
    assert_eq!(r270.data, vec![4, 5, 6, 1, 2, 3]);
}

#[test]
fn zero_dimension_frame_fails_decoding() {
    let f = VideoFrame {
        width: 0,
        height: 5,
        stride: 0,
        data: Vec::new(),
    };
    let uri = b"file:///tmp/v.mp4".to_vec();
    let r = video_thumbnail(Some(&f), 0, true, 7, &uri, None, None, None);
    assert!(matches!(r, Err(ThumbError::DecodeFailed)));
}

#[test]
fn zero_frames_yield_an_empty_result() {
    let uri = b"file:///tmp/v.mp4".to_vec();
    let (normal, large) = video_thumbnail(None, 0, true, 7, &uri, None, None, None).unwrap();
    assert!(normal.is_empty());
    assert!(large.is_empty());
}

#[test]
fn video_metadata_matches_the_source() {
    let f = frame(32, 32, 0);
    let uri = b"file:///tmp/v.mp4".to_vec();
    let (normal, large) =
        video_thumbnail(Some(&f), 0, true, 1700000000, &uri, None, None, None).unwrap();
    assert_eq!(
        png_text_value(&large, &thumb_mtime_keyword()),
        Some(decimal_bytes(1700000000))
    );
    // A second request with the results cached regenerates nothing.
    let (n2, l2) = video_thumbnail(
        Some(&f),
        0,
        true,
        1700000000,
        &uri,
        None,
        Some(&normal),
        Some(&large),
    )
    .unwrap();
    assert!(n2.is_empty());
    assert!(l2.is_empty());
}

#[test]
fn unreadable_video_is_refused() {
    let uri = b"file:///tmp/v.mp4".to_vec();
    let r = video_thumbnail(None, 0, false, 7, &uri, None, None, None);
    assert!(matches!(r, Err(ThumbError::SourceNotReadable)));
}
